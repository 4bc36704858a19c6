//! The JPEG decoder: a still image, decoded in one piece. It yields
//! exactly one frame with a delay of zero, so playback never advances
//! past it.

use vstd::prelude::*;
use crate::chan::send_frame;
use crate::frame::Frame;
use crate::pixel::{pixels_from_rgb_keyed, rgb_keyed_at};
use crate::producer::DecodeStatus;
use jpeg_decoder::PixelFormat;

verus! {

/// The raster layout a JPEG decode reports.
#[derive(Clone, Copy, PartialEq, Eq, Structural, Debug)]
pub enum JpegPixelKind {
    /// Eight-bit grayscale.
    Gray8,
    /// Sixteen-bit grayscale.
    Gray16,
    /// Eight-bit RGB, three bytes per pixel.
    Rgb24,
    /// Eight-bit CMYK, four bytes per pixel.
    Cmyk32,
}

/// Relies on `jpeg_decoder::Decoder::{new, decode, info}`: decodes the
/// whole image from the in-memory stream; on success the raster is in the
/// reported layout, three bytes per pixel when that layout is eight-bit
/// RGB. Any decode failure yields `None`.
#[verifier::external_body]
fn jpeg_decode(bytes: &Vec<u8>) -> (r: Option<(u16, u16, JpegPixelKind, Vec<u8>)>)
    ensures
        r matches Some(t) ==> (t.2 == JpegPixelKind::Rgb24 ==> t.3@.len() == 3 * (t.0 as int) * (
        t.1 as int)),
{
    let mut decoder = jpeg_decoder::Decoder::new(bytes.as_slice());
    match decoder.decode() {
        Ok(data) => decoder.info().map(|info| {
            let kind = match info.pixel_format {
                PixelFormat::L8 => JpegPixelKind::Gray8,
                PixelFormat::L16 => JpegPixelKind::Gray16,
                PixelFormat::RGB24 => JpegPixelKind::Rgb24,
                PixelFormat::CMYK32 => JpegPixelKind::Cmyk32,
            };
            (info.width, info.height, kind, data)
        }),
        Err(_) => None,
    }
}

/// Builds the single frame a JPEG yields: the eight-bit RGB raster is
/// expanded to fully opaque RGBA, and the frame's delay is zero.
pub fn frame_from_rgb(width: u16, height: u16, data: &[u8]) -> (f: Frame)
    requires
        data@.len() == 3 * (width as int) * (height as int),
    ensures
        f.wf(),
        f.width == width as int,
        f.height == height as int,
        f.delay_ns == 0,
        f.pixels@.len() == (width as int) * (height as int),
        forall|i: int|
            0 <= i < f.pixels@.len() ==> f.pixels@[i] == rgb_keyed_at(
                data@,
                Option::None,
                i,
            ),
{
    let pixels = pixels_from_rgb_keyed(data, None);
    proof {
        assert(3 * (width as int) * (height as int) == ((width as int) * (height as int)) * 3)
            by (nonlinear_arith);
        vstd::arithmetic::div_mod::lemma_div_by_multiple((width as int) * (height as int), 3);
        assert((width as int) * (height as int) <= 65535 * 65535) by (nonlinear_arith)
            requires
                0 <= width as int <= 65535,
                0 <= height as int <= 65535,
        ;
        assert((width as int) * (height as int) >= 0) by (nonlinear_arith)
            requires
                0 <= width as int,
                0 <= height as int,
        ;
    }
    Frame { width: width as usize, height: height as usize, pixels, delay_ns: 0 }
}

/// Decodes a JPEG stream: one frame, delay zero, or nothing at all when
/// the stream is unreadable or decodes to a layout the viewer does not
/// handle. The ghost sequence holds the frames that were sent: at most
/// one, well formed, with no delay, so playback can never advance past
/// it.
pub fn run(bytes: &Vec<u8>, tx: &std::sync::mpsc::Sender<Frame>) -> (r: (
    DecodeStatus,
    Ghost<Seq<Frame>>,
))
    ensures
        r.1@.len() <= 1,
        forall|i: int|
            0 <= i < r.1@.len() ==> (#[trigger] r.1@[i]).wf() && r.1@[i].delay_ns == 0,
{
    let ghost sent: Seq<Frame> = Seq::empty();
    match jpeg_decode(bytes) {
        None => (DecodeStatus::HeaderFailed, Ghost(sent)),
        Some((width, height, kind, data)) => {
            if kind == JpegPixelKind::Rgb24 {
                let frame = frame_from_rgb(width, height, data.as_slice());
                let ghost sent = sent.push(frame);
                if send_frame(tx, frame) {
                    (DecodeStatus::Completed, Ghost(sent))
                } else {
                    (DecodeStatus::Disconnected, Ghost(sent))
                }
            } else {
                (DecodeStatus::Unsupported, Ghost(sent))
            }
        },
    }
}

} // verus!
