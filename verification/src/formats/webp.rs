//! The animated-WebP decoder: the library underneath always hands back
//! full-canvas frames, each stamped with the time at which it ends. The
//! delay of a frame is the gap to the previous timestamp, and the channel
//! order is normalized to RGBA whatever the source reports.

use vstd::prelude::*;
use crate::chan::send_frame;
use crate::frame::Frame;
use crate::pixel::{bgra_at, pixels_from_bgra, pixels_from_rgba, rgba_at};
use crate::producer::DecodeStatus;
use crate::timing::webp_delay_ns;
use webp_animation::ColorMode;

verus! {

/// The channel order a decoded WebP frame reports.
#[derive(Clone, Copy, PartialEq, Eq, Structural, Debug)]
pub enum WebpOrder {
    /// Red, green, blue, alpha: already the canonical order.
    Rgba,
    /// Blue, green, red, alpha: red and blue need swapping.
    Bgra,
    /// Red, green, blue without alpha.
    Rgb,
    /// Blue, green, red without alpha.
    Bgr,
}

/// One decoded WebP frame before normalization: the raw canvas-sized byte
/// buffer, its channel order, and the frame's end timestamp in
/// milliseconds.
pub struct WebpRaw {
    pub timestamp_ms: i32,
    pub width: u32,
    pub height: u32,
    pub order: WebpOrder,
    pub data: Vec<u8>,
}

impl WebpRaw {
    /// With a four-byte channel order, the buffer fills the canvas
    /// exactly.
    pub open spec fn wf(self) -> bool {
        (self.order == WebpOrder::Rgba || self.order == WebpOrder::Bgra) ==> self.data@.len() == 4
            * (self.width as int) * (self.height as int)
    }
}

#[verifier::external_type_specification]
#[verifier::external_body]
pub struct ExWebpDecoderIterator<'a>(webp_animation::DecoderIterator<'a>);

/// Relies on `webp_animation::Decoder::new` (which selects RGBA output by
/// default), `Decoder::dimensions` and its `IntoIterator` impl: parses the
/// stream header and yields the frame iterator together with the canvas
/// width and height; a malformed buffer yields `None`.
#[verifier::external_body]
fn webp_open<'a>(bytes: &'a Vec<u8>) -> (r: Option<
    (webp_animation::DecoderIterator<'a>, u32, u32),
>) {
    match webp_animation::Decoder::new(bytes.as_slice()) {
        Ok(decoder) => {
            let (w, h) = decoder.dimensions();
            Some((decoder.into_iter(), w, h))
        },
        Err(_) => None,
    }
}

/// Relies on `webp_animation::DecoderIterator::next` and
/// `webp_animation::Frame::{timestamp, dimensions, color_mode, data}`: a
/// yielded frame's buffer holds exactly `width * height` pixels, four
/// bytes each in the reported channel order when that order carries
/// alpha; `None` means the stream ended or broke off.
#[verifier::external_body]
fn webp_next<'a>(it: &mut webp_animation::DecoderIterator<'a>) -> (r: Option<WebpRaw>)
    ensures
        r matches Some(f) ==> f.wf(),
{
    match it.next() {
        Some(frame) => {
            let (w, h) = frame.dimensions();
            let order = match frame.color_mode() {
                ColorMode::Rgba => WebpOrder::Rgba,
                ColorMode::Bgra => WebpOrder::Bgra,
                ColorMode::Rgb => WebpOrder::Rgb,
                ColorMode::Bgr => WebpOrder::Bgr,
            };
            Some(WebpRaw { timestamp_ms: frame.timestamp(), width: w, height: h, order, data: frame.data().to_vec() })
        },
        None => None,
    }
}

/// Normalizes one raw WebP frame: whichever of the two alpha-carrying
/// channel orders the source used, the emitted pixels are RGBA, and the
/// delay is the timestamp gap in nanoseconds (a regressing timestamp
/// counts as no time). An alpha-less order is not handled: rather than
/// guess, no frame is made.
pub fn frame_from_webp(raw: WebpRaw, prev_timestamp_ms: i32) -> (r: Option<Frame>)
    requires
        raw.wf(),
    ensures
        raw.order == WebpOrder::Rgba || raw.order == WebpOrder::Bgra ==> (r matches Some(f) && {
            &&& f.wf()
            &&& f.width == raw.width as int
            &&& f.height == raw.height as int
            &&& f.pixels@.len() == (raw.width as int) * (raw.height as int)
            &&& (raw.order == WebpOrder::Rgba ==> forall|i: int|
                0 <= i < f.pixels@.len() ==> f.pixels@[i] == rgba_at(raw.data@, i))
            &&& (raw.order == WebpOrder::Bgra ==> forall|i: int|
                0 <= i < f.pixels@.len() ==> f.pixels@[i] == bgra_at(raw.data@, i))
            &&& (raw.timestamp_ms >= prev_timestamp_ms ==> f.delay_ns as int == (raw.timestamp_ms
                - prev_timestamp_ms) * 1_000_000)
            &&& (raw.timestamp_ms < prev_timestamp_ms ==> f.delay_ns == 0)
        }),
        raw.order == WebpOrder::Rgb || raw.order == WebpOrder::Bgr ==> r is None,
{
    proof {
        assert(4 * (raw.width as int) * (raw.height as int) == ((raw.width as int) * (
        raw.height as int)) * 4) by (nonlinear_arith);
        vstd::arithmetic::div_mod::lemma_div_by_multiple(
            (raw.width as int) * (raw.height as int),
            4,
        );
        assert((raw.width as int) * (raw.height as int) >= 0) by (nonlinear_arith)
            requires
                0 <= raw.width as int,
                0 <= raw.height as int,
        ;
        assert((raw.width as int) * (raw.height as int) <= 4_294_967_295int * 4_294_967_295int)
            by (nonlinear_arith)
            requires
                0 <= raw.width as int <= 4_294_967_295int,
                0 <= raw.height as int <= 4_294_967_295int,
        ;
    }
    let delay = webp_delay_ns(raw.timestamp_ms, prev_timestamp_ms);
    match raw.order {
        WebpOrder::Rgba => {
            let pixels = pixels_from_rgba(raw.data.as_slice());
            Some(
                Frame {
                    width: raw.width as usize,
                    height: raw.height as usize,
                    pixels,
                    delay_ns: delay,
                },
            )
        },
        WebpOrder::Bgra => {
            let pixels = pixels_from_bgra(raw.data.as_slice());
            Some(
                Frame {
                    width: raw.width as usize,
                    height: raw.height as usize,
                    pixels,
                    delay_ns: delay,
                },
            )
        },
        _ => None,
    }
}

/// Decodes a whole WebP stream: each frame is normalized to RGBA and sent
/// on with its timestamp-gap delay, until the stream ends or the consumer
/// goes away. The ghost sequence holds the frames that were sent: each is
/// well formed, its raster filling its declared size with a nonnegative
/// delay.
pub fn run(bytes: &Vec<u8>, tx: &std::sync::mpsc::Sender<Frame>) -> (r: (
    DecodeStatus,
    Ghost<Seq<Frame>>,
))
    ensures
        forall|i: int| 0 <= i < r.1@.len() ==> (#[trigger] r.1@[i]).wf(),
{
    let ghost mut sent: Seq<Frame> = Seq::empty();
    let opened = webp_open(bytes);
    match opened {
        None => (DecodeStatus::HeaderFailed, Ghost(sent)),
        Some((mut iter, _width, _height)) => {
            let mut prev_timestamp: i32 = 0;
            let mut n: usize = 0;
            loop
                invariant
                    forall|i: int| 0 <= i < sent.len() ==> (#[trigger] sent[i]).wf(),
                decreases usize::MAX - n,
            {
                if n == usize::MAX {
                    return (DecodeStatus::MidStream, Ghost(sent));
                }
                match webp_next(&mut iter) {
                    None => {
                        return (DecodeStatus::Completed, Ghost(sent));
                    },
                    Some(raw) => {
                        let stamp = raw.timestamp_ms;
                        match frame_from_webp(raw, prev_timestamp) {
                            None => {
                                return (DecodeStatus::Unsupported, Ghost(sent));
                            },
                            Some(frame) => {
                                proof {
                                    sent = sent.push(frame);
                                }
                                if !send_frame(tx, frame) {
                                    return (DecodeStatus::Disconnected, Ghost(sent));
                                }
                            },
                        }
                        prev_timestamp = stamp;
                    },
                }
                n = n + 1;
            }
        },
    }
}

} // verus!
