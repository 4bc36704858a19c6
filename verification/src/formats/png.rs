//! The PNG/APNG decoder: one or more frames. An RGB raster without a
//! native alpha channel is combined with the stream's optional
//! transparency key; an APNG frame's delay is its declared fraction of a
//! second in nanoseconds. Frames smaller than the full canvas are emitted
//! at their own declared size, as the stream hands them over; color types
//! other than eight-bit RGB and RGBA are left undecoded rather than
//! guessed at.

use vstd::prelude::*;
use crate::chan::send_frame;
use crate::frame::Frame;
use crate::pixel::{pixels_from_rgb_keyed, pixels_from_rgba, rgb_keyed_at, rgba_at};
use crate::producer::DecodeStatus;
use crate::timing::{png_delay_ns, png_den};

verus! {

/// The PNG color-type code for truecolor (RGB without alpha).
pub const PNG_COLOR_RGB: u8 = 2;

/// The PNG color-type code for truecolor with alpha (RGBA).
pub const PNG_COLOR_RGBA: u8 = 6;

/// The PNG bit depth this decoder converts: eight bits per sample.
pub const PNG_DEPTH_EIGHT: u8 = 8;

/// The animation control of one APNG frame: its sub-rectangle and its
/// delay fraction.
#[derive(Clone, Copy, PartialEq, Eq, Structural, Debug)]
pub struct PngFrameInfo {
    pub width: u32,
    pub height: u32,
    pub x_offset: u32,
    pub y_offset: u32,
    pub delay_num: u16,
    pub delay_den: u16,
}

/// One decoded PNG frame before conversion: the raw raster bytes with the
/// stream's declared color-type code and bit depth (the codes the PNG
/// format itself defines).
pub struct PngRaw {
    pub width: u32,
    pub height: u32,
    pub color_code: u8,
    pub depth_bits: u8,
    pub data: Vec<u8>,
}

impl PngRaw {
    /// At eight-bit depth the raster fills its declared size exactly:
    /// three bytes per pixel for RGB, four for RGBA.
    pub open spec fn wf(self) -> bool {
        &&& (self.color_code == PNG_COLOR_RGB && self.depth_bits == PNG_DEPTH_EIGHT
            ==> self.data@.len() == 3 * (self.width as int) * (self.height as int))
        &&& (self.color_code == PNG_COLOR_RGBA && self.depth_bits == PNG_DEPTH_EIGHT
            ==> self.data@.len() == 4 * (self.width as int) * (self.height as int))
    }
}

/// Carries one PNG stream's frame reader between pulls. Declaring the
/// outside reader type itself is refused by the verifier (its reader
/// parameter is bounded by traits the verifier does not know), so the
/// session is held opaquely and only the wrapped calls below touch it.
#[verifier::external_body]
struct PngSession<'a> {
    reader: png::Reader<std::io::Cursor<&'a [u8]>>,
}

/// Relies on `png::Decoder::new` and `png::Decoder::read_info`: parses
/// the stream header with the default (identity) transformations and
/// yields the frame reader together with a copy of the stream's raw
/// transparency chunk, if it declares one; a corrupt header yields
/// `None`.
#[verifier::external_body]
fn png_open<'a>(bytes: &'a Vec<u8>) -> (r: Option<(PngSession<'a>, Option<Vec<u8>>)>) {
    match png::Decoder::new(std::io::Cursor::new(bytes.as_slice())).read_info() {
        Ok(reader) => {
            let trns = reader.info().trns.as_ref().map(|t| t.to_vec());
            Some((PngSession { reader }, trns))
        },
        Err(_) => None,
    }
}

/// Relies on `png::Reader::{output_buffer_size, next_frame}` and
/// `png::OutputInfo::buffer_size`: reads the next (sub)frame into a
/// full-size buffer and hands back exactly that frame's bytes with its
/// declared size, color-type code and bit depth. At eight-bit depth the
/// byte count is three per pixel for truecolor and four with alpha.
/// `None` means the stream ended or broke off.
#[verifier::external_body]
fn png_next(session: &mut PngSession<'_>) -> (r: Option<PngRaw>)
    ensures
        r matches Some(p) ==> p.wf(),
{
    let size = match session.reader.output_buffer_size() {
        Some(s) => s,
        None => return None,
    };
    let mut buf = vec![0u8; size];
    match session.reader.next_frame(&mut buf) {
        Ok(info) => Some(PngRaw {
            width: info.width,
            height: info.height,
            color_code: info.color_type as u8,
            depth_bits: info.bit_depth as u8,
            data: buf[..info.buffer_size()].to_vec(),
        }),
        Err(_) => None,
    }
}

/// Relies on `png::Reader::info` and `png::Info::frame_control`: the
/// animation control of the frame last read, when the stream is animated;
/// a plain still PNG has none.
#[verifier::external_body]
fn png_frame_control(session: &PngSession<'_>) -> (r: Option<PngFrameInfo>) {
    session.reader.info().frame_control.map(|c| PngFrameInfo {
        width: c.width,
        height: c.height,
        x_offset: c.x_offset,
        y_offset: c.y_offset,
        delay_num: c.delay_num,
        delay_den: c.delay_den,
    })
}

/// The transparency key a raw transparency chunk declares for an
/// eight-bit RGB raster: the chunk carries three big-endian sixteen-bit
/// samples, whose low bytes are the key; a three-byte chunk is taken as
/// the key itself. Anything else declares no usable key.
pub open spec fn spec_trns_key(t: Seq<u8>) -> Option<(u8, u8, u8)> {
    if t.len() >= 6 {
        Some((t[1], t[3], t[5]))
    } else if t.len() == 3 {
        Some((t[0], t[1], t[2]))
    } else {
        None
    }
}

/// Extracts the transparency key from the stream's raw transparency
/// chunk, if any.
pub fn trns_key(trns: &Option<Vec<u8>>) -> (r: Option<(u8, u8, u8)>)
    ensures
        r == match *trns {
            Option::Some(t) => spec_trns_key(t@),
            Option::None => Option::None::<(u8, u8, u8)>,
        },
{
    match trns {
        None => None,
        Some(t) => {
            if t.len() >= 6 {
                Some((t[1], t[3], t[5]))
            } else if t.len() == 3 {
                Some((t[0], t[1], t[2]))
            } else {
                None
            }
        },
    }
}

/// The delay of a PNG frame: an APNG frame's declared fraction of a
/// second in floor-rounded nanoseconds, zero for a plain still PNG.
pub open spec fn spec_png_frame_delay(frame: Option<PngFrameInfo>) -> int {
    match frame {
        Some(fc) => 1_000_000_000 * (fc.delay_num as int) / png_den(fc.delay_den),
        None => 0,
    }
}

/// Converts one raw PNG frame: an eight-bit RGB raster is combined with
/// the transparency key (a matching pixel becomes fully clear, any other
/// fully opaque), an eight-bit RGBA raster is taken as is, and any other
/// color type or depth yields no frame rather than a guessed one. The
/// delay comes from the frame's animation control, zero without one.
pub fn frame_from_png(raw: PngRaw, frame_info: Option<PngFrameInfo>, key: Option<(u8, u8, u8)>) -> (r:
    Option<Frame>)
    requires
        raw.wf(),
    ensures
        raw.color_code == PNG_COLOR_RGB && raw.depth_bits == PNG_DEPTH_EIGHT ==> (r matches Some(f)
            && {
            &&& f.wf()
            &&& f.width == raw.width as int
            &&& f.height == raw.height as int
            &&& f.pixels@.len() == (raw.width as int) * (raw.height as int)
            &&& forall|i: int|
                0 <= i < f.pixels@.len() ==> f.pixels@[i] == rgb_keyed_at(raw.data@, key, i)
            &&& f.delay_ns as int == spec_png_frame_delay(frame_info)
        }),
        raw.color_code == PNG_COLOR_RGBA && raw.depth_bits == PNG_DEPTH_EIGHT ==> (r matches Some(
        f) && {
            &&& f.wf()
            &&& f.width == raw.width as int
            &&& f.height == raw.height as int
            &&& f.pixels@.len() == (raw.width as int) * (raw.height as int)
            &&& forall|i: int| 0 <= i < f.pixels@.len() ==> f.pixels@[i] == rgba_at(raw.data@, i)
            &&& f.delay_ns as int == spec_png_frame_delay(frame_info)
        }),
        !(raw.depth_bits == PNG_DEPTH_EIGHT && (raw.color_code == PNG_COLOR_RGB || raw.color_code
            == PNG_COLOR_RGBA)) ==> r is None,
{
    if !(raw.depth_bits == PNG_DEPTH_EIGHT && (raw.color_code == PNG_COLOR_RGB || raw.color_code
        == PNG_COLOR_RGBA)) {
        return None;
    }
    proof {
        assert(3 * (raw.width as int) * (raw.height as int) == ((raw.width as int) * (
        raw.height as int)) * 3) by (nonlinear_arith);
        assert(4 * (raw.width as int) * (raw.height as int) == ((raw.width as int) * (
        raw.height as int)) * 4) by (nonlinear_arith);
        vstd::arithmetic::div_mod::lemma_div_by_multiple(
            (raw.width as int) * (raw.height as int),
            3,
        );
        vstd::arithmetic::div_mod::lemma_div_by_multiple(
            (raw.width as int) * (raw.height as int),
            4,
        );
        assert((raw.width as int) * (raw.height as int) >= 0) by (nonlinear_arith)
            requires
                0 <= raw.width as int,
                0 <= raw.height as int,
        ;
    }
    let delay: i64 = match &frame_info {
        Some(fc) => png_delay_ns(fc.delay_num, fc.delay_den),
        None => 0,
    };
    if raw.color_code == PNG_COLOR_RGB {
        let pixels = pixels_from_rgb_keyed(raw.data.as_slice(), key);
        Some(
            Frame {
                width: raw.width as usize,
                height: raw.height as usize,
                pixels,
                delay_ns: delay,
            },
        )
    } else {
        let pixels = pixels_from_rgba(raw.data.as_slice());
        Some(
            Frame {
                width: raw.width as usize,
                height: raw.height as usize,
                pixels,
                delay_ns: delay,
            },
        )
    }
}

/// Decodes a whole PNG or APNG stream: each frame is converted and sent
/// on, in display order, until the stream ends, breaks off, or the
/// consumer goes away. A frame in an unhandled color type ends the run
/// without guessing at its pixels. The ghost sequence holds the frames
/// that were sent: each is well formed, its raster filling its declared
/// size with a nonnegative delay.
pub fn run(bytes: &Vec<u8>, tx: &std::sync::mpsc::Sender<Frame>) -> (r: (
    DecodeStatus,
    Ghost<Seq<Frame>>,
))
    ensures
        forall|i: int| 0 <= i < r.1@.len() ==> (#[trigger] r.1@[i]).wf(),
{
    let ghost mut sent: Seq<Frame> = Seq::empty();
    let opened = png_open(bytes);
    match opened {
        None => (DecodeStatus::HeaderFailed, Ghost(sent)),
        Some((mut session, trns)) => {
            let key = trns_key(&trns);
            let mut n: usize = 0;
            loop
                invariant
                    forall|i: int| 0 <= i < sent.len() ==> (#[trigger] sent[i]).wf(),
                decreases usize::MAX - n,
            {
                if n == usize::MAX {
                    return (DecodeStatus::MidStream, Ghost(sent));
                }
                match png_next(&mut session) {
                    None => {
                        return (DecodeStatus::Completed, Ghost(sent));
                    },
                    Some(raw) => {
                        let frame_info = png_frame_control(&session);
                        match frame_from_png(raw, frame_info, key) {
                            None => {
                                return (DecodeStatus::Unsupported, Ghost(sent));
                            },
                            Some(frame) => {
                                proof {
                                    sent = sent.push(frame);
                                }
                                if !send_frame(tx, frame) {
                                    return (DecodeStatus::Disconnected, Ghost(sent));
                                }
                            },
                        }
                    },
                }
                n = n + 1;
            }
        },
    }
}

} // verus!
