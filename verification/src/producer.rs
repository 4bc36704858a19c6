//! The decode producer: runs one format's decoder over a whole file buffer
//! and pushes every decoded frame into the hand-off queue. The caller owns
//! the background execution; this module owns what happens on it.

use vstd::prelude::*;
use crate::format::ImageFormat;
use crate::frame::Frame;

verus! {

/// How a decode run ended. Every outcome is local to one image: none of
/// them is a process-level failure.
#[derive(Clone, Copy, PartialEq, Eq, Structural, Debug)]
pub enum DecodeStatus {
    /// The stream was decoded to its end and every frame was delivered.
    Completed,
    /// The header could not be read: the session never started and zero
    /// frames were delivered.
    HeaderFailed,
    /// The stream broke off mid-way: the frames already delivered stand,
    /// no more follow.
    MidStream,
    /// The consumer dropped its end of the queue; the producer stopped
    /// quietly, as expected when a view closes.
    Disconnected,
    /// The stream decoded to a raster layout the viewer does not handle;
    /// rather than guess at its meaning, no frame was delivered.
    Unsupported,
}

/// Decodes one in-memory stream of the given format, sending each frame in
/// display order into the hand-off queue. On any ending, the queue is
/// simply dropped, which the consumer observes as exhaustion. The ghost
/// sequence holds the frames that were sent, every one of them a
/// well-formed raster with a nonnegative delay — the wire contract the
/// playback engine consumes; a still JPEG sends at most one, with no
/// delay.
pub fn decode_stream(
    format: ImageFormat,
    bytes: &Vec<u8>,
    tx: &std::sync::mpsc::Sender<Frame>,
) -> (r: (DecodeStatus, Ghost<Seq<Frame>>))
    ensures
        forall|i: int| 0 <= i < r.1@.len() ==> (#[trigger] r.1@[i]).wf(),
        format == ImageFormat::Jpeg ==> r.1@.len() <= 1 && forall|i: int|
            0 <= i < r.1@.len() ==> (#[trigger] r.1@[i]).delay_ns == 0,
{
    match format {
        ImageFormat::Gif => crate::formats::gif::run(bytes, tx),
        ImageFormat::Jpeg => crate::formats::jpeg::run(bytes, tx),
        ImageFormat::Png => crate::formats::png::run(bytes, tx),
        ImageFormat::Webp => crate::formats::webp::run(bytes, tx),
    }
}

} // verus!
