//! Trusted face of the hand-off queue: a single-producer/single-consumer
//! channel that moves ownership of decoded frames from the decode task to the
//! playback engine.

use vstd::prelude::*;
use crate::frame::Frame;

verus! {

#[verifier::external_type_specification]
#[verifier::external_body]
#[verifier::reject_recursive_types(T)]
pub struct ExReceiver<T>(std::sync::mpsc::Receiver<T>);

#[verifier::external_type_specification]
#[verifier::external_body]
#[verifier::reject_recursive_types(T)]
pub struct ExSender<T>(std::sync::mpsc::Sender<T>);

/// Relies on `std::sync::mpsc::Receiver::recv`: blocks until the producer
/// sends a frame (`Some`) or until the channel is closed with no frame left
/// (`None`). Which of the two comes back, and what the frame holds, depends
/// on the producer alone, so nothing is promised of the result.
#[verifier::external_body]
pub(crate) fn recv_frame(rx: &std::sync::mpsc::Receiver<Frame>) -> (r: Option<Frame>) {
    match rx.recv() {
        Ok(frame) => Some(frame),
        Err(_) => None,
    }
}

/// Relies on `std::sync::mpsc::Sender::send`: hands the frame to the consumer
/// and reports whether the consumer end was still connected. A `false` result
/// is the expected way a producer learns that its view was closed.
#[verifier::external_body]
pub(crate) fn send_frame(tx: &std::sync::mpsc::Sender<Frame>, frame: Frame) -> (r: bool) {
    tx.send(frame).is_ok()
}

} // verus!
