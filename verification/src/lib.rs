//! Rustik: a small messaging protocol for sending data between processes.
//!
//! The library holds the wire format of the protocol (handshake, handshake
//! response, frame and frame response headers), the splitting of a message
//! into fixed-size frames, the reassembly of received frames, and what a
//! node computes for each connection.
pub mod common;
pub mod headers;
pub mod listener;
pub mod logging;
pub mod messaging;

use crate::common::{u16_from_be, RequestSettings};
use crate::messaging::{Frame, FrameResult, FrameResultType, MessageResult};
use vstd::prelude::*;

verus! {

/// Decides the outcome of one frame of a connection handled without a
/// listener: frame handling is not implemented there, so every frame fails.
pub fn handle_frame(frame: &Frame) -> (r: Result<(), &'static str>)
    ensures
        r == Err::<(), &'static str>("Not implemented"),
{
    Err("Not implemented")
}

/// The outcome of the frames of a request on a connection handled without a
/// listener, one buffer of 1024 bytes per announced frame: each frame is read
/// from its buffer and fails with the error of `handle_frame`.
pub fn handle_request(settings: &RequestSettings, frames: Vec<[u8; 1024]>) -> (r: MessageResult)
    requires
        frames.len() == settings.frame_count,
    ensures
        r.correlation_id == settings.correlation_id,
        r.frame_results.len() == frames.len(),
        forall|i: int|
            0 <= i < frames.len() ==> (#[trigger] r.frame_results@[i]).number == u16_from_be(
                frames@[i][6],
                frames@[i][7],
            ) && r.frame_results@[i].result == FrameResultType::Error("Not implemented"),
{
    let mut msg_result = MessageResult::create(settings.correlation_id, frames.len());
    let mut i: usize = 0;
    while i < frames.len()
        invariant
            i <= frames.len(),
            msg_result.correlation_id == settings.correlation_id,
            msg_result.frame_results.len() == i,
            forall|k: int|
                0 <= k < i ==> (#[trigger] msg_result.frame_results@[k]).number == u16_from_be(
                    frames@[k][6],
                    frames@[k][7],
                ) && msg_result.frame_results@[k].result == FrameResultType::Error(
                    "Not implemented",
                ),
        decreases frames.len() - i,
    {
        let frame = Frame::create(frames[i]);
        let number: u16 = frame.header().frame_number;
        let result = match handle_frame(&frame) {
            Ok(_) => FrameResult::create_success(number, frame),
            Err(e) => FrameResult::create_error(number, e),
        };
        msg_result.add_result(result);
        i = i + 1;
    }
    msg_result
}

} // verus!
