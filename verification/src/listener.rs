//! What a listening node computes for each connection: the answer to a
//! handshake and the outcome of the frames that follow it.
use crate::common::{u16_from_be, RequestSettings};
use crate::messaging::{
    frames_data, lemma_frames_survive_wire, lemma_padded, padded, received_data, received_from,
    Frame, FrameResult, HandshakeHeader, MessageResult,
};
use vstd::prelude::*;

verus! {

/// Decides the outcome of one received frame: every frame is accepted.
pub fn handle_frame(frame: &Frame) -> (r: Result<(), &'static str>)
    ensures
        r == Ok::<(), &'static str>(()),
{
    Ok(())
}

/// Answers a handshake from its 32 bytes: the bytes of the response to send
/// back (the handshake's correlation id and flags), and the settings of the
/// request that follows.
pub fn handle_handshake(data: [u8; 32]) -> (r: ([u8; 8], RequestSettings))
    ensures
        r.0@ == data@.subrange(8, 16),
        r.1.from@ == data@.subrange(0, 4),
        r.1.frame_size == u16_from_be(data[4], data[5]),
        r.1.frame_count == u16_from_be(data[6], data[7]),
        r.1.correlation_id@ == data@.subrange(8, 14),
{
    let header = HandshakeHeader::create(data);
    let response = header.create_response();
    let settings = header.create_settings();
    let bytes = response.to_bytes();
    assert(bytes@ =~= data@.subrange(8, 16));
    (bytes, settings)
}

/// The outcome of the frames of a request, one buffer of 1024 bytes per
/// announced frame: each frame is read from its buffer and accepted.
pub fn handle_request(settings: &RequestSettings, frames: Vec<[u8; 1024]>) -> (r: MessageResult)
    requires
        frames.len() == settings.frame_count,
    ensures
        r.correlation_id == settings.correlation_id,
        r.frame_results.len() == frames.len(),
        forall|i: int|
            0 <= i < frames.len() ==> (#[trigger] r.frame_results@[i]).number == u16_from_be(
                frames@[i][6],
                frames@[i][7],
            ) && received_from(r.frame_results@[i], frames@[i]@),
{
    let mut msg_result = MessageResult::create(settings.correlation_id, frames.len());
    let mut i: usize = 0;
    while i < frames.len()
        invariant
            i <= frames.len(),
            msg_result.correlation_id == settings.correlation_id,
            msg_result.frame_results.len() == i,
            forall|k: int|
                0 <= k < i ==> (#[trigger] msg_result.frame_results@[k]).number == u16_from_be(
                    frames@[k][6],
                    frames@[k][7],
                ) && received_from(msg_result.frame_results@[k], frames@[k]@),
        decreases frames.len() - i,
    {
        let frame = Frame::create(frames[i]);
        let number: u16 = frame.header().frame_number;
        let result = match handle_frame(&frame) {
            Ok(_) => FrameResult::create_success(number, frame),
            Err(e) => FrameResult::create_error(number, e),
        };
        msg_result.add_result(result);
        i = i + 1;
    }
    msg_result
}


/// A message crosses the wire whole: when the frames of a message were cut
/// from its padded data, each was sent as its bytes, and each outcome is the
/// success of the frame read from the bytes sent at its place, the received
/// data is the padded message, and the message is its prefix.
pub proof fn lemma_message_delivered(
    message: Seq<u8>,
    sent: Seq<Frame>,
    buffers: Seq<Seq<u8>>,
    results: Seq<FrameResult>,
)
    requires
        frames_data(sent) == padded(message),
        buffers.len() == sent.len(),
        results.len() == sent.len(),
        forall|i: int| 0 <= i < sent.len() ==> #[trigger] buffers[i] == sent[i].spec_bytes(),
        forall|i: int| 0 <= i < sent.len() ==> received_from(#[trigger] results[i], buffers[i]),
    ensures
        received_data(results) == padded(message),
        received_data(results).take(message.len() as int) == message,
{
    assert forall|i: int| 0 <= i < sent.len() implies received_from(
        #[trigger] results[i],
        sent[i].spec_bytes(),
    ) by {
        assert(buffers[i] == sent[i].spec_bytes());
    }
    lemma_frames_survive_wire(sent, results);
    lemma_padded(message);
}

} // verus!
