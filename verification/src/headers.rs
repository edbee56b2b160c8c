//! A compact set of header types with the same wire layout as those of
//! `messaging`: handshake, handshake response, frame and frame response.
use crate::common::{
    create_u16, u16_from_be, CorrelationId, NodeId, RequestSettings,
};
use crate::messaging::{FrameHeader, HandshakeHeader};
use vstd::prelude::*;

verus! {

/// A handshake, as read from the wire.
pub struct Handshake {
    from: NodeId,
    frame_size: u16,
    frame_count: u16,
    correlation_id: CorrelationId,
    flags: [u8; 2],
}

/// The response to a handshake.
pub struct HandshakeResponse {
    correlation_id: CorrelationId,
    flags: [u8; 2],
}

/// A frame header, as read from the wire.
pub struct Frame {
    correlation_id: CorrelationId,
    frame_number: u16,
}

/// A frame response header, as read from the wire.
pub struct FrameResponse {
    correlation_id: CorrelationId,
    frame_number: u16,
}

impl Handshake {
    /// The sending node.
    pub closed spec fn spec_from(&self) -> NodeId {
        self.from
    }

    /// The announced frame size.
    pub closed spec fn spec_frame_size(&self) -> u16 {
        self.frame_size
    }

    /// The announced number of frames.
    pub closed spec fn spec_frame_count(&self) -> u16 {
        self.frame_count
    }

    /// The correlation id of the message.
    pub closed spec fn spec_correlation_id(&self) -> CorrelationId {
        self.correlation_id
    }

    /// The message and connection flags.
    pub closed spec fn spec_flags(&self) -> [u8; 2] {
        self.flags
    }

    /// This handshake is what the first 16 bytes of `data` hold.
    pub open spec fn parsed_from(&self, data: Seq<u8>) -> bool {
        &&& data.len() >= 16
        &&& self.spec_from()@ == data.subrange(0, 4)
        &&& self.spec_frame_size() == u16_from_be(data[4], data[5])
        &&& self.spec_frame_count() == u16_from_be(data[6], data[7])
        &&& self.spec_correlation_id()@ == data.subrange(8, 14)
        &&& self.spec_flags()@ == data.subrange(14, 16)
    }

    /// Reads a handshake from its 32 bytes; the check sum in the last 16
    /// bytes is not kept.
    pub fn create(data: [u8; 32]) -> (r: Handshake)
        ensures
            r.parsed_from(data@),
    {
        let from = NodeId::create([data[0], data[1], data[2], data[3]]);
        let frame_size: u16 = create_u16([data[4], data[5]]);
        let frame_count: u16 = create_u16([data[6], data[7]]);
        let correlation_id = CorrelationId::create(
            [data[8], data[9], data[10], data[11], data[12], data[13]],
        );
        let flags = [data[14], data[15]];
        let r = Handshake { from, frame_size, frame_count, correlation_id, flags };
        assert(r.spec_from()@ =~= data@.subrange(0, 4));
        assert(r.spec_correlation_id()@ =~= data@.subrange(8, 14));
        assert(r.spec_flags()@ =~= data@.subrange(14, 16));
        r
    }

    /// The response to this handshake: same correlation id, same flags.
    pub fn create_response(&self) -> (r: HandshakeResponse)
        ensures
            r.spec_correlation_id() == self.spec_correlation_id(),
            r.spec_flags() == self.spec_flags(),
    {
        HandshakeResponse { correlation_id: self.correlation_id, flags: self.flags }
    }

    /// The settings of the request that this handshake announces.
    pub fn create_settings(&self) -> (r: RequestSettings)
        ensures
            r.frame_size == self.spec_frame_size(),
            r.frame_count == self.spec_frame_count(),
            r.correlation_id == self.spec_correlation_id(),
            r.from == self.spec_from(),
    {
        RequestSettings {
            frame_size: self.frame_size,
            frame_count: self.frame_count,
            correlation_id: self.correlation_id,
            from: self.from,
        }
    }

    /// A handshake read from bytes takes bytes 0 to 3 as its sender, bytes
    /// 4-5 and 6-7 as its big-endian frame size and frame count, bytes 8 to 13
    /// as its correlation id and bytes 14-15 as its flags, all in order.
    pub proof fn lemma_wire_layout(h: Handshake, data: Seq<u8>)
        ensures
            h.parsed_from(data) ==> (forall|i: int| 0 <= i < 4 ==> #[trigger] h.spec_from()@[i] == data[i])
                && h.spec_frame_size() == data[4] * 256 + data[5]
                && h.spec_frame_count() == data[6] * 256 + data[7]
                && (forall|i: int| 0 <= i < 6 ==> #[trigger] h.spec_correlation_id()@[i] == data[8 + i])
                && h.spec_flags()@[0] == data[14] && h.spec_flags()@[1] == data[15],
    {
        if h.parsed_from(data) {
            assert forall|i: int| 0 <= i < 6 implies #[trigger] h.spec_correlation_id()@[i] == data[8 + i] by {
                assert(data.subrange(8, 14)[i] == data[8 + i]);
            }
        }
    }

    /// A handshake reads the same fields from the same bytes as a handshake header.
    pub proof fn lemma_same_layout_as_handshake_header(
        h: Handshake,
        g: HandshakeHeader,
        data: Seq<u8>,
    )
        requires
            h.parsed_from(data),
            g.parsed_from(data),
        ensures
            h.spec_from() == g.spec_from(),
            h.spec_frame_size() == g.spec_frame_size(),
            h.spec_frame_count() == g.spec_frame_count(),
            h.spec_correlation_id() == g.spec_correlation_id(),
            h.spec_flags() == g.spec_flags(),
    {
        NodeId::lemma_view(h.from, g.spec_from());
        CorrelationId::lemma_view(h.correlation_id, g.spec_correlation_id());
        assert(h.flags =~= g.spec_flags());
    }
}

impl HandshakeResponse {
    /// The correlation id of the answered handshake.
    pub closed spec fn spec_correlation_id(&self) -> CorrelationId {
        self.correlation_id
    }

    /// The flags of the answered handshake.
    pub closed spec fn spec_flags(&self) -> [u8; 2] {
        self.flags
    }

    /// The response's bytes on the wire.
    pub open spec fn spec_bytes(&self) -> Seq<u8> {
        self.spec_correlation_id()@ + self.spec_flags()@
    }

    /// This response is what the first 8 bytes of `data` hold.
    pub open spec fn parsed_from(&self, data: Seq<u8>) -> bool {
        &&& data.len() >= 8
        &&& self.spec_correlation_id()@ == data.subrange(0, 6)
        &&& self.spec_flags()@ == data.subrange(6, 8)
    }

    /// Reads a handshake response from its 8 bytes.
    pub fn create(data: [u8; 8]) -> (r: HandshakeResponse)
        ensures
            r.parsed_from(data@),
    {
        let correlation_id = CorrelationId::create(
            [data[0], data[1], data[2], data[3], data[4], data[5]],
        );
        let flags = [data[6], data[7]];
        let r = HandshakeResponse { correlation_id, flags };
        assert(r.spec_correlation_id()@ =~= data@.subrange(0, 6));
        assert(r.spec_flags()@ =~= data@.subrange(6, 8));
        r
    }

    /// The 8 bytes of the response: correlation id, then flags.
    pub fn to_bytes(&self) -> (r: [u8; 8])
        ensures
            r@ == self.spec_bytes(),
    {
        let cor_id = self.correlation_id.to_bytes();
        proof {
            CorrelationId::lemma_view(self.correlation_id, self.correlation_id);
        }
        let mut result: [u8; 8] = [0; 8];
        let mut i: usize = 0;
        while i < 6
            invariant
                i <= 6,
                cor_id@ == self.correlation_id@,
                cor_id@.len() == 6,
                forall|k: int| 0 <= k < i ==> result@[k] == cor_id@[k],
            decreases 6 - i,
        {
            result[i] = cor_id[i];
            i = i + 1;
        }
        result[6] = self.flags[0];
        result[7] = self.flags[1];
        assert(result@ =~= self.spec_bytes());
        result
    }

    /// A handshake response read from bytes takes bytes 0 to 5, in order, as
    /// its correlation id and bytes 6-7 as its flags; its wire bytes are its
    /// correlation id then its flags.
    pub proof fn lemma_wire_layout(h: HandshakeResponse, data: Seq<u8>)
        ensures
            h.parsed_from(data) ==> (forall|i: int| 0 <= i < 6 ==> #[trigger] h.spec_correlation_id()@[i] == data[i])
                && h.spec_flags()@[0] == data[6] && h.spec_flags()@[1] == data[7],
            h.spec_bytes().len() == 8,
            forall|i: int| 0 <= i < 6 ==> #[trigger] h.spec_bytes()[i] == h.spec_correlation_id()@[i],
            h.spec_bytes()[6] == h.spec_flags()@[0],
            h.spec_bytes()[7] == h.spec_flags()@[1],
    {
        CorrelationId::lemma_view(h.correlation_id, h.correlation_id);
    }

    /// Writing a response that was read gives back the bytes it was read from.
    pub proof fn lemma_parse_serialize(h: HandshakeResponse, data: Seq<u8>)
        requires
            h.parsed_from(data),
        ensures
            h.spec_bytes() == data.subrange(0, 8),
    {
        assert(h.spec_bytes() =~= data.subrange(0, 8));
    }

    /// Reading the bytes of a response gives back that response.
    pub proof fn lemma_serialize_parse(h: HandshakeResponse, g: HandshakeResponse, data: Seq<u8>)
        requires
            g.parsed_from(data),
            data.subrange(0, 8) == h.spec_bytes(),
        ensures
            g == h,
    {
        CorrelationId::lemma_view(h.correlation_id, g.correlation_id);
        let b = h.spec_bytes();
        assert(b.subrange(0, 6) =~= h.correlation_id@);
        assert(b.subrange(6, 8) =~= h.flags@);
        assert(g.correlation_id@ == h.correlation_id@);
        assert(g.flags =~= h.flags);
    }
}

impl Frame {
    /// The correlation id of the frame's message.
    pub closed spec fn spec_correlation_id(&self) -> CorrelationId {
        self.correlation_id
    }

    /// The frame's number.
    pub closed spec fn spec_frame_number(&self) -> u16 {
        self.frame_number
    }

    /// This frame header is what the first 8 bytes of `data` hold.
    pub open spec fn parsed_from(&self, data: Seq<u8>) -> bool {
        &&& data.len() >= 8
        &&& self.spec_correlation_id()@ == data.subrange(0, 6)
        &&& self.spec_frame_number() == u16_from_be(data[6], data[7])
    }

    /// Reads a frame header from its 8 bytes.
    pub fn create(data: [u8; 8]) -> (r: Frame)
        ensures
            r.parsed_from(data@),
    {
        let correlation_id = CorrelationId::create(
            [data[0], data[1], data[2], data[3], data[4], data[5]],
        );
        let frame_number: u16 = create_u16([data[6], data[7]]);
        let r = Frame { correlation_id, frame_number };
        assert(r.spec_correlation_id()@ =~= data@.subrange(0, 6));
        r
    }

    /// A frame header read from bytes takes bytes 0 to 5, in order, as its
    /// correlation id and bytes 6-7 as its big-endian frame number.
    pub proof fn lemma_wire_layout(f: Frame, data: Seq<u8>)
        ensures
            f.parsed_from(data) ==> (forall|i: int| 0 <= i < 6 ==> #[trigger] f.spec_correlation_id()@[i] == data[i])
                && f.spec_frame_number() == data[6] * 256 + data[7],
    {
    }

    /// This frame header reads the same fields from the same bytes as the
    /// frame header of `messaging`.
    pub proof fn lemma_same_layout_as_frame_header(f: Frame, h: FrameHeader, data: Seq<u8>)
        requires
            f.parsed_from(data),
            h.parsed_from(data),
        ensures
            f.spec_correlation_id() == h.correlation_id,
            f.spec_frame_number() == h.frame_number,
    {
        CorrelationId::lemma_view(f.correlation_id, h.correlation_id);
    }
}

impl FrameResponse {
    /// The correlation id of the confirmed frame's message.
    pub closed spec fn spec_correlation_id(&self) -> CorrelationId {
        self.correlation_id
    }

    /// The number of the confirmed frame.
    pub closed spec fn spec_frame_number(&self) -> u16 {
        self.frame_number
    }

    /// This response is what the first 8 bytes of `data` hold.
    pub open spec fn parsed_from(&self, data: Seq<u8>) -> bool {
        &&& data.len() >= 8
        &&& self.spec_correlation_id()@ == data.subrange(0, 6)
        &&& self.spec_frame_number() == u16_from_be(data[6], data[7])
    }

    /// A frame response header read from bytes takes bytes 0 to 5, in order,
    /// as its correlation id and bytes 6-7 as its big-endian frame number.
    pub proof fn lemma_wire_layout(f: FrameResponse, data: Seq<u8>)
        ensures
            f.parsed_from(data) ==> (forall|i: int| 0 <= i < 6 ==> #[trigger] f.spec_correlation_id()@[i] == data[i])
                && f.spec_frame_number() == data[6] * 256 + data[7],
    {
    }

    /// Reads a frame response header from its 8 bytes.
    pub fn create(data: [u8; 8]) -> (r: FrameResponse)
        ensures
            r.parsed_from(data@),
    {
        let correlation_id = CorrelationId::create(
            [data[0], data[1], data[2], data[3], data[4], data[5]],
        );
        let frame_number: u16 = create_u16([data[6], data[7]]);
        let r = FrameResponse { correlation_id, frame_number };
        assert(r.spec_correlation_id()@ =~= data@.subrange(0, 6));
        r
    }
}

} // verus!
