//! The headers of the protocol, the splitting of a message into frames and
//! the reassembly of the frames that were received.
//!
//! Wire layout (all integers big-endian):
//! - handshake: from (4), frame size (2), frame count (2), correlation id (6),
//!   flags (2), then a 16-byte check sum that the header does not keep;
//! - handshake response: correlation id (6), flags (2);
//! - frame header and frame response header: correlation id (6), frame number (2);
//! - frame: frame header (8), then 1016 bytes of data.
use crate::common::{create_u16, lemma_u16_be_roundtrip, lemma_u16_from_be_roundtrip, u16_be, u16_from_be, u16_to_be_bytes, CorrelationId, NodeId, RequestSettings};
use crypto::digest::Digest;
use crypto::md5::Md5;
use vstd::prelude::*;

verus! {

/// The number of data bytes carried by one frame.
pub const FRAME_DATA_SIZE: usize = 1016;

/// The number of bytes of a frame on the wire, header included.
pub const FRAME_SIZE: usize = 1024;

// ---------------------------------------------------------------------------
// Handshake
// ---------------------------------------------------------------------------

/// The header that opens a request: who sends, and how many frames of which size follow.
pub struct HandshakeHeader {
    from: NodeId,
    frame_size: u16,
    frame_count: u16,
    correlation_id: CorrelationId,
    flags: [u8; 2],
}

/// The answer to a handshake: the connection is ready for the frames.
pub struct HandshakeResponseHeader {
    pub correlation_id: CorrelationId,
    pub flags: [u8; 2],
}

/// The 16 bytes of a handshake header, in wire order.
pub open spec fn handshake_layout(
    from: Seq<u8>,
    frame_size: u16,
    frame_count: u16,
    correlation_id: Seq<u8>,
    flags: Seq<u8>,
) -> Seq<u8> {
    from + u16_be(frame_size) + u16_be(frame_count) + correlation_id + flags
}

impl HandshakeHeader {
    /// The sending node.
    pub closed spec fn spec_from(&self) -> NodeId {
        self.from
    }

    /// The announced frame size.
    pub closed spec fn spec_frame_size(&self) -> u16 {
        self.frame_size
    }

    /// The announced number of frames.
    pub closed spec fn spec_frame_count(&self) -> u16 {
        self.frame_count
    }

    /// The correlation id of the message.
    pub closed spec fn spec_correlation_id(&self) -> CorrelationId {
        self.correlation_id
    }

    /// The message and connection flags.
    pub closed spec fn spec_flags(&self) -> [u8; 2] {
        self.flags
    }

    /// The header's bytes on the wire.
    pub open spec fn spec_bytes(&self) -> Seq<u8> {
        handshake_layout(
            self.spec_from()@,
            self.spec_frame_size(),
            self.spec_frame_count(),
            self.spec_correlation_id()@,
            self.spec_flags()@,
        )
    }

    /// This header is what the first 16 bytes of `data` hold.
    pub open spec fn parsed_from(&self, data: Seq<u8>) -> bool {
        &&& data.len() >= 16
        &&& self.spec_from()@ == data.subrange(0, 4)
        &&& self.spec_frame_size() == u16_from_be(data[4], data[5])
        &&& self.spec_frame_count() == u16_from_be(data[6], data[7])
        &&& self.spec_correlation_id()@ == data.subrange(8, 14)
        &&& self.spec_flags()@ == data.subrange(14, 16)
    }

    /// Reads a handshake header from the 32 bytes of a handshake; the check
    /// sum in the last 16 bytes is not kept.
    pub fn create(data: [u8; 32]) -> (r: HandshakeHeader)
        ensures
            r.parsed_from(data@),
    {
        let from = NodeId::create([data[0], data[1], data[2], data[3]]);
        let frame_size: u16 = create_u16([data[4], data[5]]);
        let frame_count: u16 = create_u16([data[6], data[7]]);
        let correlation_id = CorrelationId::create(
            [data[8], data[9], data[10], data[11], data[12], data[13]],
        );
        let flags = [data[14], data[15]];
        let r = HandshakeHeader { from, frame_size, frame_count, correlation_id, flags };
        assert(r.spec_from()@ =~= data@.subrange(0, 4));
        assert(r.spec_correlation_id()@ =~= data@.subrange(8, 14));
        assert(r.spec_flags()@ =~= data@.subrange(14, 16));
        r
    }

    /// A header made of the given fields.
    pub fn generate(
        from: NodeId,
        frame_size: u16,
        frame_count: u16,
        correlation_id: CorrelationId,
        flags: [u8; 2],
    ) -> (r: HandshakeHeader)
        ensures
            r.spec_from() == from,
            r.spec_frame_size() == frame_size,
            r.spec_frame_count() == frame_count,
            r.spec_correlation_id() == correlation_id,
            r.spec_flags() == flags,
    {
        HandshakeHeader { from, frame_size, frame_count, correlation_id, flags }
    }

    /// The response to this handshake: same correlation id, same flags.
    pub fn create_response(&self) -> (r: HandshakeResponseHeader)
        ensures
            r.correlation_id == self.spec_correlation_id(),
            r.flags == self.spec_flags(),
    {
        HandshakeResponseHeader { correlation_id: self.correlation_id, flags: self.flags }
    }

    /// The settings of the request that this handshake announces.
    pub fn create_settings(&self) -> (r: RequestSettings)
        ensures
            r.frame_size == self.spec_frame_size(),
            r.frame_count == self.spec_frame_count(),
            r.correlation_id == self.spec_correlation_id(),
            r.from == self.spec_from(),
    {
        RequestSettings {
            frame_size: self.frame_size,
            frame_count: self.frame_count,
            correlation_id: self.correlation_id,
            from: self.from,
        }
    }

    /// The 16 bytes of the header: from, frame size, frame count, correlation id, flags.
    pub fn to_bytes(&self) -> (r: [u8; 16])
        ensures
            r@ == self.spec_bytes(),
    {
        let mut buffer: [u8; 16] = [0; 16];
        let id_bytes = self.from.to_bytes();
        let frame_size_bytes = u16_to_be_bytes(self.frame_size);
        let frame_count_bytes = u16_to_be_bytes(self.frame_count);
        let cor_id_byte = self.correlation_id.to_bytes();
        proof {
            NodeId::lemma_view(self.from, self.from);
            CorrelationId::lemma_view(self.correlation_id, self.correlation_id);
        }

        buffer[0] = id_bytes[0];
        buffer[1] = id_bytes[1];
        buffer[2] = id_bytes[2];
        buffer[3] = id_bytes[3];

        buffer[4] = frame_size_bytes[0];
        buffer[5] = frame_size_bytes[1];

        buffer[6] = frame_count_bytes[0];
        buffer[7] = frame_count_bytes[1];

        buffer[8] = cor_id_byte[0];
        buffer[9] = cor_id_byte[1];
        buffer[10] = cor_id_byte[2];
        buffer[11] = cor_id_byte[3];
        buffer[12] = cor_id_byte[4];
        buffer[13] = cor_id_byte[5];

        buffer[14] = self.flags[0];
        buffer[15] = self.flags[1];

        assert(buffer@ =~= self.spec_bytes());
        buffer
    }

    /// A handshake header read from bytes takes bytes 0 to 3 as its sender,
    /// bytes 4-5 and 6-7 as its big-endian frame size and frame count, bytes
    /// 8 to 13 as its correlation id and bytes 14-15 as its flags, all in
    /// order; its wire bytes are its fields in that same order.
    pub proof fn lemma_wire_layout(h: HandshakeHeader, data: Seq<u8>)
        ensures
            h.parsed_from(data) ==> (forall|i: int| 0 <= i < 4 ==> #[trigger] h.spec_from()@[i] == data[i])
                && h.spec_frame_size() == data[4] * 256 + data[5]
                && h.spec_frame_count() == data[6] * 256 + data[7]
                && (forall|i: int| 0 <= i < 6 ==> #[trigger] h.spec_correlation_id()@[i] == data[8 + i])
                && h.spec_flags()@[0] == data[14] && h.spec_flags()@[1] == data[15],
            h.spec_bytes().len() == 16,
            forall|i: int| 0 <= i < 4 ==> #[trigger] h.spec_bytes()[i] == h.spec_from()@[i],
            h.spec_bytes()[4] * 256 + h.spec_bytes()[5] == h.spec_frame_size(),
            h.spec_bytes()[6] * 256 + h.spec_bytes()[7] == h.spec_frame_count(),
            forall|i: int| 0 <= i < 6 ==> #[trigger] h.spec_bytes()[8 + i] == h.spec_correlation_id()@[i],
            h.spec_bytes()[14] == h.spec_flags()@[0],
            h.spec_bytes()[15] == h.spec_flags()@[1],
    {
        NodeId::lemma_view(h.from, h.from);
        CorrelationId::lemma_view(h.correlation_id, h.correlation_id);
        if h.parsed_from(data) {
            assert forall|i: int| 0 <= i < 6 implies #[trigger] h.spec_correlation_id()@[i] == data[8 + i] by {
                assert(data.subrange(8, 14)[i] == data[8 + i]);
            }
        }
    }

    /// Writing a header that was read gives back the bytes it was read from.
    pub proof fn lemma_parse_serialize(h: HandshakeHeader, data: Seq<u8>)
        requires
            h.parsed_from(data),
        ensures
            h.spec_bytes() == data.subrange(0, 16),
    {
        lemma_u16_from_be_roundtrip(data[4], data[5]);
        lemma_u16_from_be_roundtrip(data[6], data[7]);
        assert(h.spec_bytes() =~= data.subrange(0, 16));
    }

    /// Reading the bytes of a header gives back that header, whatever
    /// follows them.
    pub proof fn lemma_serialize_parse(h: HandshakeHeader, g: HandshakeHeader, data: Seq<u8>)
        requires
            g.parsed_from(data),
            data.subrange(0, 16) == h.spec_bytes(),
        ensures
            g == h,
    {
        NodeId::lemma_view(h.from, g.from);
        CorrelationId::lemma_view(h.correlation_id, g.correlation_id);
        let b = h.spec_bytes();
        assert(b.subrange(0, 4) =~= h.from@);
        assert(b.subrange(8, 14) =~= h.correlation_id@);
        assert(b.subrange(14, 16) =~= h.flags@);
        assert(g.from@ == h.from@);
        assert(g.correlation_id@ == h.correlation_id@);
        assert(g.flags =~= h.flags);
        assert(b.subrange(4, 6) =~= u16_be(h.frame_size));
        assert(b.subrange(6, 8) =~= u16_be(h.frame_count));
        assert(data[4] == b[4] && data[5] == b[5] && data[6] == b[6] && data[7] == b[7]);
        lemma_u16_be_roundtrip(h.frame_size);
        lemma_u16_be_roundtrip(h.frame_count);
    }
}

impl HandshakeResponseHeader {
    /// The response's bytes on the wire.
    pub open spec fn spec_bytes(&self) -> Seq<u8> {
        self.correlation_id@ + self.flags@
    }

    /// This response is what the first 8 bytes of `data` hold.
    pub open spec fn parsed_from(&self, data: Seq<u8>) -> bool {
        &&& data.len() >= 8
        &&& self.correlation_id@ == data.subrange(0, 6)
        &&& self.flags@ == data.subrange(6, 8)
    }

    /// Reads a handshake response from its 8 bytes.
    pub fn create(data: [u8; 8]) -> (r: HandshakeResponseHeader)
        ensures
            r.parsed_from(data@),
    {
        let correlation_id = CorrelationId::create(
            [data[0], data[1], data[2], data[3], data[4], data[5]],
        );
        let flags = [data[6], data[7]];
        let r = HandshakeResponseHeader { correlation_id, flags };
        assert(r.correlation_id@ =~= data@.subrange(0, 6));
        assert(r.flags@ =~= data@.subrange(6, 8));
        r
    }

    /// The 8 bytes of the response: correlation id, then flags.
    pub fn to_bytes(&self) -> (r: [u8; 8])
        ensures
            r@ == self.spec_bytes(),
    {
        let cor_id = self.correlation_id.to_bytes();
        proof {
            CorrelationId::lemma_view(self.correlation_id, self.correlation_id);
        }
        let mut result: [u8; 8] = [0; 8];
        let mut i: usize = 0;
        while i < 6
            invariant
                i <= 6,
                cor_id@ == self.correlation_id@,
                cor_id@.len() == 6,
                forall|k: int| 0 <= k < i ==> result@[k] == cor_id@[k],
            decreases 6 - i,
        {
            result[i] = cor_id[i];
            i = i + 1;
        }
        result[6] = self.flags[0];
        result[7] = self.flags[1];
        assert(result@ =~= self.spec_bytes());
        result
    }

    /// A handshake response read from bytes takes bytes 0 to 5, in order, as
    /// its correlation id and bytes 6-7 as its flags; its wire bytes are its
    /// correlation id then its flags.
    pub proof fn lemma_wire_layout(h: HandshakeResponseHeader, data: Seq<u8>)
        ensures
            h.parsed_from(data) ==> (forall|i: int| 0 <= i < 6 ==> #[trigger] h.correlation_id@[i] == data[i])
                && h.flags@[0] == data[6] && h.flags@[1] == data[7],
            h.spec_bytes().len() == 8,
            forall|i: int| 0 <= i < 6 ==> #[trigger] h.spec_bytes()[i] == h.correlation_id@[i],
            h.spec_bytes()[6] == h.flags@[0],
            h.spec_bytes()[7] == h.flags@[1],
    {
        CorrelationId::lemma_view(h.correlation_id, h.correlation_id);
    }

    /// Writing a response that was read gives back the bytes it was read from.
    pub proof fn lemma_parse_serialize(h: HandshakeResponseHeader, data: Seq<u8>)
        requires
            h.parsed_from(data),
        ensures
            h.spec_bytes() == data.subrange(0, 8),
    {
        assert(h.spec_bytes() =~= data.subrange(0, 8));
    }

    /// Reading the bytes of a response gives back that response.
    pub proof fn lemma_serialize_parse(
        h: HandshakeResponseHeader,
        g: HandshakeResponseHeader,
        data: Seq<u8>,
    )
        requires
            g.parsed_from(data),
            data.subrange(0, 8) == h.spec_bytes(),
        ensures
            g == h,
    {
        CorrelationId::lemma_view(h.correlation_id, g.correlation_id);
        let b = h.spec_bytes();
        assert(b.subrange(0, 6) =~= h.correlation_id@);
        assert(b.subrange(6, 8) =~= h.flags@);
        assert(g.correlation_id@ == h.correlation_id@);
        assert(g.flags =~= h.flags);
    }
}


// ---------------------------------------------------------------------------
// Frames
// ---------------------------------------------------------------------------

/// The header sent with each frame.
pub struct FrameHeader {
    pub correlation_id: CorrelationId,
    pub frame_number: u16,
}

/// The header that confirms that a frame was received; laid out as the
/// header of that frame.
pub struct FrameResponseHeader {
    correlation_id: CorrelationId,
    frame_number: u16,
}

/// One frame: its header and 1016 bytes of the message.
pub struct Frame {
    pub header: FrameHeader,
    data: [u8; 1016],
}

/// The 8 bytes of a frame header or frame response header, in wire order.
pub open spec fn frame_header_layout(correlation_id: Seq<u8>, frame_number: u16) -> Seq<u8> {
    correlation_id + u16_be(frame_number)
}

impl FrameHeader {
    /// The header's bytes on the wire.
    pub open spec fn spec_bytes(&self) -> Seq<u8> {
        frame_header_layout(self.correlation_id@, self.frame_number)
    }

    /// This header is what the first 8 bytes of `data` hold.
    pub open spec fn parsed_from(&self, data: Seq<u8>) -> bool {
        &&& data.len() >= 8
        &&& self.correlation_id@ == data.subrange(0, 6)
        &&& self.frame_number == u16_from_be(data[6], data[7])
    }

    /// Reads a frame header from its 8 bytes.
    pub fn create(data: [u8; 8]) -> (r: FrameHeader)
        ensures
            r.parsed_from(data@),
    {
        let correlation_id = CorrelationId::create(
            [data[0], data[1], data[2], data[3], data[4], data[5]],
        );
        let frame_number: u16 = create_u16([data[6], data[7]]);
        let r = FrameHeader { correlation_id, frame_number };
        assert(r.correlation_id@ =~= data@.subrange(0, 6));
        r
    }

    /// The header of frame `frame_number` of the message `correlation_id`.
    pub fn generate(correlation_id: CorrelationId, frame_number: u16) -> (r: FrameHeader)
        ensures
            r.correlation_id == correlation_id,
            r.frame_number == frame_number,
    {
        FrameHeader { correlation_id, frame_number }
    }

    /// The 8 bytes of the header: correlation id, then frame number.
    pub fn to_bytes(&self) -> (r: [u8; 8])
        ensures
            r@ == self.spec_bytes(),
    {
        let mut buffer: [u8; 8] = [0; 8];
        let l = u16_to_be_bytes(self.frame_number);
        let cor_id = self.correlation_id.to_bytes();
        proof {
            CorrelationId::lemma_view(self.correlation_id, self.correlation_id);
        }
        let mut i: usize = 0;
        while i < 6
            invariant
                i <= 6,
                cor_id@ == self.correlation_id@,
                cor_id@.len() == 6,
                forall|k: int| 0 <= k < i ==> buffer@[k] == cor_id@[k],
            decreases 6 - i,
        {
            buffer[i] = cor_id[i];
            i = i + 1;
        }
        buffer[6] = l[0];
        buffer[7] = l[1];
        assert(buffer@ =~= self.spec_bytes());
        buffer
    }

    /// A frame header read from bytes takes bytes 0 to 5, in order, as its
    /// correlation id and bytes 6-7 as its big-endian frame number; its wire
    /// bytes are its correlation id followed by the high and the low byte of
    /// its number.
    pub proof fn lemma_wire_layout(h: FrameHeader, data: Seq<u8>)
        ensures
            h.parsed_from(data) ==> (forall|i: int| 0 <= i < 6 ==> #[trigger] h.correlation_id@[i] == data[i])
                && h.frame_number == data[6] * 256 + data[7],
            h.spec_bytes().len() == 8,
            forall|i: int| 0 <= i < 6 ==> #[trigger] h.spec_bytes()[i] == h.correlation_id@[i],
            h.spec_bytes()[6] * 256 + h.spec_bytes()[7] == h.frame_number,
    {
        CorrelationId::lemma_view(h.correlation_id, h.correlation_id);
    }

    /// Writing a header that was read gives back the bytes it was read from.
    pub proof fn lemma_parse_serialize(h: FrameHeader, data: Seq<u8>)
        requires
            h.parsed_from(data),
        ensures
            h.spec_bytes() == data.subrange(0, 8),
    {
        lemma_u16_from_be_roundtrip(data[6], data[7]);
        assert(h.spec_bytes() =~= data.subrange(0, 8));
    }

    /// Reading the bytes of a header gives back that header.
    pub proof fn lemma_serialize_parse(h: FrameHeader, g: FrameHeader, data: Seq<u8>)
        requires
            g.parsed_from(data),
            data.subrange(0, 8) == h.spec_bytes(),
        ensures
            g == h,
    {
        CorrelationId::lemma_view(h.correlation_id, g.correlation_id);
        let b = h.spec_bytes();
        assert(b.subrange(0, 6) =~= h.correlation_id@);
        assert(g.correlation_id@ == h.correlation_id@);
        assert(b.subrange(6, 8) =~= u16_be(h.frame_number));
        assert(data[6] == b[6] && data[7] == b[7]);
        lemma_u16_be_roundtrip(h.frame_number);
    }
}

impl FrameResponseHeader {
    /// The correlation id of the confirmed frame's message.
    pub closed spec fn spec_correlation_id(&self) -> CorrelationId {
        self.correlation_id
    }

    /// The number of the confirmed frame.
    pub closed spec fn spec_frame_number(&self) -> u16 {
        self.frame_number
    }

    /// This response is what the first 8 bytes of `data` hold.
    pub open spec fn parsed_from(&self, data: Seq<u8>) -> bool {
        &&& data.len() >= 8
        &&& self.spec_correlation_id()@ == data.subrange(0, 6)
        &&& self.spec_frame_number() == u16_from_be(data[6], data[7])
    }

    /// Reads a frame response header from its 8 bytes.
    pub fn create(data: [u8; 8]) -> (r: FrameResponseHeader)
        ensures
            r.parsed_from(data@),
    {
        let correlation_id = CorrelationId::create(
            [data[0], data[1], data[2], data[3], data[4], data[5]],
        );
        let frame_number: u16 = create_u16([data[6], data[7]]);
        let r = FrameResponseHeader { correlation_id, frame_number };
        assert(r.correlation_id@ =~= data@.subrange(0, 6));
        r
    }

    /// A frame response header read from bytes takes bytes 0 to 5, in order,
    /// as its correlation id and bytes 6-7 as its big-endian frame number.
    pub proof fn lemma_wire_layout(h: FrameResponseHeader, data: Seq<u8>)
        ensures
            h.parsed_from(data) ==> (forall|i: int| 0 <= i < 6 ==> #[trigger] h.spec_correlation_id()@[i] == data[i])
                && h.spec_frame_number() == data[6] * 256 + data[7],
    {
    }

    /// A frame response header reads the same bytes as the header of the
    /// frame that it confirms.
    pub proof fn lemma_same_layout_as_frame_header(
        r: FrameResponseHeader,
        h: FrameHeader,
        data: Seq<u8>,
    )
        requires
            r.parsed_from(data),
            h.parsed_from(data),
        ensures
            r.spec_correlation_id() == h.correlation_id,
            r.spec_frame_number() == h.frame_number,
    {
        CorrelationId::lemma_view(r.correlation_id, h.correlation_id);
    }
}

impl Frame {
    /// The frame's header.
    pub closed spec fn spec_header(&self) -> FrameHeader {
        self.header
    }

    /// The frame's header.
    pub fn header(&self) -> (r: &FrameHeader)
        ensures
            *r == self.spec_header(),
    {
        &self.header
    }

    /// The frame's 1016 bytes of data.
    pub closed spec fn spec_data(&self) -> Seq<u8> {
        self.data@
    }

    /// A frame carries 1016 bytes of data.
    pub proof fn lemma_data_len(f: Frame)
        ensures
            f.spec_data().len() == FRAME_DATA_SIZE,
    {
    }

    /// The frame's 1024 bytes on the wire.
    pub open spec fn spec_bytes(&self) -> Seq<u8> {
        self.spec_header().spec_bytes() + self.spec_data()
    }

    /// This frame is what the 1024 bytes `data` hold.
    pub open spec fn parsed_from(&self, data: Seq<u8>) -> bool {
        &&& data.len() == FRAME_SIZE
        &&& self.spec_header().parsed_from(data)
        &&& self.spec_data() == data.subrange(8, 1024)
    }

    /// Creates a frame from a buffer of 1024 bytes: the first 8 bytes are
    /// the frame header, the other 1016 the data.
    pub fn create(data: [u8; 1024]) -> (r: Frame)
        ensures
            r.parsed_from(data@),
    {
        let mut header_buffer: [u8; 8] = [0; 8];
        let mut data_buffer: [u8; 1016] = [0; 1016];

        let mut i: usize = 0;
        while i < 8
            invariant
                i <= 8,
                forall|k: int| 0 <= k < i ==> header_buffer@[k] == data@[k],
            decreases 8 - i,
        {
            header_buffer[i] = data[i];
            i = i + 1;
        }
        assert(header_buffer@ =~= data@.subrange(0, 8));
        let header = FrameHeader::create(header_buffer);
        assert(header_buffer@.subrange(0, 6) =~= data@.subrange(0, 6));

        let mut i: usize = 8;
        while i < 1024
            invariant
                8 <= i <= 1024,
                forall|k: int| 0 <= k < i - 8 ==> data_buffer@[k] == data@[k + 8],
            decreases 1024 - i,
        {
            data_buffer[i - 8] = data[i];
            i = i + 1;
        }
        let r = Frame { header, data: data_buffer };
        assert(r.spec_data() =~= data@.subrange(8, 1024));
        r
    }

    /// The 1024 bytes of the frame: its header, then its data.
    pub fn to_bytes(&self) -> (r: [u8; 1024])
        ensures
            r@ == self.spec_bytes(),
    {
        let mut buffer: [u8; 1024] = [0; 1024];
        let header_bytes = self.header.to_bytes();

        let mut i: usize = 0;
        while i < 8
            invariant
                i <= 8,
                forall|k: int| 0 <= k < i ==> buffer@[k] == header_bytes@[k],
            decreases 8 - i,
        {
            buffer[i] = header_bytes[i];
            i = i + 1;
        }

        let mut i: usize = 8;
        while i < 1024
            invariant
                8 <= i <= 1024,
                forall|k: int| 0 <= k < 8 ==> buffer@[k] == header_bytes@[k],
                forall|k: int| 8 <= k < i ==> buffer@[k] == self.data@[k - 8],
            decreases 1024 - i,
        {
            buffer[i] = self.data[i - 8];
            i = i + 1;
        }
        assert(buffer@ =~= self.spec_bytes());
        buffer
    }

    /// A frame read from 1024 bytes takes its header from bytes 0 to 7 and
    /// its data from bytes 8 to 1023, in order; its wire bytes are its
    /// header's correlation id, the high and low byte of its number, then its
    /// data.
    pub proof fn lemma_wire_layout(f: Frame, data: Seq<u8>)
        ensures
            f.parsed_from(data) ==> data.len() == 1024
                && (forall|i: int| 0 <= i < 6 ==> #[trigger] f.spec_header().correlation_id@[i] == data[i])
                && f.spec_header().frame_number == data[6] * 256 + data[7]
                && (forall|i: int| 0 <= i < 1016 ==> #[trigger] f.spec_data()[i] == data[8 + i]),
            f.spec_bytes().len() == 1024,
            forall|i: int| 0 <= i < 6 ==> #[trigger] f.spec_bytes()[i] == f.spec_header().correlation_id@[i],
            f.spec_bytes()[6] * 256 + f.spec_bytes()[7] == f.spec_header().frame_number,
            forall|i: int| 0 <= i < 1016 ==> #[trigger] f.spec_bytes()[8 + i] == f.spec_data()[i],
    {
        FrameHeader::lemma_wire_layout(f.header, data);
        CorrelationId::lemma_view(f.header.correlation_id, f.header.correlation_id);
        if f.parsed_from(data) {
            assert forall|i: int| 0 <= i < 1016 implies #[trigger] f.spec_data()[i] == data[8 + i] by {
                assert(data.subrange(8, 1024)[i] == data[8 + i]);
            }
        }
        let b = f.spec_bytes();
        assert(b == f.header.spec_bytes() + f.data@);
        assert forall|i: int| 0 <= i < 6 implies #[trigger] b[i] == f.spec_header().correlation_id@[i] by {
            assert(b[i] == f.header.spec_bytes()[i]);
        }
        assert(b[6] == f.header.spec_bytes()[6] && b[7] == f.header.spec_bytes()[7]);
        assert forall|i: int| 0 <= i < 1016 implies #[trigger] b[8 + i] == f.spec_data()[i] by {
            assert(b[8 + i] == f.data@[i]);
        }
    }

    /// Writing a frame that was read gives back the bytes it was read from.
    pub proof fn lemma_parse_serialize(f: Frame, data: Seq<u8>)
        requires
            f.parsed_from(data),
        ensures
            f.spec_bytes() == data,
    {
        FrameHeader::lemma_parse_serialize(f.header, data);
        assert(f.spec_bytes() =~= data);
    }

    /// Reading the bytes of a frame gives back that frame.
    pub proof fn lemma_serialize_parse(f: Frame, g: Frame, data: Seq<u8>)
        requires
            g.parsed_from(data),
            data == f.spec_bytes(),
        ensures
            g == f,
    {
        CorrelationId::lemma_view(f.header.correlation_id, f.header.correlation_id);
        assert(data.subrange(0, 8) =~= f.header.spec_bytes());
        FrameHeader::lemma_serialize_parse(f.header, g.header, data);
        assert(data.subrange(8, 1024) =~= f.data@);
        assert(g.data =~= f.data);
    }
}


// ---------------------------------------------------------------------------
// Received frames
// ---------------------------------------------------------------------------

/// What became of one received frame.
pub enum FrameResultType {
    Success(Frame),
    Error(&'static str),
}

/// The outcome for the frame numbered `number`.
pub struct FrameResult {
    pub number: u16,
    pub result: FrameResultType,
}

/// The outcomes of the frames of one message, in the order of arrival.
pub struct MessageResult {
    pub correlation_id: CorrelationId,
    pub frame_results: Vec<FrameResult>,
}

/// The data that one outcome contributes to the message: the frame's data
/// when it was received, nothing otherwise.
pub open spec fn result_data(r: FrameResult) -> Seq<u8> {
    match r.result {
        FrameResultType::Success(f) => f.spec_data(),
        FrameResultType::Error(_) => seq![],
    }
}

/// The data of the received frames, one after the other.
pub open spec fn received_data(results: Seq<FrameResult>) -> Seq<u8>
    decreases results.len(),
{
    if results.len() == 0 {
        seq![]
    } else {
        received_data(results.drop_last()) + result_data(results.last())
    }
}

/// The data of the given frames, one after the other.
pub open spec fn frames_data(frames: Seq<Frame>) -> Seq<u8>
    decreases frames.len(),
{
    if frames.len() == 0 {
        seq![]
    } else {
        frames_data(frames.drop_last()) + frames.last().spec_data()
    }
}

impl FrameResult {
    /// Frame `number` was received as `frame`.
    pub fn create_success(number: u16, frame: Frame) -> (r: FrameResult)
        ensures
            r.number == number,
            r.result == FrameResultType::Success(frame),
    {
        FrameResult { number, result: FrameResultType::Success(frame) }
    }

    /// Frame `number` failed with `error`.
    pub fn create_error(number: u16, error: &'static str) -> (r: FrameResult)
        ensures
            r.number == number,
            r.result == FrameResultType::Error(error),
    {
        FrameResult { number, result: FrameResultType::Error(error) }
    }
}

impl MessageResult {
    /// No outcome yet for the message `cor_id`, which has `frame_count` frames.
    pub fn create(cor_id: CorrelationId, frame_count: usize) -> (r: MessageResult)
        ensures
            r.correlation_id == cor_id,
            r.frame_results@ == Seq::<FrameResult>::empty(),
    {
        MessageResult { correlation_id: cor_id, frame_results: Vec::with_capacity(frame_count) }
    }

    /// Records the outcome of one more frame.
    pub fn add_result(&mut self, result: FrameResult)
        ensures
            final(self).correlation_id == old(self).correlation_id,
            final(self).frame_results@ == old(self).frame_results@.push(result),
    {
        self.frame_results.push(result);
    }

    /// The data of the frames that were received, in the order of their
    /// outcomes; frames that failed contribute nothing.
    pub fn get_data(&self) -> (r: Vec<u8>)
        ensures
            r@ == received_data(self.frame_results@),
    {
        let mut data: Vec<u8> = Vec::new();
        let mut i: usize = 0;
        while i < self.frame_results.len()
            invariant
                i <= self.frame_results.len(),
                data@ == received_data(self.frame_results@.take(i as int)),
            decreases self.frame_results.len() - i,
        {
            let ghost before = data@;
            match &self.frame_results[i].result {
                FrameResultType::Success(f) => {
                    let mut j: usize = 0;
                    while j < FRAME_DATA_SIZE
                        invariant
                            j <= FRAME_DATA_SIZE,
                            data@ == before + f.data@.take(j as int),
                        decreases FRAME_DATA_SIZE - j,
                    {
                        data.push(f.data[j]);
                        assert(f.data@.take(j + 1) =~= f.data@.take(j as int).push(f.data@[j as int]));
                        j = j + 1;
                    }
                    assert(f.data@.take(1016) =~= f.data@);
                },
                FrameResultType::Error(_) => {
                    assert(data@ =~= before + seq![]);
                },
            }
            assert(self.frame_results@.take(i + 1).drop_last() =~= self.frame_results@.take(i as int));
            i = i + 1;
        }
        assert(self.frame_results@.take(self.frame_results.len() as int) =~= self.frame_results@);
        data
    }
}

/// Reassembly goes outcome by outcome: no outcome gives no data; a received
/// frame adds its 1016 data bytes after the data so far; a failed frame adds
/// nothing and leaves the data so far as it was.
pub proof fn lemma_received_data_steps(
    s: Seq<FrameResult>,
    number: u16,
    frame: Frame,
    error: &'static str,
)
    ensures
        received_data(Seq::<FrameResult>::empty()).len() == 0,
        received_data(s.push((FrameResult { number, result: FrameResultType::Success(frame) })))
            == received_data(s) + frame.spec_data(),
        received_data(s.push((FrameResult { number, result: FrameResultType::Error(error) })))
            == received_data(s),
        received_data(s.push((FrameResult { number, result: FrameResultType::Success(frame) }))).len()
            == received_data(s).len() + 1016,
{
    let ok = FrameResult { number, result: FrameResultType::Success(frame) };
    let failed = FrameResult { number, result: FrameResultType::Error(error) };
    assert(s.push(ok).drop_last() =~= s);
    assert(s.push(failed).drop_last() =~= s);
    assert(received_data(s) + seq![] =~= received_data(s));
}

/// The outcome `r` is the success of the frame read from `bytes`.
pub open spec fn received_from(r: FrameResult, bytes: Seq<u8>) -> bool {
    r.result matches FrameResultType::Success(g) && g.parsed_from(bytes)
}

/// Frames that survive the wire give back their data: when each outcome is
/// the success of the frame read from the bytes of the frame sent at the same
/// place, the data of the outcomes is the data of the frames sent.
pub proof fn lemma_frames_survive_wire(sent: Seq<Frame>, results: Seq<FrameResult>)
    requires
        results.len() == sent.len(),
        forall|i: int| 0 <= i < sent.len() ==> received_from(#[trigger] results[i], sent[i].spec_bytes()),
    ensures
        received_data(results) == frames_data(sent),
    decreases sent.len(),
{
    if sent.len() > 0 {
        let n: int = sent.len() - 1;
        assert forall|i: int| 0 <= i < n implies received_from(
            #[trigger] results.drop_last()[i],
            sent.drop_last()[i].spec_bytes(),
        ) by {
            assert(results.drop_last()[i] == results[i]);
            assert(sent.drop_last()[i] == sent[i]);
        }
        lemma_frames_survive_wire(sent.drop_last(), results.drop_last());
        let f = sent[n];
        assert(received_from(results[n], f.spec_bytes()));
        CorrelationId::lemma_view(f.header.correlation_id, f.header.correlation_id);
        assert(f.spec_bytes().subrange(8, 1024) =~= f.data@);
    }
}

// ---------------------------------------------------------------------------
// Messages
// ---------------------------------------------------------------------------

/// The MD5 digest of a byte string.
pub uninterp spec fn md5_digest(data: Seq<u8>) -> Seq<u8>;

/// The MD5 digest of `data`, computed by `Md5::new`, `Digest::input` and
/// `Digest::result` of the `crypto` crate (rust-crypto); the contract names
/// the result and says no more of it.
#[verifier::external_body]
fn md5_check_sum(data: &[u8]) -> (r: [u8; 16])
    ensures
        r@ == md5_digest(data@),
{
    let mut hasher = Md5::new();
    hasher.input(data);
    let mut check_sum: [u8; 16] = [0; 16];
    hasher.result(&mut check_sum);
    check_sum
}

/// A message to send: its correlation id, the MD5 check sum of its data, and the data.
pub struct Message {
    pub correlation_id: CorrelationId,
    check_sum: [u8; 16],
    pub data: Vec<u8>,
}

/// The number of zero bytes that fill up the last frame of `n` bytes of data.
pub open spec fn padding_len(n: nat) -> nat {
    if n % 1016 == 0 {
        0
    } else {
        (1016 - n % 1016) as nat
    }
}

/// The data followed by the zeros that fill up its last frame.
pub open spec fn padded(data: Seq<u8>) -> Seq<u8> {
    data + Seq::new(padding_len(data.len()), |i: int| 0u8)
}

/// Padding keeps the data as a prefix, adds fewer than a frame of zeros and
/// ends on a frame boundary.
pub proof fn lemma_padded(data: Seq<u8>)
    ensures
        padded(data).len() % 1016 == 0,
        data.len() <= padded(data).len() < data.len() + 1016,
        padded(data).take(data.len() as int) == data,
        forall|i: int| data.len() <= i < padded(data).len() ==> padded(data)[i] == 0,
{
    assert(padded(data).take(data.len() as int) =~= data);
}

impl Message {
    /// The message's correlation id.
    pub closed spec fn spec_correlation_id(&self) -> CorrelationId {
        self.correlation_id
    }

    /// The message's check sum.
    pub closed spec fn spec_check_sum(&self) -> Seq<u8> {
        self.check_sum@
    }

    /// The message's data.
    pub closed spec fn spec_data(&self) -> Seq<u8> {
        self.data@
    }

    /// The message made of the given parts.
    pub fn with_check_sum(correlation_id: CorrelationId, check_sum: [u8; 16], data: Vec<u8>) -> (r:
        Message)
        ensures
            r.spec_correlation_id() == correlation_id,
            r.spec_check_sum() == check_sum@,
            r.spec_data() == data@,
    {
        Message { correlation_id, check_sum, data }
    }

    /// A message of the given data, with a fresh random correlation id and
    /// the MD5 digest of the data as check sum.
    pub fn create(data: Vec<u8>) -> (r: Message)
        ensures
            r.spec_data() == data@,
            r.spec_check_sum() == md5_digest(data@),
    {
        let check_sum = md5_check_sum(data.as_slice());
        Message::with_check_sum(CorrelationId::new(), check_sum, data)
    }

    /// The message's check sum.
    pub fn check_sum(&self) -> (r: [u8; 16])
        ensures
            r@ == self.spec_check_sum(),
    {
        self.check_sum
    }

    /// Pads the data with zeros up to a whole number of frames and cuts it
    /// into frames numbered from 1, each with the message's correlation id.
    /// The frame numbers are 16-bit, so the data must fit in 65534 frames.
    pub fn create_frames(&mut self) -> (frames: Vec<Frame>)
        requires
            old(self).spec_data().len() <= 65534 * 1016,
        ensures
            final(self).spec_data() == padded(old(self).spec_data()),
            final(self).spec_correlation_id() == old(self).spec_correlation_id(),
            final(self).spec_check_sum() == old(self).spec_check_sum(),
            frames_data(frames@) == final(self).spec_data(),
            frames.len() * 1016 == final(self).spec_data().len(),
            forall|i: int|
                0 <= i < frames.len() ==> (#[trigger] frames@[i]).spec_header().correlation_id
                    == old(self).spec_correlation_id() && frames@[i].spec_header().frame_number
                    == i + 1 && frames@[i].spec_data() == final(self).spec_data().subrange(
                    1016 * i,
                    1016 * i + 1016,
                ),
    {
        let size: usize = self.data.len();
        let rem: usize = size % FRAME_DATA_SIZE;
        let mut frame_count: usize = size / FRAME_DATA_SIZE;
        let mut padding: usize = 0;
        if rem > 0 {
            frame_count = frame_count + 1;
            padding = FRAME_DATA_SIZE - rem;
        }
        let mut frames: Vec<Frame> = Vec::with_capacity(frame_count);

        let ghost original = self.data@;
        let mut i: usize = 0;
        while i < padding
            invariant
                i <= padding,
                padding == padding_len(original.len()),
                self.data@ == original + Seq::new(i as nat, |k: int| 0u8),
                self.correlation_id == old(self).correlation_id,
                self.check_sum == old(self).check_sum,
            decreases padding - i,
        {
            self.data.push(0);
            assert(self.data@ =~= original + Seq::new((i + 1) as nat, |k: int| 0u8));
            i = i + 1;
        }
        assert(self.data@ =~= padded(original));
        proof {
            lemma_padded(original);
        }

        let ghost total: int = (self.data.len() / 1016) as int;
        let mut frame_no: u16 = 1;
        let mut start: usize = 0;
        while start < self.data.len()
            invariant
                self.data@ == padded(original),
                self.data.len() == 1016 * total,
                total <= 65534,
                self.correlation_id == old(self).correlation_id,
                self.check_sum == old(self).check_sum,
                start == 1016 * frames.len(),
                start <= self.data.len(),
                frame_no == frames.len() + 1,
                frames_data(frames@) == self.data@.take(start as int),
                forall|k: int|
                    0 <= k < frames.len() ==> (#[trigger] frames@[k]).spec_header().correlation_id
                        == self.correlation_id && frames@[k].spec_header().frame_number == k + 1
                        && frames@[k].spec_data() == self.data@.subrange(1016 * k, 1016 * k + 1016),
            decreases self.data.len() - start,
        {
            let mut buf: [u8; 1016] = [0; 1016];
            let mut j: usize = 0;
            while j < FRAME_DATA_SIZE
                invariant
                    j <= FRAME_DATA_SIZE,
                    start + 1016 <= self.data.len(),
                    forall|k: int| 0 <= k < j ==> buf@[k] == self.data@[start + k],
                decreases FRAME_DATA_SIZE - j,
            {
                buf[j] = self.data[start + j];
                j = j + 1;
            }
            assert(buf@ =~= self.data@.subrange(start as int, start + 1016));
            let frame = Frame {
                header: FrameHeader::generate(self.correlation_id, frame_no),
                data: buf,
            };
            let ghost before = frames@;
            frames.push(frame);
            assert(frames@.drop_last() =~= before);
            assert(self.data@.take(start + 1016) =~= self.data@.take(start as int) + buf@);
            frame_no = frame_no + 1;
            start = start + FRAME_DATA_SIZE;
        }
        assert(self.data@.take(start as int) =~= self.data@);
        frames
    }
}

} // verus!
