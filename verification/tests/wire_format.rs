use rustik::common::{covert_bytes_to_hex, create_u16, u16_to_be_bytes, CorrelationId, NodeId, RequestSettings};
use rustik::headers::{Frame as CompactFrame, FrameResponse, Handshake, HandshakeResponse};
use rustik::messaging::{
    Frame, FrameHeader, FrameResponseHeader, HandshakeHeader, HandshakeResponseHeader,
};

fn handshake_bytes() -> [u8; 32] {
    let mut data = [0u8; 32];
    let head: [u8; 16] = [0xde, 0xad, 0xbe, 0xef, 0x03, 0xf8, 0x00, 0x02, 1, 2, 3, 4, 5, 6, 0x80, 0x01];
    data[..16].copy_from_slice(&head);
    for i in 16..32 {
        data[i] = 0xee;
    }
    data
}

#[test]
fn create_u16_is_big_endian() {
    assert_eq!(create_u16([0x01, 0x02]), 0x0102);
    assert_eq!(create_u16([0x00, 0x00]), 0);
    assert_eq!(create_u16([0xff, 0xff]), 65535);
    assert_eq!(create_u16([0x03, 0xf8]), 1016);
}

#[test]
fn u16_bytes_round_trip() {
    assert_eq!(u16_to_be_bytes(0x0102), [0x01, 0x02]);
    assert_eq!(u16_to_be_bytes(65535), [0xff, 0xff]);
    for x in [0u16, 1, 255, 256, 1016, 40000, 65535] {
        assert_eq!(create_u16(u16_to_be_bytes(x)), x);
    }
}

#[test]
fn hex_text_of_bytes() {
    assert_eq!(covert_bytes_to_hex(vec![0x00, 0xab, 0x0f, 0x10, 0xff]), "00ab0f10ff");
    assert_eq!(covert_bytes_to_hex(vec![]), "");
    assert_eq!(covert_bytes_to_hex(vec![0x9a]), "9a");
}

#[test]
fn identifiers_keep_their_bytes() {
    let c = CorrelationId::create([1, 2, 3, 0xa4, 0xb5, 0xc6]);
    assert_eq!(c.to_bytes(), [1, 2, 3, 0xa4, 0xb5, 0xc6]);
    assert_eq!(c.to_string(), "010203a4b5c6");
    let n = NodeId::create([0x7f, 0x00, 0x00, 0x01]);
    assert_eq!(n.to_bytes(), [0x7f, 0, 0, 1]);
    assert_eq!(n.to_string(), "7f000001");
}

#[test]
fn fresh_identifiers_have_the_right_length() {
    let c = CorrelationId::new();
    assert_eq!(c.to_string().len(), 12);
    assert_eq!(CorrelationId::create(c.to_bytes()).to_bytes(), c.to_bytes());
    let n = NodeId::new();
    assert_eq!(n.to_string().len(), 8);
}

#[test]
fn request_size_is_frame_size_times_count() {
    let s = RequestSettings {
        frame_size: 1016,
        frame_count: 3,
        correlation_id: CorrelationId::create([0; 6]),
        from: NodeId::create([0; 4]),
    };
    assert_eq!(s.get_size(), 3048);
    let empty = RequestSettings { frame_count: 0, ..s };
    assert_eq!(empty.get_size(), 0);
}

#[test]
fn handshake_header_reads_its_fields() {
    let h = HandshakeHeader::create(handshake_bytes());
    let s = h.create_settings();
    assert_eq!(s.from.to_bytes(), [0xde, 0xad, 0xbe, 0xef]);
    assert_eq!(s.frame_size, 1016);
    assert_eq!(s.frame_count, 2);
    assert_eq!(s.correlation_id.to_bytes(), [1, 2, 3, 4, 5, 6]);
    let r = h.create_response();
    assert_eq!(r.correlation_id.to_bytes(), [1, 2, 3, 4, 5, 6]);
    assert_eq!(r.flags, [0x80, 0x01]);
}

#[test]
fn handshake_header_round_trip() {
    let data = handshake_bytes();
    let h = HandshakeHeader::create(data);
    assert_eq!(h.to_bytes()[..], data[..16]);
    let g = HandshakeHeader::generate(
        NodeId::create([9, 8, 7, 6]),
        512,
        7,
        CorrelationId::create([0xaa; 6]),
        [1, 2],
    );
    let bytes = g.to_bytes();
    assert_eq!(bytes, [9, 8, 7, 6, 0x02, 0x00, 0x00, 0x07, 0xaa, 0xaa, 0xaa, 0xaa, 0xaa, 0xaa, 1, 2]);
    let mut full = [0u8; 32];
    full[..16].copy_from_slice(&bytes);
    assert_eq!(HandshakeHeader::create(full).to_bytes(), bytes);
}

#[test]
fn handshake_response_round_trip() {
    let data = [1, 2, 3, 4, 5, 6, 7, 8];
    let r = HandshakeResponseHeader::create(data);
    assert_eq!(r.correlation_id.to_bytes(), [1, 2, 3, 4, 5, 6]);
    assert_eq!(r.flags, [7, 8]);
    assert_eq!(r.to_bytes(), data);
}

#[test]
fn frame_header_round_trip() {
    let data = [0x10, 0x20, 0x30, 0x40, 0x50, 0x60, 0x01, 0x02];
    let h = FrameHeader::create(data);
    assert_eq!(h.frame_number, 0x0102);
    assert_eq!(h.correlation_id.to_bytes(), [0x10, 0x20, 0x30, 0x40, 0x50, 0x60]);
    assert_eq!(h.to_bytes(), data);
    let g = FrameHeader::generate(CorrelationId::create([1; 6]), 300);
    assert_eq!(g.to_bytes(), [1, 1, 1, 1, 1, 1, 0x01, 0x2c]);
    let _ = FrameResponseHeader::create(data);
}

#[test]
fn frame_round_trip() {
    let mut data = [0u8; 1024];
    for (i, b) in data.iter_mut().enumerate() {
        *b = (i % 251) as u8;
    }
    let f = Frame::create(data);
    assert_eq!(f.header.frame_number, create_u16([data[6], data[7]]));
    assert_eq!(f.to_bytes()[..], data[..]);
    assert_eq!(f.header().to_bytes()[..], data[..8]);
}

#[test]
fn compact_headers_read_the_same_layout() {
    let data = handshake_bytes();
    let h = Handshake::create(data);
    let s = h.create_settings();
    let m = HandshakeHeader::create(data).create_settings();
    assert_eq!(s.frame_size, m.frame_size);
    assert_eq!(s.frame_count, m.frame_count);
    assert_eq!(s.from.to_bytes(), m.from.to_bytes());
    assert_eq!(s.correlation_id.to_bytes(), m.correlation_id.to_bytes());
    let r = h.create_response();
    assert_eq!(r.to_bytes(), [1, 2, 3, 4, 5, 6, 0x80, 0x01]);
    let back = HandshakeResponse::create(r.to_bytes());
    assert_eq!(back.to_bytes(), r.to_bytes());
    let _ = CompactFrame::create([1, 2, 3, 4, 5, 6, 0, 1]);
    let _ = FrameResponse::create([1, 2, 3, 4, 5, 6, 0, 1]);
}
