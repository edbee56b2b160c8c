use rustik::common::{CorrelationId, NodeId, RequestSettings};
use rustik::listener;
use rustik::logging::{LogItem, LogItemType};
use rustik::messaging::{FrameResultType, HandshakeHeader, Message};

#[test]
fn handshake_answer_echoes_id_and_flags() {
    let h = HandshakeHeader::generate(
        NodeId::create([1, 2, 3, 4]),
        1016,
        3,
        CorrelationId::create([9, 8, 7, 6, 5, 4]),
        [0x11, 0x22],
    );
    let mut data = [0xffu8; 32];
    data[..16].copy_from_slice(&h.to_bytes());
    let (response, settings) = listener::handle_handshake(data);
    assert_eq!(response, [9, 8, 7, 6, 5, 4, 0x11, 0x22]);
    assert_eq!(settings.frame_size, 1016);
    assert_eq!(settings.frame_count, 3);
    assert_eq!(settings.from.to_bytes(), [1, 2, 3, 4]);
    assert_eq!(settings.correlation_id.to_bytes(), [9, 8, 7, 6, 5, 4]);
}

#[test]
fn frames_sent_are_reassembled() {
    let data: Vec<u8> = (0..3000u32).map(|i| (i * 7 % 256) as u8).collect();
    let mut m = Message::create(data.clone());
    let frames = m.create_frames();
    let settings = RequestSettings {
        frame_size: 1016,
        frame_count: frames.len() as u16,
        correlation_id: m.correlation_id,
        from: NodeId::create([0; 4]),
    };
    let buffers: Vec<[u8; 1024]> = frames.iter().map(|f| f.to_bytes()).collect();
    let result = listener::handle_request(&settings, buffers);
    assert_eq!(result.frame_results.len(), 3);
    for (i, r) in result.frame_results.iter().enumerate() {
        assert_eq!(r.number as usize, i + 1);
        assert!(matches!(r.result, FrameResultType::Success(_)));
    }
    let received = result.get_data();
    assert_eq!(received, m.data);
    assert_eq!(&received[..3000], &data[..]);
}

#[test]
fn listener_accepts_every_frame() {
    let f = rustik::messaging::Frame::create([0u8; 1024]);
    assert_eq!(listener::handle_frame(&f), Ok(()));
}

#[test]
fn frames_fail_without_listener() {
    let f = rustik::messaging::Frame::create([0u8; 1024]);
    assert_eq!(rustik::handle_frame(&f), Err("Not implemented"));
    let mut buf = [0u8; 1024];
    buf[7] = 4;
    let settings = RequestSettings {
        frame_size: 1016,
        frame_count: 1,
        correlation_id: CorrelationId::create([1; 6]),
        from: NodeId::create([0; 4]),
    };
    let result = rustik::handle_request(&settings, vec![buf]);
    assert_eq!(result.frame_results.len(), 1);
    assert_eq!(result.frame_results[0].number, 4);
    match &result.frame_results[0].result {
        FrameResultType::Error(e) => assert_eq!(*e, "Not implemented"),
        FrameResultType::Success(_) => panic!("expected an error"),
    }
    assert!(result.get_data().is_empty());
}

#[test]
fn log_items_keep_their_parts() {
    let kinds = [
        (LogItem::info(String::from("a"), String::from("m")), LogItemType::Information),
        (LogItem::success(String::from("a"), String::from("m")), LogItemType::Success),
        (LogItem::error(String::from("a"), String::from("m")), LogItemType::Error),
        (LogItem::warning(String::from("a"), String::from("m")), LogItemType::Warning),
        (LogItem::debug(String::from("a"), String::from("m")), LogItemType::Debug),
    ];
    for (item, kind) in kinds.iter() {
        assert_eq!(item.from(), "a");
        assert_eq!(item.message(), "m");
        assert_eq!(item.item_type(), *kind);
    }
}
