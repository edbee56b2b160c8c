use rustik::common::CorrelationId;
use rustik::messaging::{Frame, FrameResult, FrameResultType, Message, MessageResult};

#[test]
fn message_check_sum_is_md5() {
    let m = Message::create(b"abc".to_vec());
    assert_eq!(
        m.check_sum(),
        [0x90, 0x01, 0x50, 0x98, 0x3c, 0xd2, 0x4f, 0xb0, 0xd6, 0x96, 0x3f, 0x7d, 0x28, 0xe1, 0x7f, 0x72]
    );
    assert_eq!(m.data, b"abc".to_vec());
    let e = Message::create(Vec::new());
    assert_eq!(
        e.check_sum(),
        [0xd4, 0x1d, 0x8c, 0xd9, 0x8f, 0x00, 0xb2, 0x04, 0xe9, 0x80, 0x09, 0x98, 0xec, 0xf8, 0x42, 0x7e]
    );
}

#[test]
fn message_with_check_sum_keeps_its_parts() {
    let m = Message::with_check_sum(CorrelationId::create([1; 6]), [7; 16], vec![1, 2]);
    assert_eq!(m.check_sum(), [7; 16]);
    assert_eq!(m.correlation_id.to_bytes(), [1; 6]);
    assert_eq!(m.data, vec![1, 2]);
}

#[test]
fn create_frames_pads_and_numbers() {
    let data: Vec<u8> = (0..2500u32).map(|i| (i % 256) as u8).collect();
    let mut m = Message::create(data.clone());
    let sum = m.check_sum();
    let frames = m.create_frames();
    assert_eq!(frames.len(), 3);
    assert_eq!(m.data.len(), 3 * 1016);
    assert_eq!(&m.data[..2500], &data[..]);
    assert!(m.data[2500..].iter().all(|b| *b == 0));
    assert_eq!(m.check_sum(), sum);
    for (i, f) in frames.iter().enumerate() {
        assert_eq!(f.header.frame_number as usize, i + 1);
        assert_eq!(f.header.correlation_id.to_bytes(), m.correlation_id.to_bytes());
        let bytes = f.to_bytes();
        assert_eq!(&bytes[8..], &m.data[1016 * i..1016 * (i + 1)]);
    }
}

#[test]
fn create_frames_exact_multiple_needs_no_padding() {
    let mut m = Message::create(vec![5u8; 2032]);
    let frames = m.create_frames();
    assert_eq!(frames.len(), 2);
    assert_eq!(m.data, vec![5u8; 2032]);
}

#[test]
fn create_frames_of_empty_message() {
    let mut m = Message::create(Vec::new());
    let frames = m.create_frames();
    assert_eq!(frames.len(), 0);
    assert!(m.data.is_empty());
}

#[test]
fn create_frames_of_one_byte() {
    let mut m = Message::create(vec![42]);
    let frames = m.create_frames();
    assert_eq!(frames.len(), 1);
    assert_eq!(m.data.len(), 1016);
    assert_eq!(m.data[0], 42);
    assert_eq!(frames[0].header.frame_number, 1);
}

#[test]
fn get_data_skips_failed_frames() {
    let mut buf = [0u8; 1024];
    buf[7] = 1;
    for i in 8..1024 {
        buf[i] = 3;
    }
    let f = Frame::create(buf);
    let mut r = MessageResult::create(CorrelationId::create([0; 6]), 2);
    assert!(r.get_data().is_empty());
    r.add_result(FrameResult::create_error(1, "lost"));
    r.add_result(FrameResult::create_success(2, f));
    assert_eq!(r.frame_results.len(), 2);
    assert_eq!(r.frame_results[0].number, 1);
    match &r.frame_results[0].result {
        FrameResultType::Error(e) => assert_eq!(*e, "lost"),
        FrameResultType::Success(_) => panic!("expected an error"),
    }
    assert_eq!(r.get_data(), vec![3u8; 1016]);
}
