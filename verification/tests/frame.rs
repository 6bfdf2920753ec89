use nanochat_ws::frame::Frame;

#[test]
fn frame_kinds_are_told_apart() {
    assert!(Frame::Text("x".to_string()).is_text());
    assert!(!Frame::Text("x".to_string()).is_binary());
    assert!(Frame::Binary(vec![1]).is_binary());
    assert!(!Frame::Binary(vec![1]).is_text());
    assert!(!Frame::Control(vec![]).is_text());
    assert!(!Frame::Control(vec![]).is_binary());
}

#[test]
fn frame_data_is_its_payload() {
    assert_eq!(Frame::Text("h\u{e9}".to_string()).data(), &[b'h', 0xc3, 0xa9]);
    assert_eq!(Frame::Binary(vec![0, 255, 7]).data(), &[0, 255, 7]);
    assert_eq!(Frame::Control(vec![9]).data(), &[9]);
    assert_eq!(Frame::Control(vec![]).data(), &[] as &[u8]);
}

#[test]
fn text_frame_is_its_own_text() {
    assert_eq!(Frame::Text("token".to_string()).to_text(), Some("token"));
    assert_eq!(Frame::Text(String::new()).to_text(), Some(""));
}

#[test]
fn other_frames_are_text_where_their_payload_is_utf8() {
    assert_eq!(Frame::Binary(vec![b'h', 0xc3, 0xa9]).to_text(), Some("h\u{e9}"));
    assert_eq!(Frame::Control(vec![b'o', b'k']).to_text(), Some("ok"));
    assert_eq!(Frame::Control(vec![]).to_text(), Some(""));
    assert_eq!(Frame::Binary(vec![0xc3, 0x28]).to_text(), None);
    assert_eq!(Frame::Binary(vec![0xff]).to_text(), None);
    assert_eq!(Frame::Control(vec![0xed, 0xa0, 0x80]).to_text(), None);
}
