use p2p_chat::message::{MessageHeader, MessageType, read_be_u16};

#[test]
fn header_bytes() {
    assert_eq!(MessageHeader::TextMessage.byte(), 0);
    assert_eq!(MessageHeader::UpdateConnection.byte(), 1);
    assert_eq!(MessageHeader::Close.byte(), 2);
    assert_eq!(MessageHeader::Connect.byte(), 3);
}

#[test]
fn text_message_bytes() {
    let m = MessageType::TextMessage("hi!".to_string());
    assert_eq!(m.as_bytes(), vec![0, b'h', b'i', b'!']);
}

#[test]
fn empty_text_message_bytes() {
    let m = MessageType::TextMessage(String::new());
    assert_eq!(m.as_bytes(), vec![0]);
}

#[test]
fn non_ascii_text_keeps_low_byte() {
    // 'é' is U+00E9 and 'Ā' is U+0100: each travels as its low byte.
    let m = MessageType::TextMessage("éĀ".to_string());
    assert_eq!(m.as_bytes(), vec![0, 0xe9, 0x00]);
}

#[test]
fn connect_bytes() {
    let m = MessageType::Connect([192, 168, 1, 20], 0x1f90);
    assert_eq!(m.as_bytes(), vec![3, 192, 168, 1, 20, 0x1f, 0x90]);
}

#[test]
fn update_connection_bytes() {
    let m = MessageType::UpdateConnection([1, 2, 3, 4], 65535);
    assert_eq!(m.as_bytes(), vec![1, 1, 2, 3, 4, 0xff, 0xff]);
}

#[test]
fn close_bytes() {
    assert_eq!(MessageType::Close.as_bytes(), vec![2]);
}

#[test]
fn decode_text() {
    match MessageType::from_bytes(&[0, b'y', b'o']) {
        Some(MessageType::TextMessage(t)) => assert_eq!(t, "yo"),
        _ => panic!("expected a text message"),
    }
}

#[test]
fn decode_text_invalid_utf8_is_replaced() {
    match MessageType::from_bytes(&[0, b'a', 0xff, b'b']) {
        Some(MessageType::TextMessage(t)) => assert_eq!(t, "a\u{fffd}b"),
        _ => panic!("expected a text message"),
    }
}

#[test]
fn decode_connect_ignores_trailing_bytes() {
    match MessageType::from_bytes(&[3, 10, 0, 0, 7, 0x30, 0x39, 99, 98]) {
        Some(MessageType::Connect(ip, port)) => {
            assert_eq!(ip, [10, 0, 0, 7]);
            assert_eq!(port, 12345);
        }
        _ => panic!("expected a connect message"),
    }
}

#[test]
fn decode_update_connection() {
    match MessageType::from_bytes(&[1, 8, 8, 4, 4, 0, 53]) {
        Some(MessageType::UpdateConnection(ip, port)) => {
            assert_eq!(ip, [8, 8, 4, 4]);
            assert_eq!(port, 53);
        }
        _ => panic!("expected an update message"),
    }
}

#[test]
fn decode_close() {
    assert!(matches!(MessageType::from_bytes(&[2, 5, 5]), Some(MessageType::Close)));
}

#[test]
fn decode_rejects_empty_unknown_and_short() {
    assert!(MessageType::from_bytes(&[]).is_none());
    assert!(MessageType::from_bytes(&[4]).is_none());
    assert!(MessageType::from_bytes(&[255, 1, 2]).is_none());
    assert!(MessageType::from_bytes(&[3, 1, 2, 3, 4, 5]).is_none());
    assert!(MessageType::from_bytes(&[1]).is_none());
}

#[test]
fn roundtrip_ascii_messages() {
    let msgs = vec![
        MessageType::TextMessage("hello, peer".to_string()),
        MessageType::Connect([127, 0, 0, 1], 55165),
        MessageType::UpdateConnection([0, 0, 0, 0], 0),
        MessageType::Close,
    ];
    for m in msgs {
        let bytes = m.as_bytes();
        let back = MessageType::from_bytes(&bytes).expect("decodes");
        assert_eq!(back.as_bytes(), bytes);
        assert_eq!(format!("{:?}", back), format!("{:?}", m));
    }
}

#[test]
fn roundtrip_fails_for_non_ascii_text() {
    let m = MessageType::TextMessage("é".to_string());
    match MessageType::from_bytes(&m.as_bytes()) {
        Some(MessageType::TextMessage(t)) => assert_eq!(t, "\u{fffd}"),
        _ => panic!("expected a text message"),
    }
}

#[test]
fn big_endian_reading() {
    assert_eq!(read_be_u16(0x12, 0x34), 0x1234);
    assert_eq!(read_be_u16(0, 0), 0);
    assert_eq!(read_be_u16(0xff, 0xff), 65535);
}
