use bytes::BufMut;
use bytes::BytesMut;
use spindle::protocol::FrameError;
use spindle::protocol::FrameParser;
use spindle::protocol::Message;
use spindle::protocol::MessageType;

#[test]
fn test_message_encode_decode() {
    let msg = Message::echo(b"Hello, World!".to_vec());
    let encoded = msg.encode();

    let mut buf = BytesMut::from(encoded.as_ref());
    let decoded = FrameParser::parse(&mut buf).unwrap().unwrap();

    assert_eq!(decoded.msg_type, MessageType::Echo);
    assert_eq!(decoded.payload, b"Hello, World!");
}

#[test]
fn test_incomplete_message() {
    let mut buf = BytesMut::new();
    buf.put_u32(10);

    let result = FrameParser::parse(&mut buf).unwrap();
    assert!(result.is_none());
}

#[test]
fn test_multiple_messages() {
    let msg1 = Message::echo(b"First".to_vec());
    let msg2 = Message::echo(b"Second".to_vec());

    let mut buf = BytesMut::new();
    buf.extend_from_slice(&msg1.encode());
    buf.extend_from_slice(&msg2.encode());

    let decoded1 = FrameParser::parse(&mut buf).unwrap().unwrap();
    assert_eq!(decoded1.payload, b"First");

    let decoded2 = FrameParser::parse(&mut buf).unwrap().unwrap();
    assert_eq!(decoded2.payload, b"Second");

    assert_eq!(buf.len(), 0);
}

#[test]
fn test_join_room_message() {
    let room_id = 12345u64;
    let msg = Message::join_room(room_id);

    let encoded = msg.encode();
    let mut buf = BytesMut::from(encoded.as_ref());
    let decoded = FrameParser::parse(&mut buf).unwrap().unwrap();

    assert_eq!(decoded.msg_type, MessageType::JoinRoom);

    let mut room_bytes = [0u8; 8];
    room_bytes.copy_from_slice(&decoded.payload);
    let parsed_room_id = u64::from_be_bytes(room_bytes);

    assert_eq!(parsed_room_id, room_id);
}

#[test]
fn encode_writes_length_type_and_payload() {
    let msg = Message::room_message(vec![7, 8, 9]);
    let encoded = msg.encode();
    assert_eq!(&encoded[..], &[0, 0, 0, 4, 0x04, 7, 8, 9]);
    assert_eq!(msg.frame_size(), 8);
    assert_eq!(encoded.len(), msg.frame_size());
}

#[test]
fn encode_empty_payload() {
    let msg = Message::response(Vec::new());
    let encoded = msg.encode();
    assert_eq!(&encoded[..], &[0, 0, 0, 1, 0x05]);
    assert_eq!(msg.frame_size(), 5);
}

#[test]
fn message_type_codes_round_trip() {
    let all = [
        MessageType::Echo,
        MessageType::JoinRoom,
        MessageType::LeaveRoom,
        MessageType::RoomMessage,
        MessageType::Response,
    ];
    for (i, t) in all.iter().enumerate() {
        assert_eq!(t.code(), (i + 1) as u8);
        assert_eq!(MessageType::from_u8(t.code()), Some(*t));
    }
    assert_eq!(MessageType::from_u8(0), None);
    assert_eq!(MessageType::from_u8(6), None);
    assert_eq!(MessageType::from_u8(0xff), None);
}

#[test]
fn join_room_payload_is_big_endian() {
    let msg = Message::join_room(0x0102030405060708);
    assert_eq!(msg.payload, vec![1, 2, 3, 4, 5, 6, 7, 8]);
    assert_eq!(spindle::protocol::read_be_u64(&msg.payload), 0x0102030405060708);
}

#[test]
fn parse_refuses_oversized_length() {
    let mut buf = BytesMut::new();
    buf.put_u32(16 * 1024 * 1024 + 1);
    buf.put_u8(0x01);
    let before = buf.len();
    assert_eq!(
        FrameParser::parse(&mut buf).unwrap_err(),
        FrameError::MessageTooLarge(16 * 1024 * 1024 + 1)
    );
    assert_eq!(buf.len(), before);
}

#[test]
fn parse_accepts_largest_length_field() {
    let mut buf = BytesMut::new();
    buf.put_u32(16 * 1024 * 1024);
    buf.put_u8(0x01);
    assert!(FrameParser::parse(&mut buf).unwrap().is_none());
    assert_eq!(buf.len(), 5);
}

#[test]
fn parse_refuses_unknown_type_and_consumes_header() {
    let mut buf = BytesMut::new();
    buf.put_u32(3);
    buf.put_u8(0x09);
    buf.put_slice(&[1, 2]);
    buf.put_slice(&[42]);
    assert_eq!(
        FrameParser::parse(&mut buf).unwrap_err(),
        FrameError::InvalidMessageType(0x09)
    );
    assert_eq!(&buf[..], &[1, 2, 42]);
}

#[test]
fn parse_short_header_consumes_nothing() {
    let mut buf = BytesMut::from(&[0u8, 0, 0][..]);
    assert!(FrameParser::parse(&mut buf).unwrap().is_none());
    assert_eq!(buf.len(), 3);
}

#[test]
fn every_prefix_of_a_frame_is_incomplete() {
    let frame = Message::echo(b"abc".to_vec()).encode();
    for k in 0..frame.len() {
        let mut buf = BytesMut::from(&frame[..k]);
        assert!(!FrameParser::has_complete_frame(&buf));
        assert!(FrameParser::parse(&mut buf).unwrap().is_none());
        assert_eq!(buf.len(), k);
    }
    let buf = BytesMut::from(&frame[..]);
    assert!(FrameParser::has_complete_frame(&buf));
}

#[test]
fn frame_round_trip_leaves_following_bytes() {
    let mut buf = BytesMut::from(&Message::response(b"ok".to_vec()).encode()[..]);
    buf.put_slice(&[0, 0]);
    let m = FrameParser::parse(&mut buf).unwrap().unwrap();
    assert_eq!(m.msg_type, MessageType::Response);
    assert_eq!(m.payload, b"ok");
    assert_eq!(&buf[..], &[0, 0]);
}

#[test]
fn empty_frame_is_refused() {
    let mut buf = BytesMut::new();
    buf.put_u32(0);
    assert!(FrameParser::has_complete_frame(&buf));
    assert_eq!(FrameParser::parse(&mut buf).unwrap_err(), FrameError::EmptyFrame);
    assert_eq!(&buf[..], &[0, 0, 0, 0]);
    let mut with_byte = BytesMut::from(&[0u8, 0, 0, 0, 1][..]);
    assert_eq!(FrameParser::parse(&mut with_byte).unwrap_err(), FrameError::EmptyFrame);
    assert_eq!(&with_byte[..], &[0, 0, 0, 0, 1]);
}

#[test]
fn duplicate_is_equal() {
    let m = Message::echo(vec![1, 2, 3]);
    let d = m.duplicate();
    assert_eq!(d.msg_type, m.msg_type);
    assert_eq!(d.payload, m.payload);
}
