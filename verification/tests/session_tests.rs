use spindle::buffer_pool::BufferPool;
use spindle::protocol::FrameError;
use spindle::protocol::Message;
use spindle::protocol::MessageType;
use spindle::session::read_reserve_amount;
use spindle::session::refused_frame;
use spindle::session::should_close;
use spindle::session::Session;
use spindle::session::SessionState;

#[test]
fn test_session_state() {}

#[test]
fn new_session_takes_two_buffers() {
    let mut pool = BufferPool::new(256, 4, 8);
    let session = Session::new(7, &mut pool);
    assert_eq!(session.id(), 7);
    assert_eq!(session.state(), SessionState::Active);
    assert_eq!(session.room_id(), None);
    assert_eq!(session.read_buffer_len(), 0);
    assert_eq!(session.write_buffer_len(), 0);
    assert_eq!(pool.stats().allocated, 2);
    assert_eq!(pool.stats().available, 2);
    session.recycle(&mut pool);
    assert_eq!(pool.stats().returned, 2);
    assert_eq!(pool.stats().available, 4);
}

#[test]
fn received_frames_drain_in_order() {
    let mut pool = BufferPool::new(256, 0, 8);
    let mut session = Session::new(1, &mut pool);
    let mut bytes = Vec::new();
    bytes.extend_from_slice(&Message::echo(b"a".to_vec()).encode());
    bytes.extend_from_slice(&Message::room_message(b"bc".to_vec()).encode());
    bytes.extend_from_slice(&[0, 0, 0, 9]);
    session.reserve_read_space();
    assert_eq!(session.receive(&bytes), bytes.len());
    let (messages, error) = session.drain_messages();
    assert!(error.is_none());
    assert_eq!(messages.len(), 2);
    assert_eq!(messages[0].msg_type, MessageType::Echo);
    assert_eq!(messages[0].payload, b"a");
    assert_eq!(messages[1].msg_type, MessageType::RoomMessage);
    assert_eq!(messages[1].payload, b"bc");
    assert_eq!(session.read_buffer_len(), 4);
}

#[test]
fn drain_stops_at_refused_frame() {
    let mut pool = BufferPool::new(256, 0, 8);
    let mut session = Session::new(1, &mut pool);
    let mut bytes = Vec::new();
    bytes.extend_from_slice(&Message::echo(b"x".to_vec()).encode());
    bytes.extend_from_slice(&[0, 0, 0, 2, 0x33, 1]);
    session.receive(&bytes);
    let (messages, error) = session.drain_messages();
    assert_eq!(messages.len(), 1);
    assert_eq!(error, Some(FrameError::InvalidMessageType(0x33)));
    assert_eq!(session.read_buffer_len(), 1);
}

#[test]
fn zero_length_frame_stops_drain() {
    let mut pool = BufferPool::new(256, 0, 8);
    let mut session = Session::new(1, &mut pool);
    let mut bytes = Vec::new();
    bytes.extend_from_slice(&Message::echo(b"x".to_vec()).encode());
    bytes.extend_from_slice(&[0, 0, 0, 0]);
    session.receive(&bytes);
    let (messages, error) = session.drain_messages();
    assert_eq!(messages.len(), 1);
    assert_eq!(messages[0].payload, b"x");
    assert_eq!(error, Some(FrameError::EmptyFrame));
    assert_eq!(session.read_buffer_len(), 4);
}

#[test]
fn parse_message_one_at_a_time() {
    let mut pool = BufferPool::new(256, 0, 8);
    let mut session = Session::new(1, &mut pool);
    session.receive(&Message::response(b"r".to_vec()).encode());
    let m = session.parse_message().unwrap().unwrap();
    assert_eq!(m.payload, b"r");
    assert!(session.parse_message().unwrap().is_none());
}

#[test]
fn queued_messages_are_written_and_consumed() {
    let mut pool = BufferPool::new(256, 0, 8);
    let mut session = Session::new(1, &mut pool);
    assert!(!session.has_pending_writes());
    session.enqueue_message(Message::echo(b"hi".to_vec()));
    assert!(session.has_pending_writes());
    assert_eq!(session.pending_writes(), &[0, 0, 0, 3, 1, b'h', b'i']);
    session.consume_written(5);
    assert_eq!(session.pending_writes(), b"hi");
    session.consume_written(2);
    assert!(!session.has_pending_writes());
    assert_eq!(session.write_buffer_len(), 0);
}

#[test]
fn session_state_changes() {
    let mut pool = BufferPool::new(256, 0, 8);
    let mut session = Session::new(1, &mut pool);
    session.set_room_id(Some(4));
    assert_eq!(session.room_id(), Some(4));
    session.mark_read_closed();
    assert_eq!(session.state(), SessionState::ReadClosed);
    assert!(!session.is_closed());
    session.close();
    assert!(session.is_closed());
}

#[test]
fn close_decision() {
    assert!(!should_close(false, false, false, false, false, false, false, false));
    assert!(should_close(true, false, false, false, false, false, false, false));
    assert!(should_close(false, false, false, false, false, false, false, true));
    assert!(should_close(false, false, false, false, false, true, false, false));
}

#[test]
fn read_reserve_decision() {
    assert_eq!(read_reserve_amount(2047, 1024), 4096);
    assert_eq!(read_reserve_amount(2048, 1024), 0);
    assert_eq!(read_reserve_amount(0, 0), 4096);
    assert_eq!(read_reserve_amount(8192, 8192), 4096);
}

#[test]
fn read_space_is_reserved_once() {
    let mut pool = BufferPool::new(256, 0, 8);
    let mut session = Session::new(1, &mut pool);
    assert_eq!(session.reserve_read_space(), 4096);
    assert_eq!(session.reserve_read_space(), 0);
    assert_eq!(session.reserve_read_space_with_capacity(100), 4096);
    assert_eq!(session.read_buffer_len(), 0);
}

#[test]
fn refused_frame_ends_event_only_after_hand_off() {
    assert_eq!(refused_frame(false, Some(FrameError::EmptyFrame)), Some(FrameError::EmptyFrame));
    assert_eq!(refused_frame(true, Some(FrameError::EmptyFrame)), None);
    assert_eq!(refused_frame(false, None), None);
}
