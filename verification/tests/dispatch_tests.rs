use spindle::protocol::Message;
use spindle::protocol::MessageType;
use spindle::room::RoomManager;
use spindle::task::GameResponse;
use spindle::task::GameTask;
use spindle::worker::handle_session_message;
use spindle::worker::process_task;
use spindle::worker::worker_rooms;

fn text_to(r: Option<GameResponse>, to: usize) -> Vec<u8> {
    match r {
        Some(GameResponse::SendMessage { session_id, message }) => {
            assert_eq!(session_id, to);
            assert_eq!(message.msg_type, MessageType::Response);
            message.payload
        }
        other => panic!("unexpected response {:?}", other),
    }
}

#[test]
fn echo_is_sent_back() {
    let mut rooms = RoomManager::new();
    let r = handle_session_message(3, Message::echo(b"ping".to_vec()), &mut rooms);
    match r {
        Some(GameResponse::SendMessage { session_id, message }) => {
            assert_eq!(session_id, 3);
            assert_eq!(message.msg_type, MessageType::Echo);
            assert_eq!(message.payload, b"ping");
        }
        other => panic!("unexpected response {:?}", other),
    }
}

#[test]
fn lobby_has_id_one() {
    let (rooms, lobby) = worker_rooms();
    assert_eq!(lobby, 1);
    assert_eq!(rooms.get_room(1).unwrap().name(), "Lobby");
    assert_eq!(rooms.room_count(), 1);
}

#[test]
fn join_request_for_lobby() {
    let (mut rooms, lobby) = worker_rooms();
    let r = handle_session_message(3, Message::join_room(lobby), &mut rooms);
    assert_eq!(text_to(r, 3), b"Joined room 1".to_vec());
    assert_eq!(rooms.get_session_room(3), Some(1));
}

#[test]
fn join_request_creates_requested_room() {
    let (mut rooms, _lobby) = worker_rooms();
    let r = handle_session_message(3, Message::join_room(2), &mut rooms);
    assert_eq!(text_to(r, 3), b"Joined room 2".to_vec());
    assert_eq!(rooms.get_room(2).unwrap().name(), "Room 2");
    let r = handle_session_message(4, Message::join_room(77), &mut rooms);
    assert_eq!(text_to(r, 4), b"Joined room 77".to_vec());
    assert_eq!(rooms.get_room(77).unwrap().name(), "Room 77");
    assert!(rooms.get_room(77).unwrap().has_member(4));
    assert_eq!(rooms.get_session_room(4), Some(77));
    assert_eq!(rooms.room_count(), 3);
}

#[test]
fn join_request_on_fresh_manager() {
    let mut rooms = RoomManager::new();
    let r = handle_session_message(9, Message::join_room(5), &mut rooms);
    assert_eq!(text_to(r, 9), b"Joined room 5".to_vec());
    assert_eq!(rooms.get_session_room(9), Some(5));
    assert!(rooms.get_room(5).unwrap().has_member(9));
    assert_eq!(rooms.create_room("next".to_string(), 4), 6);
}

#[test]
fn short_join_request_is_dropped() {
    let mut rooms = RoomManager::new();
    let r = handle_session_message(3, Message::new(MessageType::JoinRoom, vec![1, 2]), &mut rooms);
    assert!(r.is_none());
    assert_eq!(rooms.room_count(), 0);
}

#[test]
fn leave_answers_with_room() {
    let (mut rooms, lobby) = worker_rooms();
    handle_session_message(3, Message::join_room(lobby), &mut rooms);
    let r = handle_session_message(3, Message::new(MessageType::LeaveRoom, vec![]), &mut rooms);
    assert_eq!(text_to(r, 3), b"Left room 1".to_vec());
    let r = handle_session_message(3, Message::new(MessageType::LeaveRoom, vec![]), &mut rooms);
    assert!(r.is_none());
}

#[test]
fn room_message_goes_to_others() {
    let (mut rooms, lobby) = worker_rooms();
    for s in [1usize, 2, 3] {
        handle_session_message(s, Message::join_room(lobby), &mut rooms);
    }
    let r = handle_session_message(2, Message::room_message(b"hey".to_vec()), &mut rooms);
    match r {
        Some(GameResponse::SendMessages { mut session_ids, message }) => {
            session_ids.sort();
            assert_eq!(session_ids, vec![1, 3]);
            assert_eq!(message.msg_type, MessageType::RoomMessage);
            assert_eq!(message.payload, b"hey");
        }
        other => panic!("unexpected response {:?}", other),
    }
    let r = handle_session_message(9, Message::room_message(b"x".to_vec()), &mut rooms);
    assert_eq!(text_to(r, 9), b"Not in any room".to_vec());
}

#[test]
fn response_messages_are_ignored() {
    let mut rooms = RoomManager::new();
    assert!(handle_session_message(1, Message::response(vec![]), &mut rooms).is_none());
}

#[test]
fn join_task_answers() {
    let (mut rooms, lobby) = worker_rooms();
    let r = process_task(&mut rooms, GameTask::JoinRoom { session_id: 5, room_id: lobby });
    assert_eq!(text_to(r, 5), b"Joined room 1".to_vec());
    let r = process_task(&mut rooms, GameTask::JoinRoom { session_id: 5, room_id: 40 });
    assert_eq!(text_to(r, 5), b"Failed to join room: Room 40 not found".to_vec());
}

#[test]
fn broadcast_task_excludes_session() {
    let (mut rooms, lobby) = worker_rooms();
    process_task(&mut rooms, GameTask::JoinRoom { session_id: 5, room_id: lobby });
    process_task(&mut rooms, GameTask::JoinRoom { session_id: 6, room_id: lobby });
    let r = process_task(
        &mut rooms,
        GameTask::BroadcastToRoom { room_id: lobby, message: Message::echo(vec![1]), exclude_session: Some(5) },
    );
    match r {
        Some(GameResponse::SendMessages { session_ids, .. }) => assert_eq!(session_ids, vec![6]),
        other => panic!("unexpected response {:?}", other),
    }
    let r = process_task(
        &mut rooms,
        GameTask::BroadcastToRoom { room_id: 99, message: Message::echo(vec![1]), exclude_session: None },
    );
    assert!(r.is_none());
}

#[test]
fn disconnect_leaves_and_closes() {
    let (mut rooms, lobby) = worker_rooms();
    process_task(&mut rooms, GameTask::JoinRoom { session_id: 5, room_id: lobby });
    let r = process_task(&mut rooms, GameTask::DisconnectSession { session_id: 5 });
    match r {
        Some(GameResponse::CloseSession { session_id }) => assert_eq!(session_id, 5),
        other => panic!("unexpected response {:?}", other),
    }
    assert_eq!(rooms.get_session_room(5), None);
    assert!(rooms.get_room(lobby).is_none());
    assert!(process_task(&mut rooms, GameTask::LeaveRoom { session_id: 5 }).is_none());
}

#[test]
fn send_to_session_passes_message() {
    let mut rooms = RoomManager::new();
    let r = process_task(&mut rooms, GameTask::SendToSession { session_id: 2, message: Message::echo(vec![4]) });
    match r {
        Some(GameResponse::SendMessage { session_id, message }) => {
            assert_eq!(session_id, 2);
            assert_eq!(message.payload, vec![4]);
        }
        other => panic!("unexpected response {:?}", other),
    }
}

#[test]
fn deliveries_fan_out() {
    let resp = GameResponse::SendMessages { session_ids: vec![4, 2], message: Message::echo(vec![1]) };
    let (d, close) = resp.deliveries();
    assert_eq!(d.len(), 2);
    assert_eq!(d[0].session_id, 4);
    assert_eq!(d[1].session_id, 2);
    assert_eq!(d[1].message.payload, vec![1]);
    assert!(close.is_none());
    let (d, close) = GameResponse::CloseSession { session_id: 8 }.deliveries();
    assert!(d.is_empty());
    assert_eq!(close, Some(8));
}
