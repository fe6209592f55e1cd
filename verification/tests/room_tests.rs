use spindle::room::Room;
use spindle::room::RoomError;
use spindle::room::RoomManager;

#[test]
fn test_room_creation() {
    let room = Room::new(1, "Test Room".to_string(), 10);
    assert_eq!(room.id(), 1);
    assert_eq!(room.name(), "Test Room");
    assert_eq!(room.max_members(), 10);
    assert_eq!(room.member_count(), 0);
}

#[test]
fn test_room_join_leave() {
    let mut room = Room::new(1, "Test Room".to_string(), 2);

    assert!(room.add_member(100));
    assert_eq!(room.member_count(), 1);

    assert!(room.add_member(200));
    assert_eq!(room.member_count(), 2);

    assert!(!room.can_join(300));

    assert!(room.remove_member(100));
    assert_eq!(room.member_count(), 1);

    assert!(room.can_join(300));
}

#[test]
fn test_room_manager() {
    let mut manager = RoomManager::new();

    let room_id = manager.create_room("Lobby".to_string(), 0);
    assert_eq!(room_id, 1);

    assert!(manager.join_room(100, room_id).is_ok());
    assert!(manager.join_room(200, room_id).is_ok());

    assert_eq!(manager.get_session_room(100), Some(room_id));

    let members = manager.get_room_members(room_id).unwrap();
    assert_eq!(members.len(), 2);

    assert_eq!(manager.leave_room(100), Some(room_id));
    assert_eq!(manager.get_session_room(100), None);
}

#[test]
fn test_room_members_except() {
    let mut room = Room::new(1, "Test".to_string(), 0);
    room.add_member(100);
    room.add_member(200);
    room.add_member(300);

    let members = room.members_except(200);
    assert_eq!(members.len(), 2);
    assert!(members.contains(&100));
    assert!(members.contains(&300));
    assert!(!members.contains(&200));
}

#[test]
fn add_member_twice_reports_false() {
    let mut room = Room::new(3, "R".to_string(), 0);
    assert!(room.add_member(1));
    assert!(!room.add_member(1));
    assert_eq!(room.member_count(), 1);
    assert!(room.has_member(1));
    assert!(!room.remove_member(2));
    assert!(room.remove_member(1));
    assert!(room.is_empty());
}

#[test]
fn full_room_refuses_member() {
    let mut room = Room::new(3, "R".to_string(), 1);
    assert!(room.add_member(1));
    assert!(!room.add_member(2));
    assert!(!room.has_member(2));
    assert_eq!(room.member_count(), 1);
    assert_eq!(room.members().len(), 1);
}

#[test]
fn join_unknown_room_fails() {
    let mut manager = RoomManager::default();
    assert_eq!(manager.join_room(5, 42), Err(RoomError::NotFound(42)));
    assert_eq!(manager.get_session_room(5), None);
    assert_eq!(RoomError::NotFound(42).text(), b"Room 42 not found".to_vec());
}

#[test]
fn join_full_room_fails() {
    let mut manager = RoomManager::new();
    let id = manager.create_room("Small".to_string(), 1);
    assert!(manager.join_room(1, id).is_ok());
    assert_eq!(manager.join_room(2, id), Err(RoomError::Full(id)));
    assert_eq!(manager.get_session_room(2), None);
    assert_eq!(RoomError::Full(7).text(), b"Room 7 is full".to_vec());
}

#[test]
fn join_moves_session_and_removes_emptied_room() {
    let mut manager = RoomManager::new();
    let a = manager.create_room("A".to_string(), 0);
    let b = manager.create_room("B".to_string(), 0);
    assert_eq!(b, 2);
    assert!(manager.join_room(10, a).is_ok());
    assert!(manager.join_room(10, b).is_ok());
    assert_eq!(manager.get_session_room(10), Some(b));
    assert!(manager.get_room(a).is_none());
    assert_eq!(manager.room_count(), 1);
    assert_eq!(manager.all_room_ids(), vec![b]);
}

#[test]
fn join_same_room_changes_nothing() {
    let mut manager = RoomManager::new();
    let a = manager.create_room("A".to_string(), 0);
    assert!(manager.join_room(10, a).is_ok());
    assert!(manager.join_room(10, a).is_ok());
    assert_eq!(manager.get_room(a).unwrap().member_count(), 1);
}

#[test]
fn leave_without_room_gives_none() {
    let mut manager = RoomManager::new();
    assert_eq!(manager.leave_room(3), None);
    let a = manager.create_room("A".to_string(), 0);
    assert!(manager.join_room(3, a).is_ok());
    assert!(manager.join_room(4, a).is_ok());
    assert_eq!(manager.leave_room(3), Some(a));
    assert_eq!(manager.get_room_members(a).unwrap(), vec![4]);
    assert_eq!(manager.get_room_members_except(a, 4).unwrap(), Vec::<usize>::new());
    assert_eq!(manager.leave_room(3), None);
}

#[test]
fn room_ids_are_fresh_and_increasing() {
    let mut manager = RoomManager::new();
    assert_eq!(manager.next_room_id(), 1);
    let mut ids = Vec::new();
    for i in 0..5 {
        ids.push(manager.create_room(format!("R{}", i), 0));
    }
    assert_eq!(ids, vec![1, 2, 3, 4, 5]);
    let mut all = manager.all_room_ids();
    all.sort();
    assert_eq!(all, ids);
    assert!(manager.get_room_members(9).is_none());
    assert!(manager.get_room_members_except(9, 1).is_none());
}

#[test]
fn get_room_mut_changes_the_room() {
    let mut manager = RoomManager::new();
    let a = manager.create_room("A".to_string(), 0);
    assert!(manager.get_room_mut(a).unwrap().add_member(8));
    assert!(manager.get_room(a).unwrap().has_member(8));
    assert!(manager.get_room_mut(99).is_none());
}

#[test]
fn create_room_with_id_uses_that_id_once() {
    let mut manager = RoomManager::new();
    assert!(manager.create_room_with_id(5, "Room 5".to_string(), 0));
    assert!(!manager.create_room_with_id(5, "Other".to_string(), 3));
    assert_eq!(manager.get_room(5).unwrap().name(), "Room 5");
    assert_eq!(manager.room_count(), 1);
    assert_eq!(manager.create_room("Next".to_string(), 2), 6);
    assert!(manager.create_room_with_id(3, "Room 3".to_string(), 0));
    assert_eq!(manager.create_room("Then".to_string(), 2), 7);
}

#[test]
fn join_moves_session_and_leave_removes_emptied_room() {
    let mut manager = RoomManager::new();
    let a = manager.create_room("A".to_string(), 0);
    let b = manager.create_room("B".to_string(), 0);
    manager.join_room(1, a).unwrap();
    manager.join_room(2, a).unwrap();
    manager.join_room(1, b).unwrap();
    assert_eq!(manager.get_session_room(1), Some(b));
    assert!(!manager.get_room(a).unwrap().has_member(1));
    assert_eq!(manager.get_room(a).unwrap().member_count(), 1);
    assert_eq!(manager.get_room(b).unwrap().member_count(), 1);
    assert_eq!(manager.leave_room(1), Some(b));
    assert!(manager.get_room(b).is_none());
    assert_eq!(manager.room_count(), 1);
    assert_eq!(manager.leave_room(1), None);
    assert_eq!(manager.room_count(), 1);
}
