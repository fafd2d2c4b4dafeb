use pqc_chat::room::RoomError;
use pqc_chat::{Participant, Room, RoomManager};

#[test]
fn test_create_room() {
    let room = Room::new("Test Room".to_string(), 10);
    assert_eq!(room.name, "Test Room");
    assert_eq!(room.max_participants, 10);
    assert!(!room.is_locked);
}

#[test]
fn test_add_participant() {
    let mut room = Room::new("Test Room".to_string(), 10);
    let participant = Participant::new("p1".to_string(), "User1".to_string());

    room.add_participant(participant).unwrap();
    assert_eq!(room.participant_count(), 1);
}

#[test]
fn test_room_capacity() {
    let mut room = Room::new("Test Room".to_string(), 2);

    let p1 = Participant::new("p1".to_string(), "User1".to_string());
    let p2 = Participant::new("p2".to_string(), "User2".to_string());
    let p3 = Participant::new("p3".to_string(), "User3".to_string());

    room.add_participant(p1).unwrap();
    room.add_participant(p2).unwrap();

    let result = room.add_participant(p3);
    assert!(matches!(result, Err(RoomError::RoomFull)));
}

#[test]
fn test_room_manager() {
    let mut manager = RoomManager::new();

    let room_id = manager.create_room("Test Room".to_string(), 10).unwrap();

    let participant = Participant::new("p1".to_string(), "User1".to_string());
    manager.join_room(&room_id, participant).unwrap();

    let participant_room = manager.get_participant_room("p1");
    assert!(participant_room.is_some());
    assert_eq!(participant_room.unwrap().id, room_id);

    manager.leave_room("p1").unwrap();
    assert!(manager.get_participant_room("p1").is_none());
}

#[test]
fn capacity_scenario_join_full_leave_join() {
    let mut manager = RoomManager::new();
    let rid = manager.create_room("Test".to_string(), 2).unwrap();
    assert_eq!(manager.join_room(&rid, Participant::new("p1".to_string(), "A".to_string())), Ok(()));
    assert_eq!(manager.join_room(&rid, Participant::new("p2".to_string(), "B".to_string())), Ok(()));
    assert_eq!(
        manager.join_room(&rid, Participant::new("p3".to_string(), "C".to_string())),
        Err(RoomError::RoomFull)
    );
    assert_eq!(manager.leave_room("p1"), Ok(()));
    assert_eq!(manager.join_room(&rid, Participant::new("p3".to_string(), "C".to_string())), Ok(()));
    let room = manager.get_room(&rid).unwrap();
    assert_eq!(room.get_participant_ids(), vec!["p2".to_string(), "p3".to_string()]);
}

#[test]
fn joining_another_room_releases_the_first() {
    let mut manager = RoomManager::new();
    let a = manager.create_room("A".to_string(), 5).unwrap();
    let b = manager.create_room("B".to_string(), 5).unwrap();
    manager.join_room(&a, Participant::new("p1".to_string(), "U".to_string())).unwrap();
    manager.join_room(&b, Participant::new("p1".to_string(), "U".to_string())).unwrap();
    assert_eq!(manager.get_room(&a).unwrap().participant_count(), 0);
    assert_eq!(manager.get_room(&b).unwrap().participant_count(), 1);
    assert_eq!(manager.get_participant_room("p1").unwrap().id, b);
}

#[test]
fn failed_join_still_releases_previous_room() {
    let mut manager = RoomManager::new();
    let a = manager.create_room("A".to_string(), 5).unwrap();
    manager.join_room(&a, Participant::new("p1".to_string(), "U".to_string())).unwrap();
    assert_eq!(
        manager.join_room("missing", Participant::new("p1".to_string(), "U".to_string())),
        Err(RoomError::RoomNotFound)
    );
    assert!(manager.get_participant_room("p1").is_none());
    assert_eq!(manager.get_room(&a).unwrap().participant_count(), 0);
}

#[test]
fn leave_without_room_fails() {
    let mut manager = RoomManager::new();
    assert_eq!(manager.leave_room("nobody"), Err(RoomError::ParticipantNotFound));
}

#[test]
fn locked_room_refuses() {
    let mut room = Room::new("L".to_string(), 3);
    room.is_locked = true;
    let r = room.add_participant(Participant::new("p1".to_string(), "U".to_string()));
    assert_eq!(r, Err(RoomError::RoomLocked));
    assert_eq!(room.participant_count(), 0);
}

#[test]
fn zero_capacity_room_is_full() {
    let mut room = Room::new("Z".to_string(), 0);
    assert_eq!(room.add_participant(Participant::new("p".to_string(), "U".to_string())), Err(RoomError::RoomFull));
}

#[test]
fn same_id_replaces_member() {
    let mut room = Room::new("R".to_string(), 3);
    room.add_participant(Participant::new("p1".to_string(), "Old".to_string())).unwrap();
    room.add_participant(Participant::new("p1".to_string(), "New".to_string())).unwrap();
    assert_eq!(room.participant_count(), 1);
    assert_eq!(room.get_participant("p1").unwrap().username, "New");
}

#[test]
fn room_member_operations() {
    let mut room = Room::new("R".to_string(), 3);
    assert_eq!(room.id.len(), 36);
    room.add_participant(Participant::new("p1".to_string(), "U1".to_string())).unwrap();
    room.add_participant(Participant::new("p2".to_string(), "U2".to_string())).unwrap();
    assert!(room.set_participant_audio("p2", false));
    assert!(room.set_participant_video("p1", false));
    assert!(!room.set_participant_audio("p9", false));
    let p1 = room.get_participant("p1").unwrap();
    assert!(p1.audio_enabled && !p1.video_enabled);
    let p2 = room.get_participant("p2").unwrap();
    assert!(!p2.audio_enabled && p2.video_enabled);
    let names: Vec<String> = room.get_participants().into_iter().map(|p| p.username).collect();
    assert_eq!(names, vec!["U1".to_string(), "U2".to_string()]);
    assert_eq!(room.remove_participant("p1").unwrap().id, "p1");
    assert!(room.remove_participant("p1").is_none());
    assert_eq!(room.participant_count(), 1);
}

#[test]
fn manager_lookup_toggle_and_delete() {
    let mut manager = RoomManager::new();
    let a = manager.create_room("Lobby".to_string(), 4).unwrap();
    let b = manager.create_room("Lobby".to_string(), 4).unwrap();
    assert_ne!(a, b);
    assert_eq!(manager.get_room_by_name("Lobby").unwrap().id, a);
    assert!(manager.get_room_by_name("Other").is_none());
    assert_eq!(manager.list_rooms().len(), 2);
    manager.join_room(&b, Participant::new("p1".to_string(), "U".to_string())).unwrap();
    assert!(manager.set_participant_audio("p1", false));
    assert!(manager.set_participant_video("p1", false));
    assert!(!manager.set_participant_audio("p2", false));
    let p = manager.get_room(&b).unwrap().get_participant("p1").unwrap();
    assert!(!p.audio_enabled && !p.video_enabled);
    assert!(manager.delete_room(&b));
    assert!(!manager.delete_room(&b));
    assert!(manager.get_participant_room("p1").is_none());
    assert!(manager.create_room_with_id("fixed".to_string(), "F".to_string(), 2, 0));
    assert!(!manager.create_room_with_id("fixed".to_string(), "G".to_string(), 2, 0));
    assert_eq!(manager.list_rooms().len(), 2);
}

#[test]
fn error_messages() {
    assert_eq!(RoomError::RoomFull.message(), "Room is full");
    assert_eq!(RoomError::RoomNotFound.message(), "Room not found");
    assert_eq!(RoomError::ParticipantNotFound.message(), "Participant not found");
}
