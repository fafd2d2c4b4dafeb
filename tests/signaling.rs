use pqc_chat::crypto::kyber::{KyberKeyExchange, CIPHERTEXT_BYTES};
use pqc_chat::signaling::{Outbound, SignalingServer};
use pqc_chat::SignalingMessage;

fn to(out: &[Outbound], who: &str) -> Vec<SignalingMessage> {
    out.iter().filter(|o| o.recipient == who).map(|o| o.message.clone()).collect()
}

fn login(server: &mut SignalingServer, pid: &str, name: &str) {
    let out = server.handle_message(pid, SignalingMessage::Login { username: name.to_string() });
    assert_eq!(
        out[0].message,
        SignalingMessage::LoginResponse { success: true, participant_id: Some(pid.to_string()), error: None }
    );
}

fn create(server: &mut SignalingServer, pid: &str, name: &str, max: Option<u32>) -> String {
    let out = server.handle_message(pid, SignalingMessage::CreateRoom { name: name.to_string(), max_participants: max });
    match &out[0].message {
        SignalingMessage::RoomCreated { success: true, room_id: Some(id), room_name: Some(n), error: None } => {
            assert_eq!(n, name);
            id.clone()
        }
        other => panic!("unexpected reply {:?}", other),
    }
}

fn join(server: &mut SignalingServer, pid: &str, room: &str, name: &str) -> Vec<Outbound> {
    server.handle_message(pid, SignalingMessage::JoinRoom { room_id: room.to_string(), username: name.to_string() })
}

/// Three connected, logged-in participants; `a` and `b` share a room.
fn room_of_two() -> (SignalingServer, String, String, String, String) {
    let mut server = SignalingServer::new(10000, 10001);
    let a = server.connect().unwrap();
    let b = server.connect().unwrap();
    let c = server.connect().unwrap();
    login(&mut server, &a, "Alice");
    login(&mut server, &b, "Bob");
    login(&mut server, &c, "Carol");
    let room = create(&mut server, &a, "R", None);
    join(&mut server, &a, &room, "Alice");
    join(&mut server, &b, &room, "Bob");
    (server, a, b, c, room)
}

#[test]
fn chat_reaches_every_member_including_sender() {
    let (mut server, a, b, c, _) = room_of_two();
    let out = server.handle_message(&a, SignalingMessage::SendMessage { content: "hi".to_string() });
    for who in [&a, &b] {
        let got = to(&out, who);
        assert!(got.iter().any(|m| matches!(m,
            SignalingMessage::MessageReceived { sender_id, sender_username, content, .. }
                if sender_id == &a && sender_username == "Alice" && content == "hi")));
    }
    assert!(to(&out, &c).is_empty());
    assert_eq!(to(&out, &a).len(), 1);
    assert_eq!(out.len(), 2);
}

#[test]
fn sending_outside_a_room_is_an_error() {
    let (mut server, _a, _b, c, _) = room_of_two();
    let not_in_room = vec![SignalingMessage::Error { message: "Not in a room".to_string() }];
    let out = server.handle_message(&c, SignalingMessage::SendMessage { content: "hi".to_string() });
    assert_eq!(to(&out, &c), not_in_room);
    assert_eq!(out.len(), 1);
    let out = server.handle_message(&c, SignalingMessage::AudioData { data: vec![1] });
    assert_eq!(to(&out, &c), not_in_room);
    assert_eq!(out.len(), 1);
}

#[test]
fn undecodable_frame_closes_after_notice() {
    let (mut server, a, b, _c, _) = room_of_two();
    let (out, keep_open) = server.handle_frame(&a, None);
    assert!(!keep_open);
    assert_eq!(to(&out, &a), vec![SignalingMessage::Error { message: "Invalid message format".to_string() }]);
    assert!(to(&out, &b).is_empty());
    let (out, keep_open) = server.handle_frame(&a, Some(SignalingMessage::ListRooms));
    assert!(keep_open);
    assert!(matches!(&out[0].message, SignalingMessage::RoomList { .. }));
}

#[test]
fn audio_reaches_others_but_not_sender() {
    let (mut server, a, b, c, _) = room_of_two();
    let out = server.handle_message(&a, SignalingMessage::AudioData { data: vec![1, 2, 3] });
    assert_eq!(
        to(&out, &b),
        vec![SignalingMessage::AudioDataReceived { sender_id: a.clone(), data: vec![1, 2, 3] }]
    );
    assert!(to(&out, &a).is_empty());
    assert!(to(&out, &c).is_empty());
}

#[test]
fn invalid_public_key_keeps_connection_usable() {
    let mut server = SignalingServer::new(10000, 10001);
    let a = server.connect().unwrap();
    let out = server.handle_message(&a, SignalingMessage::KeyExchangeInit { public_key: vec![1, 2, 3] });
    assert_eq!(out.len(), 1);
    assert!(matches!(&out[0].message, SignalingMessage::Error { message } if message.starts_with("Key exchange failed")));
    login(&mut server, &a, "Alice");
}

#[test]
fn key_exchange_gives_both_sides_the_same_secret() {
    let mut server = SignalingServer::new(10000, 10001);
    let a = server.connect().unwrap();
    let client = KyberKeyExchange::new();
    let out = server.handle_message(&a, SignalingMessage::KeyExchangeInit { public_key: client.public_key_bytes() });
    match &out[0].message {
        SignalingMessage::KeyExchangeResponse { ciphertext } => {
            assert_eq!(ciphertext.len(), CIPHERTEXT_BYTES);
            assert_eq!(client.decapsulate(ciphertext).unwrap().len(), 32);
        }
        other => panic!("unexpected reply {:?}", other),
    }
}

#[test]
fn login_policy_requiring_key_exchange() {
    let mut server = SignalingServer::with_policy(10000, 10001, true);
    let a = server.connect().unwrap();
    let out = server.handle_message(&a, SignalingMessage::Login { username: "A".to_string() });
    assert_eq!(
        out[0].message,
        SignalingMessage::LoginResponse {
            success: false,
            participant_id: None,
            error: Some("Key exchange required".to_string())
        }
    );
    let client = KyberKeyExchange::new();
    server.handle_message(&a, SignalingMessage::KeyExchangeInit { public_key: client.public_key_bytes() });
    login(&mut server, &a, "A");
}

#[test]
fn join_notifies_others_and_lists_members() {
    let mut server = SignalingServer::new(10000, 10001);
    let a = server.connect().unwrap();
    let b = server.connect().unwrap();
    let room = create(&mut server, &a, "R", Some(3));
    join(&mut server, &a, &room, "Alice");
    let out = join(&mut server, &b, &room, "Bob");
    assert_eq!(
        to(&out, &a),
        vec![SignalingMessage::ParticipantJoined { participant_id: b.clone(), username: "Bob".to_string() }]
    );
    match &to(&out, &b)[0] {
        SignalingMessage::RoomJoined { success: true, room_id, participants: Some(ps), .. } => {
            assert_eq!(room_id.as_deref(), Some(room.as_str()));
            let ids: Vec<&str> = ps.iter().map(|p| p.id.as_str()).collect();
            assert_eq!(ids, vec![a.as_str(), b.as_str()]);
        }
        other => panic!("unexpected reply {:?}", other),
    }
}

#[test]
fn join_failures_are_typed_replies() {
    let mut server = SignalingServer::new(10000, 10001);
    let a = server.connect().unwrap();
    let b = server.connect().unwrap();
    let out = join(&mut server, &a, "nope", "A");
    assert_eq!(
        out[0].message,
        SignalingMessage::RoomJoined {
            success: false,
            room_id: None,
            room_name: None,
            participants: None,
            error: Some("Room not found".to_string())
        }
    );
    let room = create(&mut server, &a, "Solo", Some(1));
    join(&mut server, &a, &room, "A");
    let out = join(&mut server, &b, &room, "B");
    assert!(matches!(&out[0].message,
        SignalingMessage::RoomJoined { success: false, error: Some(e), .. } if e == "Room is full"));
}

#[test]
fn leave_and_disconnect_notify_room_mates() {
    let (mut server, a, b, _c, _) = room_of_two();
    let out = server.handle_message(&b, SignalingMessage::LeaveRoom);
    assert_eq!(to(&out, &a), vec![SignalingMessage::ParticipantLeft { participant_id: b.clone() }]);
    assert_eq!(to(&out, &b), vec![SignalingMessage::RoomLeft { success: true, error: None }]);
    let out = server.handle_message(&b, SignalingMessage::LeaveRoom);
    assert_eq!(
        out[0].message,
        SignalingMessage::RoomLeft { success: false, error: Some("Participant not found".to_string()) }
    );

    let (mut server, a, b, _c, room) = room_of_two();
    let out = server.disconnect(&a);
    assert_eq!(to(&out, &b), vec![SignalingMessage::ParticipantLeft { participant_id: a.clone() }]);
    assert_eq!(server.rooms().get_room(&room).unwrap().participant_count(), 1);
    assert!(server.handle_message(&a, SignalingMessage::ListRooms).is_empty());
}

#[test]
fn toggles_reach_others_and_sender() {
    let (mut server, a, b, c, room) = room_of_two();
    let out = server.handle_message(&a, SignalingMessage::ToggleAudio { enabled: false });
    let notice = SignalingMessage::AudioToggled { participant_id: a.clone(), enabled: false };
    assert_eq!(to(&out, &b), vec![notice.clone()]);
    assert_eq!(to(&out, &a), vec![notice]);
    assert!(to(&out, &c).is_empty());
    let p = server.rooms().get_room(&room).unwrap().get_participant(&a).unwrap();
    assert!(!p.audio_enabled);
    let out = server.handle_message(&c, SignalingMessage::ToggleVideo { enabled: false });
    assert_eq!(out.len(), 1);
}

#[test]
fn listings() {
    let (mut server, a, b, c, room) = room_of_two();
    let out = server.handle_message(&c, SignalingMessage::ListRooms);
    match &out[0].message {
        SignalingMessage::RoomList { rooms } => {
            assert_eq!(rooms.len(), 1);
            assert_eq!(rooms[0].id, room);
            assert_eq!(rooms[0].participants, 2);
            assert_eq!(rooms[0].max_participants, 10);
        }
        other => panic!("unexpected reply {:?}", other),
    }
    let out = server.handle_message(&c, SignalingMessage::ListServerUsers);
    match &out[0].message {
        SignalingMessage::ServerUserList { users } => {
            let ids: Vec<&str> = users.iter().map(|u| u.id.as_str()).collect();
            assert_eq!(ids, vec![a.as_str(), b.as_str(), c.as_str()]);
            assert_eq!(users[0].current_room.as_deref(), Some("R"));
            assert_eq!(users[2].current_room, None);
            assert!(users[2].audio_enabled && !users[2].video_enabled);
        }
        other => panic!("unexpected reply {:?}", other),
    }
}

#[test]
fn unsupported_and_unknown_connections() {
    let mut server = SignalingServer::new(10000, 10001);
    let a = server.connect().unwrap();
    let out = server.handle_message(&a, SignalingMessage::MediaOffer { target_id: "x".to_string(), sdp: String::new() });
    assert_eq!(out[0].message, SignalingMessage::Error { message: "Unsupported message type".to_string() });
    assert!(server.handle_message("ghost", SignalingMessage::ListRooms).is_empty());
    assert!(!server.connect_with_id(a.clone()));
    assert!(server.connect_with_id("fixed".to_string()));
}

#[test]
fn create_room_with_given_id() {
    let mut server = SignalingServer::new(10000, 10001);
    let a = server.connect().unwrap();
    let msg = || SignalingMessage::CreateRoom { name: "N".to_string(), max_participants: Some(4) };
    let out = server.handle_message_at(&a, msg(), 5, "id-1".to_string());
    assert_eq!(
        out[0].message,
        SignalingMessage::RoomCreated {
            success: true,
            room_id: Some("id-1".to_string()),
            room_name: Some("N".to_string()),
            error: None
        }
    );
    let out = server.handle_message_at(&a, msg(), 5, "id-1".to_string());
    assert!(matches!(&out[0].message, SignalingMessage::RoomCreated { success: false, .. }));
    let room = server.rooms().get_room("id-1").unwrap();
    assert_eq!((room.max_participants, room.created_at), (4, 5));
}
