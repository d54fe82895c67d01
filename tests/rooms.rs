use planning_poker::models::{room_id_from, Room, User};
use planning_poker::protocol::{ClientMessage, RoomError, ServerMessage};
use planning_poker::registry::Registry;
use planning_poker::session::Session;
use tokio::sync::broadcast::error::TryRecvError;

fn s(text: &str) -> String {
    text.to_string()
}

fn user<'a>(room: &'a Room, id: &str) -> &'a User {
    room.users.iter().find(|u| u.id == id).expect("participant")
}

fn state(rooms: &Registry, id: &str) -> Room {
    rooms.room_state(&s(id)).expect("room")
}

fn joined(r: Result<ServerMessage, RoomError>) -> (String, String) {
    match r {
        Ok(ServerMessage::Joined { user_id, room_id }) => (user_id, room_id),
        _ => panic!("expected a join reply"),
    }
}

fn room_state(r: Result<ServerMessage, RoomError>) -> Room {
    match r {
        Ok(ServerMessage::RoomState { room }) => room,
        _ => panic!("expected a room state"),
    }
}

fn join(room_id: &str, name: &str) -> ClientMessage {
    ClientMessage::Join { room_id: s(room_id), name: s(name) }
}

fn vote(room_id: &str, user_id: &str, estimate: &str) -> ClientMessage {
    ClientMessage::Vote { room_id: s(room_id), user_id: s(user_id), estimate: s(estimate) }
}

#[test]
fn room_ids_are_three_digits() {
    assert_eq!(room_id_from(427), "427");
    assert_eq!(room_id_from(100), "100");
    assert_eq!(room_id_from(999), "999");
    let mut rooms = Registry::new();
    for _ in 0..50 {
        let id = rooms.create_room();
        let n: u32 = id.parse().unwrap();
        assert_eq!(id.len(), 3);
        assert!((100..1000).contains(&n));
        assert!(rooms.contains(&id));
    }
}

#[test]
fn new_room_is_empty_and_hidden() {
    let room = Room::new();
    assert!(room.users.is_empty());
    assert!(!room.revealed);
    assert!(room.broadcast_tx.is_some());
    assert_eq!(room.id.len(), 3);
}

#[test]
fn scenario_join_vote_show_clear() {
    let mut rooms = Registry::new();
    let id = rooms.create_room();
    let (u1, rid) = joined(rooms.handle_message(join(&id, "Alice")));
    assert_eq!(rid, id);
    let room = state(&rooms, &id);
    assert_eq!(room.users.len(), 1);
    assert_eq!(user(&room, &u1).name, "Alice");
    assert_eq!(user(&room, &u1).estimate, None);
    assert!(!room.revealed);

    let room = room_state(rooms.handle_message(vote(&id, &u1, "5")));
    assert!(!room.revealed);
    assert_eq!(user(&room, &u1).name, "Alice");
    assert_eq!(user(&room, &u1).estimate, Some(s("5")));

    let room = room_state(rooms.handle_message(ClientMessage::Show { room_id: id.clone() }));
    assert!(room.revealed);
    assert_eq!(user(&room, &u1).estimate, Some(s("5")));

    let room = room_state(rooms.handle_message(ClientMessage::Clear { room_id: id.clone() }));
    assert!(!room.revealed);
    assert_eq!(user(&room, &u1).estimate, None);
    assert_eq!(room.users.len(), 1);
}

#[test]
fn joins_get_distinct_identifiers() {
    let mut rooms = Registry::new();
    let id = rooms.create_room();
    let (a, _) = joined(rooms.handle_message(join(&id, "Alice")));
    let (b, _) = joined(rooms.handle_message(join(&id, "Bob")));
    let (c, _) = joined(rooms.handle_message(join(&id, "Alice")));
    assert_ne!(a, b);
    assert_ne!(a, c);
    assert_ne!(b, c);
    assert_eq!(a.len(), 36);
    assert_eq!(state(&rooms, &id).users.len(), 3);
}

#[test]
fn rejoin_renames_and_keeps_vote() {
    let mut rooms = Registry::new();
    let id = rooms.create_room();
    let (u, _) = joined(rooms.handle_message(join(&id, "Alice")));
    rooms.handle_message(vote(&id, &u, "8")).unwrap();
    let rejoin = ClientMessage::Rejoin { room_id: id.clone(), user_id: u.clone(), name: s("Alicia") };
    let (u2, rid) = joined(rooms.handle_message(rejoin));
    assert_eq!(u2, u);
    assert_eq!(rid, id);
    let room = state(&rooms, &id);
    assert_eq!(room.users.len(), 1);
    assert_eq!(user(&room, &u).name, "Alicia");
    assert_eq!(user(&room, &u).estimate, Some(s("8")));
}

#[test]
fn rejoin_with_unknown_id_adds_participant() {
    let mut rooms = Registry::new();
    let id = rooms.create_room();
    let rejoin = ClientMessage::Rejoin { room_id: id.clone(), user_id: s("client-held"), name: s("Bob") };
    let (u, _) = joined(rooms.handle_message(rejoin));
    assert_eq!(u, "client-held");
    let room = state(&rooms, &id);
    assert_eq!(room.users.len(), 1);
    assert_eq!(user(&room, "client-held").name, "Bob");
    assert_eq!(user(&room, "client-held").estimate, None);
}

#[test]
fn vote_by_unknown_user_changes_nothing() {
    let mut rooms = Registry::new();
    let id = rooms.create_room();
    let (u, _) = joined(rooms.handle_message(join(&id, "Alice")));
    let room = room_state(rooms.handle_message(vote(&id, "nobody", "3")));
    assert_eq!(room.users.len(), 1);
    assert_eq!(user(&room, &u).estimate, None);
    assert!(room.users.iter().all(|x| x.id != "nobody"));
    assert_eq!(state(&rooms, &id).users.len(), 1);
}

#[test]
fn commands_on_missing_room_fail() {
    let mut rooms = Registry::new();
    let id = rooms.create_room();
    let (u, _) = joined(rooms.handle_message(join(&id, "Alice")));
    rooms.handle_message(vote(&id, &u, "2")).unwrap();
    let missing = if id == "555" { "556" } else { "555" };
    let commands = vec![
        vote(missing, &u, "1"),
        ClientMessage::Show { room_id: s(missing) },
        ClientMessage::Clear { room_id: s(missing) },
        join(missing, "Bob"),
        ClientMessage::Rejoin { room_id: s(missing), user_id: u.clone(), name: s("Bob") },
    ];
    for c in commands {
        assert!(matches!(rooms.handle_message(c), Err(RoomError::RoomNotFound)));
    }
    assert!(!rooms.contains(&s(missing)));
    let room = state(&rooms, &id);
    assert_eq!(room.users.len(), 1);
    assert_eq!(user(&room, &u).estimate, Some(s("2")));
    assert!(!room.revealed);
    assert_eq!(RoomError::RoomNotFound.message(), "Room not found");
}

#[test]
fn clear_resets_every_vote() {
    let mut rooms = Registry::new();
    let id = rooms.create_room();
    let (a, _) = joined(rooms.handle_message(join(&id, "Alice")));
    let (b, _) = joined(rooms.handle_message(join(&id, "Bob")));
    let (c, _) = joined(rooms.handle_message(join(&id, "Carol")));
    rooms.handle_message(vote(&id, &a, "?")).unwrap();
    rooms.handle_message(vote(&id, &b, "\u{2615}")).unwrap();
    rooms.handle_message(ClientMessage::Show { room_id: id.clone() }).unwrap();
    let room = room_state(rooms.handle_message(ClientMessage::Clear { room_id: id.clone() }));
    assert!(!room.revealed);
    assert_eq!(room.users.len(), 3);
    for u in [&a, &b, &c] {
        assert_eq!(user(&room, u).estimate, None);
    }
    assert_eq!(user(&room, &b).name, "Bob");
}

#[test]
fn subscriber_sees_only_later_messages() {
    let mut rooms = Registry::new();
    let id = rooms.create_room();
    assert_eq!(rooms.publish(&id, s("nobody listens")), Some(0));
    let mut early = rooms.subscribe(&id).expect("room");
    for i in 0..3 {
        assert_eq!(rooms.publish(&id, format!("m{}", i)), Some(1));
    }
    let mut late = rooms.subscribe(&id).expect("room");
    assert_eq!(rooms.publish(&id, s("after")), Some(2));
    assert_eq!(late.try_recv().unwrap(), "after");
    assert!(matches!(late.try_recv(), Err(TryRecvError::Empty)));
    for i in 0..3 {
        assert_eq!(early.try_recv().unwrap(), format!("m{}", i));
    }
    assert_eq!(early.try_recv().unwrap(), "after");
    assert!(rooms.subscribe(&s("1000")).is_none());
    assert_eq!(rooms.publish(&s("1000"), s("x")), None);
}

#[test]
fn session_join_subscribes_and_broadcasts_state() {
    let mut rooms = Registry::new();
    let id = rooms.create_room();
    let mut session = Session::new();
    let d = session.on_command(join(&id, "Alice"), &mut rooms);
    assert_eq!(session.current_room_id, Some(id.clone()));
    assert!(session.broadcast_rx.is_some());
    let u = match d.reply {
        ServerMessage::Joined { user_id, room_id } => {
            assert_eq!(room_id, id);
            user_id
        }
        _ => panic!("expected a join reply"),
    };
    match d.broadcast {
        Some((rid, ServerMessage::RoomState { room })) => {
            assert_eq!(rid, id);
            assert_eq!(user(&room, &u).name, "Alice");
        }
        _ => panic!("expected a room state broadcast"),
    }
    let d = session.on_command(vote(&id, &u, "13"), &mut rooms);
    match (d.reply, d.broadcast) {
        (ServerMessage::RoomState { room: a }, Some((rid, ServerMessage::RoomState { room: b }))) => {
            assert_eq!(rid, id);
            assert_eq!(user(&a, &u).estimate, Some(s("13")));
            assert_eq!(user(&b, &u).estimate, Some(s("13")));
        }
        _ => panic!("expected a room state reply and broadcast"),
    }
}

#[test]
fn session_errors_are_not_broadcast() {
    let mut rooms = Registry::new();
    let mut session = Session::new();
    let d = session.on_command(ClientMessage::Show { room_id: s("123") }, &mut rooms);
    match d.reply {
        ServerMessage::Error { message } => assert_eq!(message, "Room not found"),
        _ => panic!("expected an error"),
    }
    assert!(d.broadcast.is_none());
    assert!(session.current_room_id.is_none());
    let d = session.on_command(join("123", "Alice"), &mut rooms);
    assert!(matches!(d.reply, ServerMessage::Error { .. }));
    assert!(d.broadcast.is_none());
    assert_eq!(session.current_room_id, Some(s("123")));
    assert!(session.broadcast_rx.is_none());
}

#[test]
fn session_outside_a_room_broadcasts_to_named_room() {
    let mut rooms = Registry::new();
    let id = rooms.create_room();
    let mut session = Session::new();
    let d = session.on_command(ClientMessage::Show { room_id: id.clone() }, &mut rooms);
    match d.reply {
        ServerMessage::RoomState { room } => assert!(room.revealed),
        _ => panic!("expected a room state"),
    }
    match d.broadcast {
        Some((rid, ServerMessage::RoomState { room })) => {
            assert_eq!(rid, id);
            assert!(room.revealed);
        }
        _ => panic!("expected a room state broadcast to the room"),
    }
    assert!(session.current_room_id.is_none());
}

#[test]
fn command_on_another_room_is_broadcast_there() {
    let mut rooms = Registry::new();
    let a = rooms.create_room();
    let mut b = rooms.create_room();
    while b == a {
        b = rooms.create_room();
    }
    let mut session = Session::new();
    session.on_command(join(&a, "Alice"), &mut rooms);
    let d = session.on_command(ClientMessage::Show { room_id: b.clone() }, &mut rooms);
    match d.broadcast {
        Some((rid, ServerMessage::RoomState { room })) => {
            assert_eq!(rid, b);
            assert_eq!(room.id, b);
            assert!(room.revealed);
        }
        _ => panic!("expected a room state broadcast to the changed room"),
    }
    assert!(!state(&rooms, &a).revealed);
    assert_eq!(session.current_room_id, Some(a));
}

#[test]
fn join_id_is_new_to_the_room() {
    let mut rooms = Registry::new();
    let id = rooms.create_room();
    let mut seen: Vec<String> = Vec::new();
    for i in 0..5 {
        let rejoin = ClientMessage::Rejoin { room_id: id.clone(), user_id: format!("held-{}", i), name: s("R") };
        let (v, _) = joined(rooms.handle_message(rejoin));
        seen.push(v);
        let (u, _) = joined(rooms.handle_message(join(&id, "J")));
        assert!(!seen.contains(&u));
        seen.push(u);
    }
    assert_eq!(state(&rooms, &id).users.len(), 10);
}

#[test]
fn taken_candidate_is_lengthened() {
    let mut rooms = Registry::new();
    let id = rooms.create_room();
    let rejoin = ClientMessage::Rejoin { room_id: id.clone(), user_id: s("abc"), name: s("A") };
    rooms.handle_message(rejoin).unwrap();
    let room = state(&rooms, &id);
    assert_eq!(room.fresh_user_id(s("xyz")), "xyz");
    let other = room.fresh_user_id(s("abc"));
    assert_ne!(other, "abc");
    assert!(other.starts_with("abc"));
}

#[test]
fn scenario_broadcasts_follow_each_command() {
    let mut rooms = Registry::new();
    let id = rooms.create_room();
    let mut session = Session::new();
    let d = session.on_command(join(&id, "Alice"), &mut rooms);
    let u = match d.reply {
        ServerMessage::Joined { user_id, .. } => user_id,
        _ => panic!("expected a join reply"),
    };
    let broadcast_room = |b: Option<(String, ServerMessage)>| match b {
        Some((rid, ServerMessage::RoomState { room })) if rid == id => room,
        _ => panic!("expected a room state broadcast to the room"),
    };
    let room = broadcast_room(d.broadcast);
    assert_eq!(room.users.len(), 1);
    assert_eq!(user(&room, &u).estimate, None);
    assert!(!room.revealed);

    let room = broadcast_room(session.on_command(vote(&id, &u, "5"), &mut rooms).broadcast);
    assert!(!room.revealed);
    assert_eq!(user(&room, &u).name, "Alice");
    assert_eq!(user(&room, &u).estimate, Some(s("5")));

    let show = ClientMessage::Show { room_id: id.clone() };
    let room = broadcast_room(session.on_command(show, &mut rooms).broadcast);
    assert!(room.revealed);
    assert_eq!(user(&room, &u).estimate, Some(s("5")));

    let clear = ClientMessage::Clear { room_id: id.clone() };
    let room = broadcast_room(session.on_command(clear, &mut rooms).broadcast);
    assert!(!room.revealed);
    assert_eq!(user(&room, &u).estimate, None);
}
