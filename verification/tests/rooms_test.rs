//! Tests for the room state machine, its fan-out and its counter.

use kazahane::dispatcher::MessageToConnection;
use kazahane::dispatcher::MessageToRoom;
use kazahane::pubsub::PubSubMessage;
use kazahane::rooms::count_up;
use kazahane::rooms::CounterError;
use kazahane::rooms::Room;
use kazahane::Identifier;

fn room_with_members(members: &[Identifier]) -> Room {
    let server = Identifier::generate();
    let room_id = Identifier::generate();
    let mut room = Room::new(server, room_id);
    for m in members {
        room.handle_message(MessageToRoom::Join { connection_id: *m }, None)
            .unwrap();
    }
    room
}

#[test]
fn join_acknowledges_and_is_idempotent() {
    let server = Identifier::generate();
    let room_id = Identifier::generate();
    let mut room = Room::new(server, room_id);
    let c1 = Identifier::generate();
    let eff = room
        .handle_message(MessageToRoom::Join { connection_id: c1 }, None)
        .unwrap();
    assert_eq!(eff.replies.len(), 1);
    assert!(eff.replies[0].0.eq_id(&c1));
    match &eff.replies[0].1 {
        MessageToConnection::JoinResponse { room_id: r } => assert!(r.eq_id(&room_id)),
        other => panic!("unexpected reply: {:?}", other),
    }
    assert!(eff.publish.is_none());
    assert!(eff.save.is_none());
    room.handle_message(MessageToRoom::Join { connection_id: c1 }, None)
        .unwrap();
    assert_eq!(room.connections.len(), 1);
}

#[test]
fn broadcast_reaches_everyone_but_the_sender() {
    let c1 = Identifier::generate();
    let c2 = Identifier::generate();
    let c3 = Identifier::generate();
    let mut room = room_with_members(&[c1, c2, c3]);
    let eff = room
        .handle_message(
            MessageToRoom::Broadcast {
                sender: c1,
                payload: b"hello".to_vec(),
            },
            None,
        )
        .unwrap();
    assert_eq!(eff.replies.len(), 2);
    for (target, msg) in &eff.replies {
        assert!(!target.eq_id(&c1));
        match msg {
            MessageToConnection::Broadcast { payload } => {
                assert_eq!(payload, &b"hello".to_vec())
            }
            other => panic!("unexpected reply: {:?}", other),
        }
    }
    assert!(eff.replies[0].0.eq_id(&c2) || eff.replies[0].0.eq_id(&c3));
    assert!(eff.replies[1].0.eq_id(&c2) || eff.replies[1].0.eq_id(&c3));
    assert!(!eff.replies[0].0.eq_id(&eff.replies[1].0));
}

#[test]
fn broadcast_is_republished_with_server_stamp() {
    let c1 = Identifier::generate();
    let c2 = Identifier::generate();
    let mut room = room_with_members(&[c1, c2]);
    let server_id = room.server_id;
    let eff = room
        .handle_message(
            MessageToRoom::Broadcast {
                sender: c1,
                payload: b"x".to_vec(),
            },
            None,
        )
        .unwrap();
    match eff.publish.unwrap() {
        PubSubMessage::Broadcast {
            sender_server,
            sender,
            payload,
        } => {
            assert_eq!(sender_server, server_id.into_bytes());
            assert_eq!(sender, c1.into_bytes());
            assert_eq!(payload, b"x".to_vec());
        }
    }
}

#[test]
fn counter_per_room() {
    let c1 = Identifier::generate();
    let c2 = Identifier::generate();
    let mut room1 = room_with_members(&[c1, c2]);
    let eff1 = room1
        .handle_message(MessageToRoom::TestCountUp { sender: c1 }, None)
        .unwrap();
    match &eff1.replies[0].1 {
        MessageToConnection::TestCountUpResponse { counter } => assert_eq!(*counter, 1),
        other => panic!("unexpected reply: {:?}", other),
    }
    let saved = eff1.save.unwrap();
    assert_eq!(saved, 1u64.to_le_bytes().to_vec());

    let eff2 = room1
        .handle_message(MessageToRoom::TestCountUp { sender: c2 }, Some(&saved))
        .unwrap();
    match &eff2.replies[0].1 {
        MessageToConnection::TestCountUpResponse { counter } => assert_eq!(*counter, 2),
        other => panic!("unexpected reply: {:?}", other),
    }
    assert!(eff2.replies[0].0.eq_id(&c2));

    let c3 = Identifier::generate();
    let mut room2 = room_with_members(&[c3]);
    let eff3 = room2
        .handle_message(MessageToRoom::TestCountUp { sender: c3 }, None)
        .unwrap();
    match &eff3.replies[0].1 {
        MessageToConnection::TestCountUpResponse { counter } => assert_eq!(*counter, 1),
        other => panic!("unexpected reply: {:?}", other),
    }
}

#[test]
fn counter_survives_a_server_change() {
    let c1 = Identifier::generate();
    let mut room_before = room_with_members(&[c1]);
    let first = room_before
        .handle_message(MessageToRoom::TestCountUp { sender: c1 }, None)
        .unwrap();
    let second = room_before
        .handle_message(
            MessageToRoom::TestCountUp { sender: c1 },
            Some(&first.save.unwrap()),
        )
        .unwrap();
    let stored = second.save.unwrap();
    assert_eq!(stored, 2u64.to_le_bytes().to_vec());

    let c2 = Identifier::generate();
    let mut room_after = room_with_members(&[c2]);
    let eff = room_after
        .handle_message(MessageToRoom::TestCountUp { sender: c2 }, Some(&stored))
        .unwrap();
    match &eff.replies[0].1 {
        MessageToConnection::TestCountUpResponse { counter } => assert_eq!(*counter, 3),
        other => panic!("unexpected reply: {:?}", other),
    }
}

#[test]
fn counter_rejects_malformed_state() {
    let bad = vec![1, 2, 3];
    assert!(matches!(
        count_up(Some(&bad)),
        Err(CounterError::MalformedState)
    ));
}

#[test]
fn counter_rejects_overflow() {
    let max = u64::MAX.to_le_bytes().to_vec();
    assert!(matches!(count_up(Some(&max)), Err(CounterError::Overflow)));
}

#[test]
fn remote_broadcast_reaches_every_member() {
    let c1 = Identifier::generate();
    let c2 = Identifier::generate();
    let room = room_with_members(&[c1, c2]);
    let remote_server = Identifier::generate();
    let remote_sender = Identifier::generate();
    let env = PubSubMessage::Broadcast {
        sender_server: remote_server.into_bytes(),
        sender: remote_sender.into_bytes(),
        payload: b"far".to_vec(),
    };
    let replies = room.handle_pubsub_message(&env);
    assert_eq!(replies.len(), 2);
    for (_, msg) in &replies {
        match msg {
            MessageToConnection::Broadcast { payload } => assert_eq!(payload, &b"far".to_vec()),
            other => panic!("unexpected reply: {:?}", other),
        }
    }
}

#[test]
fn own_envelope_is_dropped_as_loopback() {
    let c1 = Identifier::generate();
    let room = room_with_members(&[c1]);
    let env = PubSubMessage::Broadcast {
        sender_server: room.server_id.into_bytes(),
        sender: c1.into_bytes(),
        payload: b"echo".to_vec(),
    };
    assert!(room.handle_pubsub_message(&env).is_empty());
}

#[test]
fn topic_is_the_canonical_room_text() {
    let room_id = Identifier::from_bytes([0xab; 16]);
    let room = Room::new(Identifier::generate(), room_id);
    assert_eq!(
        room.topic(),
        b"abababab-abab-abab-abab-abababababab".to_vec()
    );
}
