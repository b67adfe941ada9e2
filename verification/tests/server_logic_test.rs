//! Tests for the server task's decisions and the pub/sub envelope codec.

use kazahane::dispatcher::MessageToConnection;
use kazahane::dispatcher::MessageToRoom;
use kazahane::dispatcher::MessageToServer;
use kazahane::dispatcher::ServerShutdownReason;
use kazahane::packets::DecodeError;
use kazahane::pubsub::PubSubMessage;
use kazahane::server::ServerState;
use kazahane::Identifier;

#[test]
fn first_join_spawns_the_room() {
    let mut server = ServerState::new(Identifier::generate());
    let room = Identifier::generate();
    let conn = Identifier::generate();
    let eff = server.handle_message(MessageToServer::Join {
        connection_id: conn,
        room_id: room,
    });
    assert!(eff.spawn_room.unwrap().eq_id(&room));
    let (target, msg) = eff.publish_to_room.unwrap();
    assert!(target.eq_id(&room));
    match msg {
        MessageToRoom::Join { connection_id } => assert!(connection_id.eq_id(&conn)),
        other => panic!("unexpected message: {:?}", other),
    }
    assert!(eff.broadcast.is_none());
}

#[test]
fn second_join_reuses_the_room() {
    let mut server = ServerState::new(Identifier::generate());
    let room = Identifier::generate();
    let c1 = Identifier::generate();
    let c2 = Identifier::generate();
    server.handle_message(MessageToServer::Join {
        connection_id: c1,
        room_id: room,
    });
    let eff = server.handle_message(MessageToServer::Join {
        connection_id: c2,
        room_id: room,
    });
    assert!(eff.spawn_room.is_none());
    assert!(eff.publish_to_room.is_some());
    assert_eq!(server.rooms.len(), 1);
}

#[test]
fn different_room_spawns_again() {
    let mut server = ServerState::new(Identifier::generate());
    let c = Identifier::generate();
    server.handle_message(MessageToServer::Join {
        connection_id: c,
        room_id: Identifier::generate(),
    });
    let eff = server.handle_message(MessageToServer::Join {
        connection_id: c,
        room_id: Identifier::generate(),
    });
    assert!(eff.spawn_room.is_some());
    assert_eq!(server.rooms.len(), 2);
}

#[test]
fn shutdown_broadcasts_to_connections() {
    let mut server = ServerState::new(Identifier::generate());
    let eff = server.handle_message(MessageToServer::Shutdown {
        reason: ServerShutdownReason::SigTerm,
    });
    assert!(eff.spawn_room.is_none());
    assert!(eff.publish_to_room.is_none());
    assert!(matches!(
        eff.broadcast.unwrap(),
        MessageToConnection::Shutdown { .. }
    ));
}

#[test]
fn envelope_round_trip() {
    let env = PubSubMessage::Broadcast {
        sender_server: [1; 16],
        sender: [2; 16],
        payload: b"hello".to_vec(),
    };
    let bytes = env.to_bytes();
    let parsed = PubSubMessage::from_bytes(&bytes).unwrap();
    assert_eq!(parsed, env);
}

#[test]
fn envelope_layout() {
    let env = PubSubMessage::Broadcast {
        sender_server: [1; 16],
        sender: [2; 16],
        payload: b"ab".to_vec(),
    };
    let mut expected = vec![0x01];
    expected.extend_from_slice(&[1; 16]);
    expected.extend_from_slice(&[2; 16]);
    expected.extend_from_slice(&[2, 0]);
    expected.extend_from_slice(b"ab");
    assert_eq!(env.to_bytes(), expected);
}

#[test]
fn envelope_rejects_unknown_discriminant() {
    assert!(matches!(
        PubSubMessage::from_bytes(&[0x02, 0, 0]),
        Err(DecodeError::UnknownTag)
    ));
}

#[test]
fn envelope_rejects_short_input() {
    assert!(matches!(
        PubSubMessage::from_bytes(&[]),
        Err(DecodeError::ShortFrame)
    ));
    assert!(matches!(
        PubSubMessage::from_bytes(&[0x01, 1, 2, 3]),
        Err(DecodeError::ShortFrame)
    ));
}

#[test]
fn default_config_matches_the_documented_defaults() {
    let c = kazahane::config::Config::default();
    assert_eq!(c.listen_port, 8080);
    assert_eq!(c.redis_addr, "redis://127.0.0.1");
}
