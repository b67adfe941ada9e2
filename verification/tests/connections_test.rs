//! Tests for the connection protocol state machine.

use kazahane::connections::ConnectionAction;
use kazahane::connections::ConnectionHandler;
use kazahane::connections::RoomStatus;
use kazahane::dispatcher::MessageToConnection;
use kazahane::dispatcher::MessageToRoom;
use kazahane::dispatcher::MessageToServer;
use kazahane::dispatcher::ServerShutdownReason;
use kazahane::packets::decode;
use kazahane::packets::HelloResponsePacket;
use kazahane::packets::HelloResponseStatusCode;
use kazahane::packets::IntoPacket;
use kazahane::packets::JoinRoomRequestPacket;
use kazahane::packets::PacketType;
use kazahane::packets::TestCountUpPacket;
use kazahane::Identifier;

#[test]
fn hello_is_answered_with_ok() {
    let handler = ConnectionHandler::new();
    let me = Identifier::generate();
    let frame = decode(b"KAZAHANE 1.0.0\x01\x00\x00").unwrap();
    match handler.handle_packet(&frame, &me) {
        ConnectionAction::Reply(p) => {
            assert_eq!(p.packet_type, PacketType::HelloResponse);
            let resp = HelloResponsePacket::parse(&p).unwrap();
            assert_eq!(resp.status_code, HelloResponseStatusCode::OK);
            assert_eq!(resp.message, b"hello".to_vec());
        }
        other => panic!("unexpected action: {:?}", other),
    }
}

#[test]
fn join_request_is_forwarded_to_server() {
    let handler = ConnectionHandler::new();
    let me = Identifier::generate();
    let room = Identifier::from_bytes([3; 16]);
    let frame = decode(&kazahane::packets::encode(
        &JoinRoomRequestPacket::new(room).into_packet(),
    ))
    .unwrap();
    match handler.handle_packet(&frame, &me) {
        ConnectionAction::PublishToServer(MessageToServer::Join {
            connection_id,
            room_id,
        }) => {
            assert!(connection_id.eq_id(&me));
            assert!(room_id.eq_id(&room));
        }
        other => panic!("unexpected action: {:?}", other),
    }
}

#[test]
fn join_response_acknowledges_and_joins() {
    let mut handler = ConnectionHandler::new();
    let room = Identifier::from_bytes([4; 16]);
    match handler.handle_message(MessageToConnection::JoinResponse { room_id: room }) {
        ConnectionAction::Reply(p) => {
            assert_eq!(p.packet_type, PacketType::JoinRoomResponse);
        }
        other => panic!("unexpected action: {:?}", other),
    }
    match handler.room_status {
        RoomStatus::Joined { room_id } => assert!(room_id.eq_id(&room)),
        RoomStatus::NotJoined => panic!("still not joined"),
    }
}

fn joined_handler(room: Identifier) -> ConnectionHandler {
    let mut handler = ConnectionHandler::new();
    handler.handle_message(MessageToConnection::JoinResponse { room_id: room });
    handler
}

#[test]
fn broadcast_request_is_forwarded_to_room() {
    let me = Identifier::generate();
    let room = Identifier::from_bytes([5; 16]);
    let handler = joined_handler(room);
    let frame = decode(b"KAZAHANE 1.0.0\x05\x05\x00hello").unwrap();
    match handler.handle_packet(&frame, &me) {
        ConnectionAction::PublishToRoom(target, MessageToRoom::Broadcast { sender, payload }) => {
            assert!(target.eq_id(&room));
            assert!(sender.eq_id(&me));
            assert_eq!(payload, b"hello".to_vec());
        }
        other => panic!("unexpected action: {:?}", other),
    }
}

#[test]
fn count_up_request_is_forwarded_to_room() {
    let me = Identifier::generate();
    let room = Identifier::from_bytes([6; 16]);
    let handler = joined_handler(room);
    let frame = decode(&kazahane::packets::encode(&TestCountUpPacket {}.into_packet())).unwrap();
    match handler.handle_packet(&frame, &me) {
        ConnectionAction::PublishToRoom(target, MessageToRoom::TestCountUp { sender }) => {
            assert!(target.eq_id(&room));
            assert!(sender.eq_id(&me));
        }
        other => panic!("unexpected action: {:?}", other),
    }
}

#[test]
fn broadcast_before_join_is_ignored() {
    let handler = ConnectionHandler::new();
    let me = Identifier::generate();
    let frame = decode(b"KAZAHANE 1.0.0\x05\x05\x00hello").unwrap();
    assert!(matches!(
        handler.handle_packet(&frame, &me),
        ConnectionAction::Ignore
    ));
}

#[test]
fn second_join_response_is_ignored() {
    let room = Identifier::from_bytes([7; 16]);
    let mut handler = joined_handler(room);
    let other_room = Identifier::from_bytes([8; 16]);
    assert!(matches!(
        handler.handle_message(MessageToConnection::JoinResponse {
            room_id: other_room
        }),
        ConnectionAction::Ignore
    ));
    match handler.room_status {
        RoomStatus::Joined { room_id } => assert!(room_id.eq_id(&room)),
        RoomStatus::NotJoined => panic!("lost the room"),
    }
}

#[test]
fn downstream_broadcast_becomes_room_notification() {
    let room = Identifier::from_bytes([9; 16]);
    let mut handler = joined_handler(room);
    match handler.handle_message(MessageToConnection::Broadcast {
        payload: b"hey".to_vec(),
    }) {
        ConnectionAction::Reply(p) => {
            assert_eq!(p.packet_type, PacketType::RoomNotification);
            assert_eq!(p.payload, vec![0x03, 0x03, 0x00, b'h', b'e', b'y']);
        }
        other => panic!("unexpected action: {:?}", other),
    }
}

#[test]
fn downstream_counter_becomes_response_packet() {
    let room = Identifier::from_bytes([10; 16]);
    let mut handler = joined_handler(room);
    match handler.handle_message(MessageToConnection::TestCountUpResponse { counter: 2 }) {
        ConnectionAction::Reply(p) => {
            assert_eq!(p.packet_type, PacketType::TestCountUpResponse);
            assert_eq!(p.payload, 2u64.to_le_bytes().to_vec());
        }
        other => panic!("unexpected action: {:?}", other),
    }
}

#[test]
fn shutdown_is_forwarded_in_any_state() {
    let mut fresh = ConnectionHandler::new();
    match fresh.handle_message(MessageToConnection::Shutdown {
        reason: ServerShutdownReason::SigTerm,
    }) {
        ConnectionAction::Reply(p) => {
            assert_eq!(p.packet_type, PacketType::ServerNotification);
            assert_eq!(p.payload, vec![0x01]);
        }
        other => panic!("unexpected action: {:?}", other),
    }
}
