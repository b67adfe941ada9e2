//! Tests for the wire codec.

use kazahane::packets::decode;
use kazahane::packets::encode;
use kazahane::packets::DecodeError;
use kazahane::packets::HelloResponsePacket;
use kazahane::packets::HelloResponseStatusCode;
use kazahane::packets::IntoPacket;
use kazahane::packets::JoinRoomRequestPacket;
use kazahane::packets::Packet;
use kazahane::packets::PacketType;
use kazahane::packets::RoomNotificationPacket;
use kazahane::packets::ServerNotificationPacket;
use kazahane::packets::ServerNotificationType;
use kazahane::packets::TestCountUpPacket;
use kazahane::packets::TestCountUpResponsePacket;
use kazahane::Identifier;

#[test]
fn read_packet() {
    let p = decode(b"KAZAHANE 1.0.0\x01\x05\x00hello").unwrap();
    assert_eq!(PacketType::HelloRequest, p.packet_type);
    assert_eq!(b"hello".to_vec(), p.payload);
}

#[test]
fn write_packet() {
    let packet = Packet {
        packet_type: PacketType::HelloRequest,
        payload_size: 5,
        payload: b"world".to_vec(),
    };
    assert_eq!(&encode(&packet)[..], b"KAZAHANE 1.0.0\x01\x05\x00world");
}

#[test]
fn hello_response() {
    let p1 = HelloResponsePacket::new(HelloResponseStatusCode::OK, "");
    assert_eq!(p1.message_size, 0);
    assert_eq!(p1.message, b"");

    let p2 = HelloResponsePacket::new(HelloResponseStatusCode::Denied, "err");
    assert_eq!(p2.message_size, 3);
    assert_eq!(p2.message, b"err");
}

#[test]
fn hello_request_frame_bytes() {
    let packet = Packet {
        packet_type: PacketType::HelloRequest,
        payload_size: 5,
        payload: b"hello".to_vec(),
    };
    assert_eq!(&encode(&packet)[..], b"KAZAHANE 1.0.0\x01\x05\x00hello");
}

fn assert_round_trips(p: Packet) {
    let bytes = encode(&p);
    let q = decode(&bytes).unwrap();
    assert_eq!(p.packet_type, q.packet_type);
    assert_eq!(p.payload_size, q.payload_size);
    assert_eq!(p.payload, q.payload);
}

#[test]
fn round_trip_every_packet_type() {
    assert_round_trips(Packet {
        packet_type: PacketType::HelloRequest,
        payload_size: 3,
        payload: b"abc".to_vec(),
    });
    let hello = HelloResponsePacket::new(HelloResponseStatusCode::OK, "hi");
    assert_round_trips(hello.into_packet());
    let room = Identifier::from_bytes([7; 16]);
    assert_round_trips(JoinRoomRequestPacket::new(room).into_packet());
    assert_round_trips(kazahane::packets::JoinRoomResponsePacket {}.into_packet());
    assert_round_trips(Packet {
        packet_type: PacketType::BroadcastMessage,
        payload_size: 4,
        payload: b"ping".to_vec(),
    });
    assert_round_trips(RoomNotificationPacket::new_broadcast(b"news".to_vec()).into_packet());
    let shutdown = ServerNotificationPacket {
        notification_type: ServerNotificationType::Shutdown,
    };
    assert_round_trips(shutdown.into_packet());
    assert_round_trips(TestCountUpPacket {}.into_packet());
    assert_round_trips(TestCountUpResponsePacket::new(42).into_packet());
}

#[test]
fn join_room_request_carries_room_id() {
    let room = Identifier::from_bytes([
        0, 1, 2, 3, 4, 5, 6, 7, 8, 9, 10, 11, 12, 13, 14, 15,
    ]);
    let p = JoinRoomRequestPacket::new(room).into_packet();
    assert_eq!(p.packet_type, PacketType::JoinRoomRequest);
    assert_eq!(p.payload, vec![0, 1, 2, 3, 4, 5, 6, 7, 8, 9, 10, 11, 12, 13, 14, 15]);
}

#[test]
fn room_notification_broadcast_layout() {
    let p = RoomNotificationPacket::new_broadcast(b"hi".to_vec()).into_packet();
    assert_eq!(p.packet_type, PacketType::RoomNotification);
    assert_eq!(p.payload, vec![0x03, 0x02, 0x00, b'h', b'i']);
}

#[test]
fn server_notification_layout() {
    let p = ServerNotificationPacket {
        notification_type: ServerNotificationType::Shutdown,
    }
    .into_packet();
    assert_eq!(p.packet_type, PacketType::ServerNotification);
    assert_eq!(p.payload, vec![0x01]);
}

#[test]
fn count_up_response_parses_back() {
    let p = TestCountUpResponsePacket::new(98765).into_packet();
    assert_eq!(p.payload, 98765u64.to_le_bytes().to_vec());
    let t = TestCountUpResponsePacket::parse(&p).unwrap();
    assert_eq!(t.count, 98765);
}

#[test]
fn hello_response_parses_back() {
    let p = HelloResponsePacket::new(HelloResponseStatusCode::Denied, "nope").into_packet();
    let t = HelloResponsePacket::parse(&p).unwrap();
    assert_eq!(t.status_code, HelloResponseStatusCode::Denied);
    assert_eq!(t.message, b"nope".to_vec());
}

#[test]
fn magic_mismatch_is_rejected() {
    assert!(matches!(
        decode(b"KAZAHANE 1.0.1\x01\x05\x00hello"),
        Err(DecodeError::MagicMismatch)
    ));
}

#[test]
fn unknown_tag_is_rejected() {
    assert!(matches!(decode(b"KAZAHANE 1.0.0\xff"), Err(DecodeError::UnknownTag)));
}

#[test]
fn short_frame_is_rejected() {
    assert!(matches!(decode(b"KAZ"), Err(DecodeError::ShortFrame)));
    assert!(matches!(decode(b"KAZAHANE 1.0.0"), Err(DecodeError::ShortFrame)));
    assert!(matches!(
        decode(b"KAZAHANE 1.0.0\x01\x05\x00hel"),
        Err(DecodeError::ShortFrame)
    ));
}

#[test]
fn oversize_length_is_rejected() {
    assert!(matches!(
        decode(b"KAZAHANE 1.0.0\x01\xff\xffx"),
        Err(DecodeError::LengthOverflow)
    ));
}
