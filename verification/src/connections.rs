//! The protocol state machine driving one client connection.
//!
//! A connection is in one of two states: not yet joined to a room, or
//! joined to exactly one room.  Its task loop waits for either a packet
//! from the carrier or a [`MessageToConnection`] from its mailbox, and asks
//! the handler what to do.  The handler never performs I/O itself: each
//! step returns one [`ConnectionAction`] that the shell carries out (send a
//! packet to the client, or publish a message through the dispatcher).

use crate::dispatcher::MessageToConnection;
use crate::dispatcher::MessageToRoom;
use crate::dispatcher::MessageToServer;
use crate::packets::IntoPacket;
use crate::packets::HelloResponsePacket;
use crate::packets::HelloResponseStatusCode;
use crate::packets::JoinRoomResponsePacket;
use crate::packets::Packet;
use crate::packets::PacketType;
use crate::packets::PacketV;
use crate::packets::RoomNotificationPacket;
use crate::packets::ServerNotificationPacket;
use crate::packets::ServerNotificationType;
use crate::packets::TestCountUpResponsePacket;
use crate::types::ConnectionID;
use crate::types::Identifier;
use crate::types::RoomID;
use vstd::bytes::spec_u16_to_le_bytes;
use vstd::bytes::spec_u64_to_le_bytes;
use vstd::prelude::*;

verus! {

/// Where a connection stands in the join protocol.  Once joined it stays
/// joined to that room; a second join request is ignored.
#[derive(Clone, Copy, Debug)]
pub enum RoomStatus {
    NotJoined,
    Joined { room_id: RoomID },
}

/// What the shell must do after one handler step.
#[derive(Debug)]
pub enum ConnectionAction {
    /// Send this packet to the client over the carrier.
    Reply(Packet),
    /// Publish this message to the server task.
    PublishToServer(MessageToServer),
    /// Publish this message to the given room.
    PublishToRoom(RoomID, MessageToRoom),
    /// Nothing to do; the event was ignored.
    Ignore,
}

/// The message bytes of the fixed hello greeting.
pub open spec fn hello_message() -> Seq<u8> {
    seq![0x68u8, 0x65, 0x6c, 0x6c, 0x6f]
}

/// The reply to a hello request: status OK and the greeting.
pub open spec fn spec_hello_ok_response() -> PacketV {
    PacketV {
        packet_type: PacketType::HelloResponse,
        payload: seq![0x01u8] + spec_u16_to_le_bytes(5) + hello_message(),
    }
}

/// The empty acknowledgement of a join.
pub open spec fn spec_join_room_response() -> PacketV {
    PacketV { packet_type: PacketType::JoinRoomResponse, payload: Seq::empty() }
}

/// The room notification that hands a broadcast payload to a member.
pub open spec fn spec_broadcast_note(payload: Seq<u8>) -> PacketV {
    PacketV {
        packet_type: PacketType::RoomNotification,
        payload: seq![0x03u8] + spec_u16_to_le_bytes(payload.len() as u16) + payload,
    }
}

/// The response carrying the room counter's new value.
pub open spec fn spec_count_up_response(counter: u64) -> PacketV {
    PacketV {
        packet_type: PacketType::TestCountUpResponse,
        payload: spec_u64_to_le_bytes(counter),
    }
}

/// The notification that the server is shutting down.
pub open spec fn spec_shutdown_note() -> PacketV {
    PacketV { packet_type: PacketType::ServerNotification, payload: seq![0x01u8] }
}

/// The greeting bytes as a vector.
fn hello_reply_message() -> (v: Vec<u8>)
    ensures
        v@ == hello_message(),
{
    let mut v: Vec<u8> = Vec::new();
    v.push(0x68);
    v.push(0x65);
    v.push(0x6c);
    v.push(0x6c);
    v.push(0x6f);
    proof {
        assert(v@ =~= hello_message());
    }
    v
}

/// The handler for one connection: its protocol state.
pub struct ConnectionHandler {
    pub room_status: RoomStatus,
}

impl ConnectionHandler {
    /// A handler for a fresh connection, not yet joined to any room.
    pub fn new() -> (h: ConnectionHandler)
        ensures
            h.room_status is NotJoined,
    {
        ConnectionHandler { room_status: RoomStatus::NotJoined }
    }

    /// One step on a message from the dispatcher.
    ///
    /// A shutdown is forwarded in every state.  A join response moves a
    /// not-yet-joined connection into the room and acknowledges it.  For a
    /// joined connection, a broadcast becomes a room notification and a
    /// counter value becomes a counter response; any message that does not
    /// fit the current state is ignored.
    ///
    /// One deliberate drop: the shared frame cap makes the wire asymmetric.
    /// A broadcast request may carry up to 4079 payload bytes, but the room
    /// notification that re-frames it for a member has one more header byte
    /// and so tops out at 4078.  A maximal broadcast therefore cannot be
    /// delivered; this step ignores it rather than truncate or close, and
    /// the contract below states that exactly.
    pub fn handle_message(&mut self, msg: MessageToConnection) -> (act: ConnectionAction)
        ensures
            (msg matches MessageToConnection::Shutdown { .. } ==> final(self).room_status
                == old(self).room_status && (act matches ConnectionAction::Reply(p) && p.wf()
                && p@ == spec_shutdown_note())),
            (msg matches MessageToConnection::JoinResponse { room_id } ==> {
                if old(self).room_status is NotJoined {
                    &&& final(self).room_status == (RoomStatus::Joined { room_id })
                    &&& (act matches ConnectionAction::Reply(p) && p.wf() && p@
                        == spec_join_room_response())
                } else {
                    final(self).room_status == old(self).room_status && act is Ignore
                }
            }),
            (msg matches MessageToConnection::Broadcast { payload } ==> final(self).room_status
                == old(self).room_status && {
                if old(self).room_status is Joined && payload@.len() <= 4078 {
                    act matches ConnectionAction::Reply(p) && p.wf() && p@ == spec_broadcast_note(
                        payload@,
                    )
                } else {
                    act is Ignore
                }
            }),
            (msg matches MessageToConnection::TestCountUpResponse { counter } ==> final(self).room_status
                == old(self).room_status && {
                if old(self).room_status is Joined {
                    act matches ConnectionAction::Reply(p) && p.wf() && p@
                        == spec_count_up_response(counter)
                } else {
                    act is Ignore
                }
            }),
    {
        match msg {
            MessageToConnection::Shutdown { .. } => {
                let packet = ServerNotificationPacket {
                    notification_type: ServerNotificationType::Shutdown,
                };
                ConnectionAction::Reply(packet.into_packet())
            },
            MessageToConnection::JoinResponse { room_id } => {
                match self.room_status {
                    RoomStatus::NotJoined => {
                        self.room_status = RoomStatus::Joined { room_id };
                        ConnectionAction::Reply(JoinRoomResponsePacket {  }.into_packet())
                    },
                    RoomStatus::Joined { .. } => ConnectionAction::Ignore,
                }
            },
            MessageToConnection::Broadcast { payload } => {
                match self.room_status {
                    RoomStatus::Joined { .. } => {
                        if payload.len() <= 4078 {
                            let packet = RoomNotificationPacket::new_broadcast(payload);
                            ConnectionAction::Reply(packet.into_packet())
                        } else {
                            ConnectionAction::Ignore
                        }
                    },
                    RoomStatus::NotJoined => ConnectionAction::Ignore,
                }
            },
            MessageToConnection::TestCountUpResponse { counter } => {
                match self.room_status {
                    RoomStatus::Joined { .. } => {
                        let packet = TestCountUpResponsePacket::new(counter);
                        ConnectionAction::Reply(packet.into_packet())
                    },
                    RoomStatus::NotJoined => ConnectionAction::Ignore,
                }
            },
        }
    }

    /// One step on a packet read from the carrier.
    ///
    /// Before joining, a hello request is answered with the OK greeting and
    /// a join request is forwarded to the server.  After joining, a
    /// broadcast request or a counter bump is forwarded to the room.
    /// Every other (state, packet) pair is ignored: a packet in the wrong
    /// state is a warning, not an error.
    pub fn handle_packet(&self, packet: &Packet, self_id: &ConnectionID) -> (act:
        ConnectionAction)
        requires
            packet.wf(),
        ensures
            (self.room_status is NotJoined && packet.packet_type is HelloRequest ==> (
            act matches ConnectionAction::Reply(p) && p.wf() && p@ == spec_hello_ok_response())),
            (self.room_status is NotJoined && packet.packet_type is JoinRoomRequest ==> (
            act matches ConnectionAction::PublishToServer(
                MessageToServer::Join { connection_id, room_id },
            ) && connection_id@ == self_id@ && room_id@ == packet@.payload)),
            (self.room_status matches RoomStatus::Joined { room_id } ==> (packet.packet_type
                is BroadcastMessage ==> (act matches ConnectionAction::PublishToRoom(
                room,
                MessageToRoom::Broadcast { sender, payload },
            ) && room@ == room_id@ && sender@ == self_id@ && payload@ == packet@.payload))),
            (self.room_status matches RoomStatus::Joined { room_id } ==> (packet.packet_type
                is TestCountUp ==> (act matches ConnectionAction::PublishToRoom(
                room,
                MessageToRoom::TestCountUp { sender },
            ) && room@ == room_id@ && sender@ == self_id@))),
            (!(self.room_status is NotJoined && (packet.packet_type is HelloRequest
                || packet.packet_type is JoinRoomRequest)) && !(self.room_status is Joined && (
            packet.packet_type is BroadcastMessage || packet.packet_type is TestCountUp))
                ==> act is Ignore),
    {
        match (&self.room_status, &packet.packet_type) {
            (RoomStatus::NotJoined, PacketType::HelloRequest) => self.handle_hello(),
            (RoomStatus::NotJoined, PacketType::JoinRoomRequest) => {
                self.handle_join_room(packet, self_id)
            },
            (RoomStatus::Joined { room_id }, PacketType::BroadcastMessage) => {
                self.handle_broadcast(packet, *room_id, self_id)
            },
            (RoomStatus::Joined { room_id }, PacketType::TestCountUp) => {
                ConnectionAction::PublishToRoom(
                    *room_id,
                    MessageToRoom::TestCountUp { sender: *self_id },
                )
            },
            _ => ConnectionAction::Ignore,
        }
    }

    /// Answer a hello request.  The token is accepted unchecked; the reply
    /// is always status OK with the fixed greeting.
    fn handle_hello(&self) -> (act: ConnectionAction)
        ensures
            act matches ConnectionAction::Reply(p) && p.wf() && p@ == spec_hello_ok_response(),
    {
        let message = hello_reply_message();
        let resp = HelloResponsePacket {
            status_code: HelloResponseStatusCode::OK,
            message_size: 5,
            message,
        };
        let p = resp.into_packet();
        proof {
            assert(p@.payload =~= spec_hello_ok_response().payload);
        }
        ConnectionAction::Reply(p)
    }

    /// Forward a join request to the server, which owns room creation.
    fn handle_join_room(&self, packet: &Packet, self_id: &ConnectionID) -> (act: ConnectionAction)
        requires
            packet.wf(),
            packet.packet_type is JoinRoomRequest,
        ensures
            act matches ConnectionAction::PublishToServer(
                MessageToServer::Join { connection_id, room_id },
            ) && connection_id@ == self_id@ && room_id@ == packet@.payload,
    {
        let room_id = Identifier::from_byte_vec(&packet.payload);
        ConnectionAction::PublishToServer(
            MessageToServer::Join { connection_id: *self_id, room_id },
        )
    }

    /// Forward a broadcast request to the room this connection joined.
    fn handle_broadcast(&self, packet: &Packet, room_id: RoomID, self_id: &ConnectionID) -> (act:
        ConnectionAction)
        requires
            packet.wf(),
            packet.packet_type is BroadcastMessage,
        ensures
            act matches ConnectionAction::PublishToRoom(
                room,
                MessageToRoom::Broadcast { sender, payload },
            ) && room@ == room_id@ && sender@ == self_id@ && payload@ == packet@.payload,
    {
        let payload = vstd::slice::slice_to_vec(packet.payload.as_slice());
        ConnectionAction::PublishToRoom(
            room_id,
            MessageToRoom::Broadcast { sender: *self_id, payload },
        )
    }
}

} // verus!
