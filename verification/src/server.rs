//! The server task's decision logic.
//!
//! The server task accepts new connections and owns room creation.  Its
//! loop waits for either a newly accepted connection or a
//! [`MessageToServer`] from the server inbox.  The decisions live here: on
//! a join, spawn the room task if this server does not run one yet, and
//! forward the join to the room; on a shutdown, tell every connection.
//! The shell registers mailboxes, spawns the tasks and performs the sends.

use crate::dispatcher::MessageToConnection;
use crate::dispatcher::MessageToRoom;
use crate::dispatcher::MessageToServer;
use crate::types::RoomID;
use crate::types::ServerID;
use vstd::prelude::*;

verus! {

/// What the shell must do after one server step, in order: spawn the room
/// task, then publish to the room, then broadcast to connections.
pub struct ServerEffects {
    /// Register this room and spawn its task before publishing.
    pub spawn_room: Option<RoomID>,
    /// A message to publish to a room's mailbox.
    pub publish_to_room: Option<(RoomID, MessageToRoom)>,
    /// A message to publish to every connection's mailbox.
    pub broadcast: Option<MessageToConnection>,
}

/// One server's process-wide state: its identity and the rooms it has
/// spawned a task for.
pub struct ServerState {
    pub server_id: ServerID,
    pub rooms: Vec<RoomID>,
}

impl ServerState {
    /// The identifiers of the rooms spawned on this server.
    pub open spec fn room_ids(&self) -> Seq<Seq<u8>> {
        self.rooms@.map_values(|r: RoomID| r@)
    }

    /// Has this server spawned a task for `id`?
    pub open spec fn has_room(&self, id: Seq<u8>) -> bool {
        self.room_ids().contains(id)
    }

    /// No room is listed twice: at most one room task per room on a server.
    pub open spec fn wf(&self) -> bool {
        forall|i: int, j: int|
            0 <= i < j < self.rooms@.len() ==> self.rooms@[i]@ != self.rooms@[j]@
    }

    /// A fresh server with no rooms.
    pub fn new(server_id: ServerID) -> (s: ServerState)
        ensures
            s.wf(),
            s.server_id == server_id,
            s.rooms@.len() == 0,
    {
        ServerState { server_id, rooms: Vec::new() }
    }

    /// Has this server spawned a task for `id`?
    fn knows_room(&self, id: &RoomID) -> (r: bool)
        ensures
            r == self.has_room(id@),
    {
        let mut i: usize = 0;
        while i < self.rooms.len()
            invariant
                i <= self.rooms@.len(),
                forall|k: int| 0 <= k < i ==> self.rooms@[k]@ != id@,
            decreases self.rooms@.len() - i,
        {
            if self.rooms[i].eq_id(id) {
                assert(self.room_ids()[i as int] == id@);
                return true;
            }
            i = i + 1;
        }
        proof {
            assert forall|k: int| 0 <= k < self.room_ids().len() implies self.room_ids()[k]
                != id@ by {
                assert(self.room_ids()[k] == self.rooms@[k]@);
            }
        }
        false
    }

    /// One step on a message from the server inbox.
    ///
    /// A join spawns the room's task exactly when this server runs none
    /// yet, and in every case forwards the join to the room.  A shutdown
    /// changes nothing here and asks for a broadcast to every connection.
    pub fn handle_message(&mut self, msg: MessageToServer) -> (eff: ServerEffects)
        requires
            old(self).wf(),
        ensures
            final(self).wf(),
            final(self).server_id == old(self).server_id,
            (msg matches MessageToServer::Join { connection_id, room_id } ==> {
                &&& final(self).has_room(room_id@)
                &&& forall|id: Seq<u8>|
                    id != room_id@ ==> (final(self).has_room(id) <==> old(self).has_room(id))
                &&& (eff.spawn_room is Some <==> !old(self).has_room(room_id@))
                &&& (eff.spawn_room matches Some(r) ==> r@ == room_id@)
                &&& (eff.publish_to_room matches Some((r, m)) && r@ == room_id@ && (
                m matches MessageToRoom::Join { connection_id: c } && c@ == connection_id@))
                &&& eff.broadcast is None
            }),
            (msg matches MessageToServer::Shutdown { reason } ==> *final(self) == *old(self) && {
                &&& eff.spawn_room is None
                &&& eff.publish_to_room is None
                &&& (eff.broadcast matches Some(MessageToConnection::Shutdown { .. }))
            }),
    {
        match msg {
            MessageToServer::Join { connection_id, room_id } => {
                let spawn_room: Option<RoomID> = if !self.knows_room(&room_id) {
                    let ghost pre = self.rooms@;
                    self.rooms.push(room_id);
                    proof {
                        assert(self.room_ids()[pre.len() as int] == room_id@);
                        assert forall|k: int|
                            0 <= k < pre.len() implies pre[k]@ != room_id@ by {
                            assert(old(self).room_ids()[k] == pre[k]@);
                        }
                        assert forall|a: int, b: int|
                            0 <= a < b < self.rooms@.len() implies self.rooms@[a]@
                            != self.rooms@[b]@ by {
                            if b < pre.len() {
                                assert(pre[a]@ != pre[b]@);
                            } else {
                                assert(self.rooms@[b]@ == room_id@);
                                assert(pre[a]@ != room_id@);
                            }
                        }
                        assert forall|id: Seq<u8>|
                            id != room_id@ implies (self.has_room(id) <==> old(self).has_room(
                            id,
                        )) by {
                            if old(self).has_room(id) {
                                let k = choose|k: int|
                                    0 <= k < old(self).room_ids().len() && old(
                                        self,
                                    ).room_ids()[k] == id;
                                assert(self.room_ids()[k] == id);
                            }
                            if self.has_room(id) {
                                let k = choose|k: int|
                                    0 <= k < self.room_ids().len() && self.room_ids()[k] == id;
                                assert(k < pre.len());
                                assert(old(self).room_ids()[k] == id);
                            }
                        }
                    }
                    Some(room_id)
                } else {
                    None
                };
                ServerEffects {
                    spawn_room,
                    publish_to_room: Some(
                        (room_id, MessageToRoom::Join { connection_id }),
                    ),
                    broadcast: None,
                }
            },
            MessageToServer::Shutdown { reason } => {
                ServerEffects {
                    spawn_room: None,
                    publish_to_room: None,
                    broadcast: Some(MessageToConnection::Shutdown { reason }),
                }
            },
        }
    }
}

} // verus!
