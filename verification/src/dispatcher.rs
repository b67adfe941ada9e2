//! Typed messages between tasks, and the per-server dispatcher.
//!
//! The dispatcher gives each live identity a bounded mailbox and lets other
//! tasks address messages to it without holding task handles.  It keeps
//! three registries: the single server mailbox, one mailbox per room, and
//! one per connection.  Registration, lookup and removal are verified here;
//! the asynchronous sends on the returned channel handles happen in the
//! unverified shell, which serialises access to the dispatcher.

use crate::types::ConnectionID;
use crate::types::Identifier;
use crate::types::RoomID;
use vstd::prelude::*;

verus! {

/// Why a server shuts down.
#[derive(Clone, Copy, Debug)]
pub enum ServerShutdownReason {
    SigTerm,
}

/// A message addressed to the server task.
#[derive(Debug)]
pub enum MessageToServer {
    /// A connection asks to join a room; the server spawns the room task on
    /// its first join.
    Join { connection_id: ConnectionID, room_id: RoomID },
    /// Ask every connection to shut down.
    Shutdown { reason: ServerShutdownReason },
}

/// A message addressed to a room task.
#[derive(Debug)]
pub enum MessageToRoom {
    /// Add a connection to the member set.
    Join { connection_id: ConnectionID },
    /// Fan a payload out to the other members and to the bus.
    Broadcast { sender: ConnectionID, payload: Vec<u8> },
    /// Bump the room's shared counter.
    TestCountUp { sender: ConnectionID },
}

/// A message addressed to a connection task.
#[derive(Clone, Debug)]
pub enum MessageToConnection {
    /// The join succeeded; the connection is now in `room_id`.
    JoinResponse { room_id: RoomID },
    /// A broadcast from another member of the room.
    Broadcast { payload: Vec<u8> },
    /// The counter's new value after a bump by this connection.
    TestCountUpResponse { counter: u64 },
    /// The server is going away.
    Shutdown { reason: ServerShutdownReason },
}

#[verifier::external_type_specification]
#[verifier::external_body]
#[verifier::reject_recursive_types(T)]
pub struct ExSender<T>(tokio::sync::mpsc::Sender<T>);

#[verifier::external_type_specification]
#[verifier::external_body]
#[verifier::reject_recursive_types(T)]
pub struct ExReceiver<T>(tokio::sync::mpsc::Receiver<T>);

/// Relies on tokio::sync::mpsc::channel to create a fresh bounded mailbox.
/// tokio panics on a zero capacity and on one above its semaphore's
/// permit limit of `usize::MAX >> 3`, so both are excluded here.
pub assume_specification<T>[ tokio::sync::mpsc::channel::<T> ](buffer: usize) -> (r: (
    tokio::sync::mpsc::Sender<T>,
    tokio::sync::mpsc::Receiver<T>,
))
    requires
        1 <= buffer <= usize::MAX >> 3,
;

/// Relies on tokio's Sender::clone: another handle to the same mailbox.
pub assume_specification<T>[ <tokio::sync::mpsc::Sender<T> as Clone>::clone ](
    s: &tokio::sync::mpsc::Sender<T>,
) -> tokio::sync::mpsc::Sender<T>;

/// Capacity of every mailbox.  A full mailbox blocks its publishers, which
/// is the backpressure the design wants; it is never silently discarded.
pub const MAILBOX_CAPACITY: usize = 8;

/// The mailbox capacity is acceptable to the channel constructor.
proof fn lemma_mailbox_capacity_in_range()
    ensures
        1 <= MAILBOX_CAPACITY <= usize::MAX >> 3,
{
    vstd::bits::lemma_usize_shr_is_div(usize::MAX, 3);
    vstd::arithmetic::power2::lemma2_to64();
    assert(usize::MAX >= 0xffff_ffff);
}

/// A registry pairing identifiers with values, each identifier present at
/// most once.
pub struct Registry<T> {
    pub entries: Vec<(Identifier, T)>,
}

impl<T> Registry<T> {
    /// The identifiers registered, in registration order.
    pub open spec fn ids(&self) -> Seq<Seq<u8>> {
        self.entries@.map_values(|e: (Identifier, T)| e.0@)
    }

    /// Is `id` registered?
    pub open spec fn has(&self, id: Seq<u8>) -> bool {
        self.ids().contains(id)
    }

    /// No identifier is registered twice.
    pub open spec fn wf(&self) -> bool {
        forall|i: int, j: int|
            0 <= i < j < self.entries@.len() ==> self.entries@[i].0@ != self.entries@[j].0@
    }

    /// An empty registry.
    pub fn new() -> (r: Registry<T>)
        ensures
            r.wf(),
            r.entries@.len() == 0,
            forall|id: Seq<u8>| !r.has(id),
    {
        Registry { entries: Vec::new() }
    }

    /// The position of `id`, if it is registered.
    pub fn find(&self, id: &Identifier) -> (r: Option<usize>)
        ensures
            (r matches Some(i) ==> i < self.entries@.len() && self.entries@[i as int].0@ == id@),
            (r is Some <==> self.has(id@)),
    {
        let mut i: usize = 0;
        while i < self.entries.len()
            invariant
                i <= self.entries@.len(),
                forall|k: int| 0 <= k < i ==> self.entries@[k].0@ != id@,
            decreases self.entries@.len() - i,
        {
            if self.entries[i].0.eq_id(id) {
                assert(self.ids()[i as int] == id@);
                return Some(i);
            }
            i = i + 1;
        }
        proof {
            assert forall|k: int| 0 <= k < self.ids().len() implies self.ids()[k] != id@ by {
                assert(self.ids()[k] == self.entries@[k].0@);
            }
        }
        None
    }

    /// Remove `id`'s entry if it has one.  Every other entry stays.
    pub fn remove_id(&mut self, id: &Identifier)
        requires
            old(self).wf(),
        ensures
            final(self).wf(),
            !final(self).has(id@),
            forall|id2: Seq<u8>|
                id2 != id@ ==> (final(self).has(id2) <==> old(self).has(id2)),
            old(self).has(id@) ==> final(self).entries@.len() == old(self).entries@.len() - 1,
            !old(self).has(id@) ==> *final(self) == *old(self),
    {
        let found = self.find(id);
        match found {
            Some(i) => {
                let ghost pre = self.entries@;
                self.entries.remove(i);
                proof {
                    let post = self.entries@;
                    assert forall|k: int| 0 <= k < post.len() implies post[k].0@ != id@ by {
                        if k < i {
                            assert(post[k] == pre[k]);
                        } else {
                            assert(post[k] == pre[k + 1]);
                        }
                    }
                    assert forall|k: int| 0 <= k < post.len() implies self.ids()[k] != id@ by {
                        assert(self.ids()[k] == post[k].0@);
                    }
                    assert forall|id2: Seq<u8>|
                        id2 != id@ && old(self).has(id2) implies self.has(id2) by {
                        let k = choose|k: int|
                            0 <= k < pre.len() && old(self).ids()[k] == id2 && pre[k].0@ == id2;
                        assert(old(self).ids()[k] == pre[k].0@);
                        if k < i {
                            assert(post[k].0@ == id2);
                            assert(self.ids()[k] == id2);
                        } else {
                            assert(post[k - 1].0@ == id2);
                            assert(self.ids()[k - 1] == id2);
                        }
                    }
                    assert forall|id2: Seq<u8>|
                        id2 != id@ && self.has(id2) implies old(self).has(id2) by {
                        let k = choose|k: int| 0 <= k < post.len() && self.ids()[k] == id2;
                        assert(post[k].0@ == id2);
                        if k < i {
                            assert(old(self).ids()[k] == id2);
                        } else {
                            assert(old(self).ids()[k + 1] == id2);
                        }
                    }
                }
            },
            None => {},
        }
    }

    /// Register `value` under `id`, replacing any earlier entry for `id`.
    pub fn insert(&mut self, id: Identifier, value: T)
        requires
            old(self).wf(),
        ensures
            final(self).wf(),
            final(self).has(id@),
            forall|id2: Seq<u8>|
                id2 != id@ ==> (final(self).has(id2) <==> old(self).has(id2)),
            final(self).entries@.len() <= old(self).entries@.len() + 1,
    {
        self.remove_id(&id);
        let ghost mid = *self;
        self.entries.push((id, value));
        proof {
            let pre = mid.entries@;
            let post = self.entries@;
            assert forall|k: int| 0 <= k < pre.len() implies post[k] == pre[k] && pre[k].0@ != id@ by {
                assert(mid.ids()[k] == pre[k].0@);
            }
            assert(post[post.len() - 1].0@ == id@);
            assert(self.ids()[post.len() - 1] == id@);
            assert forall|i: int, j: int|
                0 <= i < j < post.len() implies post[i].0@ != post[j].0@ by {
                if j < post.len() - 1 {
                    assert(pre[i].0@ != pre[j].0@);
                } else {
                    assert(post[i].0@ != id@);
                }
            }
            assert forall|id2: Seq<u8>| id2 != id@ implies (self.has(id2) <==> mid.has(id2)) by {
                if mid.has(id2) {
                    let k = choose|k: int| 0 <= k < mid.ids().len() && mid.ids()[k] == id2;
                    assert(pre[k].0@ == id2);
                    assert(self.ids()[k] == id2);
                }
                if self.has(id2) {
                    let k = choose|k: int| 0 <= k < self.ids().len() && self.ids()[k] == id2;
                    assert(post[k].0@ == id2);
                    assert(k < pre.len());
                    assert(mid.ids()[k] == id2);
                }
            }
        }
    }
}

/// The per-server registry of mailboxes: one optional server inbox, one
/// mailbox per room, one per connection.
///
/// Registration installs a fresh bounded channel and hands back its
/// receiving half; lookups hand out cloned sending halves.  A dropped
/// identity simply disappears: publishing to it is a silent no-op, which is
/// the policy the design asks for when rooms or connections are torn down
/// concurrently.
pub struct Dispatcher {
    pub server_sender: Option<tokio::sync::mpsc::Sender<MessageToServer>>,
    pub rooms: Registry<tokio::sync::mpsc::Sender<MessageToRoom>>,
    pub connections: Registry<tokio::sync::mpsc::Sender<MessageToConnection>>,
}

impl Dispatcher {
    /// Is the server mailbox installed?
    pub open spec fn server_registered(&self) -> bool {
        self.server_sender is Some
    }

    /// Is a room mailbox installed for `id`?
    pub open spec fn has_room(&self, id: Seq<u8>) -> bool {
        self.rooms.has(id)
    }

    /// Is a connection mailbox installed for `id`?
    pub open spec fn has_connection(&self, id: Seq<u8>) -> bool {
        self.connections.has(id)
    }

    /// Both registries hold each identifier at most once.
    pub open spec fn wf(&self) -> bool {
        self.rooms.wf() && self.connections.wf()
    }

    /// An empty dispatcher: no server, no rooms, no connections.
    pub fn new() -> (d: Dispatcher)
        ensures
            d.wf(),
            !d.server_registered(),
            forall|id: Seq<u8>| !d.has_room(id),
            forall|id: Seq<u8>| !d.has_connection(id),
    {
        Dispatcher { server_sender: None, rooms: Registry::new(), connections: Registry::new() }
    }

    /// Install the server mailbox and hand back its receiving half.
    pub fn register_server(&mut self) -> (rx: tokio::sync::mpsc::Receiver<MessageToServer>)
        requires
            old(self).wf(),
        ensures
            final(self).wf(),
            final(self).server_registered(),
            final(self).rooms == old(self).rooms,
            final(self).connections == old(self).connections,
    {
        proof {
            lemma_mailbox_capacity_in_range();
        }
        let (tx, rx) = tokio::sync::mpsc::channel(MAILBOX_CAPACITY);
        self.server_sender = Some(tx);
        rx
    }

    /// A sending half for the server mailbox, if one is installed.
    pub fn server_sender(&self) -> (r: Option<tokio::sync::mpsc::Sender<MessageToServer>>)
        ensures
            r is Some <==> self.server_registered(),
    {
        match &self.server_sender {
            Some(tx) => Some(tx.clone()),
            None => None,
        }
    }

    /// Install a fresh mailbox for `room_id` and hand back its receiving
    /// half.  Other rooms and all connections are untouched.
    pub fn register_room(&mut self, room_id: &RoomID) -> (rx: tokio::sync::mpsc::Receiver<
        MessageToRoom,
    >)
        requires
            old(self).wf(),
        ensures
            final(self).wf(),
            final(self).has_room(room_id@),
            forall|id: Seq<u8>|
                id != room_id@ ==> (final(self).has_room(id) <==> old(self).has_room(id)),
            final(self).connections == old(self).connections,
            final(self).server_registered() == old(self).server_registered(),
    {
        proof {
            lemma_mailbox_capacity_in_range();
        }
        let (tx, rx) = tokio::sync::mpsc::channel(MAILBOX_CAPACITY);
        self.rooms.insert(*room_id, tx);
        rx
    }

    /// Drop `room_id`'s mailbox, if it has one.
    pub fn drop_room(&mut self, room_id: &RoomID)
        requires
            old(self).wf(),
        ensures
            final(self).wf(),
            !final(self).has_room(room_id@),
            forall|id: Seq<u8>|
                id != room_id@ ==> (final(self).has_room(id) <==> old(self).has_room(id)),
            final(self).connections == old(self).connections,
            final(self).server_registered() == old(self).server_registered(),
    {
        self.rooms.remove_id(room_id);
    }

    /// A sending half for `room_id`'s mailbox: present exactly when the
    /// room is registered.
    pub fn room_sender(&self, room_id: &RoomID) -> (r: Option<tokio::sync::mpsc::Sender<
        MessageToRoom,
    >>)
        ensures
            r is Some <==> self.has_room(room_id@),
    {
        match self.rooms.find(room_id) {
            Some(i) => Some(self.rooms.entries[i].1.clone()),
            None => None,
        }
    }

    /// Install a fresh mailbox for `connection_id` and hand back its
    /// receiving half.  The connection is addressable exactly while this
    /// entry lives.
    pub fn register_connection(&mut self, connection_id: ConnectionID) -> (rx:
        tokio::sync::mpsc::Receiver<MessageToConnection>)
        requires
            old(self).wf(),
        ensures
            final(self).wf(),
            final(self).has_connection(connection_id@),
            forall|id: Seq<u8>|
                id != connection_id@ ==> (final(self).has_connection(id) <==> old(
                    self,
                ).has_connection(id)),
            final(self).rooms == old(self).rooms,
            final(self).server_registered() == old(self).server_registered(),
    {
        proof {
            lemma_mailbox_capacity_in_range();
        }
        let (tx, rx) = tokio::sync::mpsc::channel(MAILBOX_CAPACITY);
        self.connections.insert(connection_id, tx);
        rx
    }

    /// Drop `connection_id`'s mailbox.  A connection task runs this on
    /// every exit path; afterwards the identity is gone from the registry.
    pub fn drop_connection(&mut self, connection_id: &ConnectionID)
        requires
            old(self).wf(),
        ensures
            final(self).wf(),
            !final(self).has_connection(connection_id@),
            forall|id: Seq<u8>|
                id != connection_id@ ==> (final(self).has_connection(id) <==> old(
                    self,
                ).has_connection(id)),
            final(self).rooms == old(self).rooms,
            final(self).server_registered() == old(self).server_registered(),
    {
        self.connections.remove_id(connection_id);
    }

    /// A sending half for `connection_id`'s mailbox: present exactly when
    /// the connection is registered.
    pub fn connection_sender(&self, connection_id: &ConnectionID) -> (r: Option<
        tokio::sync::mpsc::Sender<MessageToConnection>,
    >)
        ensures
            r is Some <==> self.has_connection(connection_id@),
    {
        match self.connections.find(connection_id) {
            Some(i) => Some(self.connections.entries[i].1.clone()),
            None => None,
        }
    }

    /// A snapshot of every connection mailbox, one sending half per
    /// registered connection, for a broadcast outside the registry lock.
    pub fn all_connections(&self) -> (r: Vec<tokio::sync::mpsc::Sender<MessageToConnection>>)
        ensures
            r@.len() == self.connections.entries@.len(),
    {
        let mut out: Vec<tokio::sync::mpsc::Sender<MessageToConnection>> = Vec::new();
        let mut i: usize = 0;
        while i < self.connections.entries.len()
            invariant
                i <= self.connections.entries@.len(),
                out@.len() == i,
            decreases self.connections.entries@.len() - i,
        {
            out.push(self.connections.entries[i].1.clone());
            i = i + 1;
        }
        out
    }
}

impl Default for Dispatcher {
    /// The empty dispatcher.
    fn default() -> (d: Dispatcher)
        ensures
            d.wf(),
            !d.server_registered(),
            forall|id: Seq<u8>| !d.has_room(id),
            forall|id: Seq<u8>| !d.has_connection(id),
    {
        Dispatcher::new()
    }
}

} // verus!
