//! The authoritative per-room state machine.
//!
//! A room holds its owning server's identity, its own identity, and the set
//! of locally connected members.  Its task loop waits for either a
//! [`MessageToRoom`] from the local mailbox or an envelope from the room's
//! pub/sub subscription, and asks the room what to do.  The room never
//! performs I/O itself: each step returns the replies to publish to
//! connections, an optional envelope for the bus, and an optional state
//! store write.  The shell carries those out.
//!
//! The room's shared counter lives in the state store under the room-scoped
//! key `counter`, as a little-endian `u64`.  The loop reads it before
//! handing a counter bump to [`Room::handle_message`], and writes back what
//! the step returns.

use crate::dispatcher::MessageToConnection;
use crate::dispatcher::MessageToRoom;
use crate::pubsub::PubSubMessage;
use crate::types::spec_canonical_text;
use crate::types::ConnectionID;
use crate::types::RoomID;
use crate::types::ServerID;
use vstd::bytes::spec_u64_from_le_bytes;
use vstd::bytes::spec_u64_to_le_bytes;
use vstd::bytes::u64_from_le_bytes;
use vstd::bytes::u64_to_le_bytes;
use vstd::prelude::*;

verus! {

broadcast use vstd::array::group_array_axioms;

/// Why a counter bump failed.  Either way the room itself carries on; only
/// the in-flight request dies, and no response reaches the sender.
#[derive(Clone, Copy, Debug, PartialEq, Eq, Structural)]
pub enum CounterError {
    /// The stored value is not an 8-byte little-endian integer.
    MalformedState,
    /// The counter is already at the largest representable value.
    Overflow,
}

/// The stored counter state as the store hands it back: absent, or bytes.
pub open spec fn stored_view(stored: Option<&Vec<u8>>) -> Option<Seq<u8>> {
    match stored {
        Some(b) => Some(b@),
        None => None,
    }
}

/// A stored counter is well formed when it is absent or exactly 8 bytes.
pub open spec fn stored_counter_wf(stored: Option<Seq<u8>>) -> bool {
    stored matches Some(b) ==> b.len() == 8
}

/// The counter value a stored state denotes: absent means zero.
pub open spec fn spec_counter_of(stored: Option<Seq<u8>>) -> int
    recommends
        stored_counter_wf(stored),
{
    match stored {
        None => 0,
        Some(b) => spec_u64_from_le_bytes(b) as int,
    }
}

/// Read the stored counter, add one, and return the new value with the
/// bytes to write back.  Absent state counts as zero.  Malformed state and
/// a counter at the maximum are errors; nothing is written for them.
pub fn count_up(stored: Option<&Vec<u8>>) -> (r: Result<(u64, Vec<u8>), CounterError>)
    ensures
        (r matches Ok((counter, bytes)) ==> stored_counter_wf(stored_view(stored)) && counter
            == spec_counter_of(stored_view(stored)) + 1 && bytes@ == spec_u64_to_le_bytes(
            counter,
        )),
        (r == Err::<(u64, Vec<u8>), CounterError>(CounterError::MalformedState)
            <==> !stored_counter_wf(stored_view(stored))),
        (r == Err::<(u64, Vec<u8>), CounterError>(CounterError::Overflow) <==> (
        stored_counter_wf(stored_view(stored)) && spec_counter_of(stored_view(stored))
            == u64::MAX)),
{
    let current: u64 = match stored {
        None => 0,
        Some(bytes) => {
            if bytes.len() != 8 {
                return Err(CounterError::MalformedState);
            }
            u64_from_le_bytes(bytes.as_slice())
        },
    };
    if current == u64::MAX {
        return Err(CounterError::Overflow);
    }
    let counter = current + 1;
    let bytes = u64_to_le_bytes(counter);
    Ok((counter, bytes))
}

/// The state store key for `key` within a room's namespace: the room's
/// canonical text, a slash, the key.  The room identifier in the key is
/// what keeps different rooms' state apart across the fleet.
pub fn state_key(room_id: &RoomID, key: &[u8]) -> (r: Vec<u8>)
    ensures
        r@ == spec_canonical_text(room_id@) + seq![0x2fu8] + key@,
{
    let mut out = room_id.canonical_text();
    out.push(0x2f);
    out.extend_from_slice(key);
    proof {
        assert(out@ =~= spec_canonical_text(room_id@) + seq![0x2fu8] + key@);
    }
    out
}

/// State keys of distinct rooms never collide, whatever the key: each
/// room's key starts with the room's canonical text, and distinct rooms
/// have distinct texts.  This is what makes each room's `counter` an
/// independent namespace across the fleet.
pub proof fn lemma_state_keys_disjoint(a: Seq<u8>, b: Seq<u8>, key: Seq<u8>)
    requires
        a.len() == 16,
        b.len() == 16,
        a != b,
    ensures
        spec_canonical_text(a) + seq![0x2fu8] + key != spec_canonical_text(b) + seq![0x2fu8]
            + key,
{
    crate::types::lemma_canonical_text_injective(a, b);
    crate::types::lemma_canonical_text_digits(a, 0);
    crate::types::lemma_canonical_text_digits(b, 0);
    let ka = spec_canonical_text(a) + seq![0x2fu8] + key;
    let kb = spec_canonical_text(b) + seq![0x2fu8] + key;
    if ka == kb {
        assert(spec_canonical_text(a) =~= spec_canonical_text(b)) by {
            assert forall|j: int|
                0 <= j < 36 implies spec_canonical_text(a)[j] == spec_canonical_text(b)[j] by {
                assert(ka[j] == kb[j]);
            }
        }
    }
}

/// Counter bumps give consecutive values: bumping a stored counter and then
/// bumping the state it wrote yields the successor of the first response,
/// so a later response is never smaller than an earlier one.
pub proof fn lemma_counter_bumps_are_consecutive(stored: Option<Seq<u8>>)
    requires
        stored_counter_wf(stored),
        spec_counter_of(stored) + 2 <= u64::MAX,
    ensures
        ({
            let first = spec_counter_of(stored) + 1;
            let second = spec_counter_of(Some(spec_u64_to_le_bytes(first as u64))) + 1;
            second == first + 1 && first <= second
        }),
{
    vstd::bytes::lemma_auto_spec_u64_to_from_le_bytes();
}

/// A fan-out reaches each of its targets exactly once: among replies with
/// pairwise distinct targets, an addressed identifier owns exactly one
/// entry.
pub proof fn lemma_fanout_exactly_once(
    replies: Seq<(ConnectionID, MessageToConnection)>,
    id: Seq<u8>,
)
    requires
        forall|k: int, l: int| 0 <= k < l < replies.len() ==> replies[k].0@ != replies[l].0@,
        target_ids(replies).contains(id),
    ensures
        exists|k: int|
            0 <= k < replies.len() && #[trigger] replies[k].0@ == id && (forall|l: int|
                0 <= l < replies.len() && #[trigger] replies[l].0@ == id ==> l == k),
{
    let k = choose|k: int| 0 <= k < target_ids(replies).len() && target_ids(replies)[k] == id;
    assert(replies[k].0@ == id);
    assert forall|l: int|
        0 <= l < replies.len() && #[trigger] replies[l].0@ == id implies l == k by {}
}

/// What the shell must do after one room step.
pub struct RoomEffects {
    /// Messages to publish to connections, in order.
    pub replies: Vec<(ConnectionID, MessageToConnection)>,
    /// An envelope to publish on the room's topic, if any.
    pub publish: Option<PubSubMessage>,
    /// New bytes for the room's `counter` state, if any.
    pub save: Option<Vec<u8>>,
}

/// The identifiers a list of replies is addressed to.
pub open spec fn target_ids(replies: Seq<(ConnectionID, MessageToConnection)>) -> Seq<Seq<u8>> {
    replies.map_values(|e: (ConnectionID, MessageToConnection)| e.0@)
}

/// One room on one server: its identities and its local member set.
pub struct Room {
    pub server_id: ServerID,
    pub room_id: RoomID,
    pub connections: Vec<ConnectionID>,
}

impl Room {
    /// The local members' identifiers, in join order.
    pub open spec fn member_ids(&self) -> Seq<Seq<u8>> {
        self.connections@.map_values(|c: ConnectionID| c@)
    }

    /// Is `id` a local member?
    pub open spec fn has_member(&self, id: Seq<u8>) -> bool {
        self.member_ids().contains(id)
    }

    /// No member is listed twice.
    pub open spec fn wf(&self) -> bool {
        forall|i: int, j: int|
            0 <= i < j < self.connections@.len() ==> self.connections@[i]@ != self.connections@[j]@
    }

    /// A fresh room on `server_id` with no members.
    pub fn new(server_id: ServerID, room_id: RoomID) -> (r: Room)
        ensures
            r.wf(),
            r.server_id == server_id,
            r.room_id == room_id,
            r.connections@.len() == 0,
    {
        Room { server_id, room_id, connections: Vec::new() }
    }

    /// The pub/sub topic this room subscribes to: the canonical text of its
    /// identifier, as ASCII bytes.
    pub fn topic(&self) -> (r: Vec<u8>)
        ensures
            r@ == spec_canonical_text(self.room_id@),
    {
        self.room_id.canonical_text()
    }

    /// Is `id` a local member?
    fn is_member(&self, id: &ConnectionID) -> (r: bool)
        ensures
            r == self.has_member(id@),
    {
        let mut i: usize = 0;
        while i < self.connections.len()
            invariant
                i <= self.connections@.len(),
                forall|k: int| 0 <= k < i ==> self.connections@[k]@ != id@,
            decreases self.connections@.len() - i,
        {
            if self.connections[i].eq_id(id) {
                assert(self.member_ids()[i as int] == id@);
                return true;
            }
            i = i + 1;
        }
        proof {
            assert forall|k: int| 0 <= k < self.member_ids().len() implies self.member_ids()[k]
                != id@ by {
                assert(self.member_ids()[k] == self.connections@[k]@);
            }
        }
        false
    }

    /// The local fan-out of a broadcast: one message per member other than
    /// the sender, each exactly once, all carrying the payload.  The sender
    /// never appears.
    pub fn broadcast(&self, sender: &ConnectionID, payload: &Vec<u8>) -> (r: Vec<
        (ConnectionID, MessageToConnection),
    >)
        requires
            self.wf(),
        ensures
            forall|k: int|
                0 <= k < r@.len() ==> (self.has_member(r@[k].0@) && r@[k].0@ != sender@ && (
                r@[k].1 matches MessageToConnection::Broadcast { payload: p } && p@ == payload@)),
            forall|id: Seq<u8>|
                self.has_member(id) && id != sender@ ==> target_ids(r@).contains(id),
            forall|k: int, l: int| 0 <= k < l < r@.len() ==> r@[k].0@ != r@[l].0@,
    {
        let mut out: Vec<(ConnectionID, MessageToConnection)> = Vec::new();
        let mut i: usize = 0;
        while i < self.connections.len()
            invariant
                self.wf(),
                i <= self.connections@.len(),
                forall|k: int|
                    0 <= k < out@.len() ==> (out@[k].0@ != sender@ && (
                    out@[k].1 matches MessageToConnection::Broadcast { payload: p } && p@
                        == payload@)),
                forall|k: int|
                    0 <= k < out@.len() ==> exists|j: int|
                        0 <= j < i && #[trigger] self.connections@[j]@ == #[trigger] out@[k].0@,
                forall|j: int|
                    0 <= j < i && self.connections@[j]@ != sender@ ==> target_ids(
                        out@,
                    ).contains(self.connections@[j]@),
                forall|k: int, l: int| 0 <= k < l < out@.len() ==> out@[k].0@ != out@[l].0@,
            decreases self.connections@.len() - i,
        {
            let member = self.connections[i];
            if !member.eq_id(sender) {
                let ghost pre = out@;
                let msg = MessageToConnection::Broadcast {
                    payload: vstd::slice::slice_to_vec(payload.as_slice()),
                };
                out.push((member, msg));
                proof {
                    assert(out@[out@.len() - 1].0@ == self.connections@[i as int]@);
                    assert forall|k: int|
                        0 <= k < pre.len() implies out@[k].0@ != self.connections@[i as int]@ by {
                        let j = choose|j: int|
                            0 <= j < i && self.connections@[j]@ == out@[k].0@;
                        assert(self.connections@[j]@ != self.connections@[i as int]@);
                    }
                    assert forall|j: int|
                        0 <= j < i + 1 && self.connections@[j]@ != sender@ implies target_ids(
                            out@,
                        ).contains(self.connections@[j]@) by {
                        if j < i {
                            let k = choose|k: int|
                                0 <= k < target_ids(pre).len() && target_ids(pre)[k]
                                    == self.connections@[j]@;
                            assert(target_ids(out@)[k] == self.connections@[j]@);
                        } else {
                            assert(target_ids(out@)[out@.len() - 1]
                                == self.connections@[i as int]@);
                        }
                    }
                }
            } else {
                proof {
                    assert forall|j: int|
                        0 <= j < i + 1 && self.connections@[j]@ != sender@ implies target_ids(
                            out@,
                        ).contains(self.connections@[j]@) by {}
                }
            }
            i = i + 1;
        }
        proof {
            assert forall|k: int| 0 <= k < out@.len() implies self.has_member(out@[k].0@) by {
                let j = choose|j: int|
                    0 <= j < self.connections@.len() && self.connections@[j]@ == out@[k].0@;
                assert(self.member_ids()[j] == out@[k].0@);
            }
        }
        out
    }

    /// One step on a message from the local mailbox.
    ///
    /// A join adds the member (repeat joins change nothing) and always
    /// acknowledges to the joining connection.  A broadcast fans out to
    /// every other local member and is republished on the bus stamped with
    /// this server's identity.  A counter bump increments the stored
    /// counter, writes it back, and answers the sender with the new value;
    /// for a counter bump `stored` must carry what the state store holds
    /// under this room's `counter` key.
    pub fn handle_message(&mut self, msg: MessageToRoom, stored: Option<&Vec<u8>>) -> (r: Result<
        RoomEffects,
        CounterError,
    >)
        requires
            old(self).wf(),
            msg matches MessageToRoom::Broadcast { payload, .. } ==> payload@.len() <= 0xffff,
        ensures
            final(self).wf(),
            final(self).server_id == old(self).server_id,
            final(self).room_id == old(self).room_id,
            (msg matches MessageToRoom::Join { connection_id } ==> r matches Ok(eff) && {
                &&& final(self).has_member(connection_id@)
                &&& forall|id: Seq<u8>|
                    id != connection_id@ ==> (final(self).has_member(id) <==> old(
                        self,
                    ).has_member(id))
                &&& eff.replies@.len() == 1
                &&& eff.replies@[0].0@ == connection_id@
                &&& (eff.replies@[0].1 matches MessageToConnection::JoinResponse { room_id }
                    && room_id@ == old(self).room_id@)
                &&& eff.publish is None
                &&& eff.save is None
            }),
            (msg matches MessageToRoom::Broadcast { sender, payload } ==> *final(self) == *old(
                self,
            ) && (r matches Ok(eff) && {
                &&& forall|k: int|
                    0 <= k < eff.replies@.len() ==> (old(self).has_member(eff.replies@[k].0@)
                        && eff.replies@[k].0@ != sender@ && (
                    eff.replies@[k].1 matches MessageToConnection::Broadcast { payload: p } && p@
                        == payload@))
                &&& forall|id: Seq<u8>|
                    old(self).has_member(id) && id != sender@ ==> target_ids(
                        eff.replies@,
                    ).contains(id)
                &&& forall|k: int, l: int|
                    0 <= k < l < eff.replies@.len() ==> eff.replies@[k].0@ != eff.replies@[l].0@
                &&& (eff.publish matches Some(env) && env@.wf() && (
                env matches PubSubMessage::Broadcast { sender_server, sender: s, payload: p }
                    && sender_server@ == old(self).server_id@ && s@ == sender@ && p@ == payload@))
                &&& eff.save is None
            })),
            (msg matches MessageToRoom::TestCountUp { sender } ==> *final(self) == *old(self)
                && match r {
                Ok(eff) => {
                    &&& stored_counter_wf(stored_view(stored))
                    &&& spec_counter_of(stored_view(stored)) < u64::MAX
                    &&& eff.replies@.len() == 1
                    &&& eff.replies@[0].0@ == sender@
                    &&& (eff.replies@[0].1 matches MessageToConnection::TestCountUpResponse {
                        counter,
                    } && counter == spec_counter_of(stored_view(stored)) + 1)
                    &&& (eff.save matches Some(bytes) && bytes@ == spec_u64_to_le_bytes(
                        (spec_counter_of(stored_view(stored)) + 1) as u64,
                    ))
                    &&& eff.publish is None
                },
                Err(e) => {
                    &&& (e == CounterError::MalformedState <==> !stored_counter_wf(
                        stored_view(stored),
                    ))
                    &&& (e == CounterError::Overflow <==> stored_counter_wf(stored_view(stored))
                        && spec_counter_of(stored_view(stored)) == u64::MAX)
                },
            }),
    {
        match msg {
            MessageToRoom::Join { connection_id } => {
                if !self.is_member(&connection_id) {
                    let ghost pre = self.connections@;
                    self.connections.push(connection_id);
                    proof {
                        assert(self.member_ids()[pre.len() as int] == connection_id@);
                        assert forall|k: int|
                            0 <= k < pre.len() implies self.connections@[k] == pre[k] by {}
                        assert forall|k: int|
                            0 <= k < pre.len() implies pre[k]@ != connection_id@ by {
                            assert(old(self).member_ids()[k] == pre[k]@);
                        }
                        assert forall|a: int, b: int|
                            0 <= a < b < self.connections@.len() implies self.connections@[a]@
                            != self.connections@[b]@ by {
                            if b < pre.len() {
                                assert(pre[a]@ != pre[b]@);
                            } else {
                                assert(self.connections@[b]@ == connection_id@);
                                assert(pre[a]@ != connection_id@);
                            }
                        }
                        assert forall|id: Seq<u8>|
                            id != connection_id@ implies (self.has_member(id) <==> old(
                                self,
                            ).has_member(id)) by {
                            if old(self).has_member(id) {
                                let k = choose|k: int|
                                    0 <= k < old(self).member_ids().len() && old(
                                        self,
                                    ).member_ids()[k] == id;
                                assert(self.member_ids()[k] == id);
                            }
                            if self.has_member(id) {
                                let k = choose|k: int|
                                    0 <= k < self.member_ids().len() && self.member_ids()[k]
                                        == id;
                                assert(k < pre.len());
                                assert(old(self).member_ids()[k] == id);
                            }
                        }
                    }
                }
                let mut replies: Vec<(ConnectionID, MessageToConnection)> = Vec::new();
                replies.push(
                    (connection_id, MessageToConnection::JoinResponse { room_id: self.room_id }),
                );
                Ok(RoomEffects { replies, publish: None, save: None })
            },
            MessageToRoom::Broadcast { sender, payload } => {
                let replies = self.broadcast(&sender, &payload);
                let envelope = PubSubMessage::Broadcast {
                    sender_server: self.server_id.into_bytes(),
                    sender: sender.into_bytes(),
                    payload,
                };
                Ok(RoomEffects { replies, publish: Some(envelope), save: None })
            },
            MessageToRoom::TestCountUp { sender } => {
                match count_up(stored) {
                    Ok((counter, bytes)) => {
                        let mut replies: Vec<(ConnectionID, MessageToConnection)> = Vec::new();
                        replies.push(
                            (sender, MessageToConnection::TestCountUpResponse { counter }),
                        );
                        Ok(RoomEffects { replies, publish: None, save: Some(bytes) })
                    },
                    Err(e) => Err(e),
                }
            },
        }
    }

    /// One step on an envelope from the pub/sub subscription.
    ///
    /// An envelope stamped with this server's identity is the loopback of a
    /// broadcast already fanned out locally: it is dropped.  Any other
    /// broadcast is fanned out to every local member, each exactly once;
    /// its sender is on another server, so no exclusion applies.
    pub fn handle_pubsub_message(&self, msg: &PubSubMessage) -> (r: Vec<
        (ConnectionID, MessageToConnection),
    >)
        requires
            self.wf(),
        ensures
            (msg@.sender_server == self.server_id@ ==> r@.len() == 0),
            (msg@.sender_server != self.server_id@ ==> {
                &&& forall|k: int|
                    0 <= k < r@.len() ==> (self.has_member(r@[k].0@) && (
                    r@[k].1 matches MessageToConnection::Broadcast { payload: p } && p@
                        == msg@.payload))
                &&& forall|id: Seq<u8>| self.has_member(id) ==> target_ids(r@).contains(id)
                &&& forall|k: int, l: int| 0 <= k < l < r@.len() ==> r@[k].0@ != r@[l].0@
            }),
    {
        let origin = msg.origin_server();
        if origin.eq_id(&self.server_id) {
            Vec::new()
        } else {
            let payload = msg.payload_bytes();
            let mut out: Vec<(ConnectionID, MessageToConnection)> = Vec::new();
            let mut i: usize = 0;
            while i < self.connections.len()
                invariant
                    self.wf(),
                    i <= self.connections@.len(),
                    out@.len() == i,
                    payload@ == msg@.payload,
                    forall|k: int|
                        0 <= k < i ==> (out@[k].0@ == self.connections@[k]@ && (
                        out@[k].1 matches MessageToConnection::Broadcast { payload: p } && p@
                            == payload@)),
                decreases self.connections@.len() - i,
            {
                let member = self.connections[i];
                let m = MessageToConnection::Broadcast {
                    payload: vstd::slice::slice_to_vec(payload.as_slice()),
                };
                out.push((member, m));
                proof {
                    assert(out@[i as int].0@ == self.connections@[i as int]@);
                    assert(out@[i as int].1 matches MessageToConnection::Broadcast {
                        payload: p,
                    } && p@ == payload@);
                }
                i = i + 1;
            }
            proof {
                assert forall|k: int| 0 <= k < out@.len() implies self.has_member(out@[k].0@) by {
                    assert(self.member_ids()[k] == out@[k].0@);
                }
                assert forall|id: Seq<u8>|
                    self.has_member(id) implies target_ids(out@).contains(id) by {
                    let k = choose|k: int|
                        0 <= k < self.member_ids().len() && self.member_ids()[k] == id;
                    assert(target_ids(out@)[k] == out@[k].0@);
                    assert(out@[k].0@ == self.connections@[k]@);
                }
                assert forall|k: int, l: int|
                    0 <= k < l < out@.len() implies out@[k].0@ != out@[l].0@ by {
                    assert(out@[k].0@ == self.connections@[k]@);
                    assert(out@[l].0@ == self.connections@[l]@);
                }
            }
            out
        }
    }
}

} // verus!
