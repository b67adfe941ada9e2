//! The envelope carried between servers on the pub/sub bus.
//!
//! Each room subscribes to the topic named by its room identifier.  A
//! broadcast is republished there so that members connected to other
//! servers receive it too.  The envelope is a framed tagged variant,
//! little-endian: one discriminant byte, the sending server's identifier,
//! the sending connection's identifier, and a length-prefixed payload.

use crate::packets::DecodeError;
use vstd::bytes::*;
use vstd::prelude::*;

verus! {

broadcast use vstd::array::group_array_axioms;

/// A message between servers over the bus.
#[derive(Clone, Debug, PartialEq)]
pub enum PubSubMessage {
    /// A broadcast made by `sender` on `sender_server`, to be fanned out to
    /// the local members of the room.
    Broadcast { sender_server: [u8; 16], sender: [u8; 16], payload: Vec<u8> },
}

/// Mathematical content of an envelope.
#[verifier::ext_equal]
pub ghost struct PubSubMessageV {
    pub sender_server: Seq<u8>,
    pub sender: Seq<u8>,
    pub payload: Seq<u8>,
}

impl View for PubSubMessage {
    type V = PubSubMessageV;

    open spec fn view(&self) -> PubSubMessageV {
        match self {
            PubSubMessage::Broadcast { sender_server, sender, payload } => PubSubMessageV {
                sender_server: sender_server@,
                sender: sender@,
                payload: payload@,
            },
        }
    }
}

impl PubSubMessageV {
    /// A well-formed envelope: two 16-byte identifiers and a payload whose
    /// length fits the `u16` length word.
    pub open spec fn wf(self) -> bool {
        &&& self.sender_server.len() == 16
        &&& self.sender.len() == 16
        &&& self.payload.len() <= 0xffff
    }
}

/// The bytes of an envelope on the bus.
pub open spec fn spec_envelope_bytes(v: PubSubMessageV) -> Seq<u8> {
    seq![0x01u8] + v.sender_server + v.sender + spec_u16_to_le_bytes(v.payload.len() as u16)
        + v.payload
}

/// Parse an envelope.  Trailing bytes after the declared payload are
/// ignored.
pub open spec fn spec_parse_envelope(b: Seq<u8>) -> Result<PubSubMessageV, DecodeError> {
    if b.len() < 1 {
        Err(DecodeError::ShortFrame)
    } else if b[0] != 0x01 {
        Err(DecodeError::UnknownTag)
    } else if b.len() < 35 {
        Err(DecodeError::ShortFrame)
    } else {
        let n = spec_u16_from_le_bytes(b.subrange(33, 35)) as int;
        if b.len() < 35 + n {
            Err(DecodeError::ShortFrame)
        } else {
            Ok(
                PubSubMessageV {
                    sender_server: b.subrange(1, 17),
                    sender: b.subrange(17, 33),
                    payload: b.subrange(35, 35 + n),
                },
            )
        }
    }
}

/// Copy 16 bytes starting at `i` of `b` into an identifier array.
fn read_id16(b: &Vec<u8>, i: usize) -> (r: [u8; 16])
    requires
        i + 16 <= b@.len(),
        b@.len() <= usize::MAX,
    ensures
        r@ == b@.subrange(i as int, i + 16),
{
    let mut a: [u8; 16] = [0; 16];
    let mut j: usize = 0;
    while j < 16
        invariant
            j <= 16,
            i + 16 <= b@.len() <= usize::MAX,
            forall|k: int| 0 <= k < j ==> a@[k] == b@[i + k],
        decreases 16 - j,
    {
        a[j] = b[i + j];
        j = j + 1;
    }
    proof {
        assert(a@ =~= b@.subrange(i as int, i + 16));
    }
    a
}

impl PubSubMessage {
    /// Parse an envelope as read from the bus.
    pub fn from_bytes(bytes: &[u8]) -> (r: Result<PubSubMessage, DecodeError>)
        ensures
            (r matches Ok(m) ==> m@.wf() && spec_parse_envelope(bytes@) == Ok::<
                PubSubMessageV,
                DecodeError,
            >(m@)),
            (r matches Err(e) ==> spec_parse_envelope(bytes@) == Err::<
                PubSubMessageV,
                DecodeError,
            >(e)),
    {
        let b: Vec<u8> = vstd::slice::slice_to_vec(bytes);
        if b.len() < 1 {
            return Err(DecodeError::ShortFrame);
        }
        if b[0] != 0x01 {
            return Err(DecodeError::UnknownTag);
        }
        if b.len() < 35 {
            return Err(DecodeError::ShortFrame);
        }
        proof {
            assert(bytes@.subrange(33, 35) =~= b@.subrange(33, 35));
        }
        let n = u16_from_le_bytes(vstd::slice::slice_subrange(b.as_slice(), 33, 35));
        if b.len() - 35 < n as usize {
            return Err(DecodeError::ShortFrame);
        }
        let sender_server = read_id16(&b, 1);
        let sender = read_id16(&b, 17);
        let payload = vstd::slice::slice_to_vec(
            vstd::slice::slice_subrange(b.as_slice(), 35, 35 + n as usize),
        );
        Ok(PubSubMessage::Broadcast { sender_server, sender, payload })
    }

    /// The identifier of the server that published this envelope.
    pub fn origin_server(&self) -> (r: crate::types::ServerID)
        ensures
            r@ == self@.sender_server,
    {
        match self {
            PubSubMessage::Broadcast { sender_server, .. } => {
                crate::types::Identifier::from_bytes(*sender_server)
            },
        }
    }

    /// A copy of the broadcast payload this envelope carries.
    pub fn payload_bytes(&self) -> (r: Vec<u8>)
        ensures
            r@ == self@.payload,
    {
        match self {
            PubSubMessage::Broadcast { payload, .. } => {
                vstd::slice::slice_to_vec(payload.as_slice())
            },
        }
    }

    /// Serialise this envelope for the bus.
    pub fn to_bytes(&self) -> (r: Vec<u8>)
        requires
            self@.wf(),
        ensures
            r@ == spec_envelope_bytes(self@),
    {
        match self {
            PubSubMessage::Broadcast { sender_server, sender, payload } => {
                let mut out: Vec<u8> = Vec::new();
                out.push(0x01);
                out.extend_from_slice(sender_server.as_slice());
                out.extend_from_slice(sender.as_slice());
                let mut len_word = u16_to_le_bytes(payload.len() as u16);
                out.append(&mut len_word);
                out.extend_from_slice(payload.as_slice());
                proof {
                    assert(out@ =~= spec_envelope_bytes(self@));
                }
                out
            },
        }
    }
}

/// Envelope round trip: parsing the bytes of any well-formed envelope gives
/// back exactly that envelope.
pub proof fn lemma_envelope_round_trip(v: PubSubMessageV)
    requires
        v.wf(),
    ensures
        spec_parse_envelope(spec_envelope_bytes(v)) == Ok::<PubSubMessageV, DecodeError>(v),
{
    lemma_auto_spec_u16_to_from_le_bytes();
    let e = spec_envelope_bytes(v);
    let n = v.payload.len() as int;
    assert(e.subrange(33, 35) =~= spec_u16_to_le_bytes(v.payload.len() as u16));
    assert(e.subrange(1, 17) =~= v.sender_server);
    assert(e.subrange(17, 33) =~= v.sender);
    assert(e.subrange(35, 35 + n) =~= v.payload);
}

} // verus!
