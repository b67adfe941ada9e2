//! Wire codec for the client/server protocol.
//!
//! A frame is the 14-byte magic `KAZAHANE 1.0.0`, one tag byte, and a
//! per-tag body.  All integers are little-endian; length-prefixed byte
//! sequences use a `u16` length.  A frame never exceeds
//! [`MAX_FRAME_SIZE`] bytes.
//!
//! [`Packet`] carries a frame in memory: its tag and its payload.  For the
//! two tags whose body is a bare length-prefixed byte string (hello request
//! token, broadcast request payload) the payload holds the bytes after the
//! length word; for every other tag the payload holds the whole body.
//! [`spec_encode`] and [`spec_decode`] are the mathematical statement of the
//! grammar; [`encode`] and [`decode`] implement it.

use vstd::bytes::*;
use vstd::prelude::*;
use vstd::string::StrSliceExecFns;
use vstd::string::StringSliceAdditionalSpecFns;

verus! {

broadcast use vstd::array::group_array_axioms;

/// Upper bound on a whole frame, counting the magic and the tag.
pub const MAX_FRAME_SIZE: usize = 4096;

/// The bytes of the literal `KAZAHANE 1.0.0`.
pub open spec fn spec_magic() -> Seq<u8> {
    seq![0x4bu8, 0x41, 0x5a, 0x41, 0x48, 0x41, 0x4e, 0x45, 0x20, 0x31, 0x2e, 0x30, 0x2e, 0x30]
}

/// The magic as a vector, for building and checking frames.
fn magic_bytes() -> (r: Vec<u8>)
    ensures
        r@ == spec_magic(),
{
    let mut v: Vec<u8> = Vec::new();
    v.push(0x4b);
    v.push(0x41);
    v.push(0x5a);
    v.push(0x41);
    v.push(0x48);
    v.push(0x41);
    v.push(0x4e);
    v.push(0x45);
    v.push(0x20);
    v.push(0x31);
    v.push(0x2e);
    v.push(0x30);
    v.push(0x2e);
    v.push(0x30);
    proof {
        assert(v@ =~= spec_magic());
    }
    v
}

/// The tag of a packet, naming which body follows.
#[derive(Clone, Copy, Debug, PartialEq, Eq, Structural)]
pub enum PacketType {
    HelloRequest,
    HelloResponse,
    JoinRoomRequest,
    JoinRoomResponse,
    BroadcastMessage,
    RoomNotification,
    ServerNotification,
    TestCountUp,
    TestCountUpResponse,
}

/// The tag byte written on the wire for each packet type.
pub open spec fn spec_tag(t: PacketType) -> u8 {
    match t {
        PacketType::HelloRequest => 0x01,
        PacketType::HelloResponse => 0x02,
        PacketType::JoinRoomRequest => 0x03,
        PacketType::JoinRoomResponse => 0x04,
        PacketType::BroadcastMessage => 0x05,
        PacketType::RoomNotification => 0x06,
        PacketType::ServerNotification => 0x07,
        PacketType::TestCountUp => 0xde,
        PacketType::TestCountUpResponse => 0xdf,
    }
}

/// The packet type named by a tag byte, if any.
pub open spec fn spec_type_of_tag(b: u8) -> Option<PacketType> {
    if b == 0x01 {
        Some(PacketType::HelloRequest)
    } else if b == 0x02 {
        Some(PacketType::HelloResponse)
    } else if b == 0x03 {
        Some(PacketType::JoinRoomRequest)
    } else if b == 0x04 {
        Some(PacketType::JoinRoomResponse)
    } else if b == 0x05 {
        Some(PacketType::BroadcastMessage)
    } else if b == 0x06 {
        Some(PacketType::RoomNotification)
    } else if b == 0x07 {
        Some(PacketType::ServerNotification)
    } else if b == 0xde {
        Some(PacketType::TestCountUp)
    } else if b == 0xdf {
        Some(PacketType::TestCountUpResponse)
    } else {
        None
    }
}

fn tag_of(t: PacketType) -> (r: u8)
    ensures
        r == spec_tag(t),
{
    match t {
        PacketType::HelloRequest => 0x01,
        PacketType::HelloResponse => 0x02,
        PacketType::JoinRoomRequest => 0x03,
        PacketType::JoinRoomResponse => 0x04,
        PacketType::BroadcastMessage => 0x05,
        PacketType::RoomNotification => 0x06,
        PacketType::ServerNotification => 0x07,
        PacketType::TestCountUp => 0xde,
        PacketType::TestCountUpResponse => 0xdf,
    }
}

fn type_of_tag(b: u8) -> (r: Option<PacketType>)
    ensures
        r == spec_type_of_tag(b),
{
    if b == 0x01 {
        Some(PacketType::HelloRequest)
    } else if b == 0x02 {
        Some(PacketType::HelloResponse)
    } else if b == 0x03 {
        Some(PacketType::JoinRoomRequest)
    } else if b == 0x04 {
        Some(PacketType::JoinRoomResponse)
    } else if b == 0x05 {
        Some(PacketType::BroadcastMessage)
    } else if b == 0x06 {
        Some(PacketType::RoomNotification)
    } else if b == 0x07 {
        Some(PacketType::ServerNotification)
    } else if b == 0xde {
        Some(PacketType::TestCountUp)
    } else if b == 0xdf {
        Some(PacketType::TestCountUpResponse)
    } else {
        None
    }
}

/// Why a frame was rejected.
#[derive(Clone, Copy, Debug, PartialEq, Eq, Structural)]
pub enum DecodeError {
    /// The frame does not start with the magic.
    MagicMismatch,
    /// The tag byte, or an inner discriminant byte, names no known variant.
    UnknownTag,
    /// The frame ends before the body its tag demands.
    ShortFrame,
    /// A declared length would push the frame past [`MAX_FRAME_SIZE`].
    LengthOverflow,
}

/// Does this tag write the generic `u16` payload length on the wire?
///
/// Only the two bodies that are a bare length-prefixed byte string do; every
/// other body carries its own structure inside the payload.
pub open spec fn has_len_prefix(t: PacketType) -> bool {
    t is HelloRequest || t is BroadcastMessage
}

/// Mathematical content of a packet: its tag and its payload bytes.
#[verifier::ext_equal]
pub ghost struct PacketV {
    pub packet_type: PacketType,
    pub payload: Seq<u8>,
}

/// Is a status byte one of the three hello response codes?
pub open spec fn valid_status_byte(b: u8) -> bool {
    b == 0x00 || b == 0x01 || b == 0x02
}

/// Structure of a room notification payload: one discriminant byte, then a
/// 16-byte player identifier (joined, left) or a length-prefixed byte string
/// (broadcast).
pub open spec fn room_note_payload_wf(p: Seq<u8>) -> bool {
    &&& p.len() >= 1
    &&& (p[0] == 0x01 || p[0] == 0x02 || p[0] == 0x03)
    &&& ((p[0] == 0x01 || p[0] == 0x02) ==> p.len() == 17)
    &&& (p[0] == 0x03 ==> p.len() >= 3 && spec_u16_from_le_bytes(p.subrange(1, 3)) == p.len()
        - 3)
}

/// Structure of a payload for a given tag.
pub open spec fn payload_wf(t: PacketType, p: Seq<u8>) -> bool {
    match t {
        PacketType::HelloRequest => p.len() <= 0xffff,
        PacketType::HelloResponse => p.len() >= 3 && valid_status_byte(p[0])
            && spec_u16_from_le_bytes(p.subrange(1, 3)) == p.len() - 3,
        PacketType::JoinRoomRequest => p.len() == 16,
        PacketType::JoinRoomResponse => p.len() == 0,
        PacketType::BroadcastMessage => p.len() <= 0xffff,
        PacketType::RoomNotification => room_note_payload_wf(p),
        PacketType::ServerNotification => p.len() == 1 && p[0] == 0x01,
        PacketType::TestCountUp => p.len() == 0,
        PacketType::TestCountUpResponse => p.len() == 8,
    }
}

impl PacketV {
    /// The body bytes written after the tag: the payload, preceded by its
    /// `u16` length for the two length-prefixed tags.
    pub open spec fn body(self) -> Seq<u8> {
        if has_len_prefix(self.packet_type) {
            spec_u16_to_le_bytes(self.payload.len() as u16) + self.payload
        } else {
            self.payload
        }
    }

    /// A well-formed packet: the payload fits its tag's grammar and the
    /// whole frame fits in [`MAX_FRAME_SIZE`] bytes.
    pub open spec fn wf(self) -> bool {
        &&& payload_wf(self.packet_type, self.payload)
        &&& 15 + self.body().len() <= MAX_FRAME_SIZE
    }
}

/// The frame bytes of a packet: magic, tag, body.
pub open spec fn spec_encode(v: PacketV) -> Seq<u8> {
    spec_magic() + seq![spec_tag(v.packet_type)] + v.body()
}

/// Decode the body that follows a tag.  `body` is everything after the tag
/// byte; trailing bytes beyond what the tag's grammar consumes are ignored.
pub open spec fn spec_decode_body(t: PacketType, body: Seq<u8>) -> Result<PacketV, DecodeError> {
    match t {
        PacketType::HelloRequest | PacketType::BroadcastMessage => {
            if body.len() < 2 {
                Err(DecodeError::ShortFrame)
            } else {
                let n = spec_u16_from_le_bytes(body.subrange(0, 2)) as int;
                if 17 + n > MAX_FRAME_SIZE {
                    Err(DecodeError::LengthOverflow)
                } else if body.len() < 2 + n {
                    Err(DecodeError::ShortFrame)
                } else {
                    Ok(PacketV { packet_type: t, payload: body.subrange(2, 2 + n) })
                }
            }
        },
        PacketType::HelloResponse => {
            if body.len() < 3 {
                Err(DecodeError::ShortFrame)
            } else if !valid_status_byte(body[0]) {
                Err(DecodeError::UnknownTag)
            } else {
                let n = spec_u16_from_le_bytes(body.subrange(1, 3)) as int;
                if 18 + n > MAX_FRAME_SIZE {
                    Err(DecodeError::LengthOverflow)
                } else if body.len() < 3 + n {
                    Err(DecodeError::ShortFrame)
                } else {
                    Ok(PacketV { packet_type: t, payload: body.subrange(0, 3 + n) })
                }
            }
        },
        PacketType::JoinRoomRequest => {
            if body.len() < 16 {
                Err(DecodeError::ShortFrame)
            } else {
                Ok(PacketV { packet_type: t, payload: body.subrange(0, 16) })
            }
        },
        PacketType::JoinRoomResponse | PacketType::TestCountUp => {
            Ok(PacketV { packet_type: t, payload: Seq::empty() })
        },
        PacketType::RoomNotification => {
            if body.len() < 1 {
                Err(DecodeError::ShortFrame)
            } else if body[0] == 0x01 || body[0] == 0x02 {
                if body.len() < 17 {
                    Err(DecodeError::ShortFrame)
                } else {
                    Ok(PacketV { packet_type: t, payload: body.subrange(0, 17) })
                }
            } else if body[0] == 0x03 {
                if body.len() < 3 {
                    Err(DecodeError::ShortFrame)
                } else {
                    let n = spec_u16_from_le_bytes(body.subrange(1, 3)) as int;
                    if 18 + n > MAX_FRAME_SIZE {
                        Err(DecodeError::LengthOverflow)
                    } else if body.len() < 3 + n {
                        Err(DecodeError::ShortFrame)
                    } else {
                        Ok(PacketV { packet_type: t, payload: body.subrange(0, 3 + n) })
                    }
                }
            } else {
                Err(DecodeError::UnknownTag)
            }
        },
        PacketType::ServerNotification => {
            if body.len() < 1 {
                Err(DecodeError::ShortFrame)
            } else if body[0] != 0x01 {
                Err(DecodeError::UnknownTag)
            } else {
                Ok(PacketV { packet_type: t, payload: seq![0x01u8] })
            }
        },
        PacketType::TestCountUpResponse => {
            if body.len() < 8 {
                Err(DecodeError::ShortFrame)
            } else {
                Ok(PacketV { packet_type: t, payload: body.subrange(0, 8) })
            }
        },
    }
}

/// Decode a frame: check the magic, read the tag, decode the body.
/// A buffer shorter than the magic is a short frame.
pub open spec fn spec_decode(b: Seq<u8>) -> Result<PacketV, DecodeError> {
    if b.len() < 14 {
        Err(DecodeError::ShortFrame)
    } else if b.subrange(0, 14) != spec_magic() {
        Err(DecodeError::MagicMismatch)
    } else if b.len() < 15 {
        Err(DecodeError::ShortFrame)
    } else {
        match spec_type_of_tag(b[14]) {
            Some(t) => spec_decode_body(t, b.subrange(15, b.len() as int)),
            None => Err(DecodeError::UnknownTag),
        }
    }
}

/// A frame held in memory: its tag, its payload, and the payload's length.
#[derive(Debug)]
pub struct Packet {
    pub packet_type: PacketType,
    pub payload_size: u16,
    pub payload: Vec<u8>,
}

impl View for Packet {
    type V = PacketV;

    open spec fn view(&self) -> PacketV {
        PacketV { packet_type: self.packet_type, payload: self.payload@ }
    }
}

impl Packet {
    /// A well-formed in-memory frame: the size field agrees with the payload
    /// and the payload fits its tag's grammar.
    pub open spec fn wf(&self) -> bool {
        self.payload_size == self.payload@.len() && self@.wf()
    }
}

} // verus!

verus! {

/// Read the `u16` at offset `i` of `b`, little-endian.
fn read_u16_at(b: &Vec<u8>, i: usize) -> (r: u16)
    requires
        i + 2 <= b@.len(),
        b@.len() <= usize::MAX,
    ensures
        r == spec_u16_from_le_bytes(b@.subrange(i as int, i + 2)),
{
    let s = vstd::slice::slice_subrange(b.as_slice(), i, i + 2);
    u16_from_le_bytes(s)
}

/// Copy bytes `i .. j` of `b` into a fresh vector.
fn copy_range(b: &Vec<u8>, i: usize, j: usize) -> (r: Vec<u8>)
    requires
        i <= j <= b@.len(),
    ensures
        r@ == b@.subrange(i as int, j as int),
{
    let s = vstd::slice::slice_subrange(b.as_slice(), i, j);
    vstd::slice::slice_to_vec(s)
}

/// Encode a packet into its frame bytes.  Infallible on well-formed
/// packets; the result starts with the magic and fits in
/// [`MAX_FRAME_SIZE`] bytes.
pub fn encode(p: &Packet) -> (r: Vec<u8>)
    requires
        p.wf(),
    ensures
        r@ == spec_encode(p@),
        r@.len() <= MAX_FRAME_SIZE,
{
    let mut out = magic_bytes();
    out.push(tag_of(p.packet_type));
    if matches!(p.packet_type, PacketType::HelloRequest | PacketType::BroadcastMessage) {
        let mut len_word = u16_to_le_bytes(p.payload_size);
        out.append(&mut len_word);
    }
    out.extend_from_slice(p.payload.as_slice());
    proof {
        assert(out@ =~= spec_encode(p@));
    }
    out
}

/// Decode one frame.  Succeeds exactly when a prefix of `frame` is the
/// encoding of a well-formed packet; bytes after that prefix are ignored.
/// On success the returned packet is well-formed and its view is what
/// [`spec_decode`] gives; on failure the error is what [`spec_decode`]
/// gives.
pub fn decode(frame: &[u8]) -> (r: Result<Packet, DecodeError>)
    ensures
        (r matches Ok(p) ==> p.wf() && spec_decode(frame@) == Ok::<PacketV, DecodeError>(p@)),
        (r matches Err(e) ==> spec_decode(frame@) == Err::<PacketV, DecodeError>(e)),
{
    let b: Vec<u8> = vstd::slice::slice_to_vec(frame);
    if b.len() < 14 {
        return Err(DecodeError::ShortFrame);
    }
    let magic = magic_bytes();
    let mut i: usize = 0;
    while i < 14
        invariant
            i <= 14,
            b@.len() >= 14,
            b@ == frame@,
            magic@ == spec_magic(),
            forall|j: int| 0 <= j < i ==> b@[j] == spec_magic()[j],
        decreases 14 - i,
    {
        if b[i] != magic[i] {
            proof {
                assert(frame@.subrange(0, 14)[i as int] != spec_magic()[i as int]);
            }
            return Err(DecodeError::MagicMismatch);
        }
        i = i + 1;
    }
    proof {
        assert(frame@.subrange(0, 14) =~= spec_magic());
    }
    if b.len() < 15 {
        return Err(DecodeError::ShortFrame);
    }
    let ghost body: Seq<u8> = frame@.subrange(15, frame@.len() as int);
    let t = match type_of_tag(b[14]) {
        Some(t) => t,
        None => {
            return Err(DecodeError::UnknownTag);
        },
    };
    match t {
        PacketType::HelloRequest | PacketType::BroadcastMessage => {
            if b.len() < 17 {
                proof {
                    assert(body.len() < 2);
                }
                return Err(DecodeError::ShortFrame);
            }
            proof {
                assert(body.subrange(0, 2) =~= frame@.subrange(15, 17));
            }
            let n = read_u16_at(&b, 15);
            if n as usize > MAX_FRAME_SIZE - 17 {
                return Err(DecodeError::LengthOverflow);
            }
            if b.len() < 17 + n as usize {
                return Err(DecodeError::ShortFrame);
            }
            let payload = copy_range(&b, 17, 17 + n as usize);
            proof {
                lemma_auto_spec_u16_to_from_le_bytes();
                assert(body.subrange(2, 2 + n as int) =~= frame@.subrange(17, 17 + n as int));
            }
            Ok(Packet { packet_type: t, payload_size: n, payload })
        },
        PacketType::HelloResponse => {
            if b.len() < 18 {
                proof {
                    assert(body.len() < 3);
                }
                return Err(DecodeError::ShortFrame);
            }
            proof {
                assert(body[0] == frame@[15]);
                assert(body.subrange(1, 3) =~= frame@.subrange(16, 18));
            }
            let status = b[15];
            if !(status == 0x00 || status == 0x01 || status == 0x02) {
                return Err(DecodeError::UnknownTag);
            }
            let n = read_u16_at(&b, 16);
            if n as usize > MAX_FRAME_SIZE - 18 {
                return Err(DecodeError::LengthOverflow);
            }
            if b.len() < 18 + n as usize {
                return Err(DecodeError::ShortFrame);
            }
            let payload = copy_range(&b, 15, 18 + n as usize);
            proof {
                assert(body.subrange(0, 3 + n as int) =~= frame@.subrange(15, 18 + n as int));
                assert(payload@[0] == frame@[15]);
                assert(payload@.subrange(1, 3) =~= frame@.subrange(16, 18));
            }
            Ok(Packet { packet_type: t, payload_size: 3 + n, payload })
        },
        PacketType::JoinRoomRequest => {
            if b.len() < 31 {
                proof {
                    assert(body.len() < 16);
                }
                return Err(DecodeError::ShortFrame);
            }
            let payload = copy_range(&b, 15, 31);
            proof {
                assert(body.subrange(0, 16) =~= frame@.subrange(15, 31));
            }
            Ok(Packet { packet_type: t, payload_size: 16, payload })
        },
        PacketType::JoinRoomResponse | PacketType::TestCountUp => {
            let payload: Vec<u8> = Vec::new();
            proof {
                assert(payload@ =~= Seq::<u8>::empty());
            }
            Ok(Packet { packet_type: t, payload_size: 0, payload })
        },
        PacketType::RoomNotification => {
            if b.len() < 16 {
                proof {
                    assert(body.len() < 1);
                }
                return Err(DecodeError::ShortFrame);
            }
            proof {
                assert(body[0] == frame@[15]);
            }
            let sub = b[15];
            if sub == 0x01 || sub == 0x02 {
                if b.len() < 32 {
                    proof {
                        assert(body.len() < 17);
                    }
                    return Err(DecodeError::ShortFrame);
                }
                let payload = copy_range(&b, 15, 32);
                proof {
                    assert(body.subrange(0, 17) =~= frame@.subrange(15, 32));
                }
                Ok(Packet { packet_type: t, payload_size: 17, payload })
            } else if sub == 0x03 {
                if b.len() < 18 {
                    proof {
                        assert(body.len() < 3);
                    }
                    return Err(DecodeError::ShortFrame);
                }
                proof {
                    assert(body.subrange(1, 3) =~= frame@.subrange(16, 18));
                }
                let n = read_u16_at(&b, 16);
                if n as usize > MAX_FRAME_SIZE - 18 {
                    return Err(DecodeError::LengthOverflow);
                }
                if b.len() < 18 + n as usize {
                    return Err(DecodeError::ShortFrame);
                }
                let payload = copy_range(&b, 15, 18 + n as usize);
                proof {
                    assert(body.subrange(0, 3 + n as int) =~= frame@.subrange(15, 18 + n as int));
                    assert(payload@[0] == frame@[15]);
                    assert(payload@.subrange(1, 3) =~= frame@.subrange(16, 18));
                }
                Ok(Packet { packet_type: t, payload_size: 3 + n, payload })
            } else {
                return Err(DecodeError::UnknownTag);
            }
        },
        PacketType::ServerNotification => {
            if b.len() < 16 {
                proof {
                    assert(body.len() < 1);
                }
                return Err(DecodeError::ShortFrame);
            }
            proof {
                assert(body[0] == frame@[15]);
            }
            if b[15] != 0x01 {
                return Err(DecodeError::UnknownTag);
            }
            let mut payload: Vec<u8> = Vec::new();
            payload.push(0x01);
            proof {
                assert(payload@ =~= seq![0x01u8]);
            }
            Ok(Packet { packet_type: t, payload_size: 1, payload })
        },
        PacketType::TestCountUpResponse => {
            if b.len() < 23 {
                proof {
                    assert(body.len() < 8);
                }
                return Err(DecodeError::ShortFrame);
            }
            let payload = copy_range(&b, 15, 23);
            proof {
                assert(body.subrange(0, 8) =~= frame@.subrange(15, 23));
            }
            Ok(Packet { packet_type: t, payload_size: 8, payload })
        },
    }
}

} // verus!

verus! {

/// Codec round trip: decoding the encoding of any well-formed packet gives
/// back exactly that packet.
pub proof fn lemma_round_trip(v: PacketV)
    requires
        v.wf(),
    ensures
        spec_decode(spec_encode(v)) == Ok::<PacketV, DecodeError>(v),
{
    lemma_auto_spec_u16_to_from_le_bytes();
    let e = spec_encode(v);
    let body = e.subrange(15, e.len() as int);
    assert(e.subrange(0, 14) =~= spec_magic());
    assert(e[14] == spec_tag(v.packet_type));
    assert(body =~= v.body());
    match v.packet_type {
        PacketType::HelloRequest | PacketType::BroadcastMessage => {
            let n = v.payload.len() as int;
            assert(body.subrange(0, 2) =~= spec_u16_to_le_bytes(v.payload.len() as u16));
            assert(spec_u16_from_le_bytes(body.subrange(0, 2)) == n);
            assert(body.subrange(2, 2 + n) =~= v.payload);
        },
        PacketType::HelloResponse => {
            let n = v.payload.len() - 3;
            assert(body.subrange(1, 3) =~= v.payload.subrange(1, 3));
            assert(body.subrange(0, 3 + n) =~= v.payload);
        },
        PacketType::JoinRoomRequest => {
            assert(body.subrange(0, 16) =~= v.payload);
        },
        PacketType::JoinRoomResponse | PacketType::TestCountUp => {
            assert(v.payload =~= Seq::<u8>::empty());
        },
        PacketType::RoomNotification => {
            assert(body[0] == v.payload[0]);
            if v.payload[0] == 0x01 || v.payload[0] == 0x02 {
                assert(body.subrange(0, 17) =~= v.payload);
            } else {
                let n = v.payload.len() - 3;
                assert(body.subrange(1, 3) =~= v.payload.subrange(1, 3));
                assert(body.subrange(0, 3 + n) =~= v.payload);
            }
        },
        PacketType::ServerNotification => {
            assert(v.payload =~= seq![0x01u8]);
        },
        PacketType::TestCountUpResponse => {
            assert(body.subrange(0, 8) =~= v.payload);
        },
    }
}

} // verus!

verus! {

/// Conversion of a typed packet value into a generic frame.
pub trait IntoPacket: Sized {
    /// Validity of the typed value: its fields cohere and fit in a frame.
    spec fn typed_wf(&self) -> bool;

    /// The frame this value converts to.
    spec fn spec_packet(&self) -> PacketV;

    /// Build the generic packet.
    fn into_packet(self) -> (p: Packet)
        requires
            self.typed_wf(),
        ensures
            p.wf(),
            p@ == self.spec_packet(),
    ;
}

/// The hello handshake request.  The token travels in the generic payload;
/// this typed value stands for a request with an empty token.
#[derive(Debug)]
pub struct HelloRequestPacket {}

impl IntoPacket for HelloRequestPacket {
    open spec fn typed_wf(&self) -> bool {
        true
    }

    open spec fn spec_packet(&self) -> PacketV {
        PacketV { packet_type: PacketType::HelloRequest, payload: Seq::empty() }
    }

    fn into_packet(self) -> (p: Packet) {
        let payload: Vec<u8> = Vec::new();
        proof {
            lemma_auto_spec_u16_to_from_le_bytes();
            assert(payload@ =~= Seq::<u8>::empty());
        }
        Packet { packet_type: PacketType::HelloRequest, payload_size: 0, payload }
    }
}

/// Status of a hello response.
#[derive(Clone, Copy, Debug, PartialEq, Eq, Structural)]
pub enum HelloResponseStatusCode {
    Unknown,
    OK,
    Denied,
}

/// The byte written on the wire for each status code.
pub open spec fn spec_status_byte(c: HelloResponseStatusCode) -> u8 {
    match c {
        HelloResponseStatusCode::Unknown => 0x00,
        HelloResponseStatusCode::OK => 0x01,
        HelloResponseStatusCode::Denied => 0x02,
    }
}

/// The status code named by a byte, if any.
pub open spec fn spec_status_of_byte(b: u8) -> Option<HelloResponseStatusCode> {
    if b == 0x00 {
        Some(HelloResponseStatusCode::Unknown)
    } else if b == 0x01 {
        Some(HelloResponseStatusCode::OK)
    } else if b == 0x02 {
        Some(HelloResponseStatusCode::Denied)
    } else {
        None
    }
}

fn status_byte(c: HelloResponseStatusCode) -> (r: u8)
    ensures
        r == spec_status_byte(c),
{
    match c {
        HelloResponseStatusCode::Unknown => 0x00,
        HelloResponseStatusCode::OK => 0x01,
        HelloResponseStatusCode::Denied => 0x02,
    }
}

fn status_of_byte(b: u8) -> (r: Option<HelloResponseStatusCode>)
    ensures
        r == spec_status_of_byte(b),
{
    if b == 0x00 {
        Some(HelloResponseStatusCode::Unknown)
    } else if b == 0x01 {
        Some(HelloResponseStatusCode::OK)
    } else if b == 0x02 {
        Some(HelloResponseStatusCode::Denied)
    } else {
        None
    }
}

/// The hello handshake response: a status code and a short message.
#[derive(Debug)]
pub struct HelloResponsePacket {
    pub status_code: HelloResponseStatusCode,
    pub message_size: u16,
    pub message: Vec<u8>,
}

impl HelloResponsePacket {
    /// Build a response carrying `message`'s bytes.
    pub fn new(status_code: HelloResponseStatusCode, message: &str) -> (r: Self)
        requires
            message.spec_bytes().len() <= 4078,
        ensures
            r.status_code == status_code,
            r.message@ == message.spec_bytes(),
            r.message_size == message.spec_bytes().len(),
            r.typed_wf(),
    {
        let bytes = message.as_bytes_vec();
        let size = bytes.len() as u16;
        HelloResponsePacket { status_code, message_size: size, message: bytes }
    }
}

impl HelloResponsePacket {
    /// Read a hello response back out of a generic packet.
    pub fn parse(p: &Packet) -> (r: Result<Self, DecodeError>)
        requires
            p.wf(),
        ensures
            (r matches Ok(t) ==> p.packet_type is HelloResponse && t.status_code
                == spec_status_of_byte(p.payload@[0]).unwrap() && t.message@
                == p.payload@.subrange(3, p.payload@.len() as int) && t.message_size
                == p.payload@.len() - 3),
            (r is Err <==> !(p.packet_type is HelloResponse)),
    {
        if !matches!(p.packet_type, PacketType::HelloResponse) {
            return Err(DecodeError::UnknownTag);
        }
        let status_code = match status_of_byte(p.payload[0]) {
            Some(c) => c,
            None => {
                proof {
                    assert(false);
                }
                HelloResponseStatusCode::Unknown
            },
        };
        let n = p.payload.len() - 3;
        let message = vstd::slice::slice_to_vec(
            vstd::slice::slice_subrange(p.payload.as_slice(), 3, p.payload.len()),
        );
        Ok(HelloResponsePacket { status_code, message_size: n as u16, message })
    }
}

impl IntoPacket for HelloResponsePacket {
    open spec fn typed_wf(&self) -> bool {
        self.message_size == self.message@.len() && self.message@.len() <= 4078
    }

    open spec fn spec_packet(&self) -> PacketV {
        PacketV {
            packet_type: PacketType::HelloResponse,
            payload: seq![spec_status_byte(self.status_code)]
                + spec_u16_to_le_bytes(self.message_size) + self.message@,
        }
    }

    fn into_packet(self) -> (p: Packet) {
        let mut payload: Vec<u8> = Vec::new();
        payload.push(status_byte(self.status_code));
        let mut len_word = u16_to_le_bytes(self.message_size);
        payload.append(&mut len_word);
        payload.extend_from_slice(self.message.as_slice());
        let size = self.message_size + 3;
        proof {
            lemma_auto_spec_u16_to_from_le_bytes();
            assert(payload@ =~= self.spec_packet().payload);
            assert(payload@.subrange(1, 3) =~= spec_u16_to_le_bytes(self.message_size));
        }
        Packet { packet_type: PacketType::HelloResponse, payload_size: size, payload }
    }
}

/// A request to join the room named by 16 identifier bytes.
#[derive(Debug)]
pub struct JoinRoomRequestPacket {
    pub room_id: [u8; 16],
}

impl JoinRoomRequestPacket {
    /// Build a join request for `room_id`.
    pub fn new(room_id: crate::types::RoomID) -> (r: Self)
        ensures
            r.room_id@ == room_id@,
    {
        JoinRoomRequestPacket { room_id: room_id.into_bytes() }
    }
}

impl IntoPacket for JoinRoomRequestPacket {
    open spec fn typed_wf(&self) -> bool {
        true
    }

    open spec fn spec_packet(&self) -> PacketV {
        PacketV { packet_type: PacketType::JoinRoomRequest, payload: self.room_id@ }
    }

    fn into_packet(self) -> (p: Packet) {
        let payload = vstd::slice::slice_to_vec(self.room_id.as_slice());
        Packet { packet_type: PacketType::JoinRoomRequest, payload_size: 16, payload }
    }
}

/// The empty acknowledgement of a join request.
#[derive(Debug)]
pub struct JoinRoomResponsePacket {}

impl IntoPacket for JoinRoomResponsePacket {
    open spec fn typed_wf(&self) -> bool {
        true
    }

    open spec fn spec_packet(&self) -> PacketV {
        PacketV { packet_type: PacketType::JoinRoomResponse, payload: Seq::empty() }
    }

    fn into_packet(self) -> (p: Packet) {
        let payload: Vec<u8> = Vec::new();
        proof {
            assert(payload@ =~= Seq::<u8>::empty());
        }
        Packet { packet_type: PacketType::JoinRoomResponse, payload_size: 0, payload }
    }
}

/// A client's request to broadcast bytes to its room.
#[derive(Debug)]
pub struct BroadcastMessagePacket {
    pub payload_size: u16,
    pub payload: Vec<u8>,
}

impl BroadcastMessagePacket {
    /// Build a broadcast request carrying `payload`.
    pub fn new(payload: Vec<u8>) -> (r: Self)
        requires
            payload@.len() <= 4079,
        ensures
            r.payload@ == payload@,
            r.payload_size == payload@.len(),
            r.typed_wf(),
    {
        let size = payload.len() as u16;
        BroadcastMessagePacket { payload_size: size, payload }
    }
}

impl IntoPacket for BroadcastMessagePacket {
    open spec fn typed_wf(&self) -> bool {
        self.payload_size == self.payload@.len() && self.payload@.len() <= 4079
    }

    open spec fn spec_packet(&self) -> PacketV {
        PacketV { packet_type: PacketType::BroadcastMessage, payload: self.payload@ }
    }

    fn into_packet(self) -> (p: Packet) {
        proof {
            lemma_auto_spec_u16_to_from_le_bytes();
        }
        Packet {
            packet_type: PacketType::BroadcastMessage,
            payload_size: self.payload_size,
            payload: self.payload,
        }
    }
}

/// Kinds of room notification sent by a server to room members.
#[derive(Clone, Copy, Debug, PartialEq, Eq, Structural)]
pub enum RoomNotificationType {
    Joined,
    Left,
    Broadcast,
}

/// The discriminant byte of each room notification kind.
pub open spec fn spec_room_note_byte(t: RoomNotificationType) -> u8 {
    match t {
        RoomNotificationType::Joined => 0x01,
        RoomNotificationType::Left => 0x02,
        RoomNotificationType::Broadcast => 0x03,
    }
}

/// A notification from a server to the members of a room: a player joined
/// or left, or a broadcast from another member.
#[derive(Debug)]
pub struct RoomNotificationPacket {
    pub notification_type: RoomNotificationType,
    pub player: [u8; 16],
    pub payload_size: u16,
    pub payload: Vec<u8>,
}

impl RoomNotificationPacket {
    /// Build the notification that fans a broadcast out to a member.
    pub fn new_broadcast(payload: Vec<u8>) -> (r: Self)
        requires
            payload@.len() <= 4078,
        ensures
            r.notification_type == RoomNotificationType::Broadcast,
            r.payload@ == payload@,
            r.payload_size == payload@.len(),
            r.typed_wf(),
    {
        let size = payload.len() as u16;
        RoomNotificationPacket {
            notification_type: RoomNotificationType::Broadcast,
            player: [0; 16],
            payload_size: size,
            payload,
        }
    }
}

impl IntoPacket for RoomNotificationPacket {
    open spec fn typed_wf(&self) -> bool {
        match self.notification_type {
            RoomNotificationType::Broadcast => self.payload_size == self.payload@.len()
                && self.payload@.len() <= 4078,
            _ => self.payload_size == 0 && self.payload@.len() == 0,
        }
    }

    open spec fn spec_packet(&self) -> PacketV {
        PacketV {
            packet_type: PacketType::RoomNotification,
            payload: match self.notification_type {
                RoomNotificationType::Broadcast => seq![0x03u8] + spec_u16_to_le_bytes(
                    self.payload_size,
                ) + self.payload@,
                RoomNotificationType::Joined => seq![0x01u8] + self.player@,
                RoomNotificationType::Left => seq![0x02u8] + self.player@,
            },
        }
    }

    fn into_packet(self) -> (p: Packet) {
        let mut payload: Vec<u8> = Vec::new();
        match self.notification_type {
            RoomNotificationType::Joined => {
                payload.push(0x01);
                payload.extend_from_slice(self.player.as_slice());
                proof {
                    assert(payload@ =~= self.spec_packet().payload);
                }
                Packet { packet_type: PacketType::RoomNotification, payload_size: 17, payload }
            },
            RoomNotificationType::Left => {
                payload.push(0x02);
                payload.extend_from_slice(self.player.as_slice());
                proof {
                    assert(payload@ =~= self.spec_packet().payload);
                }
                Packet { packet_type: PacketType::RoomNotification, payload_size: 17, payload }
            },
            RoomNotificationType::Broadcast => {
                payload.push(0x03);
                let mut len_word = u16_to_le_bytes(self.payload_size);
                payload.append(&mut len_word);
                payload.extend_from_slice(self.payload.as_slice());
                let size = self.payload_size + 3;
                proof {
                    lemma_auto_spec_u16_to_from_le_bytes();
                    assert(payload@ =~= self.spec_packet().payload);
                    assert(payload@.subrange(1, 3) =~= spec_u16_to_le_bytes(self.payload_size));
                }
                Packet { packet_type: PacketType::RoomNotification, payload_size: size, payload }
            },
        }
    }
}

/// Kinds of server-wide notification.
#[derive(Clone, Copy, Debug, PartialEq, Eq, Structural)]
pub enum ServerNotificationType {
    Shutdown,
}

/// A notification from a server to every connected client.
#[derive(Debug)]
pub struct ServerNotificationPacket {
    pub notification_type: ServerNotificationType,
}

impl IntoPacket for ServerNotificationPacket {
    open spec fn typed_wf(&self) -> bool {
        true
    }

    open spec fn spec_packet(&self) -> PacketV {
        PacketV { packet_type: PacketType::ServerNotification, payload: seq![0x01u8] }
    }

    fn into_packet(self) -> (p: Packet) {
        let mut payload: Vec<u8> = Vec::new();
        payload.push(0x01);
        proof {
            assert(payload@ =~= seq![0x01u8]);
        }
        Packet { packet_type: PacketType::ServerNotification, payload_size: 1, payload }
    }
}

/// A request to bump the room's shared counter.
#[derive(Debug)]
pub struct TestCountUpPacket {}

impl IntoPacket for TestCountUpPacket {
    open spec fn typed_wf(&self) -> bool {
        true
    }

    open spec fn spec_packet(&self) -> PacketV {
        PacketV { packet_type: PacketType::TestCountUp, payload: Seq::empty() }
    }

    fn into_packet(self) -> (p: Packet) {
        let payload: Vec<u8> = Vec::new();
        proof {
            assert(payload@ =~= Seq::<u8>::empty());
        }
        Packet { packet_type: PacketType::TestCountUp, payload_size: 0, payload }
    }
}

/// The new value of the room counter, after a bump.
#[derive(Debug)]
pub struct TestCountUpResponsePacket {
    pub count: u64,
}

impl TestCountUpResponsePacket {
    /// Build a response carrying the counter value.
    pub fn new(count: u64) -> (r: Self)
        ensures
            r.count == count,
    {
        TestCountUpResponsePacket { count }
    }

    /// Read the counter back out of a generic packet.
    pub fn parse(p: &Packet) -> (r: Result<Self, DecodeError>)
        ensures
            (r matches Ok(t) ==> p.packet_type is TestCountUpResponse && p.payload@.len() == 8
                && t.count == spec_u64_from_le_bytes(p.payload@)),
            (r matches Err(e) ==> !(p.packet_type is TestCountUpResponse && p.payload@.len() == 8)
                && (e is UnknownTag <==> !(p.packet_type is TestCountUpResponse))),
    {
        if !matches!(p.packet_type, PacketType::TestCountUpResponse) {
            return Err(DecodeError::UnknownTag);
        }
        if p.payload.len() != 8 {
            return Err(DecodeError::ShortFrame);
        }
        let count = u64_from_le_bytes(p.payload.as_slice());
        proof {
            assert(p.payload@.subrange(0, 8) =~= p.payload@);
        }
        Ok(TestCountUpResponsePacket { count })
    }
}

impl IntoPacket for TestCountUpResponsePacket {
    open spec fn typed_wf(&self) -> bool {
        true
    }

    open spec fn spec_packet(&self) -> PacketV {
        PacketV {
            packet_type: PacketType::TestCountUpResponse,
            payload: spec_u64_to_le_bytes(self.count),
        }
    }

    fn into_packet(self) -> (p: Packet) {
        let payload = u64_to_le_bytes(self.count);
        proof {
            lemma_auto_spec_u64_to_from_le_bytes();
        }
        Packet { packet_type: PacketType::TestCountUpResponse, payload_size: 8, payload }
    }
}

} // verus!
