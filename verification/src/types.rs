//! Identifiers for servers, rooms and connections.
//!
//! Every task class is addressed by a 128-bit opaque identifier generated
//! randomly at creation.  On the wire an identifier travels as its 16 raw
//! bytes; on the pub/sub topic it travels as its canonical text form
//! (lowercase hexadecimal, grouped 8-4-4-4-12 with hyphens).

use vstd::prelude::*;

verus! {

broadcast use vstd::array::group_array_axioms;

/// A 128-bit opaque identifier, held as its 16 raw bytes.
#[derive(Clone, Copy, Debug, PartialEq, Eq, Hash)]
pub struct Identifier {
    pub bytes: [u8; 16],
}

/// Identity of one live client connection.
pub type ConnectionID = Identifier;

/// Identity of one room; membership spans servers.
pub type RoomID = Identifier;

/// Identity of one server instance, fresh at process start.
pub type ServerID = Identifier;

impl View for Identifier {
    type V = Seq<u8>;

    open spec fn view(&self) -> Seq<u8> {
        self.bytes@
    }
}

/// Relies on uuid::Uuid::new_v4 to draw a fresh random 128-bit identifier;
/// nothing is assumed about the bytes it returns.  The call aborts the
/// process if the operating system's randomness source fails — an
/// environmental failure, like running out of memory, that no caller can
/// exclude.
#[verifier::external_body]
fn random_id_bytes() -> (r: [u8; 16]) {
    uuid::Uuid::new_v4().into_bytes()
}

/// The lowercase hexadecimal digit for a value below 16, as an ASCII byte.
pub open spec fn spec_hex_digit(n: u8) -> u8
    recommends
        n < 16,
{
    if n < 10 {
        (0x30 + n) as u8
    } else {
        (0x57 + n) as u8
    }
}

/// The two hexadecimal digits of one byte.
pub open spec fn spec_hex_byte(b: u8) -> Seq<u8> {
    seq![spec_hex_digit(b / 16), spec_hex_digit(b % 16)]
}

/// The canonical text form of an identifier: its 16 bytes in lowercase
/// hexadecimal, grouped 8-4-4-4-12 with hyphens, as ASCII bytes.
pub open spec fn spec_canonical_text(id: Seq<u8>) -> Seq<u8>
    recommends
        id.len() == 16,
{
    spec_hex_byte(id[0]) + spec_hex_byte(id[1]) + spec_hex_byte(id[2]) + spec_hex_byte(id[3])
        + seq![0x2du8] + spec_hex_byte(id[4]) + spec_hex_byte(id[5]) + seq![0x2du8]
        + spec_hex_byte(id[6]) + spec_hex_byte(id[7]) + seq![0x2du8] + spec_hex_byte(id[8])
        + spec_hex_byte(id[9]) + seq![0x2du8] + spec_hex_byte(id[10]) + spec_hex_byte(id[11])
        + spec_hex_byte(id[12]) + spec_hex_byte(id[13]) + spec_hex_byte(id[14]) + spec_hex_byte(
        id[15],
    )
}

/// Distinct values below 16 have distinct hex digits.
proof fn lemma_hex_digit_distinct(m: u8, n: u8)
    requires
        m < 16,
        n < 16,
        m != n,
    ensures
        spec_hex_digit(m) != spec_hex_digit(n),
{
}

/// The offset of byte `i`'s two hex digits within the canonical text: two
/// digits per byte, plus one hyphen after bytes 3, 5, 7 and 9.
pub open spec fn spec_text_offset(i: int) -> int {
    2 * i + if i < 4 {
        0int
    } else if i < 6 {
        1
    } else if i < 8 {
        2
    } else if i < 10 {
        3
    } else {
        4
    }
}

/// The canonical text is 36 bytes long, and byte `i`'s two hex digits
/// stand at its offset.
pub proof fn lemma_canonical_text_digits(id: Seq<u8>, i: int)
    requires
        id.len() == 16,
        0 <= i < 16,
    ensures
        spec_canonical_text(id).len() == 36,
        spec_canonical_text(id)[spec_text_offset(i)] == spec_hex_digit(id[i] / 16),
        spec_canonical_text(id)[spec_text_offset(i) + 1] == spec_hex_digit(id[i] % 16),
{
}

/// Distinct identifiers render as distinct canonical texts.  The per-room
/// namespaces that the pub/sub topics and the state store keys build on
/// this text therefore never collide.
pub proof fn lemma_canonical_text_injective(a: Seq<u8>, b: Seq<u8>)
    requires
        a.len() == 16,
        b.len() == 16,
        a != b,
    ensures
        spec_canonical_text(a) != spec_canonical_text(b),
{
    assert(exists|i: int| 0 <= i < 16 && a[i] != b[i]) by {
        if forall|i: int| 0 <= i < 16 ==> a[i] == b[i] {
            assert(a =~= b);
        }
    }
    let i = choose|i: int| 0 <= i < 16 && a[i] != b[i];
    lemma_canonical_text_digits(a, i);
    lemma_canonical_text_digits(b, i);
    vstd::arithmetic::div_mod::lemma_fundamental_div_mod(a[i] as int, 16);
    vstd::arithmetic::div_mod::lemma_fundamental_div_mod(b[i] as int, 16);
    if a[i] / 16 != b[i] / 16 {
        lemma_hex_digit_distinct(a[i] / 16, b[i] / 16);
        assert(spec_canonical_text(a)[spec_text_offset(i)] != spec_canonical_text(
            b,
        )[spec_text_offset(i)]);
    } else {
        assert(a[i] % 16 != b[i] % 16);
        lemma_hex_digit_distinct(a[i] % 16, b[i] % 16);
        assert(spec_canonical_text(a)[spec_text_offset(i) + 1] != spec_canonical_text(
            b,
        )[spec_text_offset(i) + 1]);
    }
}

fn hex_digit(n: u8) -> (r: u8)
    requires
        n < 16,
    ensures
        r == spec_hex_digit(n),
{
    if n < 10 {
        0x30 + n
    } else {
        0x57 + n
    }
}

/// Append the two hexadecimal digits of `b` to `out`.
fn push_hex_byte(out: &mut Vec<u8>, b: u8)
    ensures
        final(out)@ == old(out)@ + spec_hex_byte(b),
{
    out.push(hex_digit(b / 16));
    out.push(hex_digit(b % 16));
    proof {
        assert(out@ =~= old(out)@ + spec_hex_byte(b));
    }
}

impl Identifier {
    /// Wrap 16 raw bytes, as read from a wire frame.
    pub fn from_bytes(bytes: [u8; 16]) -> (r: Identifier)
        ensures
            r@ == bytes@,
    {
        Identifier { bytes }
    }

    /// The 16 raw bytes, as written to a wire frame.
    pub fn into_bytes(self) -> (r: [u8; 16])
        ensures
            r@ == self@,
    {
        self.bytes
    }

    /// A fresh random identifier.
    pub fn generate() -> Identifier {
        Identifier { bytes: random_id_bytes() }
    }

    /// Wrap the 16 bytes held in a vector, as carried in a packet payload.
    pub fn from_byte_vec(bytes: &Vec<u8>) -> (r: Identifier)
        requires
            bytes@.len() == 16,
        ensures
            r@ == bytes@,
    {
        let mut a: [u8; 16] = [0; 16];
        let mut i: usize = 0;
        while i < 16
            invariant
                i <= 16,
                bytes@.len() == 16,
                forall|j: int| 0 <= j < i ==> a@[j] == bytes@[j],
            decreases 16 - i,
        {
            a[i] = bytes[i];
            i = i + 1;
        }
        proof {
            assert(a@ =~= bytes@);
        }
        Identifier { bytes: a }
    }

    /// The canonical text form, as ASCII bytes: lowercase hexadecimal in
    /// the 8-4-4-4-12 grouping.  This names the identifier on the pub/sub
    /// topic and in state store keys.
    pub fn canonical_text(&self) -> (r: Vec<u8>)
        ensures
            r@ == spec_canonical_text(self@),
    {
        let b = self.bytes;
        let mut out: Vec<u8> = Vec::new();
        push_hex_byte(&mut out, b[0]);
        push_hex_byte(&mut out, b[1]);
        push_hex_byte(&mut out, b[2]);
        push_hex_byte(&mut out, b[3]);
        out.push(0x2d);
        push_hex_byte(&mut out, b[4]);
        push_hex_byte(&mut out, b[5]);
        out.push(0x2d);
        push_hex_byte(&mut out, b[6]);
        push_hex_byte(&mut out, b[7]);
        out.push(0x2d);
        push_hex_byte(&mut out, b[8]);
        push_hex_byte(&mut out, b[9]);
        out.push(0x2d);
        push_hex_byte(&mut out, b[10]);
        push_hex_byte(&mut out, b[11]);
        push_hex_byte(&mut out, b[12]);
        push_hex_byte(&mut out, b[13]);
        push_hex_byte(&mut out, b[14]);
        push_hex_byte(&mut out, b[15]);
        proof {
            assert(out@ =~= spec_canonical_text(self@));
        }
        out
    }

    /// Byte-for-byte equality of two identifiers.
    pub fn eq_id(&self, other: &Identifier) -> (r: bool)
        ensures
            r <==> self@ == other@,
    {
        let mut i: usize = 0;
        while i < 16
            invariant
                i <= 16,
                forall|j: int| 0 <= j < i ==> self.bytes@[j] == other.bytes@[j],
            decreases 16 - i,
        {
            if self.bytes[i] != other.bytes[i] {
                return false;
            }
            i = i + 1;
        }
        proof {
            assert(self@ =~= other@);
        }
        true
    }
}

} // verus!
