//! Tests for identifiers and their canonical text form.

use kazahane::rooms::state_key;
use kazahane::Identifier;

#[test]
fn identifier_bytes_round_trip() {
    let id = Identifier::from_bytes([9; 16]);
    assert_eq!(id.into_bytes(), [9; 16]);
}

#[test]
fn identifier_equality_is_by_bytes() {
    let a = Identifier::from_bytes([1; 16]);
    let b = Identifier::from_bytes([1; 16]);
    let mut other = [1; 16];
    other[15] = 2;
    let c = Identifier::from_bytes(other);
    assert!(a.eq_id(&b));
    assert!(!a.eq_id(&c));
}

#[test]
fn generated_identifiers_differ() {
    let a = Identifier::generate();
    let b = Identifier::generate();
    assert!(!a.eq_id(&b));
}

#[test]
fn canonical_text_is_hyphenated_hex() {
    let id = Identifier::from_bytes([
        0x00, 0x11, 0x22, 0x33, 0x44, 0x55, 0x66, 0x77, 0x88, 0x99, 0xaa, 0xbb, 0xcc, 0xdd,
        0xee, 0xff,
    ]);
    assert_eq!(
        id.canonical_text(),
        b"00112233-4455-6677-8899-aabbccddeeff".to_vec()
    );
}

#[test]
fn state_keys_of_distinct_rooms_differ() {
    let mut other = [0; 16];
    other[15] = 1;
    let a = Identifier::from_bytes([0; 16]);
    let b = Identifier::from_bytes(other);
    assert_ne!(state_key(&a, b"counter"), state_key(&b, b"counter"));
}

#[test]
fn state_key_is_namespaced_by_room() {
    let id = Identifier::from_bytes([0; 16]);
    assert_eq!(
        state_key(&id, b"counter"),
        b"00000000-0000-0000-0000-000000000000/counter".to_vec()
    );
}
