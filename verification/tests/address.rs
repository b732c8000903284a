use anchor_lang::prelude::Pubkey;
use solmeet::address::{claim_address, event_address};
use solmeet::Address;

fn key(byte: u8) -> Address {
    Address::new([byte; 32])
}

#[test]
fn address_keeps_its_bytes() {
    let mut bytes = [0u8; 32];
    for (i, b) in bytes.iter_mut().enumerate() {
        *b = i as u8;
    }
    let a = Address::new(bytes);
    assert_eq!(a.to_bytes(), bytes);
    assert_eq!(a.bytes, bytes);
}

#[test]
fn addresses_are_equal_when_their_bytes_are() {
    let mut bytes = [5u8; 32];
    assert!(Address::new(bytes).same(&key(5)));
    assert_eq!(Address::new(bytes), key(5));
    bytes[31] = 6;
    assert!(!Address::new(bytes).same(&key(5)));
    assert_ne!(Address::new(bytes), key(5));
    bytes[31] = 5;
    bytes[0] = 4;
    assert!(!Address::new(bytes).same(&key(5)));
}

#[test]
fn event_address_is_the_program_address_of_tag_and_id() {
    let program = key(200);
    let (expected, _bump) = Pubkey::find_program_address(&[b"event", b"E1"], &Pubkey::new_from_array([200u8; 32]));
    let derived = event_address(&program, "E1").unwrap();
    assert_eq!(derived.to_bytes(), expected.to_bytes());
    assert_ne!(derived, program);
}

#[test]
fn claim_address_is_the_program_address_of_tag_id_and_attendee() {
    let program = key(200);
    let attendee = key(3);
    let (expected, _bump) = Pubkey::find_program_address(
        &[b"claim", b"E1", &[3u8; 32]],
        &Pubkey::new_from_array([200u8; 32]),
    );
    let derived = claim_address(&program, "E1", &attendee).unwrap();
    assert_eq!(derived.to_bytes(), expected.to_bytes());
    assert_ne!(derived, program);
    assert_ne!(derived, attendee);
}

#[test]
fn derivation_gives_the_same_address_each_time() {
    let program = key(200);
    assert_eq!(event_address(&program, "E1"), event_address(&program, "E1"));
    assert_eq!(claim_address(&program, "E1", &key(1)), claim_address(&program, "E1", &key(1)));
}

#[test]
fn derivation_tells_identifiers_attendees_and_kinds_apart() {
    let program = key(200);
    let e1 = event_address(&program, "E1").unwrap();
    let e2 = event_address(&program, "E2").unwrap();
    let c11 = claim_address(&program, "E1", &key(1)).unwrap();
    let c12 = claim_address(&program, "E1", &key(2)).unwrap();
    let c21 = claim_address(&program, "E2", &key(1)).unwrap();
    assert_ne!(e1, e2);
    assert_ne!(c11, c12);
    assert_ne!(c11, c21);
    assert_ne!(e1, c11);
    assert_ne!(event_address(&key(201), "E1").unwrap(), e1);
}

#[test]
fn derivation_takes_identifiers_of_up_to_32_bytes() {
    let program = key(200);
    assert!(event_address(&program, "").is_some());
    assert!(event_address(&program, &"x".repeat(32)).is_some());
    assert!(event_address(&program, &"x".repeat(33)).is_none());
    assert!(claim_address(&program, &"x".repeat(32), &key(1)).is_some());
    assert!(claim_address(&program, &"x".repeat(33), &key(1)).is_none());
}
