use solmeet::{Address, ErrorCode, Ledger, LedgerError};

fn key(byte: u8) -> Address {
    Address::new([byte; 32])
}

fn registry() -> Ledger {
    Ledger::new(key(200))
}

fn create(ledger: &mut Ledger, creator: u8, event_id: &str, max_claims: u16) -> Result<(), LedgerError> {
    ledger.create_event(
        key(creator),
        event_id.to_string(),
        "Meetup".to_string(),
        "An evening of talks".to_string(),
        "Town hall".to_string(),
        "2024-05-01".to_string(),
        max_claims,
    )
}

fn count(ledger: &Ledger, event_id: &str) -> u16 {
    ledger.event(event_id).unwrap().claims_count
}

#[test]
fn new_ledger_is_empty() {
    let ledger = registry();
    assert_eq!(ledger.event_count(), 0);
    assert_eq!(ledger.claim_count(), 0);
    assert_eq!(ledger.program(), key(200));
    assert!(ledger.event("E1").is_none());
    assert!(ledger.claim("E1", &key(1)).is_none());
}

#[test]
fn created_event_has_no_claims_and_the_given_capacity() {
    let mut ledger = registry();
    assert_eq!(create(&mut ledger, 9, "E1", 2), Ok(()));
    let event = ledger.event("E1").unwrap();
    assert_eq!(event.claims_count, 0);
    assert_eq!(event.max_claims, 2);
    assert_eq!(event.creator, key(9));
    assert_eq!(event.event_id, "E1");
    assert_eq!(event.name, "Meetup");
    assert_eq!(event.description, "An evening of talks");
    assert_eq!(event.venue, "Town hall");
    assert_eq!(event.date, "2024-05-01");
    assert_eq!(ledger.event_count(), 1);
    assert_eq!(ledger.claim_count(), 0);
}

#[test]
fn created_event_keeps_the_largest_capacity() {
    let mut ledger = registry();
    assert_eq!(create(&mut ledger, 9, "big", u16::MAX), Ok(()));
    let event = ledger.event("big").unwrap();
    assert_eq!(event.max_claims, 65535);
    assert_eq!(event.claims_count, 0);
}

#[test]
fn two_places_three_attendees() {
    let mut ledger = registry();
    assert_eq!(create(&mut ledger, 9, "E1", 2), Ok(()));

    assert_eq!(ledger.join_event(key(1), "E1".to_string(), 100), Ok(()));
    assert_eq!(count(&ledger, "E1"), 1);

    assert_eq!(ledger.join_event(key(2), "E1".to_string(), 101), Ok(()));
    assert_eq!(count(&ledger, "E1"), 2);

    assert_eq!(
        ledger.join_event(key(3), "E1".to_string(), 102),
        Err(LedgerError::Rejected(ErrorCode::MaxClaimsReached))
    );
    assert_eq!(count(&ledger, "E1"), 2);
    assert!(ledger.claim("E1", &key(3)).is_none());

    // The event is full, and the place is looked at before the claim's
    // address is: the repeated join is turned away for want of a place.
    assert_eq!(
        ledger.join_event(key(1), "E1".to_string(), 103),
        Err(LedgerError::Rejected(ErrorCode::MaxClaimsReached))
    );
    assert_eq!(count(&ledger, "E1"), 2);
    assert_eq!(ledger.claim_count(), 2);
    assert_eq!(ledger.claim("E1", &key(1)).unwrap().timestamp, 100);
}

#[test]
fn repeated_join_of_an_event_with_room_is_a_collision() {
    let mut ledger = registry();
    assert_eq!(create(&mut ledger, 9, "E1", 3), Ok(()));
    assert_eq!(ledger.join_event(key(1), "E1".to_string(), 100), Ok(()));
    assert_eq!(ledger.join_event(key(2), "E1".to_string(), 101), Ok(()));
    assert_eq!(ledger.join_event(key(1), "E1".to_string(), 102), Err(LedgerError::AddressCollision));
    assert_eq!(count(&ledger, "E1"), 2);
    assert_eq!(ledger.claim_count(), 2);
    assert_eq!(ledger.claim("E1", &key(1)).unwrap().timestamp, 100);
}

#[test]
fn repeated_join_never_reports_already_joined() {
    let mut ledger = registry();
    assert_eq!(create(&mut ledger, 9, "E1", 5), Ok(()));
    assert_eq!(ledger.join_event(key(1), "E1".to_string(), 1), Ok(()));
    let again = ledger.join_event(key(1), "E1".to_string(), 2);
    assert_ne!(again, Err(LedgerError::Rejected(ErrorCode::AlreadyJoined)));
    assert_eq!(again, Err(LedgerError::AddressCollision));
}

#[test]
fn name_of_51_bytes_is_rejected_and_nothing_is_created() {
    let mut ledger = registry();
    let r = ledger.create_event(
        key(9),
        "E1".to_string(),
        "n".repeat(51),
        "d".to_string(),
        "v".to_string(),
        "t".to_string(),
        2,
    );
    assert_eq!(r, Err(LedgerError::Rejected(ErrorCode::NameTooLong)));
    assert_eq!(ledger.event_count(), 0);
    assert!(ledger.event("E1").is_none());
}

#[test]
fn claims_count_is_the_number_of_joins() {
    let mut ledger = registry();
    assert_eq!(create(&mut ledger, 9, "E1", 10), Ok(()));
    assert_eq!(create(&mut ledger, 9, "E2", 10), Ok(()));
    for i in 0..7u8 {
        assert_eq!(ledger.join_event(key(i), "E1".to_string(), i64::from(i)), Ok(()));
        assert_eq!(count(&ledger, "E1"), u16::from(i) + 1);
        assert!(count(&ledger, "E1") <= ledger.event("E1").unwrap().max_claims);
    }
    for i in 0..3u8 {
        assert_eq!(ledger.join_event(key(i), "E2".to_string(), 50), Ok(()));
    }
    assert_eq!(count(&ledger, "E1"), 7);
    assert_eq!(count(&ledger, "E2"), 3);
    assert_eq!(ledger.claim_count(), 10);
    assert_eq!(ledger.event_count(), 2);
}

#[test]
fn join_writes_the_claim() {
    let mut ledger = registry();
    assert_eq!(create(&mut ledger, 9, "E1", 2), Ok(()));
    assert_eq!(ledger.join_event(key(4), "E1".to_string(), -12345), Ok(()));
    let claim = ledger.claim("E1", &key(4)).unwrap();
    assert_eq!(claim.attendee, key(4));
    assert_eq!(claim.event_id, "E1");
    assert_eq!(claim.timestamp, -12345);
    let event = ledger.event("E1").unwrap();
    assert_eq!(event.claims_count, 1);
    assert_eq!(event.max_claims, 2);
    assert_eq!(event.creator, key(9));
    assert_eq!(event.name, "Meetup");
}

#[test]
fn same_attendee_cannot_join_twice() {
    let mut ledger = registry();
    assert_eq!(create(&mut ledger, 9, "E1", 100), Ok(()));
    assert_eq!(ledger.join_event(key(1), "E1".to_string(), 1), Ok(()));
    assert_eq!(ledger.join_event(key(2), "E1".to_string(), 2), Ok(()));
    assert!(ledger.join_event(key(1), "E1".to_string(), 3).is_err());
    assert!(ledger.join_event(key(1), "E1".to_string(), 1).is_err());
    assert_eq!(count(&ledger, "E1"), 2);
}

#[test]
fn same_attendee_can_join_two_events() {
    let mut ledger = registry();
    assert_eq!(create(&mut ledger, 9, "E1", 1), Ok(()));
    assert_eq!(create(&mut ledger, 9, "E2", 1), Ok(()));
    assert_eq!(ledger.join_event(key(1), "E1".to_string(), 1), Ok(()));
    assert_eq!(ledger.join_event(key(1), "E2".to_string(), 2), Ok(()));
    assert_eq!(count(&ledger, "E1"), 1);
    assert_eq!(count(&ledger, "E2"), 1);
}

#[test]
fn second_creation_with_the_same_id_is_a_collision() {
    let mut ledger = registry();
    assert_eq!(create(&mut ledger, 9, "E1", 2), Ok(()));
    assert_eq!(ledger.join_event(key(1), "E1".to_string(), 1), Ok(()));
    let r = ledger.create_event(
        key(8),
        "E1".to_string(),
        "Other".to_string(),
        "Other".to_string(),
        "Other".to_string(),
        "Other".to_string(),
        7,
    );
    assert_eq!(r, Err(LedgerError::AddressCollision));
    let event = ledger.event("E1").unwrap();
    assert_eq!(event.creator, key(9));
    assert_eq!(event.name, "Meetup");
    assert_eq!(event.description, "An evening of talks");
    assert_eq!(event.venue, "Town hall");
    assert_eq!(event.date, "2024-05-01");
    assert_eq!(event.max_claims, 2);
    assert_eq!(event.claims_count, 1);
    assert_eq!(ledger.event_count(), 1);
}

#[test]
fn second_creation_collides_whatever_its_other_arguments() {
    let mut ledger = registry();
    assert_eq!(create(&mut ledger, 9, "E1", 2), Ok(()));
    let r = ledger.create_event(
        key(8),
        "E1".to_string(),
        "n".repeat(51),
        "d".repeat(201),
        "v".repeat(101),
        "t".repeat(31),
        0,
    );
    assert_eq!(r, Err(LedgerError::AddressCollision));
    assert_eq!(ledger.event("E1").unwrap().name, "Meetup");
}

#[test]
fn full_event_rejects_every_join() {
    let mut ledger = registry();
    assert_eq!(create(&mut ledger, 9, "E1", 1), Ok(()));
    assert_eq!(ledger.join_event(key(1), "E1".to_string(), 1), Ok(()));
    for i in 0..5u8 {
        assert_eq!(
            ledger.join_event(key(i), "E1".to_string(), 2),
            Err(LedgerError::Rejected(ErrorCode::MaxClaimsReached))
        );
        assert_eq!(count(&ledger, "E1"), 1);
    }
    assert_eq!(ledger.claim_count(), 1);
}

#[test]
fn join_of_an_unknown_event_is_not_found() {
    let mut ledger = registry();
    assert_eq!(create(&mut ledger, 9, "E1", 1), Ok(()));
    assert_eq!(ledger.join_event(key(1), "E2".to_string(), 1), Err(LedgerError::NotFound));
    assert_eq!(ledger.claim_count(), 0);
    assert_eq!(count(&ledger, "E1"), 0);
}

#[test]
fn join_with_an_id_too_long_for_an_address_is_not_found() {
    let mut ledger = registry();
    assert_eq!(ledger.join_event(key(1), "x".repeat(33), 1), Err(LedgerError::NotFound));
    assert_eq!(ledger.claim_count(), 0);
}

#[test]
fn creation_with_an_id_too_long_for_an_address_is_rejected() {
    let mut ledger = registry();
    assert_eq!(
        create(&mut ledger, 9, &"x".repeat(33), 1),
        Err(LedgerError::Rejected(ErrorCode::EventIdTooLong))
    );
    assert_eq!(create(&mut ledger, 9, &"x".repeat(17), 1), Err(LedgerError::Rejected(ErrorCode::EventIdTooLong)));
    assert_eq!(ledger.event_count(), 0);
}

#[test]
fn creation_checks_each_bound() {
    let mut ledger = registry();
    let ok = |n: usize| "a".repeat(n);
    let mut run = |id: usize, name: usize, desc: usize, venue: usize, date: usize, max: u16| {
        ledger.create_event(key(9), ok(id), ok(name), ok(desc), ok(venue), ok(date), max)
    };
    assert_eq!(run(17, 50, 200, 100, 30, 1), Err(LedgerError::Rejected(ErrorCode::EventIdTooLong)));
    assert_eq!(run(16, 51, 200, 100, 30, 1), Err(LedgerError::Rejected(ErrorCode::NameTooLong)));
    assert_eq!(run(16, 50, 201, 100, 30, 1), Err(LedgerError::Rejected(ErrorCode::DescriptionTooLong)));
    assert_eq!(run(16, 50, 200, 101, 30, 1), Err(LedgerError::Rejected(ErrorCode::VenueTooLong)));
    assert_eq!(run(16, 50, 200, 100, 31, 1), Err(LedgerError::Rejected(ErrorCode::DateTooLong)));
    assert_eq!(run(16, 50, 200, 100, 30, 0), Err(LedgerError::Rejected(ErrorCode::InvalidMaxClaims)));
    assert_eq!(run(16, 50, 200, 100, 30, 1), Ok(()));
    assert_eq!(ledger.event_count(), 1);
    let event = ledger.event(&"a".repeat(16)).unwrap();
    assert_eq!(event.name.len(), 50);
    assert_eq!(event.description.len(), 200);
    assert_eq!(event.venue.len(), 100);
    assert_eq!(event.date.len(), 30);
}

#[test]
fn creation_at_no_address_fails_after_the_bounds() {
    let mut ledger = registry();
    let r = ledger.create_event_at(
        None,
        key(9),
        "E1".to_string(),
        "n".to_string(),
        "d".to_string(),
        "v".to_string(),
        "t".to_string(),
        1,
    );
    assert_eq!(r, Err(LedgerError::NoAddress));
    let r = ledger.create_event_at(
        None,
        key(9),
        "E1".to_string(),
        "n".to_string(),
        "d".to_string(),
        "v".to_string(),
        "t".to_string(),
        0,
    );
    assert_eq!(r, Err(LedgerError::Rejected(ErrorCode::InvalidMaxClaims)));
    assert_eq!(ledger.event_count(), 0);
}

#[test]
fn creation_at_a_given_address() {
    let mut ledger = registry();
    let at = key(50);
    let r = ledger.create_event_at(
        Some(at),
        key(9),
        "E1".to_string(),
        "n".to_string(),
        "d".to_string(),
        "v".to_string(),
        "t".to_string(),
        4,
    );
    assert_eq!(r, Ok(()));
    assert_eq!(ledger.event_at(&at).unwrap().max_claims, 4);
    assert!(ledger.event_at(&key(51)).is_none());
    let r = ledger.create_event_at(
        Some(at),
        key(9),
        "E2".to_string(),
        "n".to_string(),
        "d".to_string(),
        "v".to_string(),
        "t".to_string(),
        4,
    );
    assert_eq!(r, Err(LedgerError::AddressCollision));
    assert_eq!(ledger.event_at(&at).unwrap().event_id, "E1");
}

#[test]
fn join_at_given_addresses_checks_in_order() {
    let mut ledger = registry();
    let at = key(50);
    let slot = key(60);
    let r = ledger.create_event_at(
        Some(at),
        key(9),
        "E1".to_string(),
        "n".to_string(),
        "d".to_string(),
        "v".to_string(),
        "t".to_string(),
        1,
    );
    assert_eq!(r, Ok(()));

    assert_eq!(ledger.join_event_at(None, Some(slot), key(1), "E1".to_string(), 1), Err(LedgerError::NotFound));
    assert_eq!(
        ledger.join_event_at(Some(key(51)), Some(slot), key(1), "E1".to_string(), 1),
        Err(LedgerError::NotFound)
    );
    assert_eq!(ledger.join_event_at(Some(at), None, key(1), "E1".to_string(), 1), Err(LedgerError::NoAddress));
    assert_eq!(
        ledger.join_event_at(Some(at), Some(slot), key(1), "E2".to_string(), 1),
        Err(LedgerError::Rejected(ErrorCode::EventIdMismatch))
    );
    assert_eq!(ledger.claim_count(), 0);
    assert_eq!(ledger.event_at(&at).unwrap().claims_count, 0);

    assert_eq!(ledger.join_event_at(Some(at), Some(slot), key(1), "E1".to_string(), 77), Ok(()));
    assert_eq!(ledger.event_at(&at).unwrap().claims_count, 1);
    assert_eq!(ledger.claim_at(&slot).unwrap().timestamp, 77);
    assert_eq!(ledger.claim_at(&slot).unwrap().attendee, key(1));

    // Full now: the want of a place comes before everything but the lookup.
    assert_eq!(
        ledger.join_event_at(Some(at), None, key(2), "E2".to_string(), 1),
        Err(LedgerError::Rejected(ErrorCode::MaxClaimsReached))
    );
    assert_eq!(ledger.join_event_at(Some(key(51)), None, key(2), "E2".to_string(), 1), Err(LedgerError::NotFound));
}

#[test]
fn collision_comes_before_the_mismatch() {
    let mut ledger = registry();
    let at = key(50);
    let slot = key(60);
    let r = ledger.create_event_at(
        Some(at),
        key(9),
        "E1".to_string(),
        "n".to_string(),
        "d".to_string(),
        "v".to_string(),
        "t".to_string(),
        3,
    );
    assert_eq!(r, Ok(()));
    assert_eq!(ledger.join_event_at(Some(at), Some(slot), key(1), "E1".to_string(), 1), Ok(()));
    assert_eq!(
        ledger.join_event_at(Some(at), Some(slot), key(1), "E2".to_string(), 1),
        Err(LedgerError::AddressCollision)
    );
    assert_eq!(ledger.event_at(&at).unwrap().claims_count, 1);
}

#[test]
fn failed_requests_leave_the_ledger_as_it_was() {
    let mut ledger = registry();
    assert_eq!(create(&mut ledger, 9, "E1", 1), Ok(()));
    assert_eq!(ledger.join_event(key(1), "E1".to_string(), 5), Ok(()));
    let _ = ledger.join_event(key(2), "E1".to_string(), 6);
    let _ = ledger.join_event(key(1), "nope".to_string(), 6);
    let _ = create(&mut ledger, 3, "E1", 9);
    let _ = create(&mut ledger, 3, "E3", 0);
    assert_eq!(ledger.event_count(), 1);
    assert_eq!(ledger.claim_count(), 1);
    let event = ledger.event("E1").unwrap();
    assert_eq!(event.claims_count, 1);
    assert_eq!(event.max_claims, 1);
    assert_eq!(event.creator, key(9));
    assert!(ledger.event("E3").is_none());
    assert!(ledger.claim("E1", &key(2)).is_none());
}

#[test]
fn registries_derive_different_addresses() {
    let mut one = Ledger::new(key(1));
    let mut two = Ledger::new(key(2));
    assert_eq!(create(&mut one, 9, "E1", 1), Ok(()));
    assert_eq!(create(&mut two, 9, "E1", 1), Ok(()));
    let a = solmeet::address::event_address(&key(1), "E1").unwrap();
    let b = solmeet::address::event_address(&key(2), "E1").unwrap();
    assert_ne!(a, b);
    assert!(one.event_at(&a).is_some());
    assert!(one.event_at(&b).is_none());
    assert!(two.event_at(&b).is_some());
}
