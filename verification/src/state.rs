//! The two kinds of record that the ledger holds, and the bytes that each
//! takes in a fixed-size backing store.

use crate::address::Address;
use vstd::prelude::*;
use vstd::utf8::encode_utf8;

verus! {

/// Most bytes that an event identifier may take.
pub const MAX_EVENT_ID_LEN: usize = 16;

/// Most bytes that a name may take.
pub const MAX_NAME_LEN: usize = 50;

/// Most bytes that a description may take.
pub const MAX_DESCRIPTION_LEN: usize = 200;

/// Most bytes that a venue may take.
pub const MAX_VENUE_LEN: usize = 100;

/// Most bytes that a date may take.
pub const MAX_DATE_LEN: usize = 30;

/// Bytes of an event record besides those of its identifier: the creator
/// (32), the length headers of the five strings (4 each), room for the name
/// (50), the description (200), the venue (100) and the date (30), the two
/// counters (2 each) and reserved padding (100).
pub const EVENT_FIXED_SPACE: usize = 536;

/// Bytes of a claim record besides those of its event identifier: the
/// attendee (32), the length header of the identifier (4), the timestamp (8)
/// and reserved padding (50).
pub const CLAIM_FIXED_SPACE: usize = 94;

/// The number of bytes that a string takes when it is stored.
pub open spec fn byte_len(s: Seq<char>) -> nat {
    encode_utf8(s).len()
}

/// What an event record holds.
pub struct EventView {
    pub creator: Seq<u8>,
    pub event_id: Seq<char>,
    pub name: Seq<char>,
    pub description: Seq<char>,
    pub venue: Seq<char>,
    pub date: Seq<char>,
    pub max_claims: nat,
    pub claims_count: nat,
}

impl EventView {
    /// The invariant of an event that stands in the ledger: its strings are
    /// within their bounds, its capacity is positive, and it has not taken
    /// more claims than its capacity.
    pub open spec fn wf(self) -> bool {
        &&& byte_len(self.event_id) <= 16
        &&& byte_len(self.name) <= 50
        &&& byte_len(self.description) <= 200
        &&& byte_len(self.venue) <= 100
        &&& byte_len(self.date) <= 30
        &&& 0 < self.max_claims <= u16::MAX
        &&& self.claims_count <= self.max_claims
    }

    /// Whether the event can take one more claim.
    pub open spec fn has_room(self) -> bool {
        self.claims_count < self.max_claims
    }

    /// The event after one more claim.
    pub open spec fn claimed(self) -> EventView {
        EventView { claims_count: self.claims_count + 1, ..self }
    }
}

/// What a claim record holds.
pub struct ClaimView {
    pub attendee: Seq<u8>,
    pub event_id: Seq<char>,
    pub timestamp: int,
}

/// An event: created once, never deleted or renamed, and changed only by
/// the count of its claims going up.
#[derive(Clone, Debug)]
pub struct Event {
    /// The signer who created the event.
    pub creator: Address,
    /// The identifier that the creator chose, unique in the registry.
    pub event_id: String,
    pub name: String,
    pub description: String,
    pub venue: String,
    pub date: String,
    /// The capacity, fixed at creation.
    pub max_claims: u16,
    /// The number of claims taken so far.
    pub claims_count: u16,
}

impl View for Event {
    type V = EventView;

    open spec fn view(&self) -> EventView {
        EventView {
            creator: self.creator@,
            event_id: self.event_id@,
            name: self.name@,
            description: self.description@,
            venue: self.venue@,
            date: self.date@,
            max_claims: self.max_claims as nat,
            claims_count: self.claims_count as nat,
        }
    }
}

impl Event {
    /// The bytes of an event record, as a function of the bytes of its
    /// identifier.
    pub open spec fn spec_space(id_len: nat) -> nat {
        32 + (4 + id_len) + (4 + 50) + (4 + 200) + (4 + 100) + (4 + 30) + 2 + 2 + 100
    }

    /// The number of bytes to set aside for the record of an event with this
    /// identifier.
    pub fn space(event_id: &str) -> (bytes: usize)
        requires
            Event::spec_space(byte_len(event_id@)) <= usize::MAX,
        ensures
            bytes == Event::spec_space(byte_len(event_id@)),
            bytes == 536 + byte_len(event_id@),
    {
        EVENT_FIXED_SPACE + event_id.len()
    }

    /// A record with nothing in it: what a slot holds before an event is
    /// written into it.
    pub fn blank() -> (event: Event)
        ensures
            event@ == (EventView {
                creator: seq![0u8; 32],
                event_id: Seq::<char>::empty(),
                name: Seq::<char>::empty(),
                description: Seq::<char>::empty(),
                venue: Seq::<char>::empty(),
                date: Seq::<char>::empty(),
                max_claims: 0,
                claims_count: 0,
            }),
    {
        let event = Event {
            creator: Address::new([0u8; 32]),
            event_id: String::new(),
            name: String::new(),
            description: String::new(),
            venue: String::new(),
            date: String::new(),
            max_claims: 0,
            claims_count: 0,
        };
        assert(event.creator@ =~= seq![0u8; 32]);
        event
    }

    /// A second record with the same content.
    pub fn duplicate(&self) -> (event: Event)
        ensures
            event@ == self@,
    {
        Event {
            creator: self.creator,
            event_id: self.event_id.clone(),
            name: self.name.clone(),
            description: self.description.clone(),
            venue: self.venue.clone(),
            date: self.date.clone(),
            max_claims: self.max_claims,
            claims_count: self.claims_count,
        }
    }

    /// Whether the event can take one more claim.
    pub fn has_room(&self) -> (b: bool)
        ensures
            b == self@.has_room(),
    {
        self.claims_count < self.max_claims
    }

    /// Whether the event carries this identifier.
    pub fn is_named(&self, event_id: &String) -> (b: bool)
        ensures
            b == (self@.event_id == event_id@),
    {
        self.event_id == *event_id
    }
}

/// A claim: the proof that one attendee holds one place of one event.
#[derive(Clone, Debug)]
pub struct Claim {
    /// The signer who joined.
    pub attendee: Address,
    /// The identifier of the event, by which the event is looked up.
    pub event_id: String,
    /// When the claim was made, in seconds of the host's clock.
    pub timestamp: i64,
}

impl View for Claim {
    type V = ClaimView;

    open spec fn view(&self) -> ClaimView {
        ClaimView {
            attendee: self.attendee@,
            event_id: self.event_id@,
            timestamp: self.timestamp as int,
        }
    }
}

impl Claim {
    /// The bytes of a claim record, as a function of the bytes of its event
    /// identifier.
    pub open spec fn spec_space(id_len: nat) -> nat {
        32 + 4 + id_len + 8 + 50
    }

    /// The number of bytes to set aside for the record of a claim on the
    /// event with this identifier.
    pub fn space(event_id: &str) -> (bytes: usize)
        requires
            Claim::spec_space(byte_len(event_id@)) <= usize::MAX,
        ensures
            bytes == Claim::spec_space(byte_len(event_id@)),
            bytes == 94 + byte_len(event_id@),
    {
        CLAIM_FIXED_SPACE + event_id.len()
    }

    /// A record with nothing in it: what a slot holds before a claim is
    /// written into it.
    pub fn blank() -> (claim: Claim)
        ensures
            claim@ == (ClaimView {
                attendee: seq![0u8; 32],
                event_id: Seq::<char>::empty(),
                timestamp: 0,
            }),
    {
        let claim = Claim { attendee: Address::new([0u8; 32]), event_id: String::new(), timestamp: 0 };
        assert(claim.attendee@ =~= seq![0u8; 32]);
        claim
    }
}

} // verus!
