//! The ledger: the events and the claims of one registry, each record at an
//! address of its own. Records are only ever added, and an event changes
//! only by counting one more claim.

use crate::address::{address_view, claim_address, event_address, spec_claim_address, spec_event_address, Address};
use crate::error::{ErrorCode, LedgerError};
use crate::instructions::{create_event, created_claim, created_event, join_event, CreateEvent, JoinEvent};
use crate::state::{Claim, ClaimView, Event, EventView};
use crate::table::Table;
use crate::validation::first_violation;
use vstd::prelude::*;

verus! {

/// The claims that the events of a map count, all together.
pub open spec fn claims_counted(events: Map<Seq<u8>, EventView>) -> nat
    decreases events.dom().len(),
{
    if events.dom().finite() && events.dom().len() > 0 {
        let a = events.dom().choose();
        events[a].claims_count + claims_counted(events.remove(a))
    } else {
        0
    }
}

/// The total does not depend on the event that is counted first.
proof fn lemma_counted_apart(events: Map<Seq<u8>, EventView>, a: Seq<u8>)
    requires
        events.dom().finite(),
        events.contains_key(a),
    ensures
        claims_counted(events) == events[a].claims_count + claims_counted(events.remove(a)),
    decreases events.dom().len(),
{
    let c = events.dom().choose();
    if c != a {
        lemma_counted_apart(events.remove(c), a);
        lemma_counted_apart(events.remove(a), c);
        assert(events.remove(c).remove(a) =~= events.remove(a).remove(c));
    }
}

/// A new event adds its count to the total.
proof fn lemma_counted_with_new(events: Map<Seq<u8>, EventView>, a: Seq<u8>, event: EventView)
    requires
        events.dom().finite(),
        !events.contains_key(a),
    ensures
        claims_counted(events.insert(a, event)) == claims_counted(events) + event.claims_count,
{
    lemma_counted_apart(events.insert(a, event), a);
    assert(events.insert(a, event).remove(a) =~= events);
}

/// An event that changes brings the difference of its counts to the total.
proof fn lemma_counted_with_changed(events: Map<Seq<u8>, EventView>, a: Seq<u8>, event: EventView)
    requires
        events.dom().finite(),
        events.contains_key(a),
    ensures
        claims_counted(events.insert(a, event)) + events[a].claims_count == claims_counted(events)
            + event.claims_count,
{
    lemma_counted_apart(events.insert(a, event), a);
    lemma_counted_apart(events, a);
    assert(events.insert(a, event).remove(a) =~= events.remove(a));
}

/// What a ledger holds: the id of the registry, under which addresses are
/// derived, and the events and the claims by the bytes of their addresses.
pub struct LedgerView {
    pub program: Seq<u8>,
    pub events: Map<Seq<u8>, EventView>,
    pub claims: Map<Seq<u8>, ClaimView>,
}

impl LedgerView {
    /// The ledger of a registry in which nothing has happened yet.
    pub open spec fn empty(program: Seq<u8>) -> LedgerView {
        LedgerView { program, events: Map::empty(), claims: Map::empty() }
    }

    /// The invariant of a ledger: it holds finitely many records; each
    /// event in it is within its bounds, so that no event has taken more
    /// claims than its capacity; and it holds as many claims as its events
    /// count together, so that every place taken is backed by a claim.
    pub open spec fn wf(self) -> bool {
        &&& self.events.dom().finite()
        &&& self.claims.dom().finite()
        &&& forall|a: Seq<u8>| self.events.contains_key(a) ==> (#[trigger] self.events[a]).wf()
        &&& self.claims.dom().len() == claims_counted(self.events)
    }

    /// Whether `later` holds every record of this ledger, each event with at
    /// least the count it has here and otherwise as it is here. Every ledger
    /// that is reached from this one by requests is such a ledger.
    pub open spec fn grows_to(self, later: LedgerView) -> bool {
        &&& later.program == self.program
        &&& forall|a: Seq<u8>| #[trigger]
            self.events.contains_key(a) ==> later.events.contains_key(a) && later.events[a] == (EventView {
                claims_count: later.events[a].claims_count,
                ..self.events[a]
            }) && self.events[a].claims_count <= later.events[a].claims_count
        &&& forall|a: Seq<u8>| #[trigger]
            self.claims.contains_key(a) ==> later.claims.contains_key(a) && later.claims[a] == self.claims[a]
    }

    /// The outcome of a creation whose event would stand at `address`.
    /// An occupied address is a collision, whatever the other arguments are;
    /// then the arguments are checked; then the event is written with no
    /// claim taken.
    pub open spec fn create_event_at(
        self,
        address: Option<Seq<u8>>,
        creator: Seq<u8>,
        event_id: Seq<char>,
        name: Seq<char>,
        description: Seq<char>,
        venue: Seq<char>,
        date: Seq<char>,
        max_claims: u16,
    ) -> Result<LedgerView, LedgerError> {
        if address is Some && self.events.contains_key(address->0) {
            Err(LedgerError::AddressCollision)
        } else if first_violation(event_id, name, description, venue, date, max_claims) is Some {
            Err(
                LedgerError::Rejected(
                    first_violation(event_id, name, description, venue, date, max_claims)->0,
                ),
            )
        } else if address is None {
            Err(LedgerError::NoAddress)
        } else {
            Ok(
                LedgerView {
                    events: self.events.insert(
                        address->0,
                        created_event(creator, event_id, name, description, venue, date, max_claims),
                    ),
                    ..self
                },
            )
        }
    }

    /// The outcome of a join of the event at `event_address` whose claim
    /// would stand at `claim_address`. The checks run in this order and the
    /// first that fails decides: the event exists; it has a place left; the
    /// address of the claim is free; the event carries the identifier of the
    /// request. Then the claim is written and the event counts one more.
    pub open spec fn join_event_at(
        self,
        event_address: Option<Seq<u8>>,
        claim_address: Option<Seq<u8>>,
        attendee: Seq<u8>,
        event_id: Seq<char>,
        now: i64,
    ) -> Result<LedgerView, LedgerError> {
        if event_address is None || !self.events.contains_key(event_address->0) {
            Err(LedgerError::NotFound)
        } else if !self.events[event_address->0].has_room() {
            Err(LedgerError::Rejected(ErrorCode::MaxClaimsReached))
        } else if claim_address is None {
            Err(LedgerError::NoAddress)
        } else if self.claims.contains_key(claim_address->0) {
            Err(LedgerError::AddressCollision)
        } else if self.events[event_address->0].event_id != event_id {
            Err(LedgerError::Rejected(ErrorCode::EventIdMismatch))
        } else {
            Ok(
                LedgerView {
                    events: self.events.insert(event_address->0, self.events[event_address->0].claimed()),
                    claims: self.claims.insert(claim_address->0, created_claim(attendee, event_id, now)),
                    ..self
                },
            )
        }
    }

    /// The outcome of a creation: that of a creation at the address derived
    /// from the identifier of the event.
    pub open spec fn create_event(
        self,
        creator: Seq<u8>,
        event_id: Seq<char>,
        name: Seq<char>,
        description: Seq<char>,
        venue: Seq<char>,
        date: Seq<char>,
        max_claims: u16,
    ) -> Result<LedgerView, LedgerError> {
        self.create_event_at(
            spec_event_address(self.program, event_id),
            creator,
            event_id,
            name,
            description,
            venue,
            date,
            max_claims,
        )
    }

    /// The outcome of a join: that of a join at the address derived from the
    /// identifier of the event, with the claim at the address derived from
    /// that identifier and the attendee.
    pub open spec fn join_event(self, attendee: Seq<u8>, event_id: Seq<char>, now: i64) -> Result<
        LedgerView,
        LedgerError,
    > {
        self.join_event_at(
            spec_event_address(self.program, event_id),
            spec_claim_address(self.program, event_id, attendee),
            attendee,
            event_id,
            now,
        )
    }
}

impl LedgerView {
    /// A creation that succeeds keeps the invariant and only adds: the
    /// ledger before it grows to the ledger after it, which holds one event
    /// more and the same claims.
    pub proof fn lemma_create_event_at(
        self,
        address: Option<Seq<u8>>,
        creator: Seq<u8>,
        event_id: Seq<char>,
        name: Seq<char>,
        description: Seq<char>,
        venue: Seq<char>,
        date: Seq<char>,
        max_claims: u16,
    )
        requires
            self.wf(),
            self.create_event_at(address, creator, event_id, name, description, venue, date, max_claims) is Ok,
        ensures
            ({
                let next = self.create_event_at(
                    address,
                    creator,
                    event_id,
                    name,
                    description,
                    venue,
                    date,
                    max_claims,
                )->Ok_0;
                &&& next.wf()
                &&& self.grows_to(next)
                &&& next.events.dom().len() == self.events.dom().len() + 1
                &&& next.claims == self.claims
            }),
    {
        lemma_counted_with_new(
            self.events,
            address->0,
            created_event(creator, event_id, name, description, venue, date, max_claims),
        );
    }

    /// A join that succeeds keeps the invariant and only adds: the ledger
    /// before it grows to the ledger after it, which holds the same events,
    /// one of them with one claim more, and one claim more.
    pub proof fn lemma_join_event_at(
        self,
        event_address: Option<Seq<u8>>,
        claim_address: Option<Seq<u8>>,
        attendee: Seq<u8>,
        event_id: Seq<char>,
        now: i64,
    )
        requires
            self.wf(),
            self.join_event_at(event_address, claim_address, attendee, event_id, now) is Ok,
        ensures
            ({
                let next = self.join_event_at(event_address, claim_address, attendee, event_id, now)->Ok_0;
                &&& next.wf()
                &&& self.grows_to(next)
                &&& next.events.dom() == self.events.dom()
                &&& next.claims.dom().len() == self.claims.dom().len() + 1
            }),
    {
        let next = self.join_event_at(event_address, claim_address, attendee, event_id, now)->Ok_0;
        let at = event_address->0;
        assert(self.events[at].wf());
        assert(next.events.dom() =~= self.events.dom());
        lemma_counted_with_changed(self.events, at, self.events[at].claimed());
    }
}

/// Whether a request ended as its outcome says: on success the ledger is the
/// one of the outcome, on failure the error is the one of the outcome and
/// the ledger is as it was.
pub open spec fn ended_as(
    outcome: Result<LedgerView, LedgerError>,
    r: Result<(), LedgerError>,
    before: LedgerView,
    after: LedgerView,
) -> bool {
    match outcome {
        Ok(next) => r is Ok && after == next,
        Err(e) => r == Err::<(), LedgerError>(e) && after == before,
    }
}

/// The events and claims of one registry.
pub struct Ledger {
    program: Address,
    events: Table<Event>,
    claims: Table<Claim>,
}

impl View for Ledger {
    type V = LedgerView;

    closed spec fn view(&self) -> LedgerView {
        LedgerView { program: self.program@, events: self.events@, claims: self.claims@ }
    }
}

impl Ledger {
    /// The invariant of the ledger: no address holds two records, and what
    /// the ledger holds meets the invariant of its view.
    pub closed spec fn wf(&self) -> bool {
        &&& self.events.wf()
        &&& self.claims.wf()
        &&& self@.wf()
    }

    /// What a well-formed ledger holds is well-formed.
    pub proof fn lemma_view_wf(&self)
        requires
            self.wf(),
        ensures
            self@.wf(),
    {
    }

    /// The ledger of the registry with this id, with no record in it.
    pub fn new(program: Address) -> (ledger: Ledger)
        ensures
            ledger.wf(),
            ledger@ == LedgerView::empty(program@),
    {
        let ledger = Ledger { program, events: Table::new(), claims: Table::new() };
        assert(ledger@.events.dom() =~= Set::<Seq<u8>>::empty());
        assert(ledger@.claims.dom() =~= Set::<Seq<u8>>::empty());
        ledger
    }

    /// The id of the registry.
    pub fn program(&self) -> (program: Address)
        ensures
            program@ == self@.program,
    {
        self.program
    }

    /// The number of events.
    pub fn event_count(&self) -> (n: usize)
        requires
            self.wf(),
        ensures
            n == self@.events.dom().len(),
    {
        self.events.len()
    }

    /// The number of claims.
    pub fn claim_count(&self) -> (n: usize)
        requires
            self.wf(),
        ensures
            n == self@.claims.dom().len(),
    {
        self.claims.len()
    }

    /// The event at the address, if it holds one.
    pub fn event_at(&self, address: &Address) -> (found: Option<&Event>)
        requires
            self.wf(),
        ensures
            match found {
                Some(event) => self@.events.contains_key(address@) && self@.events[address@] == event@,
                None => !self@.events.contains_key(address@),
            },
    {
        self.events.get(address)
    }

    /// The claim at the address, if it holds one.
    pub fn claim_at(&self, address: &Address) -> (found: Option<&Claim>)
        requires
            self.wf(),
        ensures
            match found {
                Some(claim) => self@.claims.contains_key(address@) && self@.claims[address@] == claim@,
                None => !self@.claims.contains_key(address@),
            },
    {
        self.claims.get(address)
    }

    /// The event at the address derived from this identifier, if there is
    /// one.
    pub fn event(&self, event_id: &str) -> (found: Option<&Event>)
        requires
            self.wf(),
        ensures
            ({
                let at = spec_event_address(self@.program, event_id@);
                match found {
                    Some(event) => at is Some && self@.events.contains_key(at->0) && self@.events[at->0]
                        == event@,
                    None => at is None || !self@.events.contains_key(at->0),
                }
            }),
    {
        match event_address(&self.program, event_id) {
            Some(at) => self.events.get(&at),
            None => None,
        }
    }

    /// The claim at the address derived from this identifier and this
    /// attendee, if there is one.
    pub fn claim(&self, event_id: &str, attendee: &Address) -> (found: Option<&Claim>)
        requires
            self.wf(),
        ensures
            ({
                let at = spec_claim_address(self@.program, event_id@, attendee@);
                match found {
                    Some(claim) => at is Some && self@.claims.contains_key(at->0) && self@.claims[at->0]
                        == claim@,
                    None => at is None || !self@.claims.contains_key(at->0),
                }
            }),
    {
        match claim_address(&self.program, event_id, attendee) {
            Some(at) => self.claims.get(&at),
            None => None,
        }
    }

    /// Creates an event at `address`, which is `None` where no address could
    /// be derived for it.
    pub fn create_event_at(
        &mut self,
        address: Option<Address>,
        creator: Address,
        event_id: String,
        name: String,
        description: String,
        venue: String,
        date: String,
        max_claims: u16,
    ) -> (r: Result<(), LedgerError>)
        requires
            old(self).wf(),
        ensures
            final(self).wf(),
            ended_as(
                old(self)@.create_event_at(
                    address_view(address),
                    creator@,
                    event_id@,
                    name@,
                    description@,
                    venue@,
                    date@,
                    max_claims,
                ),
                r,
                old(self)@,
                final(self)@,
            ),
    {
        if let Some(a) = &address {
            if self.events.contains(a) {
                return Err(LedgerError::AddressCollision);
            }
        }
        let mut ctx = CreateEvent { event: Event::blank(), creator };
        match create_event(&mut ctx, event_id, name, description, venue, date, max_claims) {
            Err(e) => {
                return Err(LedgerError::Rejected(e));
            },
            Ok(_) => {},
        }
        match address {
            None => Err(LedgerError::NoAddress),
            Some(a) => {
                proof {
                    self@.lemma_create_event_at(
                        Some(a@),
                        creator@,
                        event_id@,
                        name@,
                        description@,
                        venue@,
                        date@,
                        max_claims,
                    );
                }
                let created = self.events.insert(a, ctx.event);
                assert(created);
                Ok(())
            },
        }
    }

    /// Creates an event at the address derived from its identifier.
    pub fn create_event(
        &mut self,
        creator: Address,
        event_id: String,
        name: String,
        description: String,
        venue: String,
        date: String,
        max_claims: u16,
    ) -> (r: Result<(), LedgerError>)
        requires
            old(self).wf(),
        ensures
            final(self).wf(),
            ended_as(
                old(self)@.create_event(
                    creator@,
                    event_id@,
                    name@,
                    description@,
                    venue@,
                    date@,
                    max_claims,
                ),
                r,
                old(self)@,
                final(self)@,
            ),
    {
        let address = event_address(&self.program, event_id.as_str());
        self.create_event_at(address, creator, event_id, name, description, venue, date, max_claims)
    }

    /// Joins the event at `event_address` for `attendee` at the time `now`,
    /// with the claim at `claim_address`. Either address is `None` where
    /// none could be derived.
    pub fn join_event_at(
        &mut self,
        event_address: Option<Address>,
        claim_address: Option<Address>,
        attendee: Address,
        event_id: String,
        now: i64,
    ) -> (r: Result<(), LedgerError>)
        requires
            old(self).wf(),
        ensures
            final(self).wf(),
            ended_as(
                old(self)@.join_event_at(
                    address_view(event_address),
                    address_view(claim_address),
                    attendee@,
                    event_id@,
                    now,
                ),
                r,
                old(self)@,
                final(self)@,
            ),
    {
        let at = match event_address {
            None => {
                return Err(LedgerError::NotFound);
            },
            Some(a) => a,
        };
        let event = match self.events.get(&at) {
            None => {
                return Err(LedgerError::NotFound);
            },
            Some(found) => found.duplicate(),
        };
        if !event.has_room() {
            return Err(LedgerError::Rejected(ErrorCode::MaxClaimsReached));
        }
        let slot = match claim_address {
            None => {
                return Err(LedgerError::NoAddress);
            },
            Some(a) => a,
        };
        if self.claims.contains(&slot) {
            return Err(LedgerError::AddressCollision);
        }
        if !event.is_named(&event_id) {
            return Err(LedgerError::Rejected(ErrorCode::EventIdMismatch));
        }
        let mut ctx = JoinEvent { event, claim: Claim::blank(), attendee };
        match join_event(&mut ctx, event_id, now) {
            Err(e) => {
                return Err(LedgerError::Rejected(e));
            },
            Ok(_) => {},
        }
        proof {
            self@.lemma_join_event_at(Some(at@), Some(slot@), attendee@, event_id@, now);
        }
        let replaced = self.events.replace(&at, ctx.event);
        let created = self.claims.insert(slot, ctx.claim);
        assert(replaced && created);
        Ok(())
    }

    /// Joins the event with this identifier for `attendee` at the time
    /// `now`, with both addresses derived.
    pub fn join_event(&mut self, attendee: Address, event_id: String, now: i64) -> (r: Result<
        (),
        LedgerError,
    >)
        requires
            old(self).wf(),
        ensures
            final(self).wf(),
            ended_as(old(self)@.join_event(attendee@, event_id@, now), r, old(self)@, final(self)@),
    {
        let at = event_address(&self.program, event_id.as_str());
        let slot = claim_address(&self.program, event_id.as_str(), &attendee);
        self.join_event_at(at, slot, attendee, event_id, now)
    }
}

} // verus!
