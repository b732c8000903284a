//! What holds of every ledger and of every sequence of requests.

use crate::address::{spec_claim_address, spec_event_address};
use crate::error::{ErrorCode, LedgerError};
use crate::instructions::{created_claim, created_event};
use crate::ledger::LedgerView;
use crate::state::EventView;
use crate::validation::first_violation;
use vstd::prelude::*;

verus! {

/// One join of a sequence: who joins, and when.
pub struct Join {
    pub attendee: Seq<u8>,
    pub now: i64,
}

impl LedgerView {
    /// The outcome of a sequence of joins of one event, each made on the
    /// ledger that the one before it left: the ledger after the last of them
    /// where all succeed, the first error otherwise.
    pub open spec fn join_all(self, event_id: Seq<char>, joins: Seq<Join>) -> Result<LedgerView, LedgerError>
        decreases joins.len(),
    {
        if joins.len() == 0 {
            Ok(self)
        } else {
            match self.join_all(event_id, joins.drop_last()) {
                Ok(mid) => mid.join_event(joins.last().attendee, event_id, joins.last().now),
                Err(e) => Err(e),
            }
        }
    }
}

/// A ledger grows to itself, and growth carries over: what a ledger grows to
/// is reached by any ledger that grows to it.
pub proof fn law_growth_is_an_order(first: LedgerView, second: LedgerView, third: LedgerView)
    ensures
        first.grows_to(first),
        first.grows_to(second) && second.grows_to(third) ==> first.grows_to(third),
{
    if first.grows_to(second) && second.grows_to(third) {
        assert forall|a: Seq<u8>| #[trigger] first.events.contains_key(a) implies third.events.contains_key(a)
            && third.events[a] == (EventView {
            claims_count: third.events[a].claims_count,
            ..first.events[a]
        }) && first.events[a].claims_count <= third.events[a].claims_count by {
            assert(second.events.contains_key(a));
        }
        assert forall|a: Seq<u8>| #[trigger] first.claims.contains_key(a) implies third.claims.contains_key(a)
            && third.claims[a] == first.claims[a] by {
            assert(second.claims.contains_key(a));
        }
    }
}

/// A creation that succeeds leaves a ledger that meets the invariant and to
/// which the ledger before it grows: the ledger is insert-only. The new
/// event stands at the address derived from its identifier, holds the
/// arguments of the creation, has taken no claim, and has the capacity that
/// was asked for.
pub proof fn law_creation_starts_empty(
    ledger: LedgerView,
    creator: Seq<u8>,
    event_id: Seq<char>,
    name: Seq<char>,
    description: Seq<char>,
    venue: Seq<char>,
    date: Seq<char>,
    max_claims: u16,
)
    requires
        ledger.wf(),
        ledger.create_event(creator, event_id, name, description, venue, date, max_claims) is Ok,
    ensures
        ({
            let next = ledger.create_event(creator, event_id, name, description, venue, date, max_claims)->Ok_0;
            let at = spec_event_address(ledger.program, event_id);
            &&& first_violation(event_id, name, description, venue, date, max_claims) is None
            &&& at is Some
            &&& !ledger.events.contains_key(at->0)
            &&& next.events.contains_key(at->0)
            &&& next.events[at->0] == created_event(creator, event_id, name, description, venue, date, max_claims)
            &&& next.events[at->0].claims_count == 0
            &&& next.events[at->0].max_claims == max_claims
            &&& next.events.dom().len() == ledger.events.dom().len() + 1
            &&& next.claims == ledger.claims
            &&& next.wf()
            &&& ledger.grows_to(next)
        }),
{
    ledger.lemma_create_event_at(
        spec_event_address(ledger.program, event_id),
        creator,
        event_id,
        name,
        description,
        venue,
        date,
        max_claims,
    );
}

/// A join that succeeds leaves a ledger that meets the invariant and to
/// which the ledger before it grows. The event counts exactly one claim
/// more and is otherwise as it was, and exactly one claim is new: that of
/// the attendee, at the address derived from the identifier and the
/// attendee, which was free before.
pub proof fn law_join_takes_one_place(ledger: LedgerView, attendee: Seq<u8>, event_id: Seq<char>, now: i64)
    requires
        ledger.wf(),
        ledger.join_event(attendee, event_id, now) is Ok,
    ensures
        ({
            let next = ledger.join_event(attendee, event_id, now)->Ok_0;
            let at = spec_event_address(ledger.program, event_id);
            let slot = spec_claim_address(ledger.program, event_id, attendee);
            &&& at is Some
            &&& slot is Some
            &&& ledger.events.contains_key(at->0)
            &&& ledger.events[at->0].event_id == event_id
            &&& next.events.dom() == ledger.events.dom()
            &&& next.events[at->0] == ledger.events[at->0].claimed()
            &&& next.events[at->0].claims_count == ledger.events[at->0].claims_count + 1
            &&& next.events[at->0].claims_count <= next.events[at->0].max_claims
            &&& !ledger.claims.contains_key(slot->0)
            &&& next.claims == ledger.claims.insert(slot->0, created_claim(attendee, event_id, now))
            &&& next.claims.dom().len() == ledger.claims.dom().len() + 1
            &&& next.wf()
            &&& ledger.grows_to(next)
        }),
{
    let at = spec_event_address(ledger.program, event_id);
    ledger.lemma_join_event_at(
        at,
        spec_claim_address(ledger.program, event_id, attendee),
        attendee,
        event_id,
        now,
    );
    assert(ledger.events[at->0].wf());
}

/// After any sequence of joins of one event that all succeed, the event
/// counts as many claims more as there were joins, and the ledger holds as
/// many claims more; the count never passes the capacity; and no two of the
/// joins were made by the same attendee. For an event that had taken no
/// claim, the count is the number of joins.
pub proof fn law_joins_are_counted(ledger: LedgerView, event_id: Seq<char>, joins: Seq<Join>)
    requires
        ledger.wf(),
        ledger.join_all(event_id, joins) is Ok,
    ensures
        ({
            let end = ledger.join_all(event_id, joins)->Ok_0;
            let at = spec_event_address(ledger.program, event_id);
            &&& end.wf()
            &&& ledger.grows_to(end)
            &&& end.claims.dom().len() == ledger.claims.dom().len() + joins.len()
            &&& joins.len() > 0 ==> {
                &&& at is Some
                &&& ledger.events.contains_key(at->0)
                &&& end.events[at->0].claims_count == ledger.events[at->0].claims_count + joins.len()
                &&& end.events[at->0].claims_count <= end.events[at->0].max_claims
                &&& end.events[at->0].max_claims == ledger.events[at->0].max_claims
            }
            &&& forall|i: int|
                0 <= i < joins.len() ==> end.claims.contains_key(
                    spec_claim_address(ledger.program, event_id, #[trigger] joins[i].attendee)->0,
                )
            &&& forall|i: int, j: int|
                0 <= i < j < joins.len() ==> (#[trigger] joins[i]).attendee != (#[trigger] joins[j]).attendee
        }),
    decreases joins.len(),
{
    law_growth_is_an_order(ledger, ledger, ledger);
    if joins.len() > 0 {
        let front = joins.drop_last();
        let last = joins.last();
        let mid = ledger.join_all(event_id, front)->Ok_0;
        let end = ledger.join_all(event_id, joins)->Ok_0;
        law_joins_are_counted(ledger, event_id, front);
        law_join_takes_one_place(mid, last.attendee, event_id, last.now);
        law_growth_is_an_order(ledger, mid, end);
        let at = spec_event_address(ledger.program, event_id);
        assert(ledger.events.contains_key(at->0)) by {
            if front.len() == 0 {
                assert(mid == ledger);
            }
        }
        assert forall|i: int| 0 <= i < joins.len() implies end.claims.contains_key(
            spec_claim_address(ledger.program, event_id, #[trigger] joins[i].attendee)->0,
        ) by {
            if i < front.len() {
                assert(front[i] == joins[i]);
                assert(mid.claims.contains_key(spec_claim_address(ledger.program, event_id, front[i].attendee)->0));
            }
        }
        assert forall|i: int, j: int| 0 <= i < j < joins.len() implies (#[trigger] joins[i]).attendee != (
        #[trigger] joins[j]).attendee by {
            if j < front.len() {
                assert(front[i] == joins[i] && front[j] == joins[j]);
            } else {
                assert(front[i] == joins[i]);
                assert(mid.claims.contains_key(spec_claim_address(ledger.program, event_id, front[i].attendee)->0));
            }
        }
    }
}

/// Once an attendee has joined an event, no later join of that event by
/// that attendee succeeds, whatever was added to the ledger in between: it
/// fails for want of a place where the event is full by then, and as an
/// address collision otherwise.
pub proof fn law_no_second_join(
    ledger: LedgerView,
    later: LedgerView,
    attendee: Seq<u8>,
    event_id: Seq<char>,
    first: i64,
    second: i64,
)
    requires
        ledger.wf(),
        ledger.join_event(attendee, event_id, first) is Ok,
        ledger.join_event(attendee, event_id, first)->Ok_0.grows_to(later),
    ensures
        ({
            let at = spec_event_address(ledger.program, event_id)->0;
            later.join_event(attendee, event_id, second) == Err::<LedgerView, LedgerError>(
                if later.events[at].has_room() {
                    LedgerError::AddressCollision
                } else {
                    LedgerError::Rejected(ErrorCode::MaxClaimsReached)
                },
            )
        }),
{
    law_join_takes_one_place(ledger, attendee, event_id, first);
    let next = ledger.join_event(attendee, event_id, first)->Ok_0;
    let at = spec_event_address(ledger.program, event_id)->0;
    let slot = spec_claim_address(ledger.program, event_id, attendee)->0;
    assert(next.events.contains_key(at));
    assert(next.claims.contains_key(slot));
}

/// Once an event has been created, no later creation with its identifier
/// succeeds, whatever its other arguments are and whatever was added to the
/// ledger in between: it fails as an address collision, and the event stays
/// as it was created but for the claims it has taken since.
pub proof fn law_no_second_creation(
    ledger: LedgerView,
    later: LedgerView,
    event_id: Seq<char>,
    creator: Seq<u8>,
    name: Seq<char>,
    description: Seq<char>,
    venue: Seq<char>,
    date: Seq<char>,
    max_claims: u16,
    creator2: Seq<u8>,
    name2: Seq<char>,
    description2: Seq<char>,
    venue2: Seq<char>,
    date2: Seq<char>,
    max_claims2: u16,
)
    requires
        ledger.wf(),
        ledger.create_event(creator, event_id, name, description, venue, date, max_claims) is Ok,
        ledger.create_event(creator, event_id, name, description, venue, date, max_claims)->Ok_0.grows_to(later),
    ensures
        later.create_event(creator2, event_id, name2, description2, venue2, date2, max_claims2) == Err::<
            LedgerView,
            LedgerError,
        >(LedgerError::AddressCollision),
        ({
            let at = spec_event_address(ledger.program, event_id)->0;
            &&& later.events.contains_key(at)
            &&& later.events[at] == (EventView {
                claims_count: later.events[at].claims_count,
                ..created_event(creator, event_id, name, description, venue, date, max_claims)
            })
        }),
{
    law_creation_starts_empty(ledger, creator, event_id, name, description, venue, date, max_claims);
    let next = ledger.create_event(creator, event_id, name, description, venue, date, max_claims)->Ok_0;
    let at = spec_event_address(ledger.program, event_id)->0;
    assert(next.events.contains_key(at));
}

/// A join of an event that has taken as many claims as its capacity allows
/// fails for want of a place, for every attendee. As every failed request
/// does, it leaves the ledger, and so the count of the event, as it was.
pub proof fn law_full_event_takes_no_join(ledger: LedgerView, attendee: Seq<u8>, event_id: Seq<char>, now: i64)
    requires
        spec_event_address(ledger.program, event_id) is Some,
        ledger.events.contains_key(spec_event_address(ledger.program, event_id)->0),
        ({
            let event = ledger.events[spec_event_address(ledger.program, event_id)->0];
            event.claims_count == event.max_claims
        }),
    ensures
        ledger.join_event(attendee, event_id, now) == Err::<LedgerView, LedgerError>(
            LedgerError::Rejected(ErrorCode::MaxClaimsReached),
        ),
{
}

} // verus!
