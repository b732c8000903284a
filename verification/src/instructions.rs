//! The two operations as they act on records that are already at hand: the
//! slot of the record to write, the event to join, the signer.

use crate::address::Address;
use crate::error::ErrorCode;
use crate::state::{Claim, ClaimView, Event, EventView};
use crate::validation::{first_violation, validate};
use vstd::prelude::*;

verus! {

/// What a creation works on.
pub struct CreateEvent {
    /// The slot of the new event. Its address is free until the creation
    /// succeeds.
    pub event: Event,
    /// The signer who creates the event.
    pub creator: Address,
}

/// What a join works on.
pub struct JoinEvent {
    /// The event to join.
    pub event: Event,
    /// The slot of the new claim.
    pub claim: Claim,
    /// The signer who joins.
    pub attendee: Address,
}

/// The event that a creation with these arguments writes: the arguments as
/// they are, and no claim taken.
pub open spec fn created_event(
    creator: Seq<u8>,
    event_id: Seq<char>,
    name: Seq<char>,
    description: Seq<char>,
    venue: Seq<char>,
    date: Seq<char>,
    max_claims: u16,
) -> EventView {
    EventView {
        creator,
        event_id,
        name,
        description,
        venue,
        date,
        max_claims: max_claims as nat,
        claims_count: 0,
    }
}

/// The claim that a join writes.
pub open spec fn created_claim(attendee: Seq<u8>, event_id: Seq<char>, now: i64) -> ClaimView {
    ClaimView { attendee, event_id, timestamp: now as int }
}

/// Creates an event in the slot of `ctx`. Where the arguments break a bound,
/// the first broken bound is reported and nothing is written; otherwise the
/// slot holds the new event, with no claim taken and the signer as creator.
pub fn create_event(
    ctx: &mut CreateEvent,
    event_id: String,
    name: String,
    description: String,
    venue: String,
    date: String,
    max_claims: u16,
) -> (r: Result<(), ErrorCode>)
    ensures
        match first_violation(event_id@, name@, description@, venue@, date@, max_claims) {
            Some(e) => r == Err::<(), ErrorCode>(e) && *final(ctx) == *old(ctx),
            None => {
                &&& r is Ok
                &&& final(ctx).creator == old(ctx).creator
                &&& final(ctx).event@ == created_event(
                    old(ctx).creator@,
                    event_id@,
                    name@,
                    description@,
                    venue@,
                    date@,
                    max_claims,
                )
                &&& final(ctx).event@.wf()
            },
        },
{
    match validate(
        event_id.as_str(),
        name.as_str(),
        description.as_str(),
        venue.as_str(),
        date.as_str(),
        max_claims,
    ) {
        Err(e) => {
            return Err(e);
        },
        Ok(_) => {},
    }
    ctx.event.creator = ctx.creator;
    ctx.event.event_id = event_id;
    ctx.event.name = name;
    ctx.event.description = description;
    ctx.event.venue = venue;
    ctx.event.date = date;
    ctx.event.max_claims = max_claims;
    ctx.event.claims_count = 0;
    Ok(())
}

/// Joins the event of `ctx` at the time `now`. Where the event has no place
/// left, that is reported and nothing is written; otherwise the slot holds
/// the claim of the signer and the event counts one claim more.
pub fn join_event(ctx: &mut JoinEvent, event_id: String, now: i64) -> (r: Result<(), ErrorCode>)
    ensures
        if old(ctx).event@.has_room() {
            &&& r is Ok
            &&& final(ctx).attendee == old(ctx).attendee
            &&& final(ctx).event@ == old(ctx).event@.claimed()
            &&& final(ctx).claim@ == created_claim(old(ctx).attendee@, event_id@, now)
        } else {
            &&& r == Err::<(), ErrorCode>(ErrorCode::MaxClaimsReached)
            &&& *final(ctx) == *old(ctx)
        },
{
    if !(ctx.event.claims_count < ctx.event.max_claims) {
        return Err(ErrorCode::MaxClaimsReached);
    }
    ctx.claim.attendee = ctx.attendee;
    ctx.claim.event_id = event_id;
    ctx.claim.timestamp = now;
    ctx.event.claims_count = ctx.event.claims_count + 1;
    Ok(())
}

} // verus!
