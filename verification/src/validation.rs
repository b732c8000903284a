//! The checks on the arguments of a creation. They read nothing but the
//! arguments and run before anything is written.

use crate::error::ErrorCode;
use crate::state::byte_len;
use vstd::prelude::*;

verus! {

/// The first bound that the arguments of a creation break, in the order in
/// which the bounds are checked: identifier, name, description, venue, date,
/// capacity. `None` where they break none.
pub open spec fn first_violation(
    event_id: Seq<char>,
    name: Seq<char>,
    description: Seq<char>,
    venue: Seq<char>,
    date: Seq<char>,
    max_claims: u16,
) -> Option<ErrorCode> {
    if byte_len(event_id) > 16 {
        Some(ErrorCode::EventIdTooLong)
    } else if byte_len(name) > 50 {
        Some(ErrorCode::NameTooLong)
    } else if byte_len(description) > 200 {
        Some(ErrorCode::DescriptionTooLong)
    } else if byte_len(venue) > 100 {
        Some(ErrorCode::VenueTooLong)
    } else if byte_len(date) > 30 {
        Some(ErrorCode::DateTooLong)
    } else if max_claims == 0 {
        Some(ErrorCode::InvalidMaxClaims)
    } else {
        None
    }
}

/// Checks the arguments of a creation and reports the first bound that they
/// break.
pub fn validate(
    event_id: &str,
    name: &str,
    description: &str,
    venue: &str,
    date: &str,
    max_claims: u16,
) -> (r: Result<(), ErrorCode>)
    ensures
        match first_violation(event_id@, name@, description@, venue@, date@, max_claims) {
            Some(e) => r == Err::<(), ErrorCode>(e),
            None => r is Ok,
        },
{
    if event_id.as_bytes().len() > 16 {
        return Err(ErrorCode::EventIdTooLong);
    }
    if name.as_bytes().len() > 50 {
        return Err(ErrorCode::NameTooLong);
    }
    if description.as_bytes().len() > 200 {
        return Err(ErrorCode::DescriptionTooLong);
    }
    if venue.as_bytes().len() > 100 {
        return Err(ErrorCode::VenueTooLong);
    }
    if date.as_bytes().len() > 30 {
        return Err(ErrorCode::DateTooLong);
    }
    if max_claims == 0 {
        return Err(ErrorCode::InvalidMaxClaims);
    }
    Ok(())
}

} // verus!
