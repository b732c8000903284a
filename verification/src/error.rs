//! The ways in which a request can fail.

use vstd::prelude::*;

verus! {

/// What the registration rules reject.
#[derive(Clone, Copy, Debug, PartialEq, Eq, Structural)]
pub enum ErrorCode {
    /// The event identifier takes more than 16 bytes.
    EventIdTooLong,
    /// The name takes more than 50 bytes.
    NameTooLong,
    /// The description takes more than 200 bytes.
    DescriptionTooLong,
    /// The venue takes more than 100 bytes.
    VenueTooLong,
    /// The date takes more than 30 bytes.
    DateTooLong,
    /// The capacity is zero.
    InvalidMaxClaims,
    /// The event has no place left.
    MaxClaimsReached,
    /// The event found at the address carries another identifier than the
    /// request.
    EventIdMismatch,
    /// Kept for callers that want to tell a repeated join apart; the ledger
    /// itself reports a repeated join as an address collision.
    AlreadyJoined,
}

impl ErrorCode {
    /// The text that tells a caller what was rejected.
    pub open spec fn spec_message(self) -> Seq<char> {
        match self {
            ErrorCode::EventIdTooLong => "Event ID must be 16 characters or less"@,
            ErrorCode::NameTooLong => "Event name must be 50 characters or less"@,
            ErrorCode::DescriptionTooLong => "Description must be 200 characters or less"@,
            ErrorCode::VenueTooLong => "Venue must be 100 characters or less"@,
            ErrorCode::DateTooLong => "Date must be 30 characters or less"@,
            ErrorCode::InvalidMaxClaims => "Maximum claims must be greater than zero"@,
            ErrorCode::MaxClaimsReached => "Maximum number of claims has been reached"@,
            ErrorCode::EventIdMismatch => "Event ID mismatch"@,
            ErrorCode::AlreadyJoined => "Attendee has already joined this event"@,
        }
    }

    /// The text that tells a caller what was rejected.
    pub fn message(&self) -> (text: &'static str)
        ensures
            text@ == self.spec_message(),
    {
        match self {
            ErrorCode::EventIdTooLong => "Event ID must be 16 characters or less",
            ErrorCode::NameTooLong => "Event name must be 50 characters or less",
            ErrorCode::DescriptionTooLong => "Description must be 200 characters or less",
            ErrorCode::VenueTooLong => "Venue must be 100 characters or less",
            ErrorCode::DateTooLong => "Date must be 30 characters or less",
            ErrorCode::InvalidMaxClaims => "Maximum claims must be greater than zero",
            ErrorCode::MaxClaimsReached => "Maximum number of claims has been reached",
            ErrorCode::EventIdMismatch => "Event ID mismatch",
            ErrorCode::AlreadyJoined => "Attendee has already joined this event",
        }
    }
}

/// Every way in which a request to the ledger can fail. A failed request
/// leaves the ledger as it was.
#[derive(Clone, Copy, Debug, PartialEq, Eq, Structural)]
pub enum LedgerError {
    /// The registration rules reject the request.
    Rejected(ErrorCode),
    /// The address of the record to create already holds a record.
    AddressCollision,
    /// The address of the event holds no record.
    NotFound,
    /// No address can be derived for the record to create.
    NoAddress,
}

} // verus!
