//! An insert-only registration ledger: organizers register events with a
//! bounded capacity, and attendees claim a place in them. No attendee can
//! claim the same event twice, and no event takes more claims than its
//! capacity.

pub mod address;
pub mod error;
pub mod instructions;
pub mod laws;
pub mod ledger;
pub mod state;
pub mod table;
pub mod validation;

pub use address::Address;
pub use error::{ErrorCode, LedgerError};
pub use instructions::{create_event, join_event, CreateEvent, JoinEvent};
pub use ledger::{Ledger, LedgerView};
pub use state::{Claim, ClaimView, Event, EventView};
pub use validation::validate;
