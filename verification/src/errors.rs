//! The error taxonomy of the voting ledger.

use vstd::prelude::*;

verus! {

/// Every way a ledger action or query can fail. Each action returns the
/// specific kind to the caller; nothing is retried or downgraded internally.
#[derive(Clone, Copy, Debug, PartialEq, Eq, Structural)]
pub enum VoteError {
    /// An action referenced a proposal, but none exists.
    NoProposal,
    /// A proposal was submitted with zero choices.
    InvalidChoiceCount,
    /// A ballot named a choice index at or above the proposal's choice count.
    InvalidChoice,
    /// A ballot was cast by an identity with no registration.
    NotRegistered,
    /// A registered voter attempted a second ballot.
    AlreadyVoted,
    /// A ballot's claimed internal address does not match the registration.
    Unauthorized,
    /// Adding the voter's power to a tally would exceed the counter width.
    Overflow,
    /// A lookup by position lay outside the proposal log.
    OutOfRange,
}

} // verus!
