//! The caller-facing message shapes: actions, queries, and query answers.
//! The wire encoding is the execution host's concern; the ledger sees
//! only these plain values.

use vstd::prelude::*;

verus! {

/// The (empty) message that sets up a fresh ledger.
#[derive(Clone, Debug, PartialEq)]
pub struct InstantiateMsg {}

/// The three actions a caller can take.
#[derive(Clone, Debug, PartialEq)]
pub enum ExecuteMsg {
    SubmitProposal { id: String, choice_count: u8, start_time: u64, end_time: u64 },
    RegisterVoter { proposal_id: String, eth_addr: String, scrt_addr: String, power: u128 },
    CastVote { proposal_id: String, eth_addr: String, scrt_addr: String, choice: u8 },
}

/// The read-only queries.
#[derive(Clone, Debug, PartialEq)]
pub enum QueryMsg {
    CurrentProposal {},
    ProposalById { proposal_id: String },
    ProposalCount {},
    VoterCount {},
    WhoWon { proposal_id: String },
}

/// Answer to a proposal query: the identifier and the number of choices.
#[derive(Clone, Debug, PartialEq)]
pub struct ProposalResponse {
    pub id: String,
    pub choice_count: u8,
}

/// Answer to a winner query: the winning choice and its accumulated power.
#[derive(Clone, Debug, PartialEq)]
pub struct WinnerResponse {
    pub choice: u8,
    pub choice_count: u128,
}

/// Answer to a counting query.
#[derive(Clone, Debug, PartialEq)]
pub struct CountResponse {
    pub count: u128,
}

/// The answer a query dispatch hands back, one variant per answer shape.
#[derive(Clone, Debug, PartialEq)]
pub enum QueryAnswer {
    Proposal(ProposalResponse),
    Count(CountResponse),
    Winner(WinnerResponse),
}

} // verus!
