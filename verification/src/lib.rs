//! A deterministic ledger of proposals and power-weighted votes.
//!
//! A coordinator opens a proposal with a fixed number of mutually exclusive
//! choices, registers a set of eligible voters each carrying a numeric voting
//! power, accepts one ballot per voter, and reports the per-choice power
//! totals and the winning choice. The ledger is a pure state machine: an
//! execution host is expected to persist it between invocations and to supply
//! caller identity; neither concern appears here.

mod contract;
mod errors;
mod laws;
mod model;
mod msg;
mod registry;
mod state;
mod tally;
mod voters;

pub use contract::{
    execute, instantiate, query, query_count_vote_results, query_current_proposal,
    query_proposal_by_id, query_proposal_count, query_voter_count, try_add_proposal,
    try_cast_vote, try_register_voter, Ledger,
};
pub use errors::VoteError;
pub use laws::{
    apply_ballots, cast_ballot, credited_power, lemma_cast_ok_effect, lemma_choice_bounds,
    lemma_exactly_once, lemma_first_vote, lemma_repeat_vote_rejected, lemma_submission_order,
    lemma_tally_additivity, lemma_voted_flag_stays, lemma_winner_first_max, total_power,
    votes_for, BallotEvent,
};
pub use model::{
    cast_spec, find_prop, fresh_prop, has_key, init_view, key_idx, register_spec, step_spec,
    submit_spec, sum_seq, unique_keys, upsert, win_idx, win_power, LedgerView, PropView,
    VoterView,
};
pub use msg::{
    CountResponse, ExecuteMsg, InstantiateMsg, ProposalResponse, QueryAnswer, QueryMsg,
    WinnerResponse,
};
pub use registry::ProposalRegistry;
pub use state::{Proposal, ProposalVoter};
pub use tally::winner;
pub use voters::VoterRegistry;
