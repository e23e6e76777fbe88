//! The persisted entities: one proposal under way, and one account's
//! standing to vote on it.

use vstd::prelude::*;

use crate::model::{fresh_prop, PropView, VoterView};

verus! {

/// One account's standing to vote on one proposal, keyed by its external
/// identity. The entry is written once, and its voted flag moves only
/// from clear to set, when the account's single ballot is accepted.
#[derive(Clone, Debug, PartialEq)]
pub struct ProposalVoter {
    pub proposal_id: String,
    pub eth_addr: String,
    pub scrt_addr: String,
    pub power: u128,
    pub has_voted: bool,
}

impl View for ProposalVoter {
    type V = VoterView;

    open spec fn view(&self) -> VoterView {
        VoterView {
            proposal_id: self.proposal_id@,
            eth_addr: self.eth_addr@,
            scrt_addr: self.scrt_addr@,
            power: self.power,
            has_voted: self.has_voted,
        }
    }
}

impl ProposalVoter {
    /// A fresh registration: the account has not voted yet.
    pub fn register(
        proposal_id: String,
        eth_addr: String,
        scrt_addr: String,
        power: u128,
    ) -> (v: ProposalVoter)
        ensures
            v@ == (VoterView {
                proposal_id: proposal_id@,
                eth_addr: eth_addr@,
                scrt_addr: scrt_addr@,
                power,
                has_voted: false,
            }),
    {
        ProposalVoter { proposal_id, eth_addr, scrt_addr, power, has_voted: false }
    }
}

/// One vote under way: a caller-supplied identifier, a fixed number of
/// mutually exclusive choices, the voting window, and one power
/// accumulator per choice.
#[derive(Clone, Debug, PartialEq)]
pub struct Proposal {
    pub id: String,
    pub choice_count: u8,
    pub start_time: u64,
    pub end_time: u64,
    pub counters: Vec<u128>,
}

impl View for Proposal {
    type V = PropView;

    open spec fn view(&self) -> PropView {
        PropView {
            id: self.id@,
            choice_count: self.choice_count,
            start_time: self.start_time,
            end_time: self.end_time,
            counters: self.counters@,
        }
    }
}

impl Proposal {
    /// A new proposal with every counter at zero, one per choice.
    pub fn new(id: String, choice_count: u8, start_time: u64, end_time: u64) -> (p: Proposal)
        requires
            choice_count >= 1,
        ensures
            p@ == fresh_prop(id@, choice_count, start_time, end_time),
            p@.wf(),
    {
        let mut counters: Vec<u128> = Vec::new();
        let mut i: u8 = 0;
        while i < choice_count
            invariant
                i <= choice_count,
                counters@.len() == i as int,
                forall|j: int| 0 <= j < i as int ==> counters@[j] == 0u128,
            decreases choice_count - i,
        {
            counters.push(0u128);
            i = i + 1;
        }
        proof {
            assert(counters@ =~= fresh_prop(id@, choice_count, start_time, end_time).counters);
        }
        Proposal { id, choice_count, start_time, end_time, counters }
    }
}

} // verus!
