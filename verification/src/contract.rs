//! The lifecycle controller: the ledger that owns the two registries, the
//! three caller-facing actions, and the read-only queries. Each action
//! either commits in full or leaves the ledger exactly as it was.

use vstd::prelude::*;

use crate::errors::VoteError;
use crate::model::{
    cast_spec, find_prop, init_view, key_idx, register_spec, step_spec, submit_spec, win_idx,
    win_power, LedgerView, VoterView,
};
use crate::msg::{
    CountResponse, ExecuteMsg, InstantiateMsg, ProposalResponse, QueryAnswer, QueryMsg,
    WinnerResponse,
};
use crate::registry::ProposalRegistry;
use crate::state::ProposalVoter;
use crate::tally::winner;
use crate::voters::VoterRegistry;

verus! {

/// The whole persisted state: the proposal log and, aligned with it, one
/// registration table per proposal.
pub struct Ledger {
    props: ProposalRegistry,
    voters: VoterRegistry,
}

impl View for Ledger {
    type V = LedgerView;

    closed spec fn view(&self) -> LedgerView {
        LedgerView { proposals: self.props@, voters: self.voters@ }
    }
}

impl Ledger {
    /// The proposal log, for read-only inspection.
    pub fn proposals(&self) -> (r: &ProposalRegistry)
        ensures
            r@ == self@.proposals,
    {
        &self.props
    }

    /// The registration tables, for read-only inspection.
    pub fn voter_registry(&self) -> (r: &VoterRegistry)
        ensures
            r@ == self@.voters,
    {
        &self.voters
    }
}

/// Sets up a fresh ledger with an empty proposal log.
pub fn instantiate(_msg: InstantiateMsg) -> (l: Ledger)
    ensures
        l@ == init_view(),
        l@.wf(),
{
    let l = Ledger { props: ProposalRegistry::new(), voters: VoterRegistry::new() };
    proof {
        assert(l@ =~= init_view());
    }
    l
}

/// Appends a new proposal with an all-zero tally and opens its (empty)
/// registration table; a proposal without choices is rejected.
pub fn try_add_proposal(
    l: &mut Ledger,
    id: String,
    choice_count: u8,
    start_time: u64,
    end_time: u64,
) -> (r: Result<(), VoteError>)
    requires
        old(l)@.wf(),
    ensures
        final(l)@.wf(),
        match r {
            Ok(()) => submit_spec(old(l)@, id@, choice_count, start_time, end_time)
                == Ok::<LedgerView, VoteError>(final(l)@),
            Err(e) => submit_spec(old(l)@, id@, choice_count, start_time, end_time)
                == Err::<LedgerView, VoteError>(e) && final(l)@ == old(l)@,
        },
{
    match l.props.create(id, choice_count, start_time, end_time) {
        Err(e) => Err(e),
        Ok(()) => {
            l.voters.push_table();
            proof {
                let m2 = submit_spec(old(l)@, id@, choice_count, start_time, end_time)->Ok_0;
                assert(l@ =~= m2);
                assert(l@.wf()) by {
                    let m1 = old(l)@;
                    assert(forall|i: int|
                        0 <= i < m1.proposals.len() ==> l@.proposals[i] == m1.proposals[i]);
                    assert(forall|i: int|
                        0 <= i < m1.voters.len() ==> l@.voters[i] == m1.voters[i]);
                    assert(l@.proposals.last().wf());
                }
            }
            Ok(())
        },
    }
}

/// Registers a voter against the current proposal, writing over any
/// earlier registration of the same external identity.
pub fn try_register_voter(
    l: &mut Ledger,
    proposal_id: String,
    eth_addr: String,
    scrt_addr: String,
    power: u128,
) -> (r: Result<(), VoteError>)
    requires
        old(l)@.wf(),
    ensures
        final(l)@.wf(),
        match r {
            Ok(()) => register_spec(old(l)@, proposal_id@, eth_addr@, scrt_addr@, power)
                == Ok::<LedgerView, VoteError>(final(l)@),
            Err(e) => register_spec(old(l)@, proposal_id@, eth_addr@, scrt_addr@, power)
                == Err::<LedgerView, VoteError>(e) && final(l)@ == old(l)@,
        },
{
    let n = l.props.len();
    if n == 0 {
        return Err(VoteError::NoProposal);
    }
    let idx = n - 1;
    let v = ProposalVoter::register(proposal_id, eth_addr, scrt_addr, power);
    l.voters.register(idx, v);
    proof {
        let m2 = register_spec(old(l)@, proposal_id@, eth_addr@, scrt_addr@, power)->Ok_0;
        assert(l@ =~= m2);
        assert(l@.wf()) by {
            let m1 = old(l)@;
            assert(forall|i: int|
                0 <= i < m1.voters.len() && i != idx as int ==> l@.voters[i] == m1.voters[i]);
        }
    }
    Ok(())
}

/// Accepts one validated ballot: resolves the current proposal and the
/// caller's registration, validates the choice index and the claimed
/// internal address, refuses a second ballot or an overflowing tally, and
/// only then sets the voted flag and adds the voter's power to the chosen
/// counter. On any failure the ledger is untouched.
pub fn try_cast_vote(
    l: &mut Ledger,
    proposal_id: String,
    eth_addr: String,
    scrt_addr: String,
    choice: u8,
) -> (r: Result<(), VoteError>)
    requires
        old(l)@.wf(),
    ensures
        final(l)@.wf(),
        match r {
            Ok(()) => cast_spec(old(l)@, proposal_id@, eth_addr@, scrt_addr@, choice)
                == Ok::<LedgerView, VoteError>(final(l)@),
            Err(e) => cast_spec(old(l)@, proposal_id@, eth_addr@, scrt_addr@, choice)
                == Err::<LedgerView, VoteError>(e) && final(l)@ == old(l)@,
        },
{
    let n = l.props.len();
    if n == 0 {
        return Err(VoteError::NoProposal);
    }
    let idx = n - 1;
    let power: u128;
    let voted: bool;
    let scrt_ok: bool;
    match l.voters.lookup(idx, &eth_addr) {
        Err(_) => {
            return Err(VoteError::NotRegistered);
        },
        Ok(reg) => {
            power = reg.power;
            voted = reg.has_voted;
            scrt_ok = reg.scrt_addr == scrt_addr;
        },
    }
    let prop = match l.props.current() {
        Ok(p) => p,
        Err(_) => {
            proof {
                assert(false);
            }
            return Err(VoteError::NoProposal);
        },
    };
    if choice >= prop.choice_count {
        return Err(VoteError::InvalidChoice);
    }
    if !scrt_ok {
        return Err(VoteError::Unauthorized);
    }
    if voted {
        return Err(VoteError::AlreadyVoted);
    }
    let cur: u128 = prop.counters[choice as usize];
    if power > u128::MAX - cur {
        return Err(VoteError::Overflow);
    }
    let marked = l.voters.mark_voted(idx, &eth_addr);
    proof {
        assert(marked is Ok);
    }
    let recorded = l.props.record_vote(choice, power);
    proof {
        assert(recorded is Ok);
        let m2 = cast_spec(old(l)@, proposal_id@, eth_addr@, scrt_addr@, choice)->Ok_0;
        assert(l@ =~= m2);
        assert(l@.wf()) by {
            let m1 = old(l)@;
            assert(forall|i: int|
                0 <= i < m1.proposals.len() && i != idx as int ==> l@.proposals[i]
                    == m1.proposals[i]);
            assert(forall|i: int|
                0 <= i < m1.voters.len() && i != idx as int ==> l@.voters[i] == m1.voters[i]);
            assert(l@.proposals[idx as int].wf());
        }
    }
    Ok(())
}

/// Dispatches one caller-facing action.
pub fn execute(l: &mut Ledger, msg: ExecuteMsg) -> (r: Result<(), VoteError>)
    requires
        old(l)@.wf(),
    ensures
        final(l)@.wf(),
        match r {
            Ok(()) => step_spec(old(l)@, msg) == Ok::<LedgerView, VoteError>(final(l)@),
            Err(e) => step_spec(old(l)@, msg) == Err::<LedgerView, VoteError>(e) && final(l)@
                == old(l)@,
        },
{
    match msg {
        ExecuteMsg::SubmitProposal { id, choice_count, start_time, end_time } => try_add_proposal(
            l,
            id,
            choice_count,
            start_time,
            end_time,
        ),
        ExecuteMsg::RegisterVoter { proposal_id, eth_addr, scrt_addr, power } => try_register_voter(
            l,
            proposal_id,
            eth_addr,
            scrt_addr,
            power,
        ),
        ExecuteMsg::CastVote { proposal_id, eth_addr, scrt_addr, choice } => try_cast_vote(
            l,
            proposal_id,
            eth_addr,
            scrt_addr,
            choice,
        ),
    }
}

/// The identifier and choice count of the current proposal.
pub fn query_current_proposal(l: &Ledger) -> (r: Result<ProposalResponse, VoteError>)
    ensures
        match r {
            Ok(resp) => l@.has_proposal() && resp.id@ == l@.cur_prop().id && resp.choice_count
                == l@.cur_prop().choice_count,
            Err(e) => e == VoteError::NoProposal && !l@.has_proposal(),
        },
{
    match l.props.current() {
        Err(e) => Err(e),
        Ok(p) => Ok(ProposalResponse { id: p.id.clone(), choice_count: p.choice_count }),
    }
}

/// How many voters are registered on the current proposal.
pub fn query_voter_count(l: &Ledger) -> (r: Result<CountResponse, VoteError>)
    requires
        l@.wf(),
    ensures
        match r {
            Ok(resp) => l@.has_proposal() && resp.count == l@.cur_voters().len(),
            Err(e) => e == VoteError::NoProposal && !l@.has_proposal(),
        },
{
    let n = l.props.len();
    if n == 0 {
        return Err(VoteError::NoProposal);
    }
    let c = l.voters.count(n - 1);
    Ok(CountResponse { count: c as u128 })
}

/// The winning choice of the proposal the identifier denotes, and the
/// power it accumulated.
pub fn query_count_vote_results(l: &Ledger, proposal_id: &String) -> (r: Result<
    WinnerResponse,
    VoteError,
>)
    requires
        l@.wf(),
    ensures
        match r {
            Ok(resp) => {
                let k = find_prop(l@.proposals, proposal_id@);
                &&& k >= 0
                &&& resp.choice as int == win_idx(l@.proposals[k].counters)
                &&& resp.choice_count == win_power(l@.proposals[k].counters)
            },
            Err(e) => e == VoteError::NoProposal && find_prop(l@.proposals, proposal_id@) == -1,
        },
{
    match l.props.find_by_id(proposal_id) {
        None => Err(VoteError::NoProposal),
        Some(i) => {
            let prop = match l.props.get_by_index(i) {
                Ok(p) => p,
                Err(_) => {
                    proof {
                        assert(false);
                    }
                    return Err(VoteError::NoProposal);
                },
            };
            let (choice, power) = winner(&prop.counters);
            Ok(WinnerResponse { choice, choice_count: power })
        },
    }
}

/// The identifier and choice count of the proposal the identifier
/// denotes, duplicates resolved by recency.
pub fn query_proposal_by_id(l: &Ledger, proposal_id: &String) -> (r: Result<
    ProposalResponse,
    VoteError,
>)
    ensures
        match r {
            Ok(resp) => {
                let k = find_prop(l@.proposals, proposal_id@);
                &&& k >= 0
                &&& resp.id@ == l@.proposals[k].id
                &&& resp.choice_count == l@.proposals[k].choice_count
            },
            Err(e) => e == VoteError::NoProposal && find_prop(l@.proposals, proposal_id@) == -1,
        },
{
    match l.props.find_by_id(proposal_id) {
        None => Err(VoteError::NoProposal),
        Some(i) => {
            let prop = match l.props.get_by_index(i) {
                Ok(p) => p,
                Err(_) => {
                    proof {
                        assert(false);
                    }
                    return Err(VoteError::NoProposal);
                },
            };
            Ok(ProposalResponse { id: prop.id.clone(), choice_count: prop.choice_count })
        },
    }
}

/// How many proposals the log holds.
pub fn query_proposal_count(l: &Ledger) -> (r: CountResponse)
    ensures
        r.count == l@.proposals.len(),
{
    let n = l.props.len();
    CountResponse { count: n as u128 }
}

/// Dispatches one read-only query.
pub fn query(l: &Ledger, msg: QueryMsg) -> (r: Result<QueryAnswer, VoteError>)
    requires
        l@.wf(),
    ensures
        match msg {
            QueryMsg::CurrentProposal {} => match r {
                Ok(a) => {
                    &&& a matches QueryAnswer::Proposal(resp)
                    &&& l@.has_proposal()
                    &&& resp.id@ == l@.cur_prop().id
                    &&& resp.choice_count == l@.cur_prop().choice_count
                },
                Err(e) => e == VoteError::NoProposal && !l@.has_proposal(),
            },
            QueryMsg::ProposalById { proposal_id } => match r {
                Ok(a) => {
                    let k = find_prop(l@.proposals, proposal_id@);
                    &&& a matches QueryAnswer::Proposal(resp)
                    &&& k >= 0
                    &&& resp.id@ == l@.proposals[k].id
                    &&& resp.choice_count == l@.proposals[k].choice_count
                },
                Err(e) => e == VoteError::NoProposal && find_prop(l@.proposals, proposal_id@)
                    == -1,
            },
            QueryMsg::ProposalCount {} => match r {
                Ok(a) => a matches QueryAnswer::Count(resp) && resp.count == l@.proposals.len(),
                Err(_) => false,
            },
            QueryMsg::VoterCount {} => match r {
                Ok(a) => {
                    &&& a matches QueryAnswer::Count(resp)
                    &&& l@.has_proposal()
                    &&& resp.count == l@.cur_voters().len()
                },
                Err(e) => e == VoteError::NoProposal && !l@.has_proposal(),
            },
            QueryMsg::WhoWon { proposal_id } => match r {
                Ok(a) => {
                    let k = find_prop(l@.proposals, proposal_id@);
                    &&& a matches QueryAnswer::Winner(resp)
                    &&& k >= 0
                    &&& resp.choice as int == win_idx(l@.proposals[k].counters)
                    &&& resp.choice_count == win_power(l@.proposals[k].counters)
                },
                Err(e) => e == VoteError::NoProposal && find_prop(l@.proposals, proposal_id@)
                    == -1,
            },
        },
{
    match msg {
        QueryMsg::CurrentProposal {} => match query_current_proposal(l) {
            Ok(resp) => Ok(QueryAnswer::Proposal(resp)),
            Err(e) => Err(e),
        },
        QueryMsg::ProposalById { proposal_id } => match query_proposal_by_id(l, &proposal_id) {
            Ok(resp) => Ok(QueryAnswer::Proposal(resp)),
            Err(e) => Err(e),
        },
        QueryMsg::ProposalCount {} => Ok(QueryAnswer::Count(query_proposal_count(l))),
        QueryMsg::VoterCount {} => match query_voter_count(l) {
            Ok(resp) => Ok(QueryAnswer::Count(resp)),
            Err(e) => Err(e),
        },
        QueryMsg::WhoWon { proposal_id } => match query_count_vote_results(l, &proposal_id) {
            Ok(resp) => Ok(QueryAnswer::Winner(resp)),
            Err(e) => Err(e),
        },
    }
}

} // verus!
