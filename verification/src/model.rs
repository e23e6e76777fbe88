//! The mathematical model of the ledger.
//!
//! Every executable type has an image here, built from `Seq` and plain
//! integers, and every action of the ledger has a spec-level transition
//! function. The executable functions promise to agree with these
//! transitions, and the laws in `laws` are proved about them.

use vstd::prelude::*;

use crate::errors::VoteError;
use crate::msg::ExecuteMsg;

verus! {

/// Image of one proposal: an identifier, a number of mutually exclusive
/// choices, the voting window, and one power accumulator per choice.
#[verifier::ext_equal]
pub struct PropView {
    pub id: Seq<char>,
    pub choice_count: u8,
    pub start_time: u64,
    pub end_time: u64,
    pub counters: Seq<u128>,
}

impl PropView {
    /// A proposal carries exactly one counter per choice and offers at
    /// least one choice.
    pub open spec fn wf(self) -> bool {
        &&& self.choice_count >= 1
        &&& self.counters.len() == self.choice_count as int
    }
}

/// Image of one voter registration: the standing of one external identity
/// to vote once on one proposal.
#[verifier::ext_equal]
pub struct VoterView {
    pub proposal_id: Seq<char>,
    pub eth_addr: Seq<char>,
    pub scrt_addr: Seq<char>,
    pub power: u128,
    pub has_voted: bool,
}

/// Whether a registration table holds the given external identity.
pub open spec fn has_key(t: Seq<VoterView>, eth: Seq<char>) -> bool {
    exists|i: int| 0 <= i < t.len() && t[i].eth_addr == eth
}

/// The position of the given external identity in a registration table.
/// Meaningful only when `has_key` holds; unambiguous under `unique_keys`.
pub open spec fn key_idx(t: Seq<VoterView>, eth: Seq<char>) -> int {
    choose|i: int| 0 <= i < t.len() && t[i].eth_addr == eth
}

/// No two registrations in a table share an external identity.
pub open spec fn unique_keys(t: Seq<VoterView>) -> bool {
    forall|i: int, j: int|
        #![trigger t[i].eth_addr, t[j].eth_addr]
        0 <= i < j < t.len() ==> t[i].eth_addr != t[j].eth_addr
}

/// Image of the whole ledger: the append-only proposal log and, for each
/// position of the log, that proposal's registration table.
#[verifier::ext_equal]
pub struct LedgerView {
    pub proposals: Seq<PropView>,
    pub voters: Seq<Seq<VoterView>>,
}

impl LedgerView {
    /// One registration table per proposal, every proposal well formed,
    /// every table free of duplicate identities.
    pub open spec fn wf(self) -> bool {
        &&& self.voters.len() == self.proposals.len()
        &&& forall|i: int| 0 <= i < self.proposals.len() ==> (#[trigger] self.proposals[i]).wf()
        &&& forall|i: int| 0 <= i < self.voters.len() ==> unique_keys(#[trigger] self.voters[i])
    }

    /// Whether any proposal has been created.
    pub open spec fn has_proposal(self) -> bool {
        self.proposals.len() > 0
    }

    /// The position of the current proposal: the most recently appended one.
    pub open spec fn cur(self) -> int {
        self.proposals.len() - 1
    }

    /// The current proposal.
    pub open spec fn cur_prop(self) -> PropView {
        self.proposals.last()
    }

    /// The current proposal's registration table.
    pub open spec fn cur_voters(self) -> Seq<VoterView> {
        self.voters.last()
    }
}

/// The ledger before any action: an empty log.
pub open spec fn init_view() -> LedgerView {
    LedgerView { proposals: Seq::empty(), voters: Seq::empty() }
}

/// A newly created proposal: all counters zero.
pub open spec fn fresh_prop(id: Seq<char>, choice_count: u8, start_time: u64, end_time: u64) -> PropView {
    PropView {
        id,
        choice_count,
        start_time,
        end_time,
        counters: Seq::new(choice_count as nat, |i: int| 0u128),
    }
}

/// Submitting a proposal appends it to the log together with an empty
/// registration table; a proposal without choices is rejected.
pub open spec fn submit_spec(
    m: LedgerView,
    id: Seq<char>,
    choice_count: u8,
    start_time: u64,
    end_time: u64,
) -> Result<LedgerView, VoteError> {
    if choice_count == 0 {
        Err(VoteError::InvalidChoiceCount)
    } else {
        Ok(LedgerView {
            proposals: m.proposals.push(fresh_prop(id, choice_count, start_time, end_time)),
            voters: m.voters.push(Seq::empty()),
        })
    }
}

/// Registering writes the entry under its external identity: over the
/// existing registration if one is present, appended otherwise.
pub open spec fn upsert(t: Seq<VoterView>, v: VoterView) -> Seq<VoterView> {
    if has_key(t, v.eth_addr) {
        t.update(key_idx(t, v.eth_addr), v)
    } else {
        t.push(v)
    }
}

/// Registering a voter scopes the entry to the current proposal, with the
/// voted flag clear; there must be a proposal to register against.
pub open spec fn register_spec(
    m: LedgerView,
    proposal_id: Seq<char>,
    eth_addr: Seq<char>,
    scrt_addr: Seq<char>,
    power: u128,
) -> Result<LedgerView, VoteError> {
    if !m.has_proposal() {
        Err(VoteError::NoProposal)
    } else {
        let v = VoterView { proposal_id, eth_addr, scrt_addr, power, has_voted: false };
        Ok(LedgerView {
            proposals: m.proposals,
            voters: m.voters.update(m.cur(), upsert(m.cur_voters(), v)),
        })
    }
}

/// Casting a ballot: resolve the current proposal, resolve the caller's
/// registration, validate the choice index and the claimed internal
/// address, refuse a second ballot, and refuse an overflowing tally; then
/// add the voter's power to the chosen counter and set the voted flag.
/// Either both updates happen or the ledger is unchanged.
pub open spec fn cast_spec(
    m: LedgerView,
    proposal_id: Seq<char>,
    eth_addr: Seq<char>,
    scrt_addr: Seq<char>,
    choice: u8,
) -> Result<LedgerView, VoteError> {
    if !m.has_proposal() {
        Err(VoteError::NoProposal)
    } else {
        let p = m.cur_prop();
        let t = m.cur_voters();
        if !has_key(t, eth_addr) {
            Err(VoteError::NotRegistered)
        } else {
            let k = key_idx(t, eth_addr);
            let v = t[k];
            if choice >= p.choice_count {
                Err(VoteError::InvalidChoice)
            } else if v.scrt_addr != scrt_addr {
                Err(VoteError::Unauthorized)
            } else if v.has_voted {
                Err(VoteError::AlreadyVoted)
            } else if p.counters[choice as int] + v.power > u128::MAX {
                Err(VoteError::Overflow)
            } else {
                let p2 = PropView {
                    counters: p.counters.update(
                        choice as int,
                        (p.counters[choice as int] + v.power) as u128,
                    ),
                    ..p
                };
                let t2 = t.update(k, VoterView { has_voted: true, ..v });
                Ok(LedgerView {
                    proposals: m.proposals.update(m.cur(), p2),
                    voters: m.voters.update(m.cur(), t2),
                })
            }
        }
    }
}

/// Under unique keys, the position holding an identity is the only one,
/// so `key_idx` picks exactly it.
pub proof fn lemma_key_idx_pins(t: Seq<VoterView>, eth: Seq<char>, i: int)
    requires
        unique_keys(t),
        0 <= i < t.len(),
        t[i].eth_addr == eth,
    ensures
        has_key(t, eth),
        key_idx(t, eth) == i,
{
    assert(has_key(t, eth));
    let k = key_idx(t, eth);
    assert(0 <= k < t.len() && t[k].eth_addr == eth);
    if k < i {
        assert(t[k].eth_addr != t[i].eth_addr);
    }
    if k > i {
        assert(t[i].eth_addr != t[k].eth_addr);
    }
}

/// Writing a registration keeps the table free of duplicate identities:
/// an existing entry is overwritten in place, a new identity lands at the
/// end, where it collides with nothing.
pub proof fn lemma_upsert_unique(t: Seq<VoterView>, v: VoterView)
    requires
        unique_keys(t),
    ensures
        unique_keys(upsert(t, v)),
        has_key(upsert(t, v), v.eth_addr),
{
    let t2 = upsert(t, v);
    if has_key(t, v.eth_addr) {
        let k = key_idx(t, v.eth_addr);
        assert(0 <= k < t.len() && t[k].eth_addr == v.eth_addr);
        assert(forall|i: int|
            0 <= i < t2.len() ==> #[trigger] t2[i].eth_addr == t[i].eth_addr);
        assert(t2[k].eth_addr == v.eth_addr);
    } else {
        assert(forall|i: int| 0 <= i < t.len() ==> #[trigger] t[i].eth_addr != v.eth_addr);
        assert(t2[t.len() as int].eth_addr == v.eth_addr);
    }
}

/// The position of the proposal a caller-supplied identifier denotes, or
/// -1 when no proposal carries it. Duplicate identifiers are resolved by
/// recency: the latest matching entry of the log wins.
pub open spec fn find_prop(ps: Seq<PropView>, id: Seq<char>) -> int
    decreases ps.len(),
{
    if ps.len() == 0 {
        -1
    } else if ps.last().id == id {
        ps.len() - 1
    } else {
        find_prop(ps.drop_last(), id)
    }
}

/// The winning position among the counters seen so far: the scan tracks
/// the greatest value, and only a strictly greater value displaces the
/// holder, so the lowest position among ties wins.
pub open spec fn win_idx_upto(s: Seq<u128>, n: int) -> int
    decreases n,
{
    if n <= 1 {
        0
    } else {
        let w = win_idx_upto(s, n - 1);
        if s[n - 1] > s[w] {
            n - 1
        } else {
            w
        }
    }
}

/// The winning choice of a tally: the first position attaining the maximum.
pub open spec fn win_idx(s: Seq<u128>) -> int {
    win_idx_upto(s, s.len() as int)
}

/// The winning choice's accumulated power; zero on an all-zero tally.
pub open spec fn win_power(s: Seq<u128>) -> u128 {
    if s.len() == 0 {
        0u128
    } else {
        s[win_idx(s)]
    }
}

/// What one caller-facing action does to the ledger: the dispatch of the
/// three actions to their transitions.
pub open spec fn step_spec(m: LedgerView, msg: ExecuteMsg) -> Result<LedgerView, VoteError> {
    match msg {
        ExecuteMsg::SubmitProposal { id, choice_count, start_time, end_time } => submit_spec(
            m,
            id@,
            choice_count,
            start_time,
            end_time,
        ),
        ExecuteMsg::RegisterVoter { proposal_id, eth_addr, scrt_addr, power } => register_spec(
            m,
            proposal_id@,
            eth_addr@,
            scrt_addr@,
            power,
        ),
        ExecuteMsg::CastVote { proposal_id, eth_addr, scrt_addr, choice } => cast_spec(
            m,
            proposal_id@,
            eth_addr@,
            scrt_addr@,
            choice,
        ),
    }
}

/// The total power accumulated over a tally.
pub open spec fn sum_seq(s: Seq<u128>) -> int
    decreases s.len(),
{
    if s.len() == 0 {
        0
    } else {
        sum_seq(s.drop_last()) + s.last()
    }
}

} // verus!
