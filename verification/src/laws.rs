//! The general laws of the ledger, proved once and for all over the
//! mathematical transitions of `model`: creation order, choice bounds,
//! exactly-once voting, tally additivity, and the winner's tie-break.

use vstd::prelude::*;

use crate::errors::VoteError;
use crate::model::{
    cast_spec, fresh_prop, has_key, key_idx, lemma_key_idx_pins, submit_spec, sum_seq, win_idx,
    win_idx_upto, LedgerView, VoterView,
};

verus! {

/// Creation order: submitting proposal A and then proposal B always
/// succeeds (given nonzero choice counts), and afterwards the current
/// proposal is B, never A.
pub proof fn lemma_submission_order(
    m: LedgerView,
    id_a: Seq<char>,
    cc_a: u8,
    st_a: u64,
    et_a: u64,
    id_b: Seq<char>,
    cc_b: u8,
    st_b: u64,
    et_b: u64,
)
    requires
        cc_a >= 1,
        cc_b >= 1,
    ensures
        submit_spec(m, id_a, cc_a, st_a, et_a) is Ok,
        submit_spec(submit_spec(m, id_a, cc_a, st_a, et_a)->Ok_0, id_b, cc_b, st_b, et_b) is Ok,
        ({
            let m2 = submit_spec(
                submit_spec(m, id_a, cc_a, st_a, et_a)->Ok_0,
                id_b,
                cc_b,
                st_b,
                et_b,
            )->Ok_0;
            &&& m2.has_proposal()
            &&& m2.cur_prop() == fresh_prop(id_b, cc_b, st_b, et_b)
            &&& m2.cur_prop().id == id_b
        }),
{
}

/// Choice bounds: a ballot whose choice index is at or past the current
/// proposal's choice count never goes through, and for a registered
/// voter it fails with exactly `InvalidChoice`, whatever else holds.
pub proof fn lemma_choice_bounds(
    m: LedgerView,
    proposal_id: Seq<char>,
    eth_addr: Seq<char>,
    scrt_addr: Seq<char>,
    choice: u8,
)
    requires
        m.has_proposal(),
        choice >= m.cur_prop().choice_count,
    ensures
        cast_spec(m, proposal_id, eth_addr, scrt_addr, choice) is Err,
        has_key(m.cur_voters(), eth_addr) ==> cast_spec(m, proposal_id, eth_addr, scrt_addr, choice)
            == Err::<LedgerView, VoteError>(VoteError::InvalidChoice),
{
}

/// What one accepted ballot does: the voter's power lands on the chosen
/// counter and nowhere else, the voter's flag is set and no other entry
/// moves, every other proposal and table is untouched, and the ledger
/// stays well formed.
pub proof fn lemma_cast_ok_effect(
    m: LedgerView,
    proposal_id: Seq<char>,
    eth_addr: Seq<char>,
    scrt_addr: Seq<char>,
    choice: u8,
)
    requires
        m.wf(),
        cast_spec(m, proposal_id, eth_addr, scrt_addr, choice) is Ok,
    ensures
        ({
            let m2 = cast_spec(m, proposal_id, eth_addr, scrt_addr, choice)->Ok_0;
            let t = m.cur_voters();
            let k = key_idx(t, eth_addr);
            &&& m.has_proposal()
            &&& has_key(t, eth_addr)
            &&& 0 <= k < t.len()
            &&& t[k].eth_addr == eth_addr
            &&& !t[k].has_voted
            &&& (choice as int) < m.cur_prop().choice_count
            &&& m.cur_prop().counters[choice as int] + t[k].power <= u128::MAX
            &&& m2.wf()
            &&& m2.has_proposal()
            &&& m2.proposals.len() == m.proposals.len()
            &&& m2.voters.len() == m.voters.len()
            &&& forall|i: int|
                0 <= i < m.proposals.len() && i != m.cur() ==> m2.proposals[i] == m.proposals[i]
            &&& forall|i: int|
                0 <= i < m.voters.len() && i != m.cur() ==> m2.voters[i] == m.voters[i]
            &&& m2.cur_prop().id == m.cur_prop().id
            &&& m2.cur_prop().choice_count == m.cur_prop().choice_count
            &&& m2.cur_prop().counters.len() == m.cur_prop().counters.len()
            &&& m2.cur_prop().counters == m.cur_prop().counters.update(
                choice as int,
                (m.cur_prop().counters[choice as int] + t[k].power) as u128,
            )
            &&& m2.cur_prop().counters[choice as int] == m.cur_prop().counters[choice as int]
                + t[k].power
            &&& forall|j: int|
                0 <= j < m.cur_prop().counters.len() && j != choice as int
                    ==> m2.cur_prop().counters[j] == m.cur_prop().counters[j]
            &&& m2.cur_voters() == t.update(k, VoterView { has_voted: true, ..t[k] })
            &&& m2.cur_voters()[k].has_voted
            &&& m2.cur_voters()[k].power == t[k].power
            &&& m2.cur_voters()[k].eth_addr == eth_addr
            &&& m2.cur_voters()[k].scrt_addr == t[k].scrt_addr
            &&& forall|j: int| 0 <= j < t.len() && j != k ==> m2.cur_voters()[j] == t[j]
        }),
{
    let m2 = cast_spec(m, proposal_id, eth_addr, scrt_addr, choice)->Ok_0;
    let t = m.cur_voters();
    let k = key_idx(t, eth_addr);
    assert(0 <= k < t.len() && t[k].eth_addr == eth_addr);
    assert forall|i: int| 0 <= i < m2.proposals.len() implies (#[trigger] m2.proposals[i]).wf() by {
        if i != m.cur() {
            assert(m2.proposals[i] == m.proposals[i]);
        }
    }
    assert forall|i: int|
        0 <= i < m2.voters.len() implies crate::model::unique_keys(#[trigger] m2.voters[i]) by {
        if i != m.cur() {
            assert(m2.voters[i] == m.voters[i]);
        } else {
            let t2 = m2.cur_voters();
            assert(forall|j: int| 0 <= j < t.len() ==> (#[trigger] t2[j]).eth_addr == t[j].eth_addr);
        }
    }
}

/// The first ballot of a registered voter goes through: with a valid
/// choice, the registered internal address, no earlier ballot, and room
/// in the counter, the cast succeeds.
pub proof fn lemma_first_vote(
    m: LedgerView,
    proposal_id: Seq<char>,
    eth_addr: Seq<char>,
    scrt_addr: Seq<char>,
    choice: u8,
)
    requires
        m.wf(),
        m.has_proposal(),
        has_key(m.cur_voters(), eth_addr),
        !m.cur_voters()[key_idx(m.cur_voters(), eth_addr)].has_voted,
        (choice as int) < m.cur_prop().choice_count,
        scrt_addr == m.cur_voters()[key_idx(m.cur_voters(), eth_addr)].scrt_addr,
        m.cur_prop().counters[choice as int] + m.cur_voters()[key_idx(
            m.cur_voters(),
            eth_addr,
        )].power <= u128::MAX,
    ensures
        cast_spec(m, proposal_id, eth_addr, scrt_addr, choice) is Ok,
{
}

/// A voter whose flag is already set is turned away with exactly
/// `AlreadyVoted`, however valid the rest of the ballot is.
pub proof fn lemma_repeat_vote_rejected(
    m: LedgerView,
    proposal_id: Seq<char>,
    eth_addr: Seq<char>,
    scrt_addr: Seq<char>,
    choice: u8,
)
    requires
        m.wf(),
        m.has_proposal(),
        has_key(m.cur_voters(), eth_addr),
        m.cur_voters()[key_idx(m.cur_voters(), eth_addr)].has_voted,
        (choice as int) < m.cur_prop().choice_count,
        scrt_addr == m.cur_voters()[key_idx(m.cur_voters(), eth_addr)].scrt_addr,
    ensures
        cast_spec(m, proposal_id, eth_addr, scrt_addr, choice) == Err::<LedgerView, VoteError>(
            VoteError::AlreadyVoted,
        ),
{
}

/// Exactly-once voting, the two-call form: once a voter's ballot has been
/// accepted, the same voter's next ballot on the same proposal is turned
/// away with `AlreadyVoted`, whatever choice it names (within bounds) and
/// with the registered internal address.
pub proof fn lemma_exactly_once(
    m: LedgerView,
    proposal_id: Seq<char>,
    eth_addr: Seq<char>,
    scrt_addr: Seq<char>,
    choice: u8,
    proposal_id2: Seq<char>,
    scrt_addr2: Seq<char>,
    choice2: u8,
)
    requires
        m.wf(),
        cast_spec(m, proposal_id, eth_addr, scrt_addr, choice) is Ok,
        (choice2 as int) < m.cur_prop().choice_count,
        scrt_addr2 == m.cur_voters()[key_idx(m.cur_voters(), eth_addr)].scrt_addr,
    ensures
        cast_spec(
            cast_spec(m, proposal_id, eth_addr, scrt_addr, choice)->Ok_0,
            proposal_id2,
            eth_addr,
            scrt_addr2,
            choice2,
        ) == Err::<LedgerView, VoteError>(VoteError::AlreadyVoted),
{
    lemma_cast_ok_effect(m, proposal_id, eth_addr, scrt_addr, choice);
    let m2 = cast_spec(m, proposal_id, eth_addr, scrt_addr, choice)->Ok_0;
    let t = m.cur_voters();
    let k = key_idx(t, eth_addr);
    lemma_key_idx_pins(m2.cur_voters(), eth_addr, k);
    lemma_repeat_vote_rejected(m2, proposal_id2, eth_addr, scrt_addr2, choice2);
}

/// A set voted flag never clears: an accepted ballot of one voter leaves
/// every other voter's flag as it was, and its own set for good.
pub proof fn lemma_voted_flag_stays(
    m: LedgerView,
    proposal_id: Seq<char>,
    eth_addr: Seq<char>,
    scrt_addr: Seq<char>,
    choice: u8,
    other: Seq<char>,
)
    requires
        m.wf(),
        cast_spec(m, proposal_id, eth_addr, scrt_addr, choice) is Ok,
        has_key(m.cur_voters(), other),
        m.cur_voters()[key_idx(m.cur_voters(), other)].has_voted,
    ensures
        ({
            let m2 = cast_spec(m, proposal_id, eth_addr, scrt_addr, choice)->Ok_0;
            &&& has_key(m2.cur_voters(), other)
            &&& m2.cur_voters()[key_idx(m2.cur_voters(), other)].has_voted
        }),
{
    lemma_cast_ok_effect(m, proposal_id, eth_addr, scrt_addr, choice);
    let m2 = cast_spec(m, proposal_id, eth_addr, scrt_addr, choice)->Ok_0;
    let t = m.cur_voters();
    let k = key_idx(t, eth_addr);
    let ko = key_idx(t, other);
    assert(0 <= ko < t.len() && t[ko].eth_addr == other);
    lemma_key_idx_pins(m2.cur_voters(), other, ko);
}

/// The winner scan up to a prefix returns a position of the prefix whose
/// value no other position of the prefix exceeds, and which every
/// earlier position falls strictly below.
proof fn lemma_win_upto(s: Seq<u128>, n: int)
    requires
        1 <= n <= s.len(),
    ensures
        0 <= win_idx_upto(s, n) < n,
        forall|j: int| 0 <= j < n ==> #[trigger] s[j] <= s[win_idx_upto(s, n)],
        forall|j: int| 0 <= j < win_idx_upto(s, n) ==> #[trigger] s[j] < s[win_idx_upto(s, n)],
    decreases n,
{
    if n > 1 {
        lemma_win_upto(s, n - 1);
    }
}

/// Winner tie-break: the winning choice holds the maximum of the tally,
/// and every choice before it is strictly smaller, so among tied maxima
/// the lowest index wins.
pub proof fn lemma_winner_first_max(s: Seq<u128>)
    requires
        s.len() >= 1,
    ensures
        0 <= win_idx(s) < s.len(),
        forall|j: int| 0 <= j < s.len() ==> #[trigger] s[j] <= s[win_idx(s)],
        forall|j: int| 0 <= j < win_idx(s) ==> #[trigger] s[j] < s[win_idx(s)],
{
    lemma_win_upto(s, s.len() as int);
}

/// One attempted ballot of a voting trace.
pub struct BallotEvent {
    pub proposal_id: Seq<char>,
    pub eth_addr: Seq<char>,
    pub scrt_addr: Seq<char>,
    pub choice: u8,
}

/// The cast transition applied to one trace event.
pub open spec fn cast_ballot(m: LedgerView, e: BallotEvent) -> Result<LedgerView, VoteError> {
    cast_spec(m, e.proposal_id, e.eth_addr, e.scrt_addr, e.choice)
}

/// A whole trace of ballots applied in order; nothing if any is refused.
pub open spec fn apply_ballots(m: LedgerView, evts: Seq<BallotEvent>) -> Option<LedgerView>
    decreases evts.len(),
{
    if evts.len() == 0 {
        Some(m)
    } else {
        match cast_ballot(m, evts[0]) {
            Ok(m2) => apply_ballots(m2, evts.drop_first()),
            Err(_) => None,
        }
    }
}

/// The power one ballot stands to credit: its sender's registered power.
pub open spec fn credited_power(m: LedgerView, e: BallotEvent) -> int {
    if has_key(m.cur_voters(), e.eth_addr) {
        m.cur_voters()[key_idx(m.cur_voters(), e.eth_addr)].power as int
    } else {
        0
    }
}

/// The power a trace credits to one choice.
pub open spec fn votes_for(m: LedgerView, evts: Seq<BallotEvent>, c: int) -> int
    decreases evts.len(),
{
    if evts.len() == 0 {
        0
    } else {
        (if evts[0].choice == c {
            credited_power(m, evts[0])
        } else {
            0
        }) + votes_for(m, evts.drop_first(), c)
    }
}

/// The power a trace credits over all choices.
pub open spec fn total_power(m: LedgerView, evts: Seq<BallotEvent>) -> int
    decreases evts.len(),
{
    if evts.len() == 0 {
        0
    } else {
        credited_power(m, evts[0]) + total_power(m, evts.drop_first())
    }
}

/// Replacing one entry of a tally moves its total by the difference.
proof fn lemma_sum_update(s: Seq<u128>, i: int, v: u128)
    requires
        0 <= i < s.len(),
    ensures
        sum_seq(s.update(i, v)) == sum_seq(s) - s[i] + v,
    decreases s.len(),
{
    let s2 = s.update(i, v);
    if i == s.len() - 1 {
        assert(s2.drop_last() =~= s.drop_last());
        assert(s2.last() == v);
    } else {
        lemma_sum_update(s.drop_last(), i, v);
        assert(s2.drop_last() =~= s.drop_last().update(i, v));
        assert(s2.last() == s.last());
    }
}

/// An accepted ballot changes nobody's registered power, so what any
/// later ballot stands to credit is unchanged.
proof fn lemma_credit_stable(
    m: LedgerView,
    proposal_id: Seq<char>,
    eth_addr: Seq<char>,
    scrt_addr: Seq<char>,
    choice: u8,
    e: BallotEvent,
)
    requires
        m.wf(),
        cast_spec(m, proposal_id, eth_addr, scrt_addr, choice) is Ok,
    ensures
        credited_power(cast_spec(m, proposal_id, eth_addr, scrt_addr, choice)->Ok_0, e)
            == credited_power(m, e),
{
    lemma_cast_ok_effect(m, proposal_id, eth_addr, scrt_addr, choice);
    let m2 = cast_spec(m, proposal_id, eth_addr, scrt_addr, choice)->Ok_0;
    let t = m.cur_voters();
    let t2 = m2.cur_voters();
    assert(forall|i: int| 0 <= i < t.len() ==> (#[trigger] t2[i]).eth_addr == t[i].eth_addr);
    if has_key(t, e.eth_addr) {
        let ke = key_idx(t, e.eth_addr);
        assert(0 <= ke < t.len() && t[ke].eth_addr == e.eth_addr);
        lemma_key_idx_pins(t2, e.eth_addr, ke);
        assert(t2[ke].power == t[ke].power);
    } else {
        if has_key(t2, e.eth_addr) {
            let ke = key_idx(t2, e.eth_addr);
            assert(0 <= ke < t2.len() && t2[ke].eth_addr == e.eth_addr);
            assert(t[ke].eth_addr == e.eth_addr);
        }
    }
}

/// What a whole trace stands to credit is unchanged by one accepted
/// ballot at its front.
proof fn lemma_votes_stable(
    m: LedgerView,
    proposal_id: Seq<char>,
    eth_addr: Seq<char>,
    scrt_addr: Seq<char>,
    choice: u8,
    evts: Seq<BallotEvent>,
    c: int,
)
    requires
        m.wf(),
        cast_spec(m, proposal_id, eth_addr, scrt_addr, choice) is Ok,
    ensures
        votes_for(cast_spec(m, proposal_id, eth_addr, scrt_addr, choice)->Ok_0, evts, c)
            == votes_for(m, evts, c),
        total_power(cast_spec(m, proposal_id, eth_addr, scrt_addr, choice)->Ok_0, evts)
            == total_power(m, evts),
    decreases evts.len(),
{
    if evts.len() > 0 {
        lemma_credit_stable(m, proposal_id, eth_addr, scrt_addr, choice, evts[0]);
        lemma_votes_stable(m, proposal_id, eth_addr, scrt_addr, choice, evts.drop_first(), c);
    }
}

/// Tally additivity: after any trace of accepted ballots, each counter
/// has grown by exactly the power the trace credited to its choice, and
/// the tally's total by exactly the power of all the ballots together.
pub proof fn lemma_tally_additivity(m: LedgerView, evts: Seq<BallotEvent>, c: int)
    requires
        m.wf(),
        m.has_proposal(),
        apply_ballots(m, evts) is Some,
        0 <= c < m.cur_prop().counters.len(),
    ensures
        ({
            let mf = apply_ballots(m, evts)->Some_0;
            &&& mf.wf()
            &&& mf.has_proposal()
            &&& mf.cur_prop().counters.len() == m.cur_prop().counters.len()
            &&& mf.cur_prop().counters[c] == m.cur_prop().counters[c] + votes_for(m, evts, c)
            &&& sum_seq(mf.cur_prop().counters) == sum_seq(m.cur_prop().counters) + total_power(
                m,
                evts,
            )
        }),
    decreases evts.len(),
{
    if evts.len() > 0 {
        let e = evts[0];
        let m2 = cast_ballot(m, e)->Ok_0;
        lemma_cast_ok_effect(m, e.proposal_id, e.eth_addr, e.scrt_addr, e.choice);
        let t = m.cur_voters();
        let k = key_idx(t, e.eth_addr);
        lemma_sum_update(
            m.cur_prop().counters,
            e.choice as int,
            (m.cur_prop().counters[e.choice as int] + t[k].power) as u128,
        );
        lemma_votes_stable(
            m,
            e.proposal_id,
            e.eth_addr,
            e.scrt_addr,
            e.choice,
            evts.drop_first(),
            c,
        );
        lemma_tally_additivity(m2, evts.drop_first(), c);
    }
}

} // verus!
