//! The proposal registry: an append-only log of proposals, whose tail is
//! the current proposal.

use vstd::prelude::*;

use crate::errors::VoteError;
use crate::model::{find_prop, fresh_prop, PropView};
use crate::state::Proposal;

verus! {

/// The ordered log of proposals. Entries are only ever appended; a
/// caller-supplied identifier is not checked for duplicates, and lookups
/// resolve duplicates by recency.
pub struct ProposalRegistry {
    log: Vec<Proposal>,
}

impl View for ProposalRegistry {
    type V = Seq<PropView>;

    closed spec fn view(&self) -> Seq<PropView> {
        self.log@.map_values(|p: Proposal| p@)
    }
}

impl ProposalRegistry {
    /// An empty log.
    pub fn new() -> (r: ProposalRegistry)
        ensures
            r@ == Seq::<PropView>::empty(),
    {
        let r = ProposalRegistry { log: Vec::new() };
        proof {
            assert(r@ =~= Seq::<PropView>::empty());
        }
        r
    }

    /// How many proposals have been created.
    pub fn len(&self) -> (n: usize)
        ensures
            n == self@.len(),
    {
        self.log.len()
    }

    /// Appends a proposal with an all-zero tally; a proposal without
    /// choices is rejected and the log is left as it was.
    pub fn create(&mut self, id: String, choice_count: u8, start_time: u64, end_time: u64) -> (r:
        Result<(), VoteError>)
        ensures
            match r {
                Ok(()) => choice_count >= 1 && final(self)@ == old(self)@.push(
                    fresh_prop(id@, choice_count, start_time, end_time),
                ),
                Err(e) => e == VoteError::InvalidChoiceCount && choice_count == 0 && final(self)@
                    == old(self)@,
            },
    {
        if choice_count == 0 {
            return Err(VoteError::InvalidChoiceCount);
        }
        let p = Proposal::new(id, choice_count, start_time, end_time);
        self.log.push(p);
        proof {
            assert(self@ =~= old(self)@.push(fresh_prop(id@, choice_count, start_time, end_time)));
        }
        Ok(())
    }

    /// The most recently appended proposal; fails when the log is empty.
    pub fn current(&self) -> (r: Result<&Proposal, VoteError>)
        ensures
            match r {
                Ok(p) => self@.len() > 0 && p@ == self@.last(),
                Err(e) => e == VoteError::NoProposal && self@.len() == 0,
            },
    {
        let n = self.log.len();
        if n == 0 {
            Err(VoteError::NoProposal)
        } else {
            Ok(&self.log[n - 1])
        }
    }

    /// The proposal at a log position; fails when the position is not one.
    pub fn get_by_index(&self, i: usize) -> (r: Result<&Proposal, VoteError>)
        ensures
            match r {
                Ok(p) => i < self@.len() && p@ == self@[i as int],
                Err(e) => e == VoteError::OutOfRange && i >= self@.len(),
            },
    {
        if i >= self.log.len() {
            Err(VoteError::OutOfRange)
        } else {
            Ok(&self.log[i])
        }
    }

    /// The log position the given identifier denotes: the most recent
    /// entry carrying it, or none at all.
    pub fn find_by_id(&self, id: &String) -> (r: Option<usize>)
        ensures
            match r {
                Some(i) => i as int == find_prop(self@, id@) && i < self@.len(),
                None => find_prop(self@, id@) == -1,
            },
    {
        let mut i = self.log.len();
        proof {
            assert(self@.subrange(0, i as int) =~= self@);
        }
        while i > 0
            invariant
                i <= self.log.len(),
                find_prop(self@, id@) == find_prop(self@.subrange(0, i as int), id@),
            decreases i,
        {
            i = i - 1;
            if self.log[i].id == *id {
                proof {
                    let pre = self@.subrange(0, i + 1);
                    assert(pre.last() == self@[i as int]);
                    assert(find_prop(pre, id@) == i as int);
                }
                return Some(i);
            }
            proof {
                let pre = self@.subrange(0, i + 1);
                assert(pre.last() == self@[i as int]);
                assert(pre.drop_last() =~= self@.subrange(0, i as int));
            }
        }
        proof {
            assert(self@.subrange(0, 0) =~= Seq::<PropView>::empty());
        }
        None
    }

    /// Adds a validated ballot's power to one counter of the current
    /// proposal; an addition that would exceed the counter width is
    /// refused and the log is left as it was.
    pub fn record_vote(&mut self, choice: u8, power: u128) -> (r: Result<(), VoteError>)
        requires
            old(self)@.len() > 0,
            old(self)@.last().wf(),
            (choice as int) < old(self)@.last().choice_count,
        ensures
            match r {
                Ok(()) => {
                    let p = old(self)@.last();
                    &&& p.counters[choice as int] + power <= u128::MAX
                    &&& final(self)@ == old(self)@.update(
                        old(self)@.len() - 1,
                        PropView {
                            counters: p.counters.update(
                                choice as int,
                                (p.counters[choice as int] + power) as u128,
                            ),
                            ..p
                        },
                    )
                },
                Err(e) => {
                    &&& e == VoteError::Overflow
                    &&& old(self)@.last().counters[choice as int] + power > u128::MAX
                    &&& final(self)@ == old(self)@
                },
            },
    {
        let n = self.log.len();
        let cur: u128 = self.log[n - 1].counters[choice as usize];
        if power > u128::MAX - cur {
            return Err(VoteError::Overflow);
        }
        let prop = &mut self.log[n - 1];
        prop.counters[choice as usize] = cur + power;
        proof {
            let p = old(self)@.last();
            assert(self@ =~= old(self)@.update(
                old(self)@.len() - 1,
                PropView {
                    counters: p.counters.update(
                        choice as int,
                        (p.counters[choice as int] + power) as u128,
                    ),
                    ..p
                },
            ));
        }
        Ok(())
    }
}

} // verus!
