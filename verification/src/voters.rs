//! The voter registry: one registration table per proposal, each keyed by
//! the voters' external identities.

use vstd::prelude::*;

use crate::errors::VoteError;
use crate::model::{has_key, key_idx, lemma_upsert_unique, unique_keys, upsert, VoterView};
use crate::state::ProposalVoter;

verus! {

/// One proposal's registrations, keyed by external identity. The key is
/// held unique: writing an identity again overwrites its entry in place.
struct VoterTable {
    entries: Vec<ProposalVoter>,
}

impl View for VoterTable {
    type V = Seq<VoterView>;

    closed spec fn view(&self) -> Seq<VoterView> {
        self.entries@.map_values(|v: ProposalVoter| v@)
    }
}

impl VoterTable {
    fn new() -> (r: VoterTable)
        ensures
            r@ == Seq::<VoterView>::empty(),
    {
        let r = VoterTable { entries: Vec::new() };
        proof {
            assert(r@ =~= Seq::<VoterView>::empty());
        }
        r
    }

    /// The position of the given identity among the entries, if any.
    fn find(&self, eth_addr: &String) -> (r: Option<usize>)
        requires
            unique_keys(self@),
        ensures
            match r {
                Some(i) => i < self@.len() && i as int == key_idx(self@, eth_addr@) && has_key(
                    self@,
                    eth_addr@,
                ),
                None => !has_key(self@, eth_addr@),
            },
    {
        let n = self.entries.len();
        let mut i: usize = 0;
        while i < n
            invariant
                i <= n,
                n == self@.len(),
                unique_keys(self@),
                forall|j: int| 0 <= j < i as int ==> (#[trigger] self@[j]).eth_addr != eth_addr@,
            decreases n - i,
        {
            if self.entries[i].eth_addr == *eth_addr {
                proof {
                    assert(self@[i as int].eth_addr == eth_addr@);
                    let k = key_idx(self@, eth_addr@);
                    assert(0 <= k < self@.len() && self@[k].eth_addr == eth_addr@);
                    if k < i as int {
                        assert(self@[k].eth_addr != eth_addr@);
                    }
                    if k > i as int {
                        assert(self@[i as int].eth_addr != self@[k].eth_addr);
                    }
                }
                return Some(i);
            }
            i = i + 1;
        }
        proof {
            if has_key(self@, eth_addr@) {
                let k = key_idx(self@, eth_addr@);
                assert(0 <= k < self@.len() && self@[k].eth_addr == eth_addr@);
                assert(self@[k].eth_addr != eth_addr@);
            }
        }
        None
    }

    /// Writes a registration under its external identity: over the
    /// existing entry for that identity if one is present, appended
    /// otherwise.
    fn register(&mut self, v: ProposalVoter)
        requires
            unique_keys(old(self)@),
        ensures
            final(self)@ == upsert(old(self)@, v@),
            unique_keys(final(self)@),
    {
        proof {
            lemma_upsert_unique(old(self)@, v@);
        }
        let found = self.find(&v.eth_addr);
        match found {
            Some(i) => {
                self.entries[i] = v;
                proof {
                    assert(self@ =~= upsert(old(self)@, v@));
                }
            },
            None => {
                self.entries.push(v);
                proof {
                    assert(self@ =~= upsert(old(self)@, v@));
                }
            },
        }
    }

    /// The registration of the given identity; fails when none exists.
    fn lookup(&self, eth_addr: &String) -> (r: Result<&ProposalVoter, VoteError>)
        requires
            unique_keys(self@),
        ensures
            match r {
                Ok(v) => has_key(self@, eth_addr@) && v@ == self@[key_idx(self@, eth_addr@)],
                Err(e) => e == VoteError::NotRegistered && !has_key(self@, eth_addr@),
            },
    {
        match self.find(eth_addr) {
            Some(i) => Ok(&self.entries[i]),
            None => Err(VoteError::NotRegistered),
        }
    }

    /// Sets the voted flag of the given identity's registration, which
    /// must not have voted yet, and hands back its pre-flip power.
    fn mark_voted(&mut self, eth_addr: &String) -> (r: Result<u128, VoteError>)
        requires
            unique_keys(old(self)@),
        ensures
            unique_keys(final(self)@),
            match r {
                Ok(power) => {
                    let t = old(self)@;
                    let k = key_idx(t, eth_addr@);
                    &&& has_key(t, eth_addr@)
                    &&& !t[k].has_voted
                    &&& power == t[k].power
                    &&& final(self)@ == t.update(k, VoterView { has_voted: true, ..t[k] })
                },
                Err(e) => {
                    &&& final(self)@ == old(self)@
                    &&& (e == VoteError::NotRegistered && !has_key(old(self)@, eth_addr@)) || (e
                        == VoteError::AlreadyVoted && has_key(old(self)@, eth_addr@) && old(
                        self,
                    )@[key_idx(old(self)@, eth_addr@)].has_voted)
                },
            },
    {
        let found = self.find(eth_addr);
        match found {
            Some(i) => {
                if self.entries[i].has_voted {
                    return Err(VoteError::AlreadyVoted);
                }
                let power = self.entries[i].power;
                self.entries[i].has_voted = true;
                proof {
                    let t = old(self)@;
                    let k = key_idx(t, eth_addr@);
                    assert(self@ =~= t.update(k, VoterView { has_voted: true, ..t[k] }));
                    assert(forall|a: int, b: int|
                        #![trigger self@[a].eth_addr, self@[b].eth_addr]
                        0 <= a < b < self@.len() ==> self@[a].eth_addr == t[a].eth_addr && self@[
                            b
                        ].eth_addr == t[b].eth_addr);
                }
                Ok(power)
            },
            None => Err(VoteError::NotRegistered),
        }
    }

    /// How many identities are registered.
    fn count(&self) -> (n: usize)
        ensures
            n == self@.len(),
    {
        self.entries.len()
    }
}

/// The registrations of every proposal, scoped by the proposal's position
/// in the log.
pub struct VoterRegistry {
    tables: Vec<VoterTable>,
}

impl View for VoterRegistry {
    type V = Seq<Seq<VoterView>>;

    closed spec fn view(&self) -> Seq<Seq<VoterView>> {
        self.tables@.map_values(|t: VoterTable| t@)
    }
}

impl VoterRegistry {
    /// No proposals, so no tables.
    pub fn new() -> (r: VoterRegistry)
        ensures
            r@ == Seq::<Seq<VoterView>>::empty(),
    {
        let r = VoterRegistry { tables: Vec::new() };
        proof {
            assert(r@ =~= Seq::<Seq<VoterView>>::empty());
        }
        r
    }

    /// Opens the (empty) registration table of a newly created proposal.
    pub fn push_table(&mut self)
        ensures
            final(self)@ == old(self)@.push(Seq::<VoterView>::empty()),
    {
        self.tables.push(VoterTable::new());
        proof {
            assert(self@ =~= old(self)@.push(Seq::<VoterView>::empty()));
        }
    }

    /// Writes a registration into the given proposal's table, over any
    /// existing entry of the same external identity.
    pub fn register(&mut self, i: usize, v: ProposalVoter)
        requires
            i < old(self)@.len(),
            unique_keys(old(self)@[i as int]),
        ensures
            final(self)@ == old(self)@.update(i as int, upsert(old(self)@[i as int], v@)),
            unique_keys(final(self)@[i as int]),
    {
        let t = &mut self.tables[i];
        t.register(v);
        proof {
            assert(self@ =~= old(self)@.update(i as int, upsert(old(self)@[i as int], v@)));
        }
    }

    /// The registration of the given identity on the given proposal.
    pub fn lookup(&self, i: usize, eth_addr: &String) -> (r: Result<&ProposalVoter, VoteError>)
        requires
            i < self@.len(),
            unique_keys(self@[i as int]),
        ensures
            match r {
                Ok(v) => has_key(self@[i as int], eth_addr@) && v@ == self@[i as int][key_idx(
                    self@[i as int],
                    eth_addr@,
                )],
                Err(e) => e == VoteError::NotRegistered && !has_key(self@[i as int], eth_addr@),
            },
    {
        self.tables[i].lookup(eth_addr)
    }

    /// Sets the voted flag of one registration on the given proposal and
    /// hands back its pre-flip power.
    pub fn mark_voted(&mut self, i: usize, eth_addr: &String) -> (r: Result<u128, VoteError>)
        requires
            i < old(self)@.len(),
            unique_keys(old(self)@[i as int]),
        ensures
            final(self)@.len() == old(self)@.len(),
            unique_keys(final(self)@[i as int]),
            match r {
                Ok(power) => {
                    let t = old(self)@[i as int];
                    let k = key_idx(t, eth_addr@);
                    &&& has_key(t, eth_addr@)
                    &&& !t[k].has_voted
                    &&& power == t[k].power
                    &&& final(self)@ == old(self)@.update(
                        i as int,
                        t.update(k, VoterView { has_voted: true, ..t[k] }),
                    )
                },
                Err(e) => {
                    &&& final(self)@ == old(self)@
                    &&& (e == VoteError::NotRegistered && !has_key(
                        old(self)@[i as int],
                        eth_addr@,
                    )) || (e == VoteError::AlreadyVoted && has_key(old(self)@[i as int], eth_addr@)
                        && old(self)@[i as int][key_idx(
                        old(self)@[i as int],
                        eth_addr@,
                    )].has_voted)
                },
            },
    {
        let t = &mut self.tables[i];
        let r = t.mark_voted(eth_addr);
        proof {
            if r is Ok {
                let tv = old(self)@[i as int];
                let k = key_idx(tv, eth_addr@);
                assert(self@ =~= old(self)@.update(
                    i as int,
                    tv.update(k, VoterView { has_voted: true, ..tv[k] }),
                ));
            } else {
                assert(self@ =~= old(self)@);
            }
        }
        r
    }

    /// How many identities are registered on the given proposal.
    pub fn count(&self, i: usize) -> (n: usize)
        requires
            i < self@.len(),
        ensures
            n == self@[i as int].len(),
    {
        self.tables[i].count()
    }
}

} // verus!
