//! The per-account confirmation cache: at most one cached sequence per
//! account, identifiers unique within each sequence, last fetch wins.
use vstd::prelude::*;
use crate::confirm::{Confirmation, has_id, unique_ids, idx_of_id, dedup_ids, dedup_by_id,
    index_of_id, lemma_dedup_unique, lemma_idx_of_id_unique};
use crate::strcmp::str_eq;

verus! {

/// One account's most recent fetched sequence of confirmations.
pub struct CacheEntry {
    pub name: String,
    pub confs: Vec<Confirmation>,
}

/// The mapping from account name to its cached confirmation sequence.
pub struct ConfirmationCache {
    pub entries: Vec<CacheEntry>,
}

impl ConfirmationCache {
    /// No two entries share a name, and no cached sequence repeats an
    /// identifier.
    pub open spec fn wf(self) -> bool {
        &&& forall|i: int, j: int|
            0 <= i < j < self.entries@.len() ==> (#[trigger] self.entries@[i]).name@ != (
            #[trigger] self.entries@[j]).name@
        &&& forall|i: int|
            0 <= i < self.entries@.len() ==> unique_ids((#[trigger] self.entries@[i]).confs@)
    }

    /// Whether the account has a cached sequence.
    pub open spec fn has_entry(self, name: Seq<char>) -> bool {
        exists|i: int|
            0 <= i < self.entries@.len() && (#[trigger] self.entries@[i]).name@ == name
    }

    /// The position of the account's entry; meaningful only when `has_entry`.
    pub open spec fn entry_idx(self, name: Seq<char>) -> int {
        choose|i: int|
            0 <= i < self.entries@.len() && (#[trigger] self.entries@[i]).name@ == name
    }

    /// The account's cached sequence; meaningful only when `has_entry`.
    pub open spec fn confs_of(self, name: Seq<char>) -> Seq<Confirmation> {
        self.entries@[self.entry_idx(name)].confs@
    }

    /// Under well-formedness any position whose entry bears the name is the
    /// position of that name.
    pub proof fn lemma_entry_idx_unique(self, name: Seq<char>, i: int)
        requires
            self.wf(),
            0 <= i < self.entries@.len(),
            self.entries@[i].name@ == name,
        ensures
            self.has_entry(name),
            self.entry_idx(name) == i,
    {
        assert(self.has_entry(name));
    }

    /// An empty cache.
    pub fn new() -> (r: ConfirmationCache)
        ensures
            r.wf(),
            r.entries@.len() == 0,
    {
        ConfirmationCache { entries: Vec::new() }
    }

    /// The position of the account's entry, if any.
    fn find_entry(&self, name: &str) -> (r: Option<usize>)
        ensures
            r matches Some(i) ==> i < self.entries@.len()
                && self.entries@[i as int].name@ == name@,
            r is None ==> !self.has_entry(name@),
    {
        let n = self.entries.len();
        let mut i: usize = 0;
        while i < n
            invariant
                i <= n,
                n == self.entries@.len(),
                forall|j: int| 0 <= j < i ==> (#[trigger] self.entries@[j]).name@ != name@,
            decreases n - i,
        {
            if str_eq(self.entries[i].name.as_str(), name) {
                return Some(i);
            }
            i = i + 1;
        }
        None
    }

    /// The account's cached sequence, if one is present.
    pub fn lookup<'a>(&'a self, name: &str) -> (r: Option<&'a Vec<Confirmation>>)
        requires
            self.wf(),
        ensures
            r matches Some(v) ==> self.has_entry(name@) && v@ == self.confs_of(name@),
            r is None ==> !self.has_entry(name@),
    {
        match self.find_entry(name) {
            Some(i) => {
                proof {
                    self.lemma_entry_idx_unique(name@, i as int);
                }
                Some(&self.entries[i].confs)
            },
            None => None,
        }
    }

    /// Replace the account's cached sequence wholesale with the fetched one,
    /// repeated identifiers dropped; every other account's entry is kept.
    pub fn replace(&mut self, name: &str, confs: Vec<Confirmation>)
        requires
            old(self).wf(),
        ensures
            final(self).wf(),
            final(self).has_entry(name@),
            final(self).confs_of(name@) == dedup_ids(confs@),
            forall|n: Seq<char>| n != name@ ==> #[trigger] final(self).has_entry(n) == old(
                self,
            ).has_entry(n),
            forall|n: Seq<char>|
                n != name@ && old(self).has_entry(n) ==> #[trigger] final(self).confs_of(n) == old(
                    self,
                ).confs_of(n),
    {
        let ghost prev = *old(self);
        let deduped = dedup_by_id(confs);
        proof {
            lemma_dedup_unique(confs@);
        }
        match self.find_entry(name) {
            Some(i) => {
                proof {
                    prev.lemma_entry_idx_unique(name@, i as int);
                }
                let entry = self.entries.remove(i);
                self.entries.insert(i, CacheEntry { name: entry.name, confs: deduped });
                proof {
                    assert forall|p: int|
                        0 <= p < self.entries@.len() implies (#[trigger] self.entries@[p]).name@
                        == prev.entries@[p].name@ by {}
                    assert(self.wf());
                    self.lemma_entry_idx_unique(name@, i as int);
                    assert forall|n: Seq<char>| n != name@ implies #[trigger] self.has_entry(n)
                        == prev.has_entry(n) by {
                        if self.has_entry(n) {
                            let k = self.entry_idx(n);
                            assert(prev.entries@[k].name@ == n);
                        }
                        if prev.has_entry(n) {
                            let k = prev.entry_idx(n);
                            assert(self.entries@[k].name@ == n);
                        }
                    }
                    assert forall|n: Seq<char>|
                        n != name@ && prev.has_entry(n) implies #[trigger] self.confs_of(n)
                        == prev.confs_of(n) by {
                        let k = prev.entry_idx(n);
                        assert(prev.entries@[k].name@ == n);
                        assert(self.entries@[k] == prev.entries@[k]);
                        self.lemma_entry_idx_unique(n, k);
                    }
                }
            },
            None => {
                let owned = name.to_owned();
                self.entries.push(CacheEntry { name: owned, confs: deduped });
                proof {
                    let ghost last = self.entries@.len() - 1;
                    assert(self.entries@[last].name@ == name@);
                    assert forall|p: int, q: int|
                        0 <= p < q < self.entries@.len() implies (#[trigger] self.entries@[p]).name@
                        != (#[trigger] self.entries@[q]).name@ by {
                        if q < last {
                            assert(prev.entries@[p].name@ != prev.entries@[q].name@);
                        } else {
                            assert(self.entries@[p] == prev.entries@[p]);
                            assert(!prev.has_entry(name@));
                            if prev.entries@[p].name@ == name@ {
                                assert(prev.has_entry(name@));
                            }
                        }
                    }
                    assert(self.wf());
                    self.lemma_entry_idx_unique(name@, last);
                    assert forall|n: Seq<char>| n != name@ implies #[trigger] self.has_entry(n)
                        == prev.has_entry(n) by {
                        if self.has_entry(n) {
                            let k = self.entry_idx(n);
                            assert(k < last);
                            assert(prev.entries@[k].name@ == n);
                        }
                        if prev.has_entry(n) {
                            let k = prev.entry_idx(n);
                            assert(self.entries@[k].name@ == n);
                        }
                    }
                    assert forall|n: Seq<char>|
                        n != name@ && prev.has_entry(n) implies #[trigger] self.confs_of(n)
                        == prev.confs_of(n) by {
                        let k = prev.entry_idx(n);
                        assert(prev.entries@[k].name@ == n);
                        assert(self.entries@[k] == prev.entries@[k]);
                        self.lemma_entry_idx_unique(n, k);
                    }
                }
            },
        }
    }

    /// Remove the confirmation bearing the identifier from the account's
    /// cached sequence, keeping the remainder in its original order; with no
    /// such confirmation, everything is left untouched.
    pub fn remove_confirmation(&mut self, name: &str, id: &str) -> (r: bool)
        requires
            old(self).wf(),
        ensures
            final(self).wf(),
            r == (old(self).has_entry(name@) && has_id(old(self).confs_of(name@), id@)),
            !r ==> *final(self) == *old(self),
            r ==> final(self).has_entry(name@) && final(self).confs_of(name@) == old(
                self,
            ).confs_of(name@).remove(idx_of_id(old(self).confs_of(name@), id@)),
            forall|n: Seq<char>| n != name@ ==> #[trigger] final(self).has_entry(n) == old(
                self,
            ).has_entry(n),
            forall|n: Seq<char>|
                n != name@ && old(self).has_entry(n) ==> #[trigger] final(self).confs_of(n) == old(
                    self,
                ).confs_of(n),
    {
        let ghost prev = *old(self);
        match self.find_entry(name) {
            Some(i) => {
                proof {
                    prev.lemma_entry_idx_unique(name@, i as int);
                }
                match index_of_id(&self.entries[i].confs, id) {
                    Some(k) => {
                        proof {
                            lemma_idx_of_id_unique(prev.confs_of(name@), id@, k as int);
                        }
                        let mut entry = self.entries.remove(i);
                        let _ = entry.confs.remove(k);
                        proof {
                            crate::confirm::lemma_remove_keeps_unique(
                                prev.confs_of(name@),
                                k as int,
                            );
                        }
                        self.entries.insert(i, entry);
                        proof {
                            assert forall|p: int|
                                0 <= p < self.entries@.len() implies (
                            #[trigger] self.entries@[p]).name@ == prev.entries@[p].name@ by {}
                            assert(self.wf());
                            self.lemma_entry_idx_unique(name@, i as int);
                            assert forall|n: Seq<char>|
                                n != name@ implies #[trigger] self.has_entry(n) == prev.has_entry(
                                n,
                            ) by {
                                if self.has_entry(n) {
                                    let kk = self.entry_idx(n);
                                    assert(prev.entries@[kk].name@ == n);
                                }
                                if prev.has_entry(n) {
                                    let kk = prev.entry_idx(n);
                                    assert(self.entries@[kk].name@ == n);
                                }
                            }
                            assert forall|n: Seq<char>|
                                n != name@ && prev.has_entry(n) implies #[trigger] self.confs_of(n)
                                == prev.confs_of(n) by {
                                let kk = prev.entry_idx(n);
                                assert(prev.entries@[kk].name@ == n);
                                assert(self.entries@[kk] == prev.entries@[kk]);
                                self.lemma_entry_idx_unique(n, kk);
                            }
                        }
                        true
                    },
                    None => false,
                }
            },
            None => false,
        }
    }
}

} // verus!
