//! The extraction map: every walked manifest's key with its declared
//! dependency list. Keys are inserted exactly once per run; the map is read
//! only after all extraction has finished.
use vstd::prelude::*;

use crate::DepInfo;
use crate::Ebuild;

verus! {

/// The extraction map. Its invariant: no manifest key occurs twice.
pub struct ExtractionMap {
    entries: Vec<(Ebuild, Vec<DepInfo>)>,
}

impl ExtractionMap {
    /// The entries the map holds, in insertion order.
    pub closed spec fn entries_view(&self) -> Seq<(Ebuild, Vec<DepInfo>)> {
        self.entries@
    }

    /// No key occurs twice.
    pub open spec fn wf(&self) -> bool {
        forall|i: int, j: int|
            0 <= i < j < self.entries_view().len() ==> #[trigger] self.entries_view()[i].0
                .view_pair() != #[trigger] self.entries_view()[j].0.view_pair()
    }

    /// An empty map.
    pub fn new() -> (r: ExtractionMap)
        ensures
            r.wf(),
            r.entries_view() == Seq::<(Ebuild, Vec<DepInfo>)>::empty(),
    {
        ExtractionMap { entries: Vec::new() }
    }

    /// Whether a key denoting the same manifest is already present.
    pub fn has_key(&self, key: &Ebuild) -> (r: bool)
        ensures
            r == exists|i: int|
                0 <= i < self.entries_view().len() && #[trigger] self.entries_view()[i].0
                    .view_pair() == key.view_pair(),
    {
        let mut i: usize = 0;
        while i < self.entries.len()
            invariant
                i <= self.entries@.len(),
                forall|j: int|
                    0 <= j < i ==> #[trigger] self.entries@[j].0.view_pair() != key.view_pair(),
            decreases self.entries@.len() - i,
        {
            if self.entries[i].0.same(key) {
                proof {
                    assert(self.entries_view()[i as int].0.view_pair() == key.view_pair());
                }
                return true;
            }
            i = i + 1;
        }
        false
    }

    /// Inserts a manifest's key with its dependency list. Returns whether
    /// the entry was inserted: a key already present is never inserted
    /// twice, and the map is left unchanged.
    pub fn insert(&mut self, key: Ebuild, deps: Vec<DepInfo>) -> (r: bool)
        requires
            old(self).wf(),
        ensures
            final(self).wf(),
            r == !exists|i: int|
                0 <= i < old(self).entries_view().len() && #[trigger] old(
                    self,
                ).entries_view()[i].0.view_pair() == key.view_pair(),
            r ==> final(self).entries_view() == old(self).entries_view().push((key, deps)),
            !r ==> final(self).entries_view() == old(self).entries_view(),
    {
        if self.has_key(&key) {
            return false;
        }
        let ghost before = self.entries@;
        self.entries.push((key, deps));
        proof {
            assert(self.entries@.last().0.view_pair() == self.entries@[before.len() as int].0
                .view_pair());
        }
        true
    }

    /// The entries, for cross-referencing after every task has joined.
    pub fn entries(&self) -> (r: &Vec<(Ebuild, Vec<DepInfo>)>)
        ensures
            r@ == self.entries_view(),
    {
        &self.entries
    }

    /// How many manifests were recorded.
    pub fn len(&self) -> (r: usize)
        ensures
            r == self.entries_view().len(),
    {
        self.entries.len()
    }
}

} // verus!
