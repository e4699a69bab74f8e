//! A keyed store: what a contract keeps per trade.

use vstd::prelude::*;
use crate::common::{TradeId, same_bytes};

verus! {

/// Entries keyed by trade id, each id at most once.
pub struct Table<V> {
    entries: Vec<(TradeId, V)>,
}

impl<V> Table<V> {
    #[verifier::type_invariant]
    closed spec fn keys_unique(self) -> bool {
        forall|i: int, j: int|
            0 <= i < j < self.entries@.len() ==> self.entries@[i].0 != self.entries@[j].0
    }

    closed spec fn holds(self, k: TradeId) -> bool {
        exists|i: int| 0 <= i < self.entries@.len() && self.entries@[i].0 == k
    }

    closed spec fn slot(self, k: TradeId) -> int {
        choose|i: int| 0 <= i < self.entries@.len() && self.entries@[i].0 == k
    }

    proof fn lemma_entry(self, i: int)
        requires
            self.keys_unique(),
            0 <= i < self.entries@.len(),
        ensures
            self@.contains_key(self.entries@[i].0),
            self@[self.entries@[i].0] == self.entries@[i].1,
    {
        let k = self.entries@[i].0;
        assert(self.holds(k));
        let j = self.slot(k);
        assert(self.entries@[j].0 == k);
        assert(j == i);
    }

    proof fn lemma_absent(self, k: TradeId)
        requires
            forall|i: int| 0 <= i < self.entries@.len() ==> self.entries@[i].0 != k,
        ensures
            !self@.contains_key(k),
    {
    }

    pub fn new() -> (t: Self)
        ensures
            t@ == Map::<TradeId, V>::empty(),
    {
        let t = Table { entries: Vec::new() };
        assert(t@ =~= Map::<TradeId, V>::empty());
        t
    }

    fn find(&self, k: &TradeId) -> (r: Option<usize>)
        ensures
            match r {
                Some(i) => i < self.entries@.len() && self.entries@[i as int].0 == *k,
                None => forall|i: int| 0 <= i < self.entries@.len() ==> self.entries@[i].0 != *k,
            },
    {
        let mut i: usize = 0;
        while i < self.entries.len()
            invariant
                i <= self.entries@.len(),
                forall|j: int| 0 <= j < i ==> self.entries@[j].0 != *k,
            decreases self.entries@.len() - i,
        {
            if same_bytes(&self.entries[i].0, k) {
                return Some(i);
            }
            i = i + 1;
        }
        None
    }

    /// The entry kept under `k`, if there is one.
    pub fn get(&self, k: &TradeId) -> (r: Option<&V>)
        ensures
            match r {
                Some(v) => self@.contains_key(*k) && *v == self@[*k],
                None => !self@.contains_key(*k),
            },
    {
        proof {
            use_type_invariant(self);
        }
        match self.find(k) {
            Some(i) => {
                proof {
                    self.lemma_entry(i as int);
                }
                Some(&self.entries[i].1)
            },
            None => {
                proof {
                    self.lemma_absent(*k);
                }
                None
            },
        }
    }

    /// Whether an entry is kept under `k`.
    pub fn contains_key(&self, k: &TradeId) -> (r: bool)
        ensures
            r == self@.contains_key(*k),
    {
        self.get(k).is_some()
    }

    /// Keeps `v` under `k`, in place of any entry kept there before.
    pub fn insert(&mut self, k: TradeId, v: V)
        ensures
            final(self)@ == old(self)@.insert(k, v),
    {
        proof {
            use_type_invariant(&*self);
        }
        let ghost before = *self;
        match self.find(&k) {
            Some(i) => {
                let mut entries = Vec::new();
                std::mem::swap(&mut entries, &mut self.entries);
                entries[i] = (k, v);
                proof {
                    assert forall|a: int, b: int| 0 <= a < b < entries@.len()
                        implies entries@[a].0 != entries@[b].0 by {
                        assert(before.entries@[a].0 != before.entries@[b].0);
                    }
                }
                self.entries = entries;
                proof {
                    assert(self.keys_unique());
                    assert forall|k2: TradeId| #[trigger] self@.contains_key(k2) == before@.insert(k, v).contains_key(k2)
                        && (self@.contains_key(k2) ==> self@[k2] == before@.insert(k, v)[k2]) by {
                        if k2 == k {
                            self.lemma_entry(i as int);
                        } else if before.holds(k2) {
                            let j = before.slot(k2);
                            before.lemma_entry(j);
                            self.lemma_entry(j);
                        } else {
                            assert(!self.holds(k2));
                        }
                    }
                    assert(self@ =~= before@.insert(k, v));
                }
            },
            None => {
                let mut entries = Vec::new();
                std::mem::swap(&mut entries, &mut self.entries);
                entries.push((k, v));
                proof {
                    assert forall|a: int, b: int| 0 <= a < b < entries@.len()
                        implies entries@[a].0 != entries@[b].0 by {
                        if b == entries@.len() - 1 {
                            assert(before.entries@[a].0 != k);
                        } else {
                            assert(before.entries@[a].0 != before.entries@[b].0);
                        }
                    }
                }
                self.entries = entries;
                proof {
                    assert(self.keys_unique());
                    let n = before.entries@.len() as int;
                    assert forall|k2: TradeId| #[trigger] self@.contains_key(k2) == before@.insert(k, v).contains_key(k2)
                        && (self@.contains_key(k2) ==> self@[k2] == before@.insert(k, v)[k2]) by {
                        if k2 == k {
                            self.lemma_entry(n);
                        } else if before.holds(k2) {
                            let j = before.slot(k2);
                            before.lemma_entry(j);
                            self.lemma_entry(j);
                        } else {
                            assert(!self.holds(k2));
                        }
                    }
                    assert(self@ =~= before@.insert(k, v));
                }
            },
        }
    }
}

impl<V> View for Table<V> {
    type V = Map<TradeId, V>;

    closed spec fn view(&self) -> Map<TradeId, V> {
        Map::new(|k: TradeId| self.holds(k), |k: TradeId| self.entries@[self.slot(k)].1)
    }
}

} // verus!
