//! The historical set of spent nullifiers: the guard against settling the
//! same input twice.

use vstd::prelude::*;
use crate::bytes32::Bytes32;

verus! {

/// Every nullifier that some settlement has spent. The set only grows.
pub struct NullifierSet {
    spent: Vec<Bytes32>,
}

/// Some element of `items` is in `spent`.
pub open spec fn any_spent(spent: Set<Bytes32>, items: Seq<Bytes32>) -> bool {
    exists|i: int| 0 <= i < items.len() && spent.contains(#[trigger] items[i])
}

impl View for NullifierSet {
    type V = Set<Bytes32>;

    closed spec fn view(&self) -> Set<Bytes32> {
        self.spent@.to_set()
    }
}

impl NullifierSet {
    /// No nullifier is stored twice.
    pub closed spec fn wf(&self) -> bool {
        self.spent@.no_duplicates()
    }

    /// The set in which nothing is spent.
    pub fn new() -> (set: NullifierSet)
        ensures
            set.wf(),
            set@ == Set::<Bytes32>::empty(),
    {
        let set = NullifierSet { spent: Vec::new() };
        assert(set@ =~= Set::<Bytes32>::empty());
        set
    }

    /// How many nullifiers are spent.
    pub fn len(&self) -> (n: usize)
        requires
            self.wf(),
        ensures
            n == self@.len(),
            self@.finite(),
    {
        proof {
            self.spent@.unique_seq_to_set();
        }
        self.spent.len()
    }

    /// Whether `nullifier` is spent.
    pub fn contains(&self, nullifier: &Bytes32) -> (r: bool)
        ensures
            r == self@.contains(*nullifier),
    {
        let mut i: usize = 0;
        while i < self.spent.len()
            invariant
                i <= self.spent@.len(),
                forall|j: int| 0 <= j < i ==> self.spent@[j] != *nullifier,
            decreases self.spent@.len() - i,
        {
            if self.spent[i].same(nullifier) {
                return true;
            }
            i += 1;
        }
        false
    }

    /// Whether any of `items` is spent.
    pub fn contains_any(&self, items: &Vec<Bytes32>) -> (r: bool)
        ensures
            r == any_spent(self@, items@),
    {
        let mut i: usize = 0;
        while i < items.len()
            invariant
                i <= items@.len(),
                forall|j: int| 0 <= j < i ==> !self@.contains(#[trigger] items@[j]),
            decreases items@.len() - i,
        {
            if self.contains(&items[i]) {
                return true;
            }
            i += 1;
        }
        false
    }

    /// Marks `nullifier` as spent. Returns whether it was unspent before.
    pub fn insert(&mut self, nullifier: Bytes32) -> (fresh: bool)
        requires
            old(self).wf(),
        ensures
            final(self).wf(),
            final(self)@ == old(self)@.insert(nullifier),
            fresh == !old(self)@.contains(nullifier),
    {
        if self.contains(&nullifier) {
            assert(self@.insert(nullifier) =~= self@);
            return false;
        }
        let ghost before = self.spent@;
        self.spent.push(nullifier);
        proof {
            assert forall|i: int, j: int|
                0 <= i < self.spent@.len() && 0 <= j < self.spent@.len() && i != j implies self.spent@[i]
                != self.spent@[j] by {
                if i < before.len() && j < before.len() {
                    assert(before[i] != before[j]);
                } else if i < before.len() {
                    assert(before.contains(before[i]));
                } else {
                    assert(before.contains(before[j]));
                }
            }
            assert forall|n: Bytes32| self.spent@.contains(n) <==> (before.contains(n) || n
                == nullifier) by {
                if before.contains(n) {
                    let i = choose|i: int| 0 <= i < before.len() && before[i] == n;
                    assert(self.spent@[i] == n);
                }
                if n == nullifier {
                    assert(self.spent@[before.len() as int] == n);
                }
            }
            assert(self@ =~= before.to_set().insert(nullifier));
        }
        true
    }

    /// Marks every element of `items` as spent.
    pub fn insert_all(&mut self, items: &Vec<Bytes32>)
        requires
            old(self).wf(),
        ensures
            final(self).wf(),
            final(self)@ == old(self)@.union(items@.to_set()),
    {
        let mut i: usize = 0;
        assert(self@ =~= old(self)@.union(items@.take(0).to_set()));
        while i < items.len()
            invariant
                i <= items@.len(),
                self.wf(),
                self@ == old(self)@.union(items@.take(i as int).to_set()),
            decreases items@.len() - i,
        {
            let ghost before = self@;
            self.insert(items[i]);
            proof {
                let a = items@.take(i as int);
                let b = items@.take(i + 1);
                let item = items@[i as int];
                assert forall|n: Bytes32| b.contains(n) <==> (a.contains(n) || n == item) by {
                    if a.contains(n) {
                        let j = choose|j: int| 0 <= j < a.len() && a[j] == n;
                        assert(b[j] == n);
                    }
                    if n == item {
                        assert(b[i as int] == n);
                    }
                }
                assert(self@ =~= old(self)@.union(b.to_set()));
            }
            i += 1;
        }
        assert(items@.take(i as int) =~= items@);
    }
}

} // verus!
