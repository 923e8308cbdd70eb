//! A small set of identities.

use crate::id::PublicId;
use vstd::prelude::*;

verus! {

/// A set of identities, held as a list without repetition.
#[derive(Debug)]
pub struct IdSet {
    items: Vec<PublicId>,
}

impl View for IdSet {
    type V = Set<PublicId>;

    closed spec fn view(&self) -> Set<PublicId> {
        self.items@.to_set()
    }
}

impl IdSet {
    #[verifier::type_invariant]
    closed spec fn inv(self) -> bool {
        self.items@.no_duplicates()
    }

    /// The empty set.
    pub fn new() -> (r: IdSet)
        ensures
            r@ == Set::<PublicId>::empty(),
    {
        let r = IdSet { items: Vec::new() };
        proof {
            assert(r@ =~= Set::<PublicId>::empty());
        }
        r
    }

    /// Position of `id` in the list.
    fn position(&self, id: &PublicId) -> (r: Option<usize>)
        ensures
            self.items@.no_duplicates(),
            match r {
                Some(i) => i < self.items@.len() && self.items@[i as int] == *id,
                None => !self.items@.contains(*id),
            },
    {
        proof {
            use_type_invariant(self);
        }
        let mut i: usize = 0;
        while i < self.items.len()
            invariant
                i <= self.items.len(),
                self.items@.no_duplicates(),
                forall|j: int| 0 <= j < i ==> self.items@[j] != *id,
            decreases self.items.len() - i,
        {
            if self.items[i] == *id {
                return Some(i);
            }
            i += 1;
        }
        None
    }

    /// Whether `id` is in the set.
    pub fn contains(&self, id: &PublicId) -> (r: bool)
        ensures
            r == self@.contains(*id),
    {
        self.position(id).is_some()
    }

    /// Adds `id`. Returns whether it was new to the set.
    pub fn insert(&mut self, id: PublicId) -> (r: bool)
        ensures
            final(self)@ == old(self)@.insert(id),
            r == !old(self)@.contains(id),
    {
        match self.position(&id) {
            Some(_) => {
                proof {
                    assert(self@ =~= self@.insert(id));
                }
                false
            },
            None => {
                let ghost before = self.items@;
                let mut items: Vec<PublicId> = Vec::new();
                std::mem::swap(&mut self.items, &mut items);
                items.push(id);
                proof {
                    before.lemma_push_to_set_commute(id);
                    assert forall|a: int, b: int|
                        0 <= a < items@.len() && 0 <= b < items@.len() && a != b implies items@[a]
                        != items@[b] by {
                        if a < before.len() {
                            assert(before.contains(items@[a]));
                        }
                        if b < before.len() {
                            assert(before.contains(items@[b]));
                        }
                    }
                }
                self.items = items;
                true
            },
        }
    }

    /// Takes `id` out. Returns whether it was in the set.
    pub fn remove(&mut self, id: &PublicId) -> (r: bool)
        ensures
            final(self)@ == old(self)@.remove(*id),
            r == old(self)@.contains(*id),
    {
        match self.position(id) {
            Some(i) => {
                let ghost before = self.items@;
                let mut items: Vec<PublicId> = Vec::new();
                std::mem::swap(&mut self.items, &mut items);
                items.remove(i);
                proof {
                    let after = items@;
                    assert forall|a: int, b: int|
                        0 <= a < after.len() && 0 <= b < after.len() && a != b implies after[a]
                        != after[b] by {
                        let a0 = if a < i {
                            a
                        } else {
                            a + 1
                        };
                        let b0 = if b < i {
                            b
                        } else {
                            b + 1
                        };
                        assert(after[a] == before[a0] && after[b] == before[b0]);
                    }
                    assert forall|y: PublicId| after.to_set().contains(y) == before.to_set().remove(
                        *id,
                    ).contains(y) by {
                        if after.contains(y) {
                            let k = choose|k: int| 0 <= k < after.len() && after[k] == y;
                            let k0 = if k < i {
                                k
                            } else {
                                k + 1
                            };
                            assert(before[k0] == y);
                            assert(before.contains(y));
                        }
                        if before.contains(y) && y != *id {
                            let k = choose|k: int| 0 <= k < before.len() && before[k] == y;
                            let k1 = if k < i {
                                k
                            } else {
                                k - 1
                            };
                            assert(after[k1] == y);
                        }
                    }
                    assert(after.to_set() =~= before.to_set().remove(*id));
                }
                self.items = items;
                true
            },
            None => {
                proof {
                    assert(self@ =~= self@.remove(*id));
                }
                false
            },
        }
    }
}

} // verus!
