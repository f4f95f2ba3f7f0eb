use vstd::prelude::*;

use crate::header::HeaderId;

verus! {

/// A finite set of block ids.
pub struct IdSet {
    items: Vec<HeaderId>,
}

impl View for IdSet {
    type V = Set<HeaderId>;

    closed spec fn view(&self) -> Set<HeaderId> {
        self.items@.to_set()
    }
}

impl IdSet {
    /// No id is stored twice.
    pub closed spec fn wf(&self) -> bool {
        self.items@.no_duplicates()
    }

    /// The ids in the order in which they are stored.
    pub closed spec fn order(&self) -> Seq<HeaderId> {
        self.items@
    }

    /// The stored order lists each element of the set exactly once.
    pub proof fn lemma_order(&self)
        requires
            self.wf(),
        ensures
            self.order().no_duplicates(),
            self.order().to_set() == self@,
            self.order().len() == self@.len(),
            self@.finite(),
    {
        self.items@.unique_seq_to_set();
    }

    /// The empty set.
    pub fn new() -> (s: IdSet)
        ensures
            s.wf(),
            s@ == Set::<HeaderId>::empty(),
            s.order() == Seq::<HeaderId>::empty(),
    {
        let s = IdSet { items: Vec::new() };
        assert(s@ =~= Set::<HeaderId>::empty());
        s
    }

    /// The number of ids.
    pub fn len(&self) -> (n: usize)
        requires
            self.wf(),
        ensures
            n == self@.len(),
            self@.finite(),
    {
        proof {
            self.items@.unique_seq_to_set();
        }
        self.items.len()
    }

    /// Whether the set is empty.
    pub fn is_empty(&self) -> (b: bool)
        requires
            self.wf(),
        ensures
            b == (self@.len() == 0),
            b == (self@ == Set::<HeaderId>::empty()),
    {
        proof {
            self.items@.unique_seq_to_set();
            if self.items@.len() > 0 {
                assert(self@.contains(self.items@[0]));
            } else {
                assert(self@ =~= Set::<HeaderId>::empty());
            }
        }
        self.items.len() == 0
    }

    /// The position of `id`, if present.
    fn position(&self, id: &HeaderId) -> (r: Option<usize>)
        ensures
            r is None ==> !self.items@.contains(*id),
            r matches Some(i) ==> i < self.items@.len() && self.items@[i as int] == *id,
    {
        let mut i: usize = 0;
        while i < self.items.len()
            invariant
                0 <= i <= self.items@.len(),
                forall|j: int| 0 <= j < i ==> #[trigger] self.items@[j] != *id,
            decreases self.items@.len() - i,
        {
            if self.items[i] == *id {
                return Some(i);
            }
            i = i + 1;
        }
        None
    }

    /// Whether `id` is in the set.
    pub fn contains(&self, id: &HeaderId) -> (b: bool)
        ensures
            b == self@.contains(*id),
    {
        self.position(id).is_some()
    }

    /// Adds `id` to the set; a new id comes last in the stored order.
    pub fn insert(&mut self, id: HeaderId)
        requires
            old(self).wf(),
        ensures
            final(self).wf(),
            final(self)@ == old(self)@.insert(id),
            final(self).order() == (if old(self)@.contains(id) {
                old(self).order()
            } else {
                old(self).order().push(id)
            }),
    {
        if self.position(&id).is_none() {
            let ghost before = self.items@;
            self.items.push(id);
            proof {
                before.lemma_push_to_set_commute(id);
            }
            assert(self@ =~= before.to_set().insert(id));
        } else {
            assert(self.items@.contains(id));
            assert(self@ =~= old(self)@.insert(id));
        }
    }

    /// Removes `id` from the set.
    pub fn remove(&mut self, id: &HeaderId)
        requires
            old(self).wf(),
        ensures
            final(self).wf(),
            final(self)@ == old(self)@.remove(*id),
    {
        match self.position(id) {
            Some(i) => {
                let ghost before = self.items@;
                self.items.remove(i);
                proof {
                    let after = self.items@;
                    assert(after == before.remove(i as int));
                    assert forall|a: int, b: int| 0 <= a < b < after.len() implies after[a]
                        != after[b] by {
                        if a < i {
                            if b < i {
                            } else {
                                assert(after[b] == before[b + 1]);
                            }
                        } else {
                            assert(after[a] == before[a + 1]);
                            assert(after[b] == before[b + 1]);
                        }
                    }
                    assert forall|x: HeaderId| #[trigger] after.to_set().contains(x) <==> before.to_set().remove(
                        *id,
                    ).contains(x) by {
                        if after.contains(x) {
                            let k = choose|k: int| 0 <= k < after.len() && after[k] == x;
                            if k < i {
                                assert(before[k] == x);
                            } else {
                                assert(before[k + 1] == x);
                            }
                        }
                        if before.contains(x) && x != *id {
                            let k = choose|k: int| 0 <= k < before.len() && before[k] == x;
                            if k < i {
                                assert(after[k] == x);
                            } else {
                                assert(k != i);
                                assert(after[k - 1] == x);
                            }
                        }
                    }
                    assert(self@ =~= before.to_set().remove(*id));
                }
            },
            None => {
                assert(self@ =~= old(self)@.remove(*id));
            },
        }
    }

    /// Takes some id out of the set, if it is not empty.
    pub fn pop_any(&mut self) -> (r: Option<HeaderId>)
        requires
            old(self).wf(),
        ensures
            final(self).wf(),
            r is None <==> old(self)@.len() == 0,
            r is None ==> final(self)@ == old(self)@,
            r matches Some(id) ==> old(self)@.contains(id) && final(self)@ == old(self)@.remove(id),
            r matches Some(id) ==> id == old(self).order()[0],
    {
        proof {
            self.items@.unique_seq_to_set();
        }
        if self.items.len() == 0 {
            return None;
        }
        let id = self.items[0];
        assert(self@.contains(id));
        self.remove(&id);
        Some(id)
    }

    /// The ids of the set, in their stored order.
    pub fn to_vec(&self) -> (v: Vec<HeaderId>)
        requires
            self.wf(),
        ensures
            v@ == self.order(),
            v@.no_duplicates(),
            v@.to_set() == self@,
    {
        self.items.clone()
    }

    /// Adds every id of `ids` to the set.
    pub fn extend(&mut self, ids: &Vec<HeaderId>)
        requires
            old(self).wf(),
        ensures
            final(self).wf(),
            final(self)@ == old(self)@.union(ids@.to_set()),
    {
        let mut i: usize = 0;
        while i < ids.len()
            invariant
                0 <= i <= ids@.len(),
                self.wf(),
                self@ == old(self)@.union(ids@.take(i as int).to_set()),
            decreases ids@.len() - i,
        {
            self.insert(ids[i]);
            proof {
                ids@.take(i as int).lemma_push_to_set_commute(ids@[i as int]);
                assert(ids@.take(i + 1) =~= ids@.take(i as int).push(ids@[i as int]));
                assert(self@ =~= old(self)@.union(ids@.take(i + 1).to_set()));
            }
            i = i + 1;
        }
        assert(ids@.take(i as int) =~= ids@);
    }

    /// A set holding the ids of `ids`.
    pub fn from_vec(ids: &Vec<HeaderId>) -> (s: IdSet)
        ensures
            s.wf(),
            s@ == ids@.to_set(),
    {
        let mut s = IdSet::new();
        s.extend(ids);
        assert(s@ =~= ids@.to_set());
        s
    }
}

} // verus!
