//! Sets of identifiers, walked in ascending order.

use std::collections::BTreeSet;

use vstd::prelude::*;

use crate::util::id_map::Entry;
use crate::util::ids::{ascending, lemma_listing_is, listing, lists};

verus! {

/// A set of identifiers.
#[derive(Debug, PartialEq, Eq)]
pub struct IdSet {
    inner: BTreeSet<u32>,
}

impl View for IdSet {
    type V = Set<u32>;

    closed spec fn view(&self) -> Set<u32> {
        self.inner@
    }
}

impl IdSet {
    pub fn new() -> (r: Self)
        ensures
            r@ == Set::<u32>::empty(),
    {
        IdSet { inner: BTreeSet::new() }
    }

    /// Adds `id`; tells whether it was not yet a member.
    pub fn insert(&mut self, id: u32) -> (r: bool)
        ensures
            final(self)@ == old(self)@.insert(id),
            r == !old(self)@.contains(id),
    {
        self.inner.insert(id)
    }

    pub fn contains(&self, id: u32) -> (r: bool)
        ensures
            r == self@.contains(id),
    {
        self.inner.contains(&id)
    }

    pub fn is_empty(&self) -> (r: bool)
        ensures
            r == (self@ == Set::<u32>::empty()),
    {
        proof {
            if self@.is_empty() {
                assert(self@ =~= Set::<u32>::empty());
            }
        }
        self.inner.is_empty()
    }

    pub proof fn lemma_finite(&self)
        ensures
            self@.finite(),
    {
        let q = vstd::std_specs::iter::IteratorSpec::remaining(&self.inner.iter()).unref();
        assert(q.to_set() == self@);
        vstd::seq_lib::seq_to_set_is_finite(q);
    }

    /// Adds each of `ids`.
    pub fn insert_all(&mut self, ids: &Vec<u32>)
        ensures
            final(self)@ == old(self)@.union(ids@.to_set()),
    {
        let ghost before = self@;
        let mut i: usize = 0;
        assert(before =~= before.union(ids@.take(0).to_set()));
        while i < ids.len()
            invariant
                i <= ids.len(),
                self@ == before.union(ids@.take(i as int).to_set()),
            decreases ids.len() - i,
        {
            let id: u32 = ids[i];
            self.insert(id);
            proof {
                assert(ids@.take(i + 1) =~= ids@.take(i as int).push(id));
                assert(ids@.take(i + 1).to_set() =~= ids@.take(i as int).to_set().insert(id)) by {
                    broadcast use Seq::lemma_push_to_set_commute;

                }
                assert(self@ =~= before.union(ids@.take(i + 1).to_set()));
            }
            i = i + 1;
        }
        assert(ids@.take(i as int) =~= ids@);
    }

    /// Takes `id` out; tells whether it was a member.
    pub fn remove(&mut self, id: u32) -> (r: bool)
        ensures
            final(self)@ == old(self)@.remove(id),
            r == old(self)@.contains(id),
    {
        self.inner.remove(&id)
    }

    /// Adds the members of `other`.
    pub fn extend(&mut self, other: &IdSet)
        ensures
            final(self)@ == old(self)@.union(other@),
    {
        let ids = other.ids();
        self.insert_all(&ids);
        assert(ids@.to_set() =~= other@) by {
            assert forall|x: u32| ids@.to_set().contains(x) <==> other@.contains(x) by {
                assert(ids@.contains(x) <==> other@.contains(x));
            }
        }
    }

    /// Takes the members of `other` out.
    pub fn subtract(&mut self, other: &IdSet)
        ensures
            final(self)@ == old(self)@.difference(other@),
    {
        let ids = other.ids();
        let ghost before = self@;
        let mut i: usize = 0;
        assert(before =~= before.difference(ids@.take(0).to_set()));
        while i < ids.len()
            invariant
                i <= ids.len(),
                self@ == before.difference(ids@.take(i as int).to_set()),
            decreases ids.len() - i,
        {
            let id: u32 = ids[i];
            self.remove(id);
            proof {
                assert(ids@.take(i + 1) =~= ids@.take(i as int).push(id));
                assert(ids@.take(i + 1).to_set() =~= ids@.take(i as int).to_set().insert(id)) by {
                    broadcast use Seq::lemma_push_to_set_commute;

                }
                assert(self@ =~= before.difference(ids@.take(i + 1).to_set()));
            }
            i = i + 1;
        }
        assert(ids@.take(i as int) =~= ids@);
        assert(ids@.to_set() =~= other@) by {
            assert forall|x: u32| ids@.to_set().contains(x) <==> other@.contains(x) by {
                assert(ids@.contains(x) <==> other@.contains(x));
            }
        }
    }

    /// Whether no member is a member of `other`.
    pub fn is_disjoint(&self, other: &IdSet) -> (r: bool)
        ensures
            r == self@.disjoint(other@),
    {
        let ids = other.ids();
        let mut i: usize = 0;
        while i < ids.len()
            invariant
                i <= ids.len(),
                lists(ids@, other@),
                forall|k: int| 0 <= k < i ==> !self@.contains(ids@[k]),
            decreases ids.len() - i,
        {
            if self.contains(ids[i]) {
                assert(ids@.contains(ids@[i as int]));
                assert(other@.contains(ids@[i as int]));
                return false;
            }
            i = i + 1;
        }
        assert forall|x: u32| self@.contains(x) implies !other@.contains(x) by {
            if other@.contains(x) {
                assert(ids@.contains(x));
                let k = choose|k: int| 0 <= k < ids@.len() && ids@[k] == x;
                assert(!self@.contains(ids@[k]));
            }
        }
        true
    }

    /// Whether all members of `other` are members.
    pub fn is_superset(&self, other: &IdSet) -> (r: bool)
        ensures
            r == other@.subset_of(self@),
    {
        let ids = other.ids();
        let mut i: usize = 0;
        while i < ids.len()
            invariant
                i <= ids.len(),
                lists(ids@, other@),
                forall|k: int| 0 <= k < i ==> self@.contains(ids@[k]),
            decreases ids.len() - i,
        {
            if !self.contains(ids[i]) {
                assert(ids@.contains(ids@[i as int]));
                assert(other@.contains(ids@[i as int]));
                return false;
            }
            i = i + 1;
        }
        assert forall|x: u32| other@.contains(x) implies self@.contains(x) by {
            assert(ids@.contains(x));
            let k = choose|k: int| 0 <= k < ids@.len() && ids@[k] == x;
            assert(self@.contains(ids@[k]));
        }
        true
    }

    /// The members in ascending order.
    pub fn ids(&self) -> (r: Vec<u32>)
        ensures
            lists(r@, self@),
            r@ == listing(self@),
    {
        let mut r: Vec<u32> = Vec::new();
        let ghost q = vstd::std_specs::iter::IteratorSpec::remaining(&self.inner.iter());
        for k in it: self.inner.iter()
            invariant
                it.seq() == q,
                r@ == q.unref().take(it.index() + 0),
        {
            r.push(*k);
            assert(r@ =~= q.unref().take(it.index() + 1));
        }
        proof {
            assert(r@ =~= q.unref());
            assert(vstd::laws_cmp::obeys_cmp::<u32>());
            assert(vstd::laws_cmp::obeys_cmp::<&u32>());
            assert(ascending(r@)) by {
                assert forall|i: int, j: int| 0 <= i < j < r@.len() implies r@[i] < r@[j] by {
                    assert(r@[i] == *q[i] && r@[j] == *q[j]);
                    assert(vstd::std_specs::cmp::OrdSpec::cmp_spec(&q[i], &q[j]) is Less);
                }
            }
            assert forall|x: u32| #[trigger] r@.contains(x) <==> self@.contains(x) by {
                assert(r@.to_set().contains(x) <==> self.inner@.contains(x));
            }
            lemma_listing_is(r@, self@);
        }
        r
    }
}

impl Entry for IdSet {
    fn duplicate(&self) -> (r: Self) {
        IdSet { inner: self.inner.clone() }
    }
}

} // verus!
