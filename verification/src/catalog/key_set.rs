//! The set of names that are being created.

use vstd::prelude::*;

use crate::catalog::types::{RelationKey, RelationKeyModel};
use crate::util::id_map::{duplicate_all, views, Entry};

verus! {

impl RelationKey {
    pub fn same(&self, other: &RelationKey) -> (r: bool)
        ensures
            r == (self@ == other@),
    {
        self.database_id == other.database_id && self.schema_id == other.schema_id && self.name
            == other.name
    }
}

/// A set of names.
#[derive(Debug, PartialEq, Eq)]
pub struct KeySet {
    keys: Vec<RelationKey>,
}

impl View for KeySet {
    type V = Set<RelationKeyModel>;

    closed spec fn view(&self) -> Set<RelationKeyModel> {
        views(self.keys@).to_set()
    }
}

impl KeySet {
    pub fn new() -> (r: Self)
        ensures
            r@ == Set::<RelationKeyModel>::empty(),
    {
        let r = KeySet { keys: Vec::new() };
        assert(r@ =~= Set::<RelationKeyModel>::empty());
        r
    }

    pub fn contains(&self, key: &RelationKey) -> (r: bool)
        ensures
            r == self@.contains(key@),
    {
        let mut i: usize = 0;
        while i < self.keys.len()
            invariant
                i <= self.keys.len(),
                forall|k: int| 0 <= k < i ==> self.keys@[k]@ != key@,
            decreases self.keys.len() - i,
        {
            if self.keys[i].same(key) {
                assert(views(self.keys@)[i as int] == key@);
                return true;
            }
            i = i + 1;
        }
        false
    }

    /// The names, in the order in which they were added.
    pub fn list(&self) -> (r: Vec<RelationKey>)
        ensures
            views(r@).to_set() == self@,
    {
        duplicate_all(&self.keys)
    }

    pub fn insert(&mut self, key: RelationKey)
        ensures
            final(self)@ == old(self)@.insert(key@),
    {
        let ghost before = self.keys@;
        self.keys.push(key);
        proof {
            assert(views(self.keys@) =~= views(before).push(key@));
            broadcast use Seq::lemma_push_to_set_commute;

        }
    }

    pub fn remove(&mut self, key: &RelationKey)
        ensures
            final(self)@ == old(self)@.remove(key@),
    {
        let mut kept: Vec<RelationKey> = Vec::new();
        let mut i: usize = 0;
        while i < self.keys.len()
            invariant
                i <= self.keys.len(),
                forall|m: RelationKeyModel| #[trigger]
                    views(kept@).contains(m) <==> m != key@ && views(self.keys@).take(i as int).contains(m),
            decreases self.keys.len() - i,
        {
            let ghost k = self.keys@[i as int]@;
            let ghost before = kept@;
            proof {
                assert(views(self.keys@).take(i + 1) =~= views(self.keys@).take(i as int).push(k));
            }
            if !self.keys[i].same(key) {
                kept.push(self.keys[i].duplicate());
                assert(views(kept@) =~= views(before).push(k));
            }
            assert forall|m: RelationKeyModel| #[trigger]
                views(kept@).contains(m) <==> m != key@ && views(self.keys@).take(i + 1).contains(
                m,
            ) by {
                broadcast use vstd::seq_lib::lemma_seq_contains_after_push;

            }
            i = i + 1;
        }
        assert(views(self.keys@).take(i as int) =~= views(self.keys@));
        self.keys = kept;
        assert(self@ =~= old(self)@.remove(key@));
    }
}

impl Entry for KeySet {
    fn duplicate(&self) -> (r: Self) {
        KeySet { keys: duplicate_all(&self.keys) }
    }
}

} // verus!
