//! Maps keyed by an identifier and walked in the order of the identifiers.

use std::collections::BTreeMap;

use vstd::prelude::*;

use crate::util::ids::{ascending, lemma_listing_is, listing, lists};

verus! {

/// A value that can be held in an [`IdMap`]: it has a view and can be copied.
pub trait Entry: View + Sized {
    /// A copy with the same view.
    fn duplicate(&self) -> (r: Self)
        ensures
            r@ == self@,
    ;
}

impl Entry for usize {
    fn duplicate(&self) -> (r: Self) {
        *self
    }
}

impl Entry for u32 {
    fn duplicate(&self) -> (r: Self) {
        *self
    }
}

impl Entry for i32 {
    fn duplicate(&self) -> (r: Self) {
        *self
    }
}

impl Entry for u64 {
    fn duplicate(&self) -> (r: Self) {
        *self
    }
}

impl Entry for Vec<u64> {
    fn duplicate(&self) -> (r: Self) {
        copy_all(self)
    }
}

impl Entry for String {
    fn duplicate(&self) -> (r: Self) {
        self.clone()
    }
}

/// The views of the elements of `q`.
pub open spec fn views<T: View>(q: Seq<T>) -> Seq<T::V> {
    Seq::new(q.len(), |i: int| q[i]@)
}

/// The view of an optional value.
pub open spec fn opt_view<T: View>(o: Option<T>) -> Option<T::V> {
    match o {
        Some(t) => Some(t@),
        None => None,
    }
}

pub fn duplicate_all<T: Entry>(v: &Vec<T>) -> (r: Vec<T>)
    ensures
        views(r@) == views(v@),
{
    let mut r: Vec<T> = Vec::new();
    let mut i: usize = 0;
    while i < v.len()
        invariant
            i <= v.len(),
            r@.len() == i,
            forall|k: int| 0 <= k < i ==> r@[k]@ == v@[k]@,
        decreases v.len() - i,
    {
        r.push(v[i].duplicate());
        i = i + 1;
    }
    assert(views(r@) =~= views(v@));
    r
}

pub fn duplicate_opt<T: Entry>(o: &Option<T>) -> (r: Option<T>)
    ensures
        opt_view(r) == opt_view(*o),
{
    match o {
        Some(t) => Some(t.duplicate()),
        None => None,
    }
}

pub fn copy_all<T: Copy>(v: &Vec<T>) -> (r: Vec<T>)
    ensures
        r@ == v@,
{
    let mut r: Vec<T> = Vec::new();
    let mut i: usize = 0;
    while i < v.len()
        invariant
            i <= v.len(),
            r@.len() == i,
            forall|k: int| 0 <= k < i ==> r@[k] == v@[k],
        decreases v.len() - i,
    {
        r.push(v[i]);
        i = i + 1;
    }
    assert(r@ =~= v@);
    r
}

/// A map from identifiers to values.
#[derive(Debug, PartialEq, Eq)]
pub struct IdMap<T: Entry> {
    inner: BTreeMap<u32, T>,
}

impl<T: Entry> View for IdMap<T> {
    type V = Map<u32, T::V>;

    closed spec fn view(&self) -> Map<u32, T::V> {
        self.inner@.map_values(|t: T| t@)
    }
}

/// The keys of the entries that satisfy `p`, in ascending order.
pub open spec fn ids_where<V>(m: Map<u32, V>, p: spec_fn(V) -> bool) -> Seq<u32> {
    listing(m.dom()).filter(|id: u32| p(m[id]))
}

/// The entries at `ids`, in the order of `ids`.
pub open spec fn values_at<V>(m: Map<u32, V>, ids: Seq<u32>) -> Seq<V> {
    Seq::new(ids.len(), |i: int| m[ids[i]])
}

/// The entries that satisfy `p`, in the order of their keys.
pub open spec fn values_where<V>(m: Map<u32, V>, p: spec_fn(V) -> bool) -> Seq<V> {
    values_at(m, ids_where(m, p))
}

/// The map with `g` applied to the entries at `ids`.
pub open spec fn updated_at<V>(m: Map<u32, V>, ids: Seq<u32>, g: spec_fn(V) -> V) -> Map<u32, V> {
    Map::new(
        |id: u32| m.contains_key(id),
        |id: u32|
            if ids.contains(id) {
                g(m[id])
            } else {
                m[id]
            },
    )
}

/// Applying `g` twice is the same as applying it once.
pub open spec fn idempotent<V>(g: spec_fn(V) -> V) -> bool {
    forall|v: V| g(#[trigger] g(v)) == g(v)
}

/// The map with each element of `q` at the key that `p` gives for it, the later ones last.
pub open spec fn inserted<V>(m: Map<u32, V>, q: Seq<V>, p: spec_fn(V) -> u32) -> Map<u32, V>
    decreases q.len(),
{
    if q.len() == 0 {
        m
    } else {
        inserted(m, q.drop_last(), p).insert(p(q.last()), q.last())
    }
}

/// Whether some entry satisfies `p`.
pub open spec fn some_where<V>(m: Map<u32, V>, p: spec_fn(V) -> bool) -> bool {
    exists|id: u32| #[trigger] m.contains_key(id) && p(m[id])
}

/// All of `ids` are keys of `m`.
pub open spec fn all_in<V>(ids: Seq<u32>, m: Map<u32, V>) -> bool {
    forall|i: int| 0 <= i < ids.len() ==> m.contains_key(#[trigger] ids[i])
}

/// `f` decides `p`.
pub open spec fn decides<T: View, F: Fn(&T) -> bool>(f: F, p: spec_fn(T::V) -> bool) -> bool {
    &&& forall|t: &T| #[trigger] f.requires((t,))
    &&& forall|t: &T, b: bool| #[trigger] f.ensures((t,), b) ==> b == p(t@)
}

/// Membership in a listing, filtered.
pub proof fn lemma_ids_where<V>(m: Map<u32, V>, p: spec_fn(V) -> bool)
    requires
        m.dom().finite(),
    ensures
        ascending(ids_where(m, p)),
        ids_where(m, p).no_duplicates(),
        all_in(ids_where(m, p), m),
        forall|id: u32| #[trigger] ids_where(m, p).contains(id) <==> m.contains_key(id) && p(m[id]),
{
    let l = listing(m.dom());
    let f = |id: u32| p(m[id]);
    crate::util::ids::lemma_listing_exists(m.dom());
    lemma_filter_ascending(l, f);
    broadcast use vstd::seq_lib::group_filter_ensures;

    let r = ids_where(m, p);
    assert forall|id: u32| #[trigger] r.contains(id) <==> m.contains_key(id) && p(m[id]) by {
        if r.contains(id) {
            let i = choose|i: int| 0 <= i < r.len() && r[i] == id;
            assert(f(r[i]));
            assert(l.contains(id));
        }
        if m.contains_key(id) && p(m[id]) {
            assert(l.contains(id));
            let i = choose|i: int| 0 <= i < l.len() && l[i] == id;
            assert(f(l[i]));
            assert(r.contains(l[i]));
        }
    }
    assert forall|i: int| 0 <= i < r.len() implies m.contains_key(#[trigger] r[i]) by {
        assert(r.contains(r[i]));
    }
}

/// A filtered ascending sequence is ascending.
pub proof fn lemma_filter_ascending(l: Seq<u32>, f: spec_fn(u32) -> bool)
    requires
        ascending(l),
    ensures
        ascending(l.filter(f)),
        forall|x: u32| #[trigger] l.filter(f).contains(x) ==> l.contains(x),
    decreases l.len(),
{
    reveal(Seq::filter);
    if l.len() > 0 {
        let d = l.drop_last();
        lemma_filter_ascending(d, f);
        let r = l.filter(f);
        assert forall|x: u32| d.contains(x) implies l.contains(x) && x < l.last() by {
            let k = choose|k: int| 0 <= k < d.len() && d[k] == x;
            assert(l[k] == x);
        }
        if f(l.last()) {
            assert(r == d.filter(f).push(l.last()));
            assert forall|i: int, j: int| 0 <= i < j < r.len() implies r[i] < r[j] by {
                if j == r.len() - 1 {
                    assert(d.filter(f).contains(r[i]));
                }
            }
            assert forall|x: u32| #[trigger] r.contains(x) implies l.contains(x) by {
                let k = choose|k: int| 0 <= k < r.len() && r[k] == x;
                if k < r.len() - 1 {
                    assert(d.filter(f).contains(x));
                } else {
                    assert(l[l.len() - 1] == x);
                }
            }
        }
    }
}

impl<T: Entry> IdMap<T> {
    pub fn new() -> (r: Self)
        ensures
            r@ == Map::<u32, T::V>::empty(),
    {
        let r = IdMap { inner: BTreeMap::new() };
        assert(r@ =~= Map::<u32, T::V>::empty());
        r
    }

    pub fn get(&self, id: u32) -> (r: Option<&T>)
        ensures
            match r {
                Some(t) => self@.contains_key(id) && t@ == self@[id],
                None => !self@.contains_key(id),
            },
    {
        self.inner.get(&id)
    }

    pub fn contains_key(&self, id: u32) -> (r: bool)
        ensures
            r == self@.contains_key(id),
    {
        self.inner.contains_key(&id)
    }

    pub fn insert(&mut self, id: u32, t: T)
        ensures
            final(self)@ == old(self)@.insert(id, t@),
    {
        self.inner.insert(id, t);
        assert(self@ =~= old(self)@.insert(id, t@));
    }

    pub fn remove(&mut self, id: u32) -> (r: Option<T>)
        ensures
            final(self)@ == old(self)@.remove(id),
            match r {
                Some(t) => old(self)@.contains_key(id) && t@ == old(self)@[id],
                None => !old(self)@.contains_key(id),
            },
    {
        let r = self.inner.remove(&id);
        assert(self@ =~= old(self)@.remove(id));
        r
    }

    /// Takes over the entries of `other`.
    pub fn extend(&mut self, other: IdMap<T>)
        ensures
            final(self)@ == old(self)@.union_prefer_right(other@),
    {
        let ids = other.ids();
        let ghost before = self@;
        let mut i: usize = 0;
        assert(ids@.take(0).to_set() =~= Set::<u32>::empty());
        assert(self@ =~= before.union_prefer_right(other@.restrict(ids@.take(0).to_set())));
        while i < ids.len()
            invariant
                i <= ids.len(),
                lists(ids@, other@.dom()),
                self@ == before.union_prefer_right(other@.restrict(ids@.take(i as int).to_set())),
            decreases ids.len() - i,
        {
            let id: u32 = ids[i];
            proof {
                assert(ids@.contains(id));
                assert(ids@.take(i + 1) =~= ids@.take(i as int).push(id));
                assert(ids@.take(i + 1).to_set() =~= ids@.take(i as int).to_set().insert(id)) by {
                    broadcast use Seq::lemma_push_to_set_commute;

                }
            }
            match other.get(id) {
                Some(t) => {
                    self.insert(id, t.duplicate());
                },
                None => {},
            }
            assert(self@ =~= before.union_prefer_right(
                other@.restrict(ids@.take(i + 1).to_set()),
            ));
            i = i + 1;
        }
        assert(ids@.take(i as int) =~= ids@);
        assert(ids@.to_set() =~= other@.dom()) by {
            assert forall|x: u32| ids@.to_set().contains(x) <==> other@.dom().contains(x) by {
                assert(ids@.contains(x) <==> other@.dom().contains(x));
            }
        }
        assert(other@.restrict(other@.dom()) =~= other@);
    }

    /// The keys in ascending order.
    pub fn ids(&self) -> (r: Vec<u32>)
        ensures
            lists(r@, self@.dom()),
            r@ == listing(self@.dom()),
    {
        let mut r: Vec<u32> = Vec::new();
        let ghost q = vstd::std_specs::iter::IteratorSpec::remaining(&self.inner.keys());
        for k in it: self.inner.keys()
            invariant
                it.seq() == q,
                r@ == q.unref().take(it.index() + 0),
        {
            r.push(*k);
            assert(r@ =~= q.unref().take(it.index() + 1));
        }
        proof {
            assert(r@ =~= q.unref());
            assert(vstd::laws_cmp::obeys_cmp::<u32>());
            assert(vstd::laws_cmp::obeys_cmp::<&u32>());
            assert(ascending(r@)) by {
                assert forall|i: int, j: int| 0 <= i < j < r@.len() implies r@[i] < r@[j] by {
                    assert(r@[i] == *q[i] && r@[j] == *q[j]);
                    assert(vstd::std_specs::cmp::OrdSpec::cmp_spec(&q[i], &q[j]) is Less);
                }
            }
            assert(self@.dom() =~= self.inner@.dom());
            assert forall|x: u32| #[trigger] r@.contains(x) <==> self@.dom().contains(x) by {
                assert(r@.to_set().contains(x) <==> self.inner@.dom().contains(x));
            }
            lemma_listing_is(r@, self@.dom());
        }
        r
    }

    pub proof fn lemma_finite(&self)
        ensures
            self@.dom().finite(),
    {
        assert(self@.dom() =~= self.inner@.dom());
    }

    pub fn len(&self) -> (r: usize)
        ensures
            r == self@.dom().len(),
    {
        proof {
            assert(self@.dom() =~= self.inner@.dom());
        }
        self.inner.len()
    }

    /// The keys of the entries that `f` selects, in ascending order.
    pub(crate) fn ids_where<F: Fn(&T) -> bool>(
        &self,
        f: F,
        Ghost(p): Ghost<spec_fn(T::V) -> bool>,
    ) -> (r: Vec<u32>)
        requires
            decides(f, p),
        ensures
            r@ == ids_where(self@, p),
            ascending(r@),
            all_in(r@, self@),
    {
        let ids = self.ids();
        let ghost q = |id: u32| p(self@[id]);
        let mut r: Vec<u32> = Vec::new();
        let mut i: usize = 0;
        proof {
            reveal(Seq::filter);
            assert(ids@.take(0) =~= Seq::<u32>::empty());
        }
        while i < ids.len()
            invariant
                i <= ids.len(),
                decides(f, p),
                lists(ids@, self@.dom()),
                q == (|id: u32| p(self@[id])),
                r@ == ids@.take(i as int).filter(q),
            decreases ids.len() - i,
        {
            let id: u32 = ids[i];
            proof {
                reveal(Seq::filter);
                assert(ids@.contains(id));
                assert(ids@.take(i + 1).drop_last() =~= ids@.take(i as int));
                assert(ids@.take(i + 1).last() == id);
            }
            match self.get(id) {
                Some(t) => {
                    if f(t) {
                        r.push(id);
                    }
                },
                None => {},
            }
            i = i + 1;
        }
        proof {
            assert(ids@.take(i as int) =~= ids@);
            self.lemma_finite();
            lemma_ids_where(self@, p);
        }
        r
    }

    /// Whether all of `ids` have an entry.
    pub fn contains_all(&self, ids: &Vec<u32>) -> (r: bool)
        ensures
            r == all_in(ids@, self@),
    {
        let mut i: usize = 0;
        while i < ids.len()
            invariant
                i <= ids.len(),
                forall|k: int| 0 <= k < i ==> self@.contains_key(#[trigger] ids@[k]),
            decreases ids.len() - i,
        {
            if !self.contains_key(ids[i]) {
                assert(!self@.contains_key(ids@[i as int]));
                return false;
            }
            i = i + 1;
        }
        true
    }

    /// Whether `f` selects every entry.
    pub(crate) fn all<F: Fn(u32, &T) -> bool>(
        &self,
        f: F,
        Ghost(p): Ghost<spec_fn(u32, T::V) -> bool>,
    ) -> (r: bool)
        requires
            forall|id: u32, t: &T| #[trigger] f.requires((id, t)),
            forall|id: u32, t: &T, b: bool| #[trigger] f.ensures((id, t), b) ==> b == p(id, t@),
        ensures
            r == forall|id: u32| #[trigger] self@.contains_key(id) ==> p(id, self@[id]),
    {
        let ids = self.ids();
        let mut i: usize = 0;
        while i < ids.len()
            invariant
                i <= ids.len(),
                lists(ids@, self@.dom()),
                forall|id: u32, t: &T| #[trigger] f.requires((id, t)),
                forall|id: u32, t: &T, b: bool| #[trigger]
                    f.ensures((id, t), b) ==> b == p(id, t@),
                forall|k: int| 0 <= k < i ==> p(#[trigger] ids@[k], self@[ids@[k]]),
            decreases ids.len() - i,
        {
            let id: u32 = ids[i];
            assert(ids@.contains(ids@[i as int]));
            match self.get(id) {
                Some(t) => {
                    if !f(id, t) {
                        assert(self@.contains_key(id) && !p(id, self@[id]));
                        return false;
                    }
                },
                None => {
                    assert(false);
                },
            }
            i = i + 1;
        }
        proof {
            assert forall|id: u32| #[trigger] self@.contains_key(id) implies p(id, self@[id]) by {
                assert(ids@.contains(id));
                let k = choose|k: int| 0 <= k < ids@.len() && ids@[k] == id;
                assert(p(ids@[k], self@[ids@[k]]));
            }
        }
        true
    }

    /// The entries at `ids`.
    pub fn values_at(&self, ids: &Vec<u32>) -> (r: Vec<T>)
        requires
            all_in(ids@, self@),
        ensures
            views(r@) == values_at(self@, ids@),
    {
        let mut r: Vec<T> = Vec::new();
        let mut i: usize = 0;
        while i < ids.len()
            invariant
                i <= ids.len(),
                all_in(ids@, self@),
                r@.len() == i,
                forall|k: int| 0 <= k < i ==> r@[k]@ == self@[ids@[k]],
            decreases ids.len() - i,
        {
            let id: u32 = ids[i];
            assert(self@.contains_key(ids@[i as int]));
            match self.get(id) {
                Some(t) => {
                    r.push(t.duplicate());
                },
                None => {},
            }
            i = i + 1;
        }
        assert(views(r@) =~= values_at(self@, ids@));
        r
    }

    /// The entries that `f` selects, in the order of their keys.
    pub(crate) fn values_where<F: Fn(&T) -> bool>(
        &self,
        f: F,
        Ghost(p): Ghost<spec_fn(T::V) -> bool>,
    ) -> (r: Vec<T>)
        requires
            decides(f, p),
        ensures
            views(r@) == values_where(self@, p),
    {
        let ids = self.ids_where(f, Ghost(p));
        self.values_at(&ids)
    }

    /// All entries, in the order of their keys.
    pub fn values(&self) -> (r: Vec<T>)
        ensures
            views(r@) == values_at(self@, listing(self@.dom())),
    {
        let ids = self.ids();
        assert forall|i: int| 0 <= i < ids@.len() implies self@.contains_key(#[trigger] ids@[i]) by {
            assert(ids@.contains(ids@[i]));
        }
        self.values_at(&ids)
    }

    /// Whether `f` selects some entry.
    pub(crate) fn any<F: Fn(&T) -> bool>(&self, f: F, Ghost(p): Ghost<spec_fn(T::V) -> bool>) -> (r: bool)
        requires
            decides(f, p),
        ensures
            r == some_where(self@, p),
    {
        let ids = self.ids_where(f, Ghost(p));
        proof {
            self.lemma_finite();
            lemma_ids_where(self@, p);
            if ids@.len() > 0 {
                assert(ids@.contains(ids@[0]));
                assert(self@.contains_key(ids@[0]) && p(self@[ids@[0]]));
            }
            if some_where(self@, p) {
                let id = choose|id: u32| #[trigger] self@.contains_key(id) && p(self@[id]);
                assert(ids@.contains(id));
            }
        }
        ids.len() > 0
    }

    /// Applies `f` to the entries at `ids` and hands out what they have become.
    pub(crate) fn update_all<F: Fn(T) -> T>(
        &mut self,
        ids: &Vec<u32>,
        f: F,
        Ghost(g): Ghost<spec_fn(T::V) -> T::V>,
    ) -> (r: Vec<T>)
        requires
            all_in(ids@, old(self)@),
            ids@.no_duplicates() || idempotent(g),
            forall|t: T| #[trigger] f.requires((t,)),
            forall|t: T, u: T| #[trigger] f.ensures((t,), u) ==> u@ == g(t@),
        ensures
            final(self)@ == updated_at(old(self)@, ids@, g),
            views(r@) == values_at(final(self)@, ids@),
    {
        let ghost m = self@;
        let mut r: Vec<T> = Vec::new();
        let mut i: usize = 0;
        assert(m =~= updated_at(m, ids@.take(0), g));
        while i < ids.len()
            invariant
                i <= ids.len(),
                all_in(ids@, m),
                ids@.no_duplicates() || idempotent(g),
                forall|t: T| #[trigger] f.requires((t,)),
                forall|t: T, u: T| #[trigger] f.ensures((t,), u) ==> u@ == g(t@),
                self@ == updated_at(m, ids@.take(i as int), g),
                r@.len() == i,
                forall|k: int| 0 <= k < i ==> r@[k]@ == g(m[ids@[k]]),
            decreases ids.len() - i,
        {
            let id: u32 = ids[i];
            let ghost seen = ids@.take(i as int);
            let ghost before = self@;
            proof {
                assert(m.contains_key(ids@[i as int]));
                assert(ids@.take(i + 1) =~= seen.push(id));
                if seen.contains(id) {
                    let k = choose|k: int| 0 <= k < seen.len() && seen[k] == id;
                    assert(ids@[k] == ids@[i as int]);
                    assert(idempotent(g));
                    assert(g(g(m[id])) == g(m[id]));
                }
            }
            match self.remove(id) {
                Some(t) => {
                    let u = f(t);
                    r.push(u.duplicate());
                    self.insert(id, u);
                },
                None => {},
            }
            proof {
                assert forall|x: u32| seen.push(id).contains(x) <==> seen.contains(x) || x == id by {
                    broadcast use vstd::seq_lib::lemma_seq_contains_after_push;

                }
                assert(self@ =~= updated_at(m, ids@.take(i + 1), g));
            }
            i = i + 1;
        }
        proof {
            assert(ids@.take(i as int) =~= ids@);
            assert forall|k: int| 0 <= k < ids@.len() implies self@[ids@[k]] == r@[k]@ by {
                assert(ids@.contains(ids@[k]));
                assert(m.contains_key(ids@[k]));
            }
            assert(views(r@) =~= values_at(self@, ids@));
        }
        r
    }

    /// Inserts copies of the elements of `v`, each at the key that `f` gives for it.
    pub(crate) fn insert_all<F: Fn(&T) -> u32>(
        &mut self,
        v: &Vec<T>,
        f: F,
        Ghost(p): Ghost<spec_fn(T::V) -> u32>,
    )
        requires
            forall|t: &T| #[trigger] f.requires((t,)),
            forall|t: &T, u: u32| #[trigger] f.ensures((t,), u) ==> u == p(t@),
        ensures
            final(self)@ == inserted(old(self)@, views(v@), p),
    {
        let ghost m = self@;
        let ghost q = views(v@);
        let mut i: usize = 0;
        assert(q.take(0) =~= Seq::<T::V>::empty());
        while i < v.len()
            invariant
                i <= v.len(),
                q == views(v@),
                forall|t: &T| #[trigger] f.requires((t,)),
                forall|t: &T, u: u32| #[trigger] f.ensures((t,), u) ==> u == p(t@),
                self@ == inserted(m, q.take(i as int), p),
            decreases v.len() - i,
        {
            proof {
                assert(q.take(i + 1).drop_last() =~= q.take(i as int));
                assert(q.take(i + 1).last() == v@[i as int]@);
            }
            let id: u32 = f(&v[i]);
            self.insert(id, v[i].duplicate());
            i = i + 1;
        }
        assert(q.take(i as int) =~= q);
    }

    /// Removes the entries at `ids` and hands them out.
    pub fn remove_all(&mut self, ids: &Vec<u32>) -> (r: Vec<T>)
        requires
            all_in(ids@, old(self)@),
            ids@.no_duplicates(),
        ensures
            final(self)@ == old(self)@.remove_keys(ids@.to_set()),
            views(r@) == values_at(old(self)@, ids@),
    {
        let mut r: Vec<T> = Vec::new();
        let mut i: usize = 0;
        let ghost m = self@;
        assert(m =~= m.remove_keys(ids@.take(0).to_set()));
        while i < ids.len()
            invariant
                i <= ids.len(),
                all_in(ids@, m),
                ids@.no_duplicates(),
                self@ == m.remove_keys(ids@.take(i as int).to_set()),
                r@.len() == i,
                forall|k: int| 0 <= k < i ==> r@[k]@ == m[ids@[k]],
            decreases ids.len() - i,
        {
            let id: u32 = ids[i];
            proof {
                assert(m.contains_key(ids@[i as int]));
                assert(!ids@.take(i as int).contains(id));
                assert(self@.contains_key(id));
                assert(ids@.take(i + 1) =~= ids@.take(i as int).push(id));
                assert(ids@.take(i + 1).to_set() =~= ids@.take(i as int).to_set().insert(id)) by {
                    broadcast use Seq::lemma_push_to_set_commute;

                }
            }
            match self.remove(id) {
                Some(t) => {
                    r.push(t);
                },
                None => {},
            }
            assert(self@ =~= m.remove_keys(ids@.take(i + 1).to_set()));
            i = i + 1;
        }
        assert(ids@.take(i as int) =~= ids@);
        assert(views(r@) =~= values_at(m, ids@));
        r
    }
}

impl<T: Entry> Entry for IdMap<T> {
    fn duplicate(&self) -> (r: Self) {
        let ids = self.ids();
        let mut r: IdMap<T> = IdMap::new();
        let mut i: usize = 0;
        while i < ids.len()
            invariant
                i <= ids.len(),
                lists(ids@, self@.dom()),
                r@ == self@.restrict(ids@.take(i as int).to_set()),
            decreases ids.len() - i,
        {
            let id: u32 = ids[i];
            proof {
                assert(ids@.contains(id));
                assert(ids@.take(i + 1) =~= ids@.take(i as int).push(id));
                assert(ids@.take(i + 1).to_set() =~= ids@.take(i as int).to_set().insert(id)) by {
                    broadcast use Seq::lemma_push_to_set_commute;

                }
            }
            match self.get(id) {
                Some(t) => {
                    r.insert(id, t.duplicate());
                },
                None => {},
            }
            assert(r@ =~= self@.restrict(ids@.take(i + 1).to_set()));
            i = i + 1;
        }
        proof {
            assert(ids@.take(i as int) =~= ids@);
            assert forall|id: u32| self@.contains_key(id) implies r@.contains_key(id) by {
                assert(ids@.contains(id));
            }
            assert(r@ =~= self@);
        }
        r
    }
}

} // verus!
