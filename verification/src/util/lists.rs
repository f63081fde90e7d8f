//! Lists of values, told by the views of their elements.

use vstd::prelude::*;

use crate::util::id_map::{decides, duplicate_all, views, Entry};

verus! {

/// What `p` gives for each element of `q`, one behind the other.
pub open spec fn gather<A, B>(q: Seq<A>, p: spec_fn(A) -> Seq<B>) -> Seq<B>
    decreases q.len(),
{
    if q.len() == 0 {
        Seq::empty()
    } else {
        gather(q.drop_last(), p) + p(q.last())
    }
}

/// What `p` gives for each element of `q`.
pub open spec fn image<A, B>(q: Seq<A>, p: spec_fn(A) -> B) -> Seq<B> {
    Seq::new(q.len(), |i: int| p(q[i]))
}

pub proof fn lemma_gather_push<A, B>(q: Seq<A>, x: A, p: spec_fn(A) -> Seq<B>)
    ensures
        gather(q.push(x), p) == gather(q, p) + p(x),
{
    assert(q.push(x).drop_last() =~= q);
}

/// `x` is in what is gathered exactly where some element gives it.
pub proof fn lemma_gather_contains<A, B>(q: Seq<A>, p: spec_fn(A) -> Seq<B>, x: B)
    ensures
        gather(q, p).contains(x) <==> exists|i: int| 0 <= i < q.len() && p(#[trigger] q[i]).contains(x),
    decreases q.len(),
{
    if q.len() > 0 {
        let d = q.drop_last();
        lemma_gather_contains(d, p, x);
        let g = gather(d, p);
        let l = p(q.last());
        if gather(q, p).contains(x) {
            let k = choose|k: int| 0 <= k < (g + l).len() && (g + l)[k] == x;
            if k < g.len() {
                assert(g[k] == x);
                assert(g.contains(x));
                let i = choose|i: int| 0 <= i < d.len() && p(#[trigger] d[i]).contains(x);
                assert(q[i] == d[i]);
            } else {
                assert(l[k - g.len()] == x);
                assert(p(q[q.len() - 1]).contains(x));
            }
        }
        if exists|i: int| 0 <= i < q.len() && p(#[trigger] q[i]).contains(x) {
            let i = choose|i: int| 0 <= i < q.len() && p(#[trigger] q[i]).contains(x);
            if i < d.len() {
                assert(d[i] == q[i]);
                assert(g.contains(x));
                let k = choose|k: int| 0 <= k < g.len() && g[k] == x;
                assert((g + l)[k] == x);
            } else {
                let k = choose|k: int| 0 <= k < l.len() && l[k] == x;
                assert((g + l)[g.len() + k] == x);
            }
        }
    }
}

/// The elements that `f` selects.
pub(crate) fn keep<T: Entry, F: Fn(&T) -> bool>(
    v: &Vec<T>,
    f: F,
    Ghost(p): Ghost<spec_fn(T::V) -> bool>,
) -> (r: Vec<T>)
    requires
        decides(f, p),
    ensures
        views(r@) == views(v@).filter(p),
{
    let mut r: Vec<T> = Vec::new();
    let mut i: usize = 0;
    proof {
        reveal(Seq::filter);
        assert(views(v@).take(0) =~= Seq::<T::V>::empty());
        assert(views(r@) =~= Seq::<T::V>::empty());
    }
    while i < v.len()
        invariant
            i <= v.len(),
            decides(f, p),
            views(r@) == views(v@).take(i as int).filter(p),
        decreases v.len() - i,
    {
        let ghost before = r@;
        proof {
            reveal(Seq::filter);
            assert(views(v@).take(i + 1).drop_last() =~= views(v@).take(i as int));
            assert(views(v@).take(i + 1).last() == v@[i as int]@);
        }
        if f(&v[i]) {
            r.push(v[i].duplicate());
            assert(views(r@) =~= views(before).push(v@[i as int]@));
        }
        i = i + 1;
    }
    assert(views(v@).take(i as int) =~= views(v@));
    r
}

/// What `f` gives for each element.
pub(crate) fn map_all<T: Entry, U: Entry, F: Fn(&T) -> U>(
    v: &Vec<T>,
    f: F,
    Ghost(p): Ghost<spec_fn(T::V) -> U::V>,
) -> (r: Vec<U>)
    requires
        forall|t: &T| #[trigger] f.requires((t,)),
        forall|t: &T, u: U| #[trigger] f.ensures((t,), u) ==> u@ == p(t@),
    ensures
        views(r@) == image(views(v@), p),
{
    let mut r: Vec<U> = Vec::new();
    let mut i: usize = 0;
    while i < v.len()
        invariant
            i <= v.len(),
            forall|t: &T| #[trigger] f.requires((t,)),
            forall|t: &T, u: U| #[trigger] f.ensures((t,), u) ==> u@ == p(t@),
            r@.len() == i,
            forall|k: int| 0 <= k < i ==> r@[k]@ == p(v@[k]@),
        decreases v.len() - i,
    {
        r.push(f(&v[i]));
        i = i + 1;
    }
    assert(views(r@) =~= image(views(v@), p));
    r
}

/// What `f` gives for each element, as plain values.
pub(crate) fn copy_map<T: Entry, U: Copy, F: Fn(&T) -> U>(
    v: &Vec<T>,
    f: F,
    Ghost(p): Ghost<spec_fn(T::V) -> U>,
) -> (r: Vec<U>)
    requires
        forall|t: &T| #[trigger] f.requires((t,)),
        forall|t: &T, u: U| #[trigger] f.ensures((t,), u) ==> u == p(t@),
    ensures
        r@ == image(views(v@), p),
{
    let mut r: Vec<U> = Vec::new();
    let mut i: usize = 0;
    while i < v.len()
        invariant
            i <= v.len(),
            forall|t: &T| #[trigger] f.requires((t,)),
            forall|t: &T, u: U| #[trigger] f.ensures((t,), u) ==> u == p(t@),
            r@.len() == i,
            forall|k: int| 0 <= k < i ==> r@[k] == p(v@[k]@),
        decreases v.len() - i,
    {
        r.push(f(&v[i]));
        i = i + 1;
    }
    assert(r@ =~= image(views(v@), p));
    r
}

/// The plain values that `f` gives for each element, one behind the other.
pub(crate) fn gather_all<T: Entry, U: Copy, F: Fn(&T) -> Vec<U>>(
    v: &Vec<T>,
    f: F,
    Ghost(p): Ghost<spec_fn(T::V) -> Seq<U>>,
) -> (r: Vec<U>)
    requires
        forall|t: &T| #[trigger] f.requires((t,)),
        forall|t: &T, u: Vec<U>| #[trigger] f.ensures((t,), u) ==> u@ == p(t@),
    ensures
        r@ == gather(views(v@), p),
{
    let mut r: Vec<U> = Vec::new();
    let mut i: usize = 0;
    assert(views(v@).take(0) =~= Seq::<T::V>::empty());
    while i < v.len()
        invariant
            i <= v.len(),
            forall|t: &T| #[trigger] f.requires((t,)),
            forall|t: &T, u: Vec<U>| #[trigger] f.ensures((t,), u) ==> u@ == p(t@),
            r@ == gather(views(v@).take(i as int), p),
        decreases v.len() - i,
    {
        let mut part = f(&v[i]);
        r.append(&mut part);
        proof {
            assert(views(v@).take(i + 1) =~= views(v@).take(i as int).push(v@[i as int]@));
            lemma_gather_push(views(v@).take(i as int), v@[i as int]@, p);
        }
        i = i + 1;
    }
    assert(views(v@).take(i as int) =~= views(v@));
    r
}

/// Moves the elements of `b` behind those of `a`.
pub fn append_all<T: Entry>(a: &mut Vec<T>, b: Vec<T>)
    ensures
        views(final(a)@) == views(old(a)@) + views(b@),
{
    let mut rest = b;
    a.append(&mut rest);
    assert(views(a@) =~= views(old(a)@) + views(b@));
}

/// A list that can itself be held in a map.
#[derive(Debug, PartialEq, Eq)]
pub struct List<T: Entry> {
    pub items: Vec<T>,
}

impl<T: Entry> View for List<T> {
    type V = Seq<T::V>;

    open spec fn view(&self) -> Seq<T::V> {
        views(self.items@)
    }
}

impl<T: Entry> Entry for List<T> {
    fn duplicate(&self) -> (r: Self) {
        List { items: duplicate_all(&self.items) }
    }
}

impl<T: Entry> List<T> {
    pub fn empty() -> (r: Self)
        ensures
            r@ == Seq::<T::V>::empty(),
    {
        let r = List { items: Vec::new() };
        assert(r@ =~= Seq::<T::V>::empty());
        r
    }

    pub fn push(&mut self, t: T)
        ensures
            final(self)@ == old(self)@.push(t@),
    {
        self.items.push(t);
        assert(self@ =~= old(self)@.push(t@));
    }
}

} // verus!
