//! Sequences of identifiers: ordered listings of sets, occurrence counts and membership.

use vstd::prelude::*;

verus! {

/// The identifiers in `q` stand in strictly ascending order.
pub open spec fn ascending(q: Seq<u32>) -> bool {
    forall|i: int, j: int| 0 <= i < j < q.len() ==> q[i] < q[j]
}

/// `q` lists exactly the members of `s`, in ascending order.
pub open spec fn lists(q: Seq<u32>, s: Set<u32>) -> bool {
    &&& ascending(q)
    &&& forall|x: u32| #[trigger] q.contains(x) <==> s.contains(x)
}

/// The members of a finite set of identifiers, in ascending order.
pub open spec fn listing(s: Set<u32>) -> Seq<u32> {
    choose|q: Seq<u32>| lists(q, s)
}

/// An ascending sequence is determined by its members.
pub proof fn lemma_ascending_unique(a: Seq<u32>, b: Seq<u32>)
    requires
        ascending(a),
        ascending(b),
        forall|x: u32| #[trigger] a.contains(x) <==> b.contains(x),
    ensures
        a == b,
    decreases a.len(),
{
    if a.len() == 0 {
        if b.len() > 0 {
            assert(b.contains(b[0]));
            assert(a.contains(b[0]));
        }
        assert(a =~= b);
    } else if b.len() == 0 {
        assert(a.contains(a[0]));
        assert(b.contains(a[0]));
    } else {
        let x = a.last();
        let y = b.last();
        assert(a.contains(x));
        assert(b.contains(y));
        assert(b.contains(x));
        let i = choose|i: int| 0 <= i < b.len() && b[i] == x;
        assert(a.contains(y));
        let j = choose|j: int| 0 <= j < a.len() && a[j] == y;
        assert(x == y) by {
            if i < b.len() - 1 {
                assert(b[i] < b[b.len() - 1]);
            }
            if j < a.len() - 1 {
                assert(a[j] < a[a.len() - 1]);
            }
        }
        let a1 = a.drop_last();
        let b1 = b.drop_last();
        assert forall|z: u32| #[trigger] a1.contains(z) <==> b1.contains(z) by {
            if a1.contains(z) {
                let k = choose|k: int| 0 <= k < a1.len() && a1[k] == z;
                assert(a[k] == z && a[k] < a[a.len() - 1]);
                assert(a.contains(z));
                assert(b.contains(z));
                let m = choose|m: int| 0 <= m < b.len() && b[m] == z;
                assert(b1[m] == z);
            }
            if b1.contains(z) {
                let k = choose|k: int| 0 <= k < b1.len() && b1[k] == z;
                assert(b[k] == z && b[k] < b[b.len() - 1]);
                assert(b.contains(z));
                assert(a.contains(z));
                let m = choose|m: int| 0 <= m < a.len() && a[m] == z;
                assert(a1[m] == z);
            }
        }
        lemma_ascending_unique(a1, b1);
        assert(a =~= a1.push(x));
        assert(b =~= b1.push(y));
    }
}

/// A sequence that lists a set is its listing.
pub proof fn lemma_listing_is(q: Seq<u32>, s: Set<u32>)
    requires
        lists(q, s),
    ensures
        listing(s) == q,
{
    let l = listing(s);
    assert(lists(l, s));
    lemma_ascending_unique(l, q);
}

/// Every finite set of identifiers has a listing.
pub proof fn lemma_listing_exists(s: Set<u32>)
    requires
        s.finite(),
    ensures
        lists(listing(s), s),
    decreases s.len(),
{
    if s.len() == 0 {
        assert(s =~= Set::<u32>::empty());
        let q = Seq::<u32>::empty();
        assert(lists(q, s));
    } else {
        let le = |x: u32, y: u32| x <= y;
        let m = s.find_unique_maximal(le);
        s.find_unique_maximal_ensures(le);
        s.lemma_maximal_equivalent_greatest(le, m);
        let r = s.remove(m);
        lemma_listing_exists(r);
        let q = listing(r).push(m);
        let l = listing(r);
        assert forall|i: int, j: int| 0 <= i < j < q.len() implies q[i] < q[j] by {
            if j == l.len() {
                assert(l.contains(l[i]));
                assert(s.contains(l[i]) && l[i] != m);
                assert(le(l[i], m));
            }
        }
        assert forall|x: u32| #[trigger] q.contains(x) <==> s.contains(x) by {
            if s.contains(x) {
                if x == m {
                    assert(q[q.len() - 1] == x);
                } else {
                    assert(l.contains(x));
                    let k = choose|k: int| 0 <= k < l.len() && l[k] == x;
                    assert(q[k] == x);
                }
            }
            if q.contains(x) {
                let k = choose|k: int| 0 <= k < q.len() && q[k] == x;
                if k < l.len() {
                    assert(l.contains(x));
                }
            }
        }
        assert(lists(q, s));
    }
}

/// How often `x` occurs in `q`.
pub open spec fn occurrences(q: Seq<u32>, x: u32) -> nat
    decreases q.len(),
{
    if q.len() == 0 {
        0
    } else {
        occurrences(q.drop_last(), x) + if q.last() == x { 1nat } else { 0nat }
    }
}

pub proof fn lemma_occurrences_add(a: Seq<u32>, b: Seq<u32>, x: u32)
    ensures
        occurrences(a + b, x) == occurrences(a, x) + occurrences(b, x),
    decreases b.len(),
{
    if b.len() == 0 {
        assert(a + b =~= a);
    } else {
        lemma_occurrences_add(a, b.drop_last(), x);
        assert((a + b).drop_last() =~= a + b.drop_last());
    }
}

pub proof fn lemma_occurrences_contains(q: Seq<u32>, x: u32)
    ensures
        occurrences(q, x) > 0 <==> q.contains(x),
        occurrences(q, x) <= q.len(),
    decreases q.len(),
{
    if q.len() > 0 {
        lemma_occurrences_contains(q.drop_last(), x);
        if q.drop_last().contains(x) {
            let k = choose|k: int| 0 <= k < q.drop_last().len() && q.drop_last()[k] == x;
            assert(q[k] == x);
        }
        if q.contains(x) {
            let k = choose|k: int| 0 <= k < q.len() && q[k] == x;
            if k < q.len() - 1 {
                assert(q.drop_last()[k] == x);
            }
        }
        if q.last() == x {
            assert(q[q.len() - 1] == x);
        }
    }
}

/// Whether `x` is among `v`.
pub fn contains_id(v: &Vec<u32>, x: u32) -> (r: bool)
    ensures
        r == v@.contains(x),
{
    let mut i: usize = 0;
    while i < v.len()
        invariant
            i <= v.len(),
            forall|k: int| 0 <= k < i ==> v@[k] != x,
        decreases v.len() - i,
    {
        if v[i] == x {
            assert(v@[i as int] == x);
            return true;
        }
        i = i + 1;
    }
    false
}

/// Whether no identifier occurs twice.
pub fn check_no_duplicates(v: &Vec<u32>) -> (r: bool)
    ensures
        r == v@.no_duplicates(),
{
    let mut i: usize = 0;
    while i < v.len()
        invariant
            i <= v.len(),
            forall|a: int, b: int| 0 <= a < b < i ==> v@[a] != v@[b],
        decreases v.len() - i,
    {
        let mut j: usize = 0;
        while j < i
            invariant
                j <= i < v.len(),
                forall|a: int| 0 <= a < j ==> v@[a] != v@[i as int],
            decreases i - j,
        {
            if v[j] == v[i] {
                assert(v@[j as int] == v@[i as int]);
                return false;
            }
            j = j + 1;
        }
        i = i + 1;
    }
    true
}

} // verus!
