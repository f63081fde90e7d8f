//! Reference counts: how often an identifier is referred to. An identifier that is no longer
//! referred to has no entry.

use vstd::prelude::*;

use crate::util::id_map::IdMap;
use crate::util::ids::{lemma_occurrences_add, lemma_occurrences_contains, occurrences};
use crate::util::outside::counts;

verus! {

/// The count of `id`, zero where it has no entry.
pub open spec fn count_of(c: Map<u32, usize>, id: u32) -> nat {
    if c.contains_key(id) {
        c[id] as nat
    } else {
        0
    }
}

/// Adding a reference for each of `ids` overflows no count.
pub open spec fn fits(c: Map<u32, usize>, ids: Seq<u32>) -> bool {
    forall|id: u32| #[trigger] occurrences(ids, id) + count_of(c, id) <= usize::MAX
}

/// The counts after one more reference for each of `ids`.
pub open spec fn raised(c: Map<u32, usize>, ids: Seq<u32>) -> Map<u32, usize> {
    Map::new(
        |id: u32| c.contains_key(id) || ids.contains(id),
        |id: u32| (count_of(c, id) + occurrences(ids, id)) as usize,
    )
}

/// Every reference in `ids` is counted.
pub open spec fn covers(c: Map<u32, usize>, ids: Seq<u32>) -> bool {
    forall|id: u32| #[trigger] occurrences(ids, id) <= count_of(c, id)
}

/// The counts after one reference less for each of `ids`.
pub open spec fn lowered(c: Map<u32, usize>, ids: Seq<u32>) -> Map<u32, usize> {
    Map::new(
        |id: u32| c.contains_key(id) && (occurrences(ids, id) == 0 || c[id] > occurrences(ids, id)),
        |id: u32| (c[id] - occurrences(ids, id)) as usize,
    )
}

/// No entry counts zero.
pub open spec fn positive(c: Map<u32, usize>) -> bool {
    forall|id: u32| #[trigger] c.contains_key(id) ==> c[id] > 0
}

/// `n` references to `id`.
pub open spec fn times(id: u32, n: nat) -> Seq<u32> {
    Seq::new(n, |i: int| id)
}

pub proof fn lemma_times(id: u32, n: nat, x: u32)
    ensures
        occurrences(times(id, n), x) == if x == id { n } else { 0 },
    decreases n,
{
    if n > 0 {
        lemma_times(id, (n - 1) as nat, x);
        assert(times(id, n).drop_last() =~= times(id, (n - 1) as nat));
    }
}

/// References that are added and then taken back leave the counts as they were.
pub proof fn lemma_lowered_undoes_raised(c: Map<u32, usize>, ids: Seq<u32>)
    requires
        positive(c),
        fits(c, ids),
    ensures
        covers(raised(c, ids), ids),
        lowered(raised(c, ids), ids) == c,
{
    let r = raised(c, ids);
    assert forall|id: u32| #[trigger] occurrences(ids, id) <= count_of(r, id) by {
        lemma_occurrences_contains(ids, id);
    }
    assert forall|id: u32| lowered(r, ids).contains_key(id) <==> c.contains_key(id) by {
        lemma_occurrences_contains(ids, id);
        assert(occurrences(ids, id) + count_of(c, id) <= usize::MAX);
    }
    assert forall|id: u32| c.contains_key(id) implies lowered(r, ids)[id] == c[id] by {
        assert(occurrences(ids, id) + count_of(c, id) <= usize::MAX);
    }
    assert(lowered(r, ids) =~= c);
}

/// Taking references back in two steps is the same as in one.
pub proof fn lemma_lowered_add(c: Map<u32, usize>, a: Seq<u32>, b: Seq<u32>)
    requires
        covers(c, a + b),
    ensures
        covers(c, a),
        covers(lowered(c, a), b),
        lowered(lowered(c, a), b) == lowered(c, a + b),
{
    assert forall|id: u32| #[trigger] occurrences(a, id) <= count_of(c, id) by {
        lemma_occurrences_add(a, b, id);
        assert(occurrences(a + b, id) <= count_of(c, id));
    }
    let l = lowered(c, a);
    assert forall|id: u32| #[trigger] occurrences(b, id) <= count_of(l, id) by {
        lemma_occurrences_add(a, b, id);
        assert(occurrences(a + b, id) <= count_of(c, id));
    }
    assert forall|id: u32| lowered(l, b).contains_key(id) <==> lowered(c, a + b).contains_key(id) by {
        lemma_occurrences_add(a, b, id);
        assert(occurrences(a + b, id) <= count_of(c, id));
    }
    assert forall|id: u32| lowered(c, a + b).contains_key(id) implies lowered(l, b)[id] == lowered(c, a + b)[id] by {
        lemma_occurrences_add(a, b, id);
    }
    assert(lowered(l, b) =~= lowered(c, a + b));
}

/// Adding references in two steps is the same as in one.
pub proof fn lemma_raised_add(c: Map<u32, usize>, a: Seq<u32>, b: Seq<u32>)
    requires
        fits(c, a + b),
    ensures
        fits(c, a),
        fits(raised(c, a), b),
        raised(raised(c, a), b) == raised(c, a + b),
{
    assert forall|id: u32| #[trigger] occurrences(a, id) + count_of(c, id) <= usize::MAX by {
        lemma_occurrences_add(a, b, id);
        assert(occurrences(a + b, id) + count_of(c, id) <= usize::MAX);
    }
    let l = raised(c, a);
    assert forall|id: u32| #[trigger] occurrences(b, id) + count_of(l, id) <= usize::MAX by {
        lemma_occurrences_add(a, b, id);
        lemma_occurrences_contains(a, id);
        assert(occurrences(a + b, id) + count_of(c, id) <= usize::MAX);
    }
    assert forall|id: u32| raised(l, b).contains_key(id) <==> raised(c, a + b).contains_key(id) by {
        lemma_occurrences_contains(a, id);
        lemma_occurrences_contains(b, id);
        lemma_occurrences_contains(a + b, id);
        lemma_occurrences_add(a, b, id);
    }
    assert forall|id: u32| raised(c, a + b).contains_key(id) implies raised(l, b)[id] == raised(c, a + b)[id] by {
        lemma_occurrences_add(a, b, id);
        lemma_occurrences_contains(a, id);
        assert(occurrences(a + b, id) + count_of(c, id) <= usize::MAX);
    }
    assert(raised(l, b) =~= raised(c, a + b));
}

/// Adds `n` references to `id`.
pub fn raise_by(c: &mut IdMap<usize>, id: u32, n: usize)
    requires
        n > 0,
        count_of(old(c)@, id) + n <= usize::MAX,
    ensures
        final(c)@ == raised(old(c)@, times(id, n as nat)),
{
    let ghost before = c@;
    let k: usize = match c.get(id) {
        Some(k) => *k,
        None => 0,
    };
    c.insert(id, k + n);
    proof {
        let ids = times(id, n as nat);
        assert forall|x: u32| occurrences(ids, x) == if x == id { n as nat } else { 0 } by {
            lemma_times(id, n as nat, x);
        }
        assert forall|x: u32| #[trigger] ids.contains(x) <==> x == id by {
            lemma_occurrences_contains(ids, x);
        }
        assert(c@ =~= raised(before, ids));
    }
}

/// Takes `n` references to `id` back.
pub fn lower_by(c: &mut IdMap<usize>, id: u32, n: usize)
    requires
        n > 0,
        n <= count_of(old(c)@, id),
    ensures
        final(c)@ == lowered(old(c)@, times(id, n as nat)),
{
    let ghost before = c@;
    let k: usize = match c.get(id) {
        Some(k) => *k,
        None => 0,
    };
    if k == n {
        c.remove(id);
    } else {
        c.insert(id, k - n);
    }
    proof {
        let ids = times(id, n as nat);
        assert forall|x: u32| occurrences(ids, x) == if x == id { n as nat } else { 0 } by {
            lemma_times(id, n as nat, x);
        }
        assert(c@ =~= lowered(before, ids));
    }
}

/// Adds a reference for each of `ids`.
pub fn raise_all(c: &mut IdMap<usize>, ids: &Vec<u32>)
    requires
        fits(old(c)@, ids@),
    ensures
        final(c)@ == raised(old(c)@, ids@),
{
    let ghost before = c@;
    let mut i: usize = 0;
    proof {
        let e = ids@.take(0);
        assert(raised(before, e) =~= before);
    }
    while i < ids.len()
        invariant
            i <= ids.len(),
            fits(before, ids@),
            c@ == raised(before, ids@.take(i as int)),
        decreases ids.len() - i,
    {
        let id: u32 = ids[i];
        let ghost a = ids@.take(i as int);
        let ghost b = times(id, 1);
        proof {
            assert(ids@ =~= (a + b) + ids@.skip(i + 1));
            lemma_raised_add(before, a + b, ids@.skip(i + 1));
            lemma_raised_add(before, a, b);
            lemma_times(id, 1, id);
            assert(occurrences(b, id) + count_of(c@, id) <= usize::MAX);
        }
        raise_by(c, id, 1);
        i = i + 1;
        assert(ids@.take(i as int) =~= a + b);
    }
    assert(ids@.take(i as int) =~= ids@);
}

/// Takes a reference back for each of `ids`.
pub fn lower_all(c: &mut IdMap<usize>, ids: &Vec<u32>)
    requires
        covers(old(c)@, ids@),
    ensures
        final(c)@ == lowered(old(c)@, ids@),
{
    let ghost before = c@;
    let mut i: usize = 0;
    proof {
        let e = ids@.take(0);
        assert(lowered(before, e) =~= before);
    }
    while i < ids.len()
        invariant
            i <= ids.len(),
            covers(before, ids@),
            c@ == lowered(before, ids@.take(i as int)),
        decreases ids.len() - i,
    {
        let id: u32 = ids[i];
        let ghost a = ids@.take(i as int);
        let ghost b = times(id, 1);
        proof {
            assert(ids@ =~= (a + b) + ids@.skip(i + 1));
            lemma_lowered_add(before, a + b, ids@.skip(i + 1));
            lemma_lowered_add(before, a, b);
            lemma_times(id, 1, id);
            assert(occurrences(b, id) <= count_of(c@, id));
        }
        lower_by(c, id, 1);
        i = i + 1;
        assert(ids@.take(i as int) =~= a + b);
    }
    assert(ids@.take(i as int) =~= ids@);
}

/// How often each identifier occurs.
pub fn tally(ids: &Vec<u32>) -> (r: IdMap<usize>)
    ensures
        r@ == raised(Map::empty(), ids@),
{
    broadcast use vstd::std_specs::hash::group_hash_axioms;

    let by_id = counts(ids);
    let mut r: IdMap<usize> = IdMap::new();
    let mut i: usize = 0;
    while i < ids.len()
        invariant
            i <= ids.len(),
            forall|id: u32| #[trigger] by_id@.contains_key(id) <==> ids@.contains(id),
            forall|id: u32| #[trigger]
                by_id@.contains_key(id) ==> by_id@[id] == occurrences(ids@, id),
            forall|id: u32| #[trigger] r@.contains_key(id) <==> ids@.take(i as int).contains(id),
            forall|id: u32| #[trigger] r@.contains_key(id) ==> r@[id] == occurrences(ids@, id),
        decreases ids.len() - i,
    {
        broadcast use vstd::std_specs::hash::group_hash_axioms;

        let id: u32 = ids[i];
        proof {
            let a = ids@.take(i as int);
            let b = ids@.take(i + 1);
            assert(b =~= a.push(id));
            assert(ids@[i as int] == id);
            assert(by_id@.contains_key(id));
            assert forall|x: u32| #[trigger] b.contains(x) <==> a.contains(x) || x == id by {
                if a.contains(x) {
                    let k = choose|k: int| 0 <= k < a.len() && a[k] == x;
                    assert(b[k] == x);
                }
                assert(b[i as int] == id);
                if b.contains(x) && x != id {
                    let k = choose|k: int| 0 <= k < b.len() && b[k] == x;
                    assert(a[k] == x);
                }
            }
        }
        match by_id.get(&id) {
            Some(count) => {
                r.insert(id, *count);
            },
            None => {
                assert(false);
            },
        }
        i = i + 1;
    }
    proof {
        assert(ids@.take(i as int) =~= ids@);
        assert(r@ =~= raised(Map::empty(), ids@));
    }
    r
}

/// Whether every reference in `ids` is counted.
pub fn check_covers(c: &IdMap<usize>, ids: &Vec<u32>) -> (r: bool)
    ensures
        r == covers(c@, ids@),
{
    let t = tally(ids);
    let mut i: usize = 0;
    while i < ids.len()
        invariant
            i <= ids.len(),
            t@ == raised(Map::empty(), ids@),
            forall|k: int| 0 <= k < i ==> occurrences(ids@, #[trigger] ids@[k]) <= count_of(c@, ids@[k]),
        decreases ids.len() - i,
    {
        let id: u32 = ids[i];
        proof {
            lemma_tallied(ids, id);
            assert(ids@[i as int] == id);
        }
        let n: usize = count(&t, id);
        if n > count(c, id) {
            assert(occurrences(ids@, id) > count_of(c@, id));
            return false;
        }
        i = i + 1;
    }
    proof {
        assert forall|id: u32| #[trigger] occurrences(ids@, id) <= count_of(c@, id) by {
            lemma_occurrences_contains(ids@, id);
            if ids@.contains(id) {
                let k = choose|k: int| 0 <= k < ids@.len() && ids@[k] == id;
                assert(occurrences(ids@, ids@[k]) <= count_of(c@, ids@[k]));
            }
        }
    }
    true
}

/// Whether a reference for each of `ids` can be added.
pub fn check_fits(c: &IdMap<usize>, ids: &Vec<u32>) -> (r: bool)
    ensures
        r == fits(c@, ids@),
{
    let t = tally(ids);
    let mut i: usize = 0;
    while i < ids.len()
        invariant
            i <= ids.len(),
            t@ == raised(Map::empty(), ids@),
            forall|k: int|
                0 <= k < i ==> occurrences(ids@, #[trigger] ids@[k]) + count_of(c@, ids@[k])
                    <= usize::MAX,
        decreases ids.len() - i,
    {
        let id: u32 = ids[i];
        proof {
            lemma_tallied(ids, id);
            assert(ids@[i as int] == id);
        }
        let n: usize = count(&t, id);
        if n > usize::MAX - count(c, id) {
            assert(occurrences(ids@, id) + count_of(c@, id) > usize::MAX);
            return false;
        }
        i = i + 1;
    }
    proof {
        assert forall|id: u32| #[trigger] occurrences(ids@, id) + count_of(c@, id) <= usize::MAX by {
            lemma_occurrences_contains(ids@, id);
            if ids@.contains(id) {
                let k = choose|k: int| 0 <= k < ids@.len() && ids@[k] == id;
                assert(occurrences(ids@, ids@[k]) + count_of(c@, ids@[k]) <= usize::MAX);
            }
        }
    }
    true
}

/// The count of `id`, zero where it has no entry.
pub fn count(c: &IdMap<usize>, id: u32) -> (r: usize)
    ensures
        r == count_of(c@, id),
{
    match c.get(id) {
        Some(n) => *n,
        None => 0,
    }
}

/// What is tallied of a vector is what occurs in it.
proof fn lemma_tallied(ids: &Vec<u32>, id: u32)
    ensures
        count_of(raised(Map::empty(), ids@), id) == occurrences(ids@, id),
{
    lemma_occurrences_contains(ids@, id);
    assert(ids.len() <= usize::MAX);
}

} // verus!
