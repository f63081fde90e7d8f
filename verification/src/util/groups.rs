//! Values grouped under identifiers.

use vstd::prelude::*;

use crate::util::id_map::{Entry, IdMap};
use crate::util::lists::List;

verus! {

/// What stands at `k`, or nothing.
pub open spec fn group_at<V>(m: Map<u32, Seq<V>>, k: u32) -> Seq<V> {
    if m.contains_key(k) {
        m[k]
    } else {
        Seq::empty()
    }
}

/// The groups with `v` behind what stands at `k`.
pub open spec fn pushed_at<V>(m: Map<u32, Seq<V>>, k: u32, v: V) -> Map<u32, Seq<V>> {
    m.insert(k, group_at(m, k).push(v))
}

/// The groups with each value of `q` behind what stands at its key.
pub open spec fn grouped_onto<V>(m: Map<u32, Seq<V>>, q: Seq<(u32, V)>) -> Map<u32, Seq<V>>
    decreases q.len(),
{
    if q.len() == 0 {
        m
    } else {
        pushed_at(grouped_onto(m, q.drop_last()), q.last().0, q.last().1)
    }
}

/// The values of `q` under their keys, in the order of `q`.
pub open spec fn grouped<V>(q: Seq<(u32, V)>) -> Map<u32, Seq<V>> {
    grouped_onto(Map::empty(), q)
}

pub proof fn lemma_grouped_push<V>(m: Map<u32, Seq<V>>, q: Seq<(u32, V)>, x: (u32, V))
    ensures
        grouped_onto(m, q.push(x)) == pushed_at(grouped_onto(m, q), x.0, x.1),
{
    assert(q.push(x).drop_last() =~= q);
}

/// Puts `t` behind what stands at `k`.
pub fn push_at<T: Entry>(m: &mut IdMap<List<T>>, k: u32, t: T)
    ensures
        final(m)@ == pushed_at(old(m)@, k, t@),
{
    let mut group: List<T> = match m.remove(k) {
        Some(group) => group,
        None => List::empty(),
    };
    group.push(t);
    m.insert(k, group);
    assert(m@ =~= pushed_at(old(m)@, k, t@));
}

} // verus!
