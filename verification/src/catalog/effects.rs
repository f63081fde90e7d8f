//! The words in which the laws of the catalog say what a request does: what stands in the catalog,
//! what is kept, and what the frontends are told.

use vstd::prelude::*;

use crate::catalog::notify::{Audience, NotificationModel, Operation, RelationInfoModel};
use crate::catalog::state::DatabaseManagerModel;
use crate::util::id_map::{ids_where, inserted, lemma_ids_where, values_at, values_where};
use crate::util::ids::{lemma_listing_exists, listing};
use crate::util::lists::image;

verus! {

/// `after` differs from `before` at most at `ids`.
pub open spec fn kept_but<V>(before: Map<u32, V>, after: Map<u32, V>, ids: Set<u32>) -> bool {
    forall|x: u32|
        !ids.contains(x) ==> {
            &&& (#[trigger] after.contains_key(x) <==> before.contains_key(x))
            &&& before.contains_key(x) ==> after[x] == before[x]
        }
}

/// Every relation is known by its own identifier.
pub open spec fn keyed_by_id(db: DatabaseManagerModel) -> bool {
    &&& forall|x: u32| #[trigger] db.tables.contains_key(x) ==> db.tables[x].id == x
    &&& forall|x: u32| #[trigger] db.views.contains_key(x) ==> db.views[x].id == x
    &&& forall|x: u32| #[trigger] db.sinks.contains_key(x) ==> db.sinks[x].id == x
    &&& forall|x: u32| #[trigger] db.subscriptions.contains_key(x) ==> db.subscriptions[x].id == x
    &&& forall|x: u32| #[trigger] db.sources.contains_key(x) ==> db.sources[x].id == x
    &&& forall|x: u32| #[trigger] db.indexes.contains_key(x) ==> db.indexes[x].id == x
}

/// The catalog holds finitely many relations.
pub open spec fn finite_relations(db: DatabaseManagerModel) -> bool {
    &&& db.tables.dom().finite()
    &&& db.views.dom().finite()
    &&& db.sinks.dom().finite()
    &&& db.subscriptions.dom().finite()
    &&& db.sources.dom().finite()
    &&& db.indexes.dom().finite()
}

/// The catalog holds exactly this relation under its identifier.
pub open spec fn stands(db: DatabaseManagerModel, info: RelationInfoModel) -> bool {
    match info {
        RelationInfoModel::Table(x) => db.tables.contains_key(x.id) && db.tables[x.id] == x,
        RelationInfoModel::Source(x) => db.sources.contains_key(x.id) && db.sources[x.id] == x,
        RelationInfoModel::Sink(x) => db.sinks.contains_key(x.id) && db.sinks[x.id] == x,
        RelationInfoModel::Subscription(x) => db.subscriptions.contains_key(x.id)
            && db.subscriptions[x.id] == x,
        RelationInfoModel::Index(x) => db.indexes.contains_key(x.id) && db.indexes[x.id] == x,
        RelationInfoModel::View(x) => db.views.contains_key(x.id) && db.views[x.id] == x,
    }
}

/// There is one message, to the frontends and about relations.
pub open spec fn one_message(messages: Seq<NotificationModel>, operation: Operation) -> bool {
    &&& messages.len() == 1
    &&& messages[0].audience == Audience::Frontend
    &&& messages[0].operation == operation
    &&& messages[0].info is RelationGroup
}

/// The relations that the message tells of.
pub open spec fn told_of(messages: Seq<NotificationModel>) -> Seq<RelationInfoModel> {
    messages[0].info->RelationGroup_0
}

/// The frontends are told of relations that stand in the catalog as they are told.
pub open spec fn told_truly(
    db: DatabaseManagerModel,
    messages: Seq<NotificationModel>,
    operation: Operation,
) -> bool {
    &&& one_message(messages, operation)
    &&& forall|k: int| 0 <= k < told_of(messages).len() ==> stands(db, #[trigger] told_of(messages)[k])
}

/// The frontends are told of this one.
pub open spec fn tells(messages: Seq<NotificationModel>, info: RelationInfoModel) -> bool {
    told_of(messages).contains(info)
}

/// No two elements of `q` have the same identifier.
pub open spec fn distinct_by<V>(q: Seq<V>, p: spec_fn(V) -> u32) -> bool {
    forall|i: int, j: int| 0 <= i < j < q.len() ==> p(#[trigger] q[i]) != p(#[trigger] q[j])
}

/// What is put in without this identifier leaves what stands there.
pub proof fn lemma_inserted_other<V>(m: Map<u32, V>, q: Seq<V>, p: spec_fn(V) -> u32, k: u32)
    requires
        forall|i: int| 0 <= i < q.len() ==> p(#[trigger] q[i]) != k,
    ensures
        inserted(m, q, p).contains_key(k) == m.contains_key(k),
        m.contains_key(k) ==> inserted(m, q, p)[k] == m[k],
    decreases q.len(),
{
    if q.len() > 0 {
        let d = q.drop_last();
        assert forall|i: int| 0 <= i < d.len() implies p(#[trigger] d[i]) != k by {
            assert(d[i] == q[i]);
        }
        lemma_inserted_other(m, d, p, k);
        assert(p(q[q.len() - 1]) != k);
    }
}

/// What is put in last under an identifier stands there.
pub proof fn lemma_inserted_at<V>(m: Map<u32, V>, q: Seq<V>, p: spec_fn(V) -> u32, i: int)
    requires
        0 <= i < q.len(),
        forall|j: int| i < j < q.len() ==> p(#[trigger] q[j]) != p(q[i]),
    ensures
        inserted(m, q, p).contains_key(p(q[i])),
        inserted(m, q, p)[p(q[i])] == q[i],
    decreases q.len(),
{
    let d = q.drop_last();
    if i < q.len() - 1 {
        assert forall|j: int| i < j < d.len() implies p(#[trigger] d[j]) != p(d[i]) by {
            assert(d[j] == q[j]);
            assert(d[i] == q[i]);
        }
        lemma_inserted_at(m, d, p, i);
        assert(d[i] == q[i]);
        assert(p(q[q.len() - 1]) != p(q[i]));
    }
}

/// A value is among those that are looked for exactly where it stands in the map and is looked for.
pub proof fn lemma_values_where<V>(m: Map<u32, V>, p: spec_fn(V) -> bool, v: V)
    requires
        m.dom().finite(),
    ensures
        values_where(m, p).contains(v) <==> p(v) && exists|id: u32| #[trigger]
            m.contains_key(id) && m[id] == v,
        values_where(m, p).len() == ids_where(m, p).len(),
{
    lemma_ids_where(m, p);
    let ids = ids_where(m, p);
    let q = values_where(m, p);
    if q.contains(v) {
        let k = choose|k: int| 0 <= k < q.len() && q[k] == v;
        assert(ids.contains(ids[k]));
        assert(m.contains_key(ids[k]) && m[ids[k]] == v);
    }
    if p(v) && exists|id: u32| #[trigger] m.contains_key(id) && m[id] == v {
        let id = choose|id: u32| #[trigger] m.contains_key(id) && m[id] == v;
        assert(ids.contains(id));
        let k = choose|k: int| 0 <= k < ids.len() && ids[k] == id;
        assert(q[k] == v);
    }
}

/// What is made of the values that are looked for.
pub proof fn lemma_image_where<V, B>(m: Map<u32, V>, p: spec_fn(V) -> bool, f: spec_fn(V) -> B, x: B)
    requires
        m.dom().finite(),
    ensures
        image(values_where(m, p), f).contains(x) <==> exists|id: u32| #[trigger]
            m.contains_key(id) && p(m[id]) && f(m[id]) == x,
        image(values_where(m, p), f).len() == ids_where(m, p).len(),
{
    lemma_ids_where(m, p);
    let ids = ids_where(m, p);
    let q = image(values_where(m, p), f);
    if q.contains(x) {
        let k = choose|k: int| 0 <= k < q.len() && q[k] == x;
        assert(ids.contains(ids[k]));
        assert(m.contains_key(ids[k]) && p(m[ids[k]]) && f(m[ids[k]]) == x);
    }
    if exists|id: u32| #[trigger] m.contains_key(id) && p(m[id]) && f(m[id]) == x {
        let id = choose|id: u32| #[trigger] m.contains_key(id) && p(m[id]) && f(m[id]) == x;
        assert(ids.contains(id));
        let k = choose|k: int| 0 <= k < ids.len() && ids[k] == id;
        assert(q[k] == x);
    }
}

/// The values of a map stand in the order of their identifiers, each once.
pub proof fn lemma_values_all<V>(m: Map<u32, V>, v: V)
    requires
        m.dom().finite(),
    ensures
        values_at(m, listing(m.dom())).contains(v) <==> exists|id: u32| #[trigger]
            m.contains_key(id) && m[id] == v,
        values_at(m, listing(m.dom())).len() == m.dom().len(),
{
    lemma_listing_exists(m.dom());
    let l = listing(m.dom());
    let q = values_at(m, l);
    if q.contains(v) {
        let k = choose|k: int| 0 <= k < q.len() && q[k] == v;
        assert(l.contains(l[k]));
        assert(m.contains_key(l[k]) && m[l[k]] == v);
    }
    if exists|id: u32| #[trigger] m.contains_key(id) && m[id] == v {
        let id = choose|id: u32| #[trigger] m.contains_key(id) && m[id] == v;
        assert(l.contains(id));
        let k = choose|k: int| 0 <= k < l.len() && l[k] == id;
        assert(q[k] == v);
    }
    assert(l.to_set() =~= m.dom());
    l.unique_seq_to_set();
}

} // verus!
