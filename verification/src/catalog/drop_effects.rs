//! What a drop takes and what it leaves: every relation that goes has a reason to, what went is no
//! longer counted, and the frontends are told of exactly that.

use vstd::prelude::*;

use crate::catalog::database::key_in_database;
use crate::catalog::drop::{
    dependents, drop_plan, index_on, index_table_dependents, index_tables_of, indexes_of,
    internal_tables, is_shared, lemma_step_progress, no_table_of, planned, start, step, unplanned,
    DropMode, DropPlanModel, JobFragmentsModel, RelationIdEnum,
};
use crate::catalog::drop_apply::{
    drop_messages, drop_result, dropped, into_other_table, planned_connections, planned_infos,
    planned_jobs, planned_objects, planned_owners, planned_relations, planned_secrets,
};
use crate::catalog::drop_database::{
    connection_of_database, database_drop_messages, database_drop_refusal, database_jobs,
    database_objects, database_owners, function_of_database, index_of_database, named_table,
    schema_of_database, secret_of_database, shared_source, sink_of_database, source_of_database,
    subscription_of_database, table_of_database, view_of_database, without_database,
};
use crate::catalog::drop_laws::{depends, id_of, in_plan, is_finite, known, lemma_dependents};
use crate::catalog::effects::kept_but;
use crate::catalog::notify::{Audience, InfoModel, Operation, RelationInfoModel};
use crate::catalog::privilege::{stripped_users, updated_users, user_updates};
use crate::catalog::relations::{
    connection_owners, function_owners, index_infos, index_owners, one_or_none, schema_owners,
    secret_owners, sink_connections, sink_dependencies, sink_infos, sink_owners, sink_secrets,
    source_connections, source_infos, source_owners, source_secrets, subscription_dependencies,
    subscription_infos, subscription_owners, table_dependencies, table_infos, table_owners,
    view_dependencies, view_infos, view_owners,
};
use crate::catalog::state::{CatalogManagerCoreModel, DatabaseManagerModel};
use crate::catalog::types::{
    Object, RelationKeyModel, SinkModel, SourceModel, TableModel, ViewInfoModel,
};
use crate::util::counts::{count_of, covers, lowered};
use crate::util::id_map::{ids_where, lemma_ids_where, values_at, values_where};
use crate::util::ids::{lemma_listing_exists, listing, occurrences};
use crate::util::lists::{gather, image, lemma_gather_contains};

verus! {

// ---------------------------------------------------------------------------
// Lists of what is planned.
// ---------------------------------------------------------------------------

proof fn lemma_add<A>(a: Seq<A>, b: Seq<A>, x: A)
    ensures
        (a + b).contains(x) <==> a.contains(x) || b.contains(x),
{
    if a.contains(x) {
        let k = choose|k: int| 0 <= k < a.len() && a[k] == x;
        assert((a + b)[k] == x);
    }
    if b.contains(x) {
        let k = choose|k: int| 0 <= k < b.len() && b[k] == x;
        assert((a + b)[a.len() + k] == x);
    }
    if (a + b).contains(x) {
        let k = choose|k: int| 0 <= k < (a + b).len() && (a + b)[k] == x;
        if k < a.len() {
            assert(a[k] == x);
        } else {
            assert(b[k - a.len()] == x);
        }
    }
}

/// What is made of the values at a set of identifiers.
proof fn lemma_image_at<V, B>(m: Map<u32, V>, s: Set<u32>, f: spec_fn(V) -> B, x: B)
    requires
        s.finite(),
    ensures
        image(values_at(m, listing(s)), f).contains(x) <==> exists|id: u32| #[trigger]
            s.contains(id) && f(m[id]) == x,
        image(values_at(m, listing(s)), f).len() == listing(s).len(),
{
    lemma_listing_exists(s);
    let l = listing(s);
    let q = image(values_at(m, l), f);
    if q.contains(x) {
        let k = choose|k: int| 0 <= k < q.len() && q[k] == x;
        assert(l.contains(l[k]));
        assert(s.contains(l[k]) && f(m[l[k]]) == x);
    }
    if exists|id: u32| #[trigger] s.contains(id) && f(m[id]) == x {
        let id = choose|id: u32| #[trigger] s.contains(id) && f(m[id]) == x;
        assert(l.contains(id));
        let k = choose|k: int| 0 <= k < l.len() && l[k] == id;
        assert(q[k] == x);
    }
}

/// What is gathered from the values at a set of identifiers.
proof fn lemma_gather_at<V, B>(m: Map<u32, V>, s: Set<u32>, f: spec_fn(V) -> Seq<B>, x: B)
    requires
        s.finite(),
    ensures
        gather(values_at(m, listing(s)), f).contains(x) <==> exists|id: u32| #[trigger]
            s.contains(id) && f(m[id]).contains(x),
{
    lemma_listing_exists(s);
    let l = listing(s);
    let q = values_at(m, l);
    lemma_gather_contains(q, f, x);
    if gather(q, f).contains(x) {
        let k = choose|k: int| 0 <= k < q.len() && f(#[trigger] q[k]).contains(x);
        assert(l.contains(l[k]));
        assert(s.contains(l[k]) && f(m[l[k]]).contains(x));
    }
    if exists|id: u32| #[trigger] s.contains(id) && f(m[id]).contains(x) {
        let id = choose|id: u32| #[trigger] s.contains(id) && f(m[id]).contains(x);
        assert(l.contains(id));
        let k = choose|k: int| 0 <= k < l.len() && l[k] == id;
        assert(f(q[k]).contains(x));
    }
}

proof fn lemma_image_ids<B>(s: Set<u32>, f: spec_fn(u32) -> B, x: B)
    requires
        s.finite(),
    ensures
        image(listing(s), f).contains(x) <==> exists|id: u32| s.contains(id) && #[trigger] f(id) == x,
{
    lemma_listing_exists(s);
    let l = listing(s);
    let q = image(l, f);
    if q.contains(x) {
        let k = choose|k: int| 0 <= k < q.len() && q[k] == x;
        assert(l.contains(l[k]));
        assert(f(l[k]) == x);
    }
    if exists|id: u32| s.contains(id) && #[trigger] f(id) == x {
        let id = choose|id: u32| s.contains(id) && #[trigger] f(id) == x;
        assert(l.contains(id));
        let k = choose|k: int| 0 <= k < l.len() && l[k] == id;
        assert(q[k] == x);
    }
}

/// The plan is finite.
pub open spec fn plan_finite(plan: DropPlanModel) -> bool {
    &&& plan.tables.finite()
    &&& plan.internal_tables.finite()
    &&& plan.indexes.finite()
    &&& plan.sinks.finite()
    &&& plan.subscriptions.finite()
    &&& plan.sources.finite()
    &&& plan.views.finite()
    &&& plan.streaming_job_sources.finite()
}

/// What a drop stops referring to are the relations that a planned table, view, sink or subscription
/// depends on, the connections and the secrets of planned sources and sinks, and no others.
pub proof fn law_references_of_what_is_dropped(db: DatabaseManagerModel, plan: DropPlanModel, x: u32)
    requires
        plan_finite(plan),
    ensures
        planned_relations(db, plan).contains(x) <==> (exists|t: u32| #[trigger]
            plan.tables.contains(t) && db.tables[t].dependent_relations.contains(x)) || (exists|v: u32|
         #[trigger]
            plan.views.contains(v) && db.views[v].dependent_relations.contains(x)) || (exists|s: u32|
         #[trigger]
            plan.sinks.contains(s) && db.sinks[s].dependent_relations.contains(x)) || (exists|s: u32|
         #[trigger]
            plan.subscriptions.contains(s) && db.subscriptions[s].dependent_table_id == x),
        planned_connections(db, plan).contains(x) <==> (exists|s: u32| #[trigger]
            plan.sources.contains(s) && db.sources[s].connection_id == Some(x)) || (exists|s: u32|
         #[trigger]
            plan.sinks.contains(s) && db.sinks[s].connection_id == Some(x)),
        planned_secrets(db, plan).contains(x) <==> (exists|s: u32| #[trigger]
            plan.sources.contains(s) && db.sources[s].secret_ids.contains(x)) || (exists|s: u32|
         #[trigger]
            plan.sinks.contains(s) && db.sinks[s].secret_ids.contains(x)),
{
    lemma_gather_at(db.tables, plan.tables, |t: TableModel| t.dependent_relations, x);
    lemma_gather_at(db.views, plan.views, |v: ViewInfoModel| v.dependent_relations, x);
    lemma_gather_at(db.sinks, plan.sinks, |s: SinkModel| s.dependent_relations, x);
    lemma_image_at(
        db.subscriptions,
        plan.subscriptions,
        |s: crate::catalog::types::SubscriptionModel| s.dependent_table_id,
        x,
    );
    let a = table_dependencies(values_at(db.tables, listing(plan.tables)));
    let b = view_dependencies(values_at(db.views, listing(plan.views)));
    let e = sink_dependencies(values_at(db.sinks, listing(plan.sinks)));
    let f = subscription_dependencies(values_at(db.subscriptions, listing(plan.subscriptions)));
    lemma_add(a, b, x);
    lemma_add(a + b, e, x);
    lemma_add(a + b + e, f, x);
    let g = |s: SourceModel| one_or_none(s.connection_id);
    let h = |s: SinkModel| one_or_none(s.connection_id);
    assert forall|o: Option<u32>| #[trigger] one_or_none(o).contains(x) <==> o == Some(x) by {
        if o is Some {
            assert(one_or_none(o)[0] == o->0);
        }
    }
    lemma_gather_at(db.sources, plan.sources, g, x);
    lemma_gather_at(db.sinks, plan.sinks, h, x);
    lemma_add(
        source_connections(values_at(db.sources, listing(plan.sources))),
        sink_connections(values_at(db.sinks, listing(plan.sinks))),
        x,
    );
    lemma_gather_at(db.sources, plan.sources, |s: SourceModel| s.secret_ids, x);
    lemma_gather_at(db.sinks, plan.sinks, |s: SinkModel| s.secret_ids, x);
    lemma_add(
        source_secrets(values_at(db.sources, listing(plan.sources))),
        sink_secrets(values_at(db.sinks, listing(plan.sinks))),
        x,
    );
    assert forall|s: u32| #[trigger] plan.sources.contains(s) implies (g(db.sources[s]).contains(x)
        <==> db.sources[s].connection_id == Some(x)) by {
        assert(one_or_none(db.sources[s].connection_id).contains(x) <==> db.sources[s].connection_id
            == Some(x));
    }
    assert forall|s: u32| #[trigger] plan.sinks.contains(s) implies (h(db.sinks[s]).contains(x)
        <==> db.sinks[s].connection_id == Some(x)) by {
        assert(one_or_none(db.sinks[s].connection_id).contains(x) <==> db.sinks[s].connection_id
            == Some(x));
    }
}

/// The owners of what is dropped are those of the planned indexes, tables, sources, views, sinks and
/// subscriptions, one entry for each of these; the internal tables have no owner of their own.
pub proof fn law_owners_of_what_is_dropped(db: DatabaseManagerModel, plan: DropPlanModel, x: u32)
    requires
        plan_finite(plan),
    ensures
        planned_owners(db, plan).contains(x) <==> (exists|i: u32| #[trigger]
            plan.indexes.contains(i) && db.indexes[i].owner == x) || (exists|i: u32| #[trigger]
            plan.tables.contains(i) && db.tables[i].owner == x) || (exists|i: u32| #[trigger]
            plan.sources.contains(i) && db.sources[i].owner == x) || (exists|i: u32| #[trigger]
            plan.views.contains(i) && db.views[i].owner == x) || (exists|i: u32| #[trigger]
            plan.sinks.contains(i) && db.sinks[i].owner == x) || (exists|i: u32| #[trigger]
            plan.subscriptions.contains(i) && db.subscriptions[i].owner == x),
        planned_owners(db, plan).len() == listing(plan.indexes).len() + listing(plan.tables).len()
            + listing(plan.sources).len() + listing(plan.views).len() + listing(plan.sinks).len()
            + listing(plan.subscriptions).len(),
{
    lemma_image_at(db.indexes, plan.indexes, |i: crate::catalog::types::IndexModel| i.owner, x);
    lemma_image_at(db.tables, plan.tables, |t: TableModel| t.owner, x);
    lemma_image_at(db.sources, plan.sources, |t: SourceModel| t.owner, x);
    lemma_image_at(db.views, plan.views, |t: ViewInfoModel| t.owner, x);
    lemma_image_at(db.sinks, plan.sinks, |t: SinkModel| t.owner, x);
    lemma_image_at(
        db.subscriptions,
        plan.subscriptions,
        |t: crate::catalog::types::SubscriptionModel| t.owner,
        x,
    );
    let a = index_owners(values_at(db.indexes, listing(plan.indexes)));
    let b = table_owners(values_at(db.tables, listing(plan.tables)));
    let e = source_owners(values_at(db.sources, listing(plan.sources)));
    let f = view_owners(values_at(db.views, listing(plan.views)));
    let g = sink_owners(values_at(db.sinks, listing(plan.sinks)));
    let h = subscription_owners(values_at(db.subscriptions, listing(plan.subscriptions)));
    lemma_add(a, b, x);
    lemma_add(a + b, e, x);
    lemma_add(a + b + e, f, x);
    lemma_add(a + b + e + f, g, x);
    lemma_add(a + b + e + f + g, h, x);
}

/// Privileges are lost on the planned tables, internal or not, sources, views and sinks, and on nothing
/// else.
pub proof fn law_objects_of_what_is_dropped(plan: DropPlanModel, object: Object)
    requires
        plan_finite(plan),
    ensures
        planned_objects(plan).contains(object) <==> match object {
            Object::TableId(id) => plan.tables.contains(id) || plan.internal_tables.contains(id),
            Object::SourceId(id) => plan.sources.contains(id),
            Object::ViewId(id) => plan.views.contains(id),
            Object::SinkId(id) => plan.sinks.contains(id),
            _ => false,
        },
{
    let t = |x: u32| Object::TableId(x);
    let s = |x: u32| Object::SourceId(x);
    let v = |x: u32| Object::ViewId(x);
    let k = |x: u32| Object::SinkId(x);
    lemma_image_ids(plan.tables, t, object);
    lemma_image_ids(plan.internal_tables, t, object);
    lemma_image_ids(plan.sources, s, object);
    lemma_image_ids(plan.views, v, object);
    lemma_image_ids(plan.sinks, k, object);
    let a = image(listing(plan.tables), t);
    let b = image(listing(plan.internal_tables), t);
    let e = image(listing(plan.sources), s);
    let f = image(listing(plan.views), v);
    let g = image(listing(plan.sinks), k);
    lemma_add(a, b, object);
    lemma_add(a + b, e, object);
    lemma_add(a + b + e, f, object);
    lemma_add(a + b + e + f, g, object);
    match object {
        Object::TableId(id) => {
            assert(t(id) == object);
        },
        Object::SourceId(id) => {
            assert(s(id) == object);
        },
        Object::ViewId(id) => {
            assert(v(id) == object);
        },
        Object::SinkId(id) => {
            assert(k(id) == object);
        },
        _ => {},
    }
}

/// The jobs that end with a drop are those of the planned tables, of the planned sinks and of the
/// planned sources that are jobs of their own.
pub proof fn law_jobs_of_what_is_dropped(plan: DropPlanModel, id: u32)
    requires
        plan_finite(plan),
    ensures
        planned_jobs(plan).contains(id) <==> plan.tables.contains(id) || plan.sinks.contains(id)
            || plan.streaming_job_sources.contains(id),
{
    lemma_listing_exists(plan.tables);
    lemma_listing_exists(plan.sinks);
    lemma_listing_exists(plan.streaming_job_sources);
    lemma_add(listing(plan.tables), listing(plan.sinks), id);
    lemma_add(
        listing(plan.tables) + listing(plan.sinks),
        listing(plan.streaming_job_sources),
        id,
    );
}

/// The frontends are told, first of the users who lose a privilege, then of the relations that are gone,
/// each as it stood: all that are planned, and no others.
pub proof fn law_told_of_what_is_dropped(
    c: CatalogManagerCoreModel,
    plan: DropPlanModel,
    info: RelationInfoModel,
)
    requires
        plan_finite(plan),
    ensures
        ({
            let db = c.database;
            let messages = drop_messages(c, plan);
            &&& messages.len() > 0
            &&& messages.drop_last() == user_updates(
                updated_users(c.user.user_info, planned_objects(plan)),
            )
            &&& messages.last().audience == Audience::Frontend
            &&& messages.last().operation == Operation::Delete
            &&& messages.last().info is RelationGroup
            &&& messages.last().info->RelationGroup_0.contains(info) <==> match info {
                RelationInfoModel::Table(t) => exists|x: u32|
                    (plan.tables.contains(x) || plan.internal_tables.contains(x))
                        && #[trigger] db.tables[x] == t,
                RelationInfoModel::Index(t) => exists|x: u32|
                    plan.indexes.contains(x) && #[trigger] db.indexes[x] == t,
                RelationInfoModel::Source(t) => exists|x: u32|
                    plan.sources.contains(x) && #[trigger] db.sources[x] == t,
                RelationInfoModel::View(t) => exists|x: u32|
                    plan.views.contains(x) && #[trigger] db.views[x] == t,
                RelationInfoModel::Sink(t) => exists|x: u32|
                    plan.sinks.contains(x) && #[trigger] db.sinks[x] == t,
                RelationInfoModel::Subscription(t) => exists|x: u32|
                    plan.subscriptions.contains(x) && #[trigger] db.subscriptions[x] == t,
            }
        }),
{
    let db = c.database;
    let messages = drop_messages(c, plan);
    assert(messages.drop_last() =~= user_updates(
        updated_users(c.user.user_info, planned_objects(plan)),
    ));
    let fi = |x: crate::catalog::types::IndexModel| RelationInfoModel::Index(x);
    let ft = |x: TableModel| RelationInfoModel::Table(x);
    let fs = |x: SourceModel| RelationInfoModel::Source(x);
    let fv = |x: ViewInfoModel| RelationInfoModel::View(x);
    let fk = |x: SinkModel| RelationInfoModel::Sink(x);
    let fu = |x: crate::catalog::types::SubscriptionModel| RelationInfoModel::Subscription(x);
    lemma_image_at(db.indexes, plan.indexes, fi, info);
    lemma_image_at(db.tables, plan.internal_tables, ft, info);
    lemma_image_at(db.tables, plan.tables, ft, info);
    lemma_image_at(db.sources, plan.sources, fs, info);
    lemma_image_at(db.views, plan.views, fv, info);
    lemma_image_at(db.sinks, plan.sinks, fk, info);
    lemma_image_at(db.subscriptions, plan.subscriptions, fu, info);
    let a = index_infos(values_at(db.indexes, listing(plan.indexes)));
    let b = table_infos(values_at(db.tables, listing(plan.internal_tables)));
    let e = table_infos(values_at(db.tables, listing(plan.tables)));
    let f = source_infos(values_at(db.sources, listing(plan.sources)));
    let g = view_infos(values_at(db.views, listing(plan.views)));
    let h = sink_infos(values_at(db.sinks, listing(plan.sinks)));
    let k = subscription_infos(values_at(db.subscriptions, listing(plan.subscriptions)));
    lemma_add(a, b, info);
    lemma_add(a + b, e, info);
    lemma_add(a + b + e, f, info);
    lemma_add(a + b + e + f, g, info);
    lemma_add(a + b + e + f + g, h, info);
    lemma_add(a + b + e + f + g + h, k, info);
    let all = planned_infos(db, plan);
    assert(all == a + b + e + f + g + h + k);
    match info {
        RelationInfoModel::Table(t) => {
            if exists|x: u32|
                (plan.tables.contains(x) || plan.internal_tables.contains(x))
                    && #[trigger] db.tables[x] == t {
                let x = choose|x: u32|
                    (plan.tables.contains(x) || plan.internal_tables.contains(x))
                        && #[trigger] db.tables[x] == t;
                assert(ft(db.tables[x]) == info);
                assert(plan.tables.contains(x) || plan.internal_tables.contains(x));
            }
            if e.contains(info) {
                let x = choose|x: u32| #[trigger] plan.tables.contains(x) && ft(db.tables[x]) == info;
                assert(db.tables[x] == t);
            }
            if b.contains(info) {
                let x = choose|x: u32| #[trigger]
                    plan.internal_tables.contains(x) && ft(db.tables[x]) == info;
                assert(db.tables[x] == t);
            }
        },
        RelationInfoModel::Index(t) => {
            if exists|x: u32| plan.indexes.contains(x) && #[trigger] db.indexes[x] == t {
                let x = choose|x: u32| plan.indexes.contains(x) && #[trigger] db.indexes[x] == t;
                assert(fi(db.indexes[x]) == info && plan.indexes.contains(x));
            }
            if a.contains(info) {
                let x = choose|x: u32| #[trigger] plan.indexes.contains(x) && fi(db.indexes[x]) == info;
                assert(db.indexes[x] == t);
            }
        },
        RelationInfoModel::Source(t) => {
            if exists|x: u32| plan.sources.contains(x) && #[trigger] db.sources[x] == t {
                let x = choose|x: u32| plan.sources.contains(x) && #[trigger] db.sources[x] == t;
                assert(fs(db.sources[x]) == info && plan.sources.contains(x));
            }
            if f.contains(info) {
                let x = choose|x: u32| #[trigger] plan.sources.contains(x) && fs(db.sources[x]) == info;
                assert(db.sources[x] == t);
            }
        },
        RelationInfoModel::View(t) => {
            if exists|x: u32| plan.views.contains(x) && #[trigger] db.views[x] == t {
                let x = choose|x: u32| plan.views.contains(x) && #[trigger] db.views[x] == t;
                assert(fv(db.views[x]) == info && plan.views.contains(x));
            }
            if g.contains(info) {
                let x = choose|x: u32| #[trigger] plan.views.contains(x) && fv(db.views[x]) == info;
                assert(db.views[x] == t);
            }
        },
        RelationInfoModel::Sink(t) => {
            if exists|x: u32| plan.sinks.contains(x) && #[trigger] db.sinks[x] == t {
                let x = choose|x: u32| plan.sinks.contains(x) && #[trigger] db.sinks[x] == t;
                assert(fk(db.sinks[x]) == info && plan.sinks.contains(x));
            }
            if h.contains(info) {
                let x = choose|x: u32| #[trigger] plan.sinks.contains(x) && fk(db.sinks[x]) == info;
                assert(db.sinks[x] == t);
            }
        },
        RelationInfoModel::Subscription(t) => {
            if exists|x: u32| plan.subscriptions.contains(x) && #[trigger] db.subscriptions[x] == t {
                let x = choose|x: u32|
                    plan.subscriptions.contains(x) && #[trigger] db.subscriptions[x] == t;
                assert(fu(db.subscriptions[x]) == info && plan.subscriptions.contains(x));
            }
            if k.contains(info) {
                let x = choose|x: u32| #[trigger]
                    plan.subscriptions.contains(x) && fu(db.subscriptions[x]) == info;
                assert(db.subscriptions[x] == t);
            }
        },
    }
}

/// A drop takes exactly what is planned out of the catalog; every count goes down by what went, no
/// privilege on what went is left, and nothing else changes.
pub proof fn law_dropped_is_gone(c: CatalogManagerCoreModel, plan: DropPlanModel, x: u32)
    requires
        covers(c.database.relation_ref_count, planned_relations(c.database, plan)),
        covers(c.database.connection_ref_count, planned_connections(c.database, plan)),
        covers(c.database.secret_ref_count, planned_secrets(c.database, plan)),
        covers(c.user.catalog_create_ref_count, planned_owners(c.database, plan)),
    ensures
        ({
            let a = c.database;
            let after = dropped(c, plan);
            let b = after.database;
            &&& b.tables.contains_key(x) <==> a.tables.contains_key(x) && !plan.tables.contains(x)
                && !plan.internal_tables.contains(x)
            &&& b.indexes.contains_key(x) <==> a.indexes.contains_key(x) && !plan.indexes.contains(x)
            &&& b.sources.contains_key(x) <==> a.sources.contains_key(x) && !plan.sources.contains(x)
            &&& b.views.contains_key(x) <==> a.views.contains_key(x) && !plan.views.contains(x)
            &&& b.sinks.contains_key(x) <==> a.sinks.contains_key(x) && !plan.sinks.contains(x)
            &&& b.subscriptions.contains_key(x) <==> a.subscriptions.contains_key(x)
                && !plan.subscriptions.contains(x)
            &&& b.tables.contains_key(x) ==> b.tables[x] == a.tables[x]
            &&& b.indexes.contains_key(x) ==> b.indexes[x] == a.indexes[x]
            &&& b.sources.contains_key(x) ==> b.sources[x] == a.sources[x]
            &&& b.views.contains_key(x) ==> b.views[x] == a.views[x]
            &&& b.sinks.contains_key(x) ==> b.sinks[x] == a.sinks[x]
            &&& b.subscriptions.contains_key(x) ==> b.subscriptions[x] == a.subscriptions[x]
            &&& count_of(b.relation_ref_count, x) + occurrences(planned_relations(a, plan), x)
                == count_of(a.relation_ref_count, x)
            &&& count_of(b.connection_ref_count, x) + occurrences(planned_connections(a, plan), x)
                == count_of(a.connection_ref_count, x)
            &&& count_of(b.secret_ref_count, x) + occurrences(planned_secrets(a, plan), x) == count_of(
                a.secret_ref_count,
                x,
            )
            &&& count_of(after.user.catalog_create_ref_count, x) + occurrences(
                planned_owners(a, plan),
                x,
            ) == count_of(c.user.catalog_create_ref_count, x)
            &&& after.user.user_info == stripped_users(c.user.user_info, planned_objects(plan))
            &&& after.user.user_grant_relation == c.user.user_grant_relation
            &&& b == (DatabaseManagerModel {
                tables: b.tables,
                indexes: b.indexes,
                sources: b.sources,
                views: b.views,
                sinks: b.sinks,
                subscriptions: b.subscriptions,
                relation_ref_count: b.relation_ref_count,
                connection_ref_count: b.connection_ref_count,
                secret_ref_count: b.secret_ref_count,
                ..a
            })
        }),
{
    let a = c.database;
    lemma_lowered_by(a.relation_ref_count, planned_relations(a, plan), x);
    lemma_lowered_by(a.connection_ref_count, planned_connections(a, plan), x);
    lemma_lowered_by(a.secret_ref_count, planned_secrets(a, plan), x);
    lemma_lowered_by(c.user.catalog_create_ref_count, planned_owners(a, plan), x);
}

proof fn lemma_lowered_by(c: Map<u32, usize>, ids: Seq<u32>, x: u32)
    requires
        covers(c, ids),
    ensures
        count_of(lowered(c, ids), x) + occurrences(ids, x) == count_of(c, x),
{
    assert(occurrences(ids, x) <= count_of(c, x));
}

/// A drop, but that of a sink, is refused where it would take a sink that writes into another table;
/// otherwise what is planned is dropped, and who asked is told so.
pub proof fn law_sinks_into_other_tables_stop_a_drop(
    c: CatalogManagerCoreModel,
    fragments: Map<u32, JobFragmentsModel>,
    mode: DropMode,
    relation: RelationIdEnum,
)
    requires
        drop_plan(c.database, fragments, mode, relation) is Ok,
        plan_finite(drop_plan(c.database, fragments, mode, relation)->Ok_0),
    ensures
        ({
            let db = c.database;
            let plan = drop_plan(db, fragments, mode, relation)->Ok_0;
            let r = drop_result(c, fragments, mode, relation);
            let stopped = !(relation is Sink) && exists|s: u32| #[trigger]
                plan.sinks.contains(s) && db.sinks[s].target_table is Some && relation
                    != RelationIdEnum::Table(db.sinks[s].target_table->0);
            &&& r is Err <==> stopped
            &&& stopped ==> r->Err_0 is TableSinksInDependency
            &&& !stopped ==> r->Ok_0.0 == dropped(c, plan) && r->Ok_0.1 == drop_messages(c, plan)
                && r->Ok_0.2 == planned_jobs(plan)
        }),
{
    broadcast use vstd::seq_lib::group_filter_ensures;

    let db = c.database;
    let plan = drop_plan(db, fragments, mode, relation)->Ok_0;
    let l = listing(plan.sinks);
    let p = into_other_table(db, relation);
    lemma_listing_exists(plan.sinks);
    if l.filter(p).len() > 0 {
        let s = l.filter(p)[0];
        assert(p(s));
        assert(l.filter(p).contains(s));
        l.lemma_filter_contains_rev(p, s);
        assert(plan.sinks.contains(s));
    }
    assert forall|s: u32| #[trigger] plan.sinks.contains(s) && p(s) implies l.filter(p).len() > 0 by {
        assert(l.contains(s));
        let k = choose|k: int| 0 <= k < l.len() && l[k] == s;
        assert(l.filter(p).contains(l[k]));
    }
}

/// A relation that is not known is not dropped.
pub proof fn law_unknown_relation_is_not_dropped(
    db: DatabaseManagerModel,
    fragments: Map<u32, JobFragmentsModel>,
    mode: DropMode,
    relation: RelationIdEnum,
)
    requires
        !known(db, relation),
    ensures
        drop_plan(db, fragments, mode, relation) is Err,
        drop_plan(db, fragments, mode, relation)->Err_0 is RelationMissing,
{
}

// ---------------------------------------------------------------------------
// Why a relation goes.
// ---------------------------------------------------------------------------

/// The relation depends on something that goes.
pub open spec fn loses_base(db: DatabaseManagerModel, plan: DropPlanModel, r: RelationIdEnum) -> bool {
    exists|p: RelationIdEnum|
        #![trigger in_plan(plan, p)]
        in_plan(plan, p) && !(p is Index) && depends(db, r, id_of(p))
}

/// The relation is a part of something that goes: an index of a table, the table of an index, or the
/// source of a table.
pub open spec fn is_part(db: DatabaseManagerModel, plan: DropPlanModel, r: RelationIdEnum) -> bool {
    match r {
        RelationIdEnum::Index(i) => db.indexes.contains_key(i) && plan.tables.contains(
            db.indexes[i].primary_table_id,
        ),
        RelationIdEnum::Table(t) => exists|i: u32| #[trigger]
            plan.indexes.contains(i) && db.indexes[i].index_table_id == t,
        RelationIdEnum::Source(s) => exists|t: u32| #[trigger]
            plan.tables.contains(t) && db.tables[t].optional_associated_source_id == Some(s),
        _ => false,
    }
}

/// There is a reason for the relation to go: it is what is dropped, it is a sink into the table that is
/// dropped, it depends on something that goes, or it is a part of something that goes.
pub open spec fn has_reason(
    db: DatabaseManagerModel,
    relation: RelationIdEnum,
    plan: DropPlanModel,
    r: RelationIdEnum,
) -> bool {
    ||| r == relation
    ||| (relation is Table && r is Sink && db.tables[id_of(relation)].incoming_sinks.contains(id_of(r)))
    ||| loses_base(db, plan, r)
    ||| is_part(db, plan, r)
}

/// The internal table is one of a job that goes.
pub open spec fn inner_of(
    fragments: Map<u32, JobFragmentsModel>,
    plan: DropPlanModel,
    x: u32,
) -> bool {
    exists|t: u32|
        (plan.tables.contains(t) || plan.sinks.contains(t) || plan.sources.contains(t))
            && #[trigger] fragments.contains_key(t) && fragments[t].internal_table_ids.contains(x)
}

/// Everything in the plan and in the queue has a reason.
spec fn all_have_reasons(
    db: DatabaseManagerModel,
    fragments: Map<u32, JobFragmentsModel>,
    relation: RelationIdEnum,
    plan: DropPlanModel,
    queue: Seq<RelationIdEnum>,
) -> bool {
    &&& forall|r: RelationIdEnum| #[trigger] in_plan(plan, r) ==> has_reason(db, relation, plan, r)
    &&& forall|r: RelationIdEnum| #[trigger] queue.contains(r) ==> has_reason(db, relation, plan, r)
    &&& forall|x: u32| #[trigger] plan.internal_tables.contains(x) ==> inner_of(fragments, plan, x)
    &&& forall|s: u32| #[trigger]
        plan.streaming_job_sources.contains(s) ==> plan.sources.contains(s) && is_shared(db, s)
}

proof fn lemma_reason_stays(
    db: DatabaseManagerModel,
    relation: RelationIdEnum,
    plan: DropPlanModel,
    p: DropPlanModel,
    r: RelationIdEnum,
)
    requires
        has_reason(db, relation, plan, r),
        forall|x: RelationIdEnum| in_plan(plan, x) ==> #[trigger] in_plan(p, x),
    ensures
        has_reason(db, relation, p, r),
{
    if loses_base(db, plan, r) {
        let b = choose|b: RelationIdEnum|
            #![trigger in_plan(plan, b)]
            in_plan(plan, b) && !(b is Index) && depends(db, r, id_of(b));
        assert(in_plan(p, b));
    }
    if is_part(db, plan, r) {
        match r {
            RelationIdEnum::Index(i) => {
                assert(in_plan(p, RelationIdEnum::Table(db.indexes[i].primary_table_id)));
            },
            RelationIdEnum::Table(t) => {
                let i = choose|i: u32| #[trigger]
                    plan.indexes.contains(i) && db.indexes[i].index_table_id == t;
                assert(in_plan(p, RelationIdEnum::Index(i)));
                assert(p.indexes.contains(i));
            },
            RelationIdEnum::Source(s) => {
                let t = choose|t: u32| #[trigger]
                    plan.tables.contains(t) && db.tables[t].optional_associated_source_id == Some(s);
                assert(in_plan(p, RelationIdEnum::Table(t)));
                assert(p.tables.contains(t));
            },
            _ => {},
        }
    }
}

/// What a step adds depends on something that the step plans.
proof fn lemma_more_loses_base(
    db: DatabaseManagerModel,
    fragments: Map<u32, JobFragmentsModel>,
    mode: DropMode,
    plan: DropPlanModel,
    item: RelationIdEnum,
    r: RelationIdEnum,
)
    requires
        is_finite(db),
        step(db, fragments, mode, plan, item) is Ok,
        step(db, fragments, mode, plan, item)->Ok_0.1.contains(r),
    ensures
        loses_base(db, step(db, fragments, mode, plan, item)->Ok_0.0, r),
{
    let (p, more) = step(db, fragments, mode, plan, item)->Ok_0;
    match item {
        RelationIdEnum::Table(id) => {
            let tables = index_tables_of(db, id);
            let a = gather(tables, index_table_dependents(db));
            let b = dependents(db, id).filter(no_table_of(tables));
            lemma_add(a, b, r);
            if a.contains(r) {
                lemma_gather_contains(tables, index_table_dependents(db), r);
                let k = choose|k: int|
                    0 <= k < tables.len() && index_table_dependents(db)(
                        #[trigger] tables[k],
                    ).contains(r);
                lemma_dependents(db, tables[k], r);
                assert(tables.contains(tables[k]));
                assert(in_plan(p, RelationIdEnum::Table(tables[k])));
                assert(id_of(RelationIdEnum::Table(tables[k])) == tables[k]);
            } else {
                dependents(db, id).lemma_filter_contains_rev(no_table_of(tables), r);
                lemma_dependents(db, id, r);
                assert(in_plan(p, RelationIdEnum::Table(id)));
                assert(id_of(RelationIdEnum::Table(id)) == id);
            }
        },
        RelationIdEnum::Index(id) => {
            let t = db.indexes[id].index_table_id;
            lemma_dependents(db, t, r);
            assert(in_plan(p, RelationIdEnum::Table(t)));
            assert(id_of(RelationIdEnum::Table(t)) == t);
        },
        RelationIdEnum::Source(id) => {
            lemma_dependents(db, id, r);
            assert(in_plan(p, item));
            assert(id_of(item) == id);
        },
        RelationIdEnum::View(id) => {
            lemma_dependents(db, id, r);
            assert(in_plan(p, item));
            assert(id_of(item) == id);
        },
        RelationIdEnum::Sink(id) => {
            lemma_dependents(db, id, r);
            assert(in_plan(p, item));
            assert(id_of(item) == id);
        },
        RelationIdEnum::Subscription(id) => {
            lemma_dependents(db, id, r);
            assert(in_plan(p, item));
            assert(id_of(item) == id);
        },
    }
}

/// An internal table of a step is one of a job that the step plans.
proof fn lemma_step_inner(
    db: DatabaseManagerModel,
    fragments: Map<u32, JobFragmentsModel>,
    mode: DropMode,
    plan: DropPlanModel,
    item: RelationIdEnum,
    x: u32,
)
    requires
        step(db, fragments, mode, plan, item) is Ok,
        step(db, fragments, mode, plan, item)->Ok_0.0.internal_tables.contains(x),
        plan.internal_tables.contains(x) ==> inner_of(fragments, plan, x),
    ensures
        inner_of(fragments, step(db, fragments, mode, plan, item)->Ok_0.0, x),
{
    let p = step(db, fragments, mode, plan, item)->Ok_0.0;
    if plan.internal_tables.contains(x) {
        let t = choose|t: u32|
            (plan.tables.contains(t) || plan.sinks.contains(t) || plan.sources.contains(t))
                && #[trigger] fragments.contains_key(t) && fragments[t].internal_table_ids.contains(x);
        assert(p.tables.contains(t) || p.sinks.contains(t) || p.sources.contains(t));
    } else {
        match item {
            RelationIdEnum::Table(id) => {
                if internal_tables(fragments, id).to_set().contains(x) {
                    assert(fragments.contains_key(id) && p.tables.contains(id));
                } else {
                    let tables = index_tables_of(db, id);
                    let f = |t: u32| internal_tables(fragments, t);
                    lemma_gather_contains(tables, f, x);
                    let k = choose|k: int| 0 <= k < tables.len() && f(#[trigger] tables[k]).contains(x);
                    assert(tables.contains(tables[k]));
                    assert(p.tables.contains(tables[k]));
                    assert(fragments.contains_key(tables[k]));
                }
            },
            RelationIdEnum::Index(id) => {
                let t = db.indexes[id].index_table_id;
                assert(fragments.contains_key(t) && p.tables.contains(t));
            },
            RelationIdEnum::Source(id) => {
                assert(fragments.contains_key(id) && p.sources.contains(id));
            },
            RelationIdEnum::Sink(id) => {
                assert(fragments.contains_key(id) && p.sinks.contains(id));
            },
            _ => {},
        }
    }
}

proof fn lemma_step_reasons(
    db: DatabaseManagerModel,
    fragments: Map<u32, JobFragmentsModel>,
    mode: DropMode,
    relation: RelationIdEnum,
    plan: DropPlanModel,
    queue: Seq<RelationIdEnum>,
)
    requires
        is_finite(db),
        queue.len() > 0,
        all_have_reasons(db, fragments, relation, plan, queue),
        step(db, fragments, mode, plan, queue[0]) is Ok,
    ensures
        all_have_reasons(
            db,
            fragments,
            relation,
            step(db, fragments, mode, plan, queue[0])->Ok_0.0,
            queue.drop_first() + step(db, fragments, mode, plan, queue[0])->Ok_0.1,
        ),
{
    let item = queue[0];
    let (p, more) = step(db, fragments, mode, plan, item)->Ok_0;
    assert(queue.contains(item));
    assert forall|x: RelationIdEnum| in_plan(plan, x) implies #[trigger] in_plan(p, x) by {}
    assert forall|r: RelationIdEnum| #[trigger] in_plan(p, r) implies has_reason(db, relation, p, r) by {
        if in_plan(plan, r) {
            lemma_reason_stays(db, relation, plan, p, r);
        } else if r == item {
            lemma_reason_stays(db, relation, plan, p, r);
        } else {
            match item {
                RelationIdEnum::Table(id) => {
                    lemma_ids_where(db.indexes, index_on(id));
                    let ii = indexes_of(db, id);
                    match r {
                        RelationIdEnum::Table(t) => {
                            let tables = index_tables_of(db, id);
                            assert(tables.contains(t));
                            let k = choose|k: int| 0 <= k < tables.len() && tables[k] == t;
                            assert(ii.contains(ii[k]));
                            assert(p.indexes.contains(ii[k]));
                            assert(db.indexes[ii[k]].index_table_id == t);
                        },
                        RelationIdEnum::Index(i) => {
                            assert(ii.contains(i));
                            assert(p.tables.contains(id));
                        },
                        RelationIdEnum::Source(s) => {
                            assert(p.tables.contains(id));
                        },
                        _ => {},
                    }
                },
                RelationIdEnum::Index(id) => {
                    assert(p.indexes.contains(id));
                },
                _ => {},
            }
        }
    }
    let next = queue.drop_first() + more;
    assert forall|r: RelationIdEnum| #[trigger] next.contains(r) implies has_reason(db, relation, p, r) by {
        lemma_add(queue.drop_first(), more, r);
        if queue.drop_first().contains(r) {
            let k = choose|k: int| 0 <= k < queue.drop_first().len() && queue.drop_first()[k] == r;
            assert(queue[k + 1] == r);
            assert(queue.contains(r));
            lemma_reason_stays(db, relation, plan, p, r);
        } else {
            lemma_more_loses_base(db, fragments, mode, plan, item, r);
        }
    }
    assert forall|x: u32| #[trigger] p.internal_tables.contains(x) implies inner_of(fragments, p, x) by {
        lemma_step_inner(db, fragments, mode, plan, item, x);
    }
}

proof fn lemma_planned_reasons(
    db: DatabaseManagerModel,
    fragments: Map<u32, JobFragmentsModel>,
    mode: DropMode,
    relation: RelationIdEnum,
    plan: DropPlanModel,
    queue: Seq<RelationIdEnum>,
)
    requires
        is_finite(db),
        all_have_reasons(db, fragments, relation, plan, queue),
        planned(db, fragments, mode, plan, queue) is Ok,
    ensures
        all_have_reasons(
            db,
            fragments,
            relation,
            planned(db, fragments, mode, plan, queue)->Ok_0,
            Seq::empty(),
        ),
    decreases unplanned(plan), queue.len(),
{
    if queue.len() == 0 {
        assert(queue =~= Seq::<RelationIdEnum>::empty());
    } else {
        lemma_step_progress(db, fragments, mode, plan, queue[0]);
        lemma_step_reasons(db, fragments, mode, relation, plan, queue);
        let (p, more) = step(db, fragments, mode, plan, queue[0])->Ok_0;
        if p == plan && more.len() == 0 {
            assert(queue.drop_first() + more =~= queue.drop_first());
            lemma_planned_reasons(db, fragments, mode, relation, plan, queue.drop_first());
        } else {
            lemma_planned_reasons(db, fragments, mode, relation, p, queue.drop_first() + more);
        }
    }
}

/// A drop takes nothing without a reason: whatever goes is what was to be dropped, a sink into it,
/// something that depends on what goes, or a part of what goes; the internal tables are those of jobs
/// that go, and the sources that are jobs are shared ones that go.
pub proof fn law_nothing_goes_without_reason(
    db: DatabaseManagerModel,
    fragments: Map<u32, JobFragmentsModel>,
    mode: DropMode,
    relation: RelationIdEnum,
)
    requires
        is_finite(db),
        drop_plan(db, fragments, mode, relation) is Ok,
    ensures
        ({
            let plan = drop_plan(db, fragments, mode, relation)->Ok_0;
            &&& forall|r: RelationIdEnum| #[trigger]
                in_plan(plan, r) ==> has_reason(db, relation, plan, r)
            &&& forall|x: u32| #[trigger]
                plan.internal_tables.contains(x) ==> inner_of(fragments, plan, x)
            &&& forall|s: u32| #[trigger]
                plan.streaming_job_sources.contains(s) ==> plan.sources.contains(s) && is_shared(db, s)
        }),
{
    let queue = start(db, relation)->Ok_0;
    let blank = DropPlanModel::blank();
    assert forall|r: RelationIdEnum| #[trigger] queue.contains(r) implies has_reason(
        db,
        relation,
        blank,
        r,
    ) by {
        let k = choose|k: int| 0 <= k < queue.len() && queue[k] == r;
        if relation is Table {
            let id = relation->Table_0;
            let f = |s: u32| db.sinks.contains_key(s);
            let l = db.tables[id].incoming_sinks.filter(f);
            if k < l.len() {
                assert(l.contains(l[k]));
                db.tables[id].incoming_sinks.lemma_filter_contains_rev(f, l[k]);
            }
        }
    }
    lemma_planned_reasons(db, fragments, mode, relation, blank, queue);
}

// ---------------------------------------------------------------------------
// Databases.
// ---------------------------------------------------------------------------

proof fn lemma_image_where<V, B>(m: Map<u32, V>, p: spec_fn(V) -> bool, f: spec_fn(V) -> B, x: B)
    requires
        m.dom().finite(),
    ensures
        image(values_where(m, p), f).contains(x) <==> exists|id: u32| #[trigger]
            m.contains_key(id) && p(m[id]) && f(m[id]) == x,
{
    lemma_ids_where(m, p);
    let ids = ids_where(m, p);
    let q = image(values_where(m, p), f);
    if q.contains(x) {
        let k = choose|k: int| 0 <= k < q.len() && q[k] == x;
        assert(ids.contains(ids[k]));
        assert(m.contains_key(ids[k]) && p(m[ids[k]]) && f(m[ids[k]]) == x);
    }
    if exists|id: u32| #[trigger] m.contains_key(id) && p(m[id]) && f(m[id]) == x {
        let id = choose|id: u32| #[trigger] m.contains_key(id) && p(m[id]) && f(m[id]) == x;
        assert(ids.contains(id));
        let k = choose|k: int| 0 <= k < ids.len() && ids[k] == id;
        assert(q[k] == x);
    }
}

proof fn lemma_image_filtered<V, B>(
    m: Map<u32, V>,
    p: spec_fn(V) -> bool,
    g: spec_fn(V) -> bool,
    f: spec_fn(V) -> B,
    x: B,
)
    requires
        m.dom().finite(),
    ensures
        image(values_where(m, p).filter(g), f).contains(x) <==> exists|id: u32| #[trigger]
            m.contains_key(id) && p(m[id]) && g(m[id]) && f(m[id]) == x,
{
    broadcast use vstd::seq_lib::group_filter_ensures;

    lemma_ids_where(m, p);
    let ids = ids_where(m, p);
    let v = values_where(m, p);
    let w = v.filter(g);
    let q = image(w, f);
    if q.contains(x) {
        let k = choose|k: int| 0 <= k < q.len() && q[k] == x;
        assert(g(w[k]));
        assert(w.contains(w[k]));
        v.lemma_filter_contains_rev(g, w[k]);
        let j = choose|j: int| 0 <= j < v.len() && v[j] == w[k];
        assert(ids.contains(ids[j]));
        assert(m.contains_key(ids[j]) && p(m[ids[j]]) && g(m[ids[j]]) && f(m[ids[j]]) == x);
    }
    if exists|id: u32| #[trigger] m.contains_key(id) && p(m[id]) && g(m[id]) && f(m[id]) == x {
        let id = choose|id: u32| #[trigger] m.contains_key(id) && p(m[id]) && g(m[id]) && f(m[id]) == x;
        assert(ids.contains(id));
        let j = choose|j: int| 0 <= j < ids.len() && ids[j] == id;
        assert(v[j] == m[id]);
        assert(w.contains(v[j]));
        let k = choose|k: int| 0 <= k < w.len() && w[k] == v[j];
        assert(q[k] == x);
    }
}

/// Every object of the catalog is one of finitely many.
pub open spec fn finite_objects(db: DatabaseManagerModel) -> bool {
    &&& db.schemas.dom().finite()
    &&& db.sources.dom().finite()
    &&& db.sinks.dom().finite()
    &&& db.subscriptions.dom().finite()
    &&& db.tables.dom().finite()
    &&& db.indexes.dom().finite()
    &&& db.views.dom().finite()
    &&& db.functions.dom().finite()
    &&& db.connections.dom().finite()
    &&& db.secrets.dom().finite()
}

/// The jobs that end with a database are those of its tables that are not internal, of its shared
/// sources and of its sinks.
pub proof fn law_jobs_of_a_database(db: DatabaseManagerModel, id: u32, x: u32)
    requires
        finite_objects(db),
    ensures
        database_jobs(db, id).contains(x) <==> (exists|t: u32| #[trigger]
            db.tables.contains_key(t) && db.tables[t].database_id == id && db.tables[t].id == x
                && !crate::catalog::names::internal_name(db.tables[t].name)) || (exists|s: u32|
         #[trigger]
            db.sources.contains_key(s) && db.sources[s].database_id == id && db.sources[s].id == x
                && db.sources[s].info is Some && db.sources[s].info->0.is_shared) || (exists|s: u32|
         #[trigger]
            db.sinks.contains_key(s) && db.sinks[s].database_id == id && db.sinks[s].id == x),
{
    lemma_image_filtered(
        db.tables,
        table_of_database(id),
        named_table(),
        |t: TableModel| t.id,
        x,
    );
    lemma_image_filtered(
        db.sources,
        source_of_database(id),
        shared_source(),
        |s: SourceModel| s.id,
        x,
    );
    lemma_image_where(db.sinks, sink_of_database(id), |s: SinkModel| s.id, x);
    let a = image(
        values_where(db.tables, table_of_database(id)).filter(named_table()),
        |t: TableModel| t.id,
    );
    let b = image(
        values_where(db.sources, source_of_database(id)).filter(shared_source()),
        |s: SourceModel| s.id,
    );
    let e = image(values_where(db.sinks, sink_of_database(id)), |s: SinkModel| s.id);
    lemma_add(a, b, x);
    lemma_add(a + b, e, x);
}

/// The owners of a database and of what is in it: of the database, its schemas, sources, sinks,
/// subscriptions, tables that are not internal, indexes, views, functions, connections and secrets.
pub proof fn law_owners_of_a_database(db: DatabaseManagerModel, id: u32, x: u32)
    requires
        finite_objects(db),
    ensures
        database_owners(db, id).contains(x) <==> db.databases[id].owner == x || (exists|k: u32|
         #[trigger]
            db.schemas.contains_key(k) && db.schemas[k].database_id == id && db.schemas[k].owner == x)
            || (exists|k: u32| #[trigger]
            db.sources.contains_key(k) && db.sources[k].database_id == id && db.sources[k].owner == x)
            || (exists|k: u32| #[trigger]
            db.sinks.contains_key(k) && db.sinks[k].database_id == id && db.sinks[k].owner == x) || (
        exists|k: u32| #[trigger]
            db.subscriptions.contains_key(k) && db.subscriptions[k].database_id == id
                && db.subscriptions[k].owner == x) || (exists|k: u32| #[trigger]
            db.tables.contains_key(k) && db.tables[k].database_id == id && db.tables[k].owner == x
                && !crate::catalog::names::internal_name(db.tables[k].name)) || (exists|k: u32|
         #[trigger]
            db.indexes.contains_key(k) && db.indexes[k].database_id == id && db.indexes[k].owner == x)
            || (exists|k: u32| #[trigger]
            db.views.contains_key(k) && db.views[k].database_id == id && db.views[k].owner == x) || (
        exists|k: u32| #[trigger]
            db.functions.contains_key(k) && db.functions[k].database_id == id && db.functions[k].owner
                == x) || (exists|k: u32| #[trigger]
            db.connections.contains_key(k) && db.connections[k].database_id == id
                && db.connections[k].owner == x) || (exists|k: u32| #[trigger]
            db.secrets.contains_key(k) && db.secrets[k].database_id == id && db.secrets[k].owner == x),
{
    let a = seq![db.databases[id].owner];
    let b = schema_owners(values_where(db.schemas, schema_of_database(id)));
    let e = source_owners(values_where(db.sources, source_of_database(id)));
    let f = sink_owners(values_where(db.sinks, sink_of_database(id)));
    let g = subscription_owners(values_where(db.subscriptions, subscription_of_database(id)));
    let h = table_owners(values_where(db.tables, table_of_database(id)).filter(named_table()));
    let i = index_owners(values_where(db.indexes, index_of_database(id)));
    let j = view_owners(values_where(db.views, view_of_database(id)));
    let k = function_owners(values_where(db.functions, function_of_database(id)));
    let l = connection_owners(values_where(db.connections, connection_of_database(id)));
    let m = secret_owners(values_where(db.secrets, secret_of_database(id)));
    assert(a.contains(x) <==> db.databases[id].owner == x) by {
        assert(a[0] == db.databases[id].owner);
    }
    lemma_image_where(
        db.schemas,
        schema_of_database(id),
        |y: crate::catalog::types::SchemaModel| y.owner,
        x,
    );
    lemma_image_where(db.sources, source_of_database(id), |y: SourceModel| y.owner, x);
    lemma_image_where(db.sinks, sink_of_database(id), |y: SinkModel| y.owner, x);
    lemma_image_where(
        db.subscriptions,
        subscription_of_database(id),
        |y: crate::catalog::types::SubscriptionModel| y.owner,
        x,
    );
    lemma_image_filtered(
        db.tables,
        table_of_database(id),
        named_table(),
        |y: TableModel| y.owner,
        x,
    );
    lemma_image_where(
        db.indexes,
        index_of_database(id),
        |y: crate::catalog::types::IndexModel| y.owner,
        x,
    );
    lemma_image_where(db.views, view_of_database(id), |y: ViewInfoModel| y.owner, x);
    lemma_image_where(
        db.functions,
        function_of_database(id),
        |y: crate::catalog::types::FunctionModel| y.owner,
        x,
    );
    lemma_image_where(
        db.connections,
        connection_of_database(id),
        |y: crate::catalog::types::ConnectionModel| y.owner,
        x,
    );
    lemma_image_where(
        db.secrets,
        secret_of_database(id),
        |y: crate::catalog::types::SecretModel| y.owner,
        x,
    );
    lemma_add(a, b, x);
    lemma_add(a + b, e, x);
    lemma_add(a + b + e, f, x);
    lemma_add(a + b + e + f, g, x);
    lemma_add(a + b + e + f + g, h, x);
    lemma_add(a + b + e + f + g + h, i, x);
    lemma_add(a + b + e + f + g + h + i, j, x);
    lemma_add(a + b + e + f + g + h + i + j, k, x);
    lemma_add(a + b + e + f + g + h + i + j + k, l, x);
    lemma_add(a + b + e + f + g + h + i + j + k + l, m, x);
}

/// A database is dropped exactly where it is known and nothing is being created in it. The frontends are
/// told of the users who lose a privilege and then of the database; each owner owns less by what went,
/// and what is left of the counts is that of the relations and the connections that are left.
pub proof fn law_dropped_database(c: CatalogManagerCoreModel, id: u32, x: u32)
    requires
        finite_objects(c.database),
        covers(c.user.catalog_create_ref_count, database_owners(c.database, id)),
    ensures
        ({
            let a = c.database;
            let after = without_database(c, id);
            let b = after.database;
            let messages = database_drop_messages(c, id);
            let busy = exists|k: RelationKeyModel|
                a.in_progress_creation_tracker.contains(k) && #[trigger] k.database_id == id;
            &&& database_drop_refusal(a, id) is None <==> a.databases.contains_key(id) && !busy
            &&& kept_but(a.databases, b.databases, set![id])
            &&& !b.databases.contains_key(id)
            &&& messages.last().audience == Audience::Frontend
            &&& messages.last().operation == Operation::Delete
            &&& messages.last().info == InfoModel::Database(a.databases[id])
            &&& messages.drop_last() == user_updates(
                updated_users(c.user.user_info, database_objects(a, id)),
            )
            &&& count_of(after.user.catalog_create_ref_count, x) + occurrences(
                database_owners(a, id),
                x,
            ) == count_of(c.user.catalog_create_ref_count, x)
            &&& after.user.user_info == stripped_users(c.user.user_info, database_objects(a, id))
            &&& after.user.user_grant_relation == c.user.user_grant_relation
            &&& ({
                let gone = (a.tables.contains_key(x) && a.tables[x].database_id == id) || (
                a.sources.contains_key(x) && a.sources[x].database_id == id) || (
                a.views.contains_key(x) && a.views[x].database_id == id);
                count_of(b.relation_ref_count, x) == if gone {
                    0
                } else {
                    count_of(a.relation_ref_count, x)
                }
            })
            &&& count_of(b.connection_ref_count, x) == if a.connections.contains_key(x)
                && a.connections[x].database_id == id {
                0
            } else {
                count_of(a.connection_ref_count, x)
            }
            &&& b.secret_ref_count == a.secret_ref_count
            &&& b.secrets == a.secrets
            &&& b.in_progress_creation_tracker == a.in_progress_creation_tracker
            &&& b.in_progress_creating_streaming_job == a.in_progress_creating_streaming_job
        }),
{
    let a = c.database;
    let messages = database_drop_messages(c, id);
    assert(messages.drop_last() =~= user_updates(
        updated_users(c.user.user_info, database_objects(a, id)),
    ));
    lemma_lowered_by(c.user.catalog_create_ref_count, database_owners(a, id), x);
    lemma_ids_where(a.tables, table_of_database(id));
    lemma_ids_where(a.sources, source_of_database(id));
    lemma_ids_where(a.views, view_of_database(id));
    lemma_ids_where(a.connections, connection_of_database(id));
    assert(ids_where(a.tables, table_of_database(id)).contains(x) <==> a.tables.contains_key(x)
        && a.tables[x].database_id == id);
    assert(ids_where(a.sources, source_of_database(id)).contains(x) <==> a.sources.contains_key(x)
        && a.sources[x].database_id == id);
    assert(ids_where(a.views, view_of_database(id)).contains(x) <==> a.views.contains_key(x)
        && a.views[x].database_id == id);
    assert(ids_where(a.connections, connection_of_database(id)).contains(x)
        <==> a.connections.contains_key(x) && a.connections[x].database_id == id);
    assert(key_in_database(a.in_progress_creation_tracker, id) <==> exists|k: RelationKeyModel|
        a.in_progress_creation_tracker.contains(k) && #[trigger] k.database_id == id) by {
        if exists|k: RelationKeyModel|
            a.in_progress_creation_tracker.contains(k) && #[trigger] k.database_id == id {
            let k = choose|k: RelationKeyModel|
                a.in_progress_creation_tracker.contains(k) && #[trigger] k.database_id == id;
            assert(a.in_progress_creation_tracker.contains(k));
        }
        if key_in_database(a.in_progress_creation_tracker, id) {
            let k = choose|k: RelationKeyModel| #[trigger]
                a.in_progress_creation_tracker.contains(k) && k.database_id == id;
            assert(k.database_id == id);
        }
    }
}

proof fn lemma_image_ids_where<V, B>(m: Map<u32, V>, p: spec_fn(V) -> bool, f: spec_fn(u32) -> B, x: B)
    requires
        m.dom().finite(),
    ensures
        image(ids_where(m, p), f).contains(x) <==> exists|id: u32|
            m.contains_key(id) && p(m[id]) && #[trigger] f(id) == x,
{
    lemma_ids_where(m, p);
    let l = ids_where(m, p);
    let q = image(l, f);
    if q.contains(x) {
        let k = choose|k: int| 0 <= k < q.len() && q[k] == x;
        assert(l.contains(l[k]));
        assert(f(l[k]) == x);
    }
    if exists|id: u32| m.contains_key(id) && p(m[id]) && #[trigger] f(id) == x {
        let id = choose|id: u32| m.contains_key(id) && p(m[id]) && #[trigger] f(id) == x;
        assert(l.contains(id));
        let k = choose|k: int| 0 <= k < l.len() && l[k] == id;
        assert(q[k] == x);
    }
}

/// Privileges are lost on the database and on its schemas, views, tables, sources and functions, and on
/// nothing else.
pub proof fn law_objects_of_a_database(db: DatabaseManagerModel, id: u32, object: Object)
    requires
        finite_objects(db),
    ensures
        database_objects(db, id).contains(object) <==> match object {
            Object::DatabaseId(x) => x == id,
            Object::SchemaId(x) => db.schemas.contains_key(x) && db.schemas[x].database_id == id,
            Object::ViewId(x) => db.views.contains_key(x) && db.views[x].database_id == id,
            Object::TableId(x) => db.tables.contains_key(x) && db.tables[x].database_id == id,
            Object::SourceId(x) => db.sources.contains_key(x) && db.sources[x].database_id == id,
            Object::FunctionId(x) => db.functions.contains_key(x) && db.functions[x].database_id == id,
            _ => false,
        },
{
    let fs = |x: u32| Object::SchemaId(x);
    let fv = |x: u32| Object::ViewId(x);
    let ft = |x: u32| Object::TableId(x);
    let fo = |x: u32| Object::SourceId(x);
    let ff = |x: u32| Object::FunctionId(x);
    lemma_image_ids_where(db.schemas, schema_of_database(id), fs, object);
    lemma_image_ids_where(db.views, view_of_database(id), fv, object);
    lemma_image_ids_where(db.tables, table_of_database(id), ft, object);
    lemma_image_ids_where(db.sources, source_of_database(id), fo, object);
    lemma_image_ids_where(db.functions, function_of_database(id), ff, object);
    let a = seq![Object::DatabaseId(id)];
    let b = image(ids_where(db.schemas, schema_of_database(id)), fs);
    let e = image(ids_where(db.views, view_of_database(id)), fv);
    let f = image(ids_where(db.tables, table_of_database(id)), ft);
    let g = image(ids_where(db.sources, source_of_database(id)), fo);
    let h = image(ids_where(db.functions, function_of_database(id)), ff);
    assert(a.contains(object) <==> object == Object::DatabaseId(id)) by {
        assert(a[0] == Object::DatabaseId(id));
    }
    lemma_add(a, b, object);
    lemma_add(a + b, e, object);
    lemma_add(a + b + e, f, object);
    lemma_add(a + b + e + f, g, object);
    lemma_add(a + b + e + f + g, h, object);
    match object {
        Object::SchemaId(x) => {
            assert(fs(x) == object);
        },
        Object::ViewId(x) => {
            assert(fv(x) == object);
        },
        Object::TableId(x) => {
            assert(ft(x) == object);
        },
        Object::SourceId(x) => {
            assert(fo(x) == object);
        },
        Object::FunctionId(x) => {
            assert(ff(x) == object);
        },
        _ => {},
    }
}

} // verus!
