//! What holds of every drop: it takes along all that depends on what it drops, and nothing that
//! is left depends on something that is gone.

use vstd::prelude::*;

use crate::catalog::drop::{
    dependents, drop_plan, index_on, index_table_dependents, index_tables_of, indexes_of,
    lemma_step_progress, no_table_of, planned, released, sink_depends_on, start, step,
    subscription_depends_on, table_depends_on, table_released, unplanned, view_depends_on, DropMode,
    DropPlanModel, JobFragmentsModel, RelationIdEnum,
};
use crate::catalog::drop_apply::dropped;
use crate::catalog::state::{CatalogManagerCoreModel, DatabaseManagerModel};
use crate::util::counts::count_of;
use crate::util::id_map::{ids_where, lemma_ids_where};
use crate::util::lists::{gather, image, lemma_gather_contains};

verus! {

// ---------------------------------------------------------------------------
// Dependencies.
// ---------------------------------------------------------------------------

/// The identifier that others refer to a relation by.
pub open spec fn id_of(r: RelationIdEnum) -> u32 {
    match r {
        RelationIdEnum::Table(id) => id,
        RelationIdEnum::Index(id) => id,
        RelationIdEnum::Source(id) => id,
        RelationIdEnum::View(id) => id,
        RelationIdEnum::Sink(id) => id,
        RelationIdEnum::Subscription(id) => id,
    }
}

/// The relation is in the catalog.
pub open spec fn known(db: DatabaseManagerModel, r: RelationIdEnum) -> bool {
    match r {
        RelationIdEnum::Table(id) => db.tables.contains_key(id),
        RelationIdEnum::Index(id) => db.indexes.contains_key(id),
        RelationIdEnum::Source(id) => db.sources.contains_key(id),
        RelationIdEnum::View(id) => db.views.contains_key(id),
        RelationIdEnum::Sink(id) => db.sinks.contains_key(id),
        RelationIdEnum::Subscription(id) => db.subscriptions.contains_key(id),
    }
}

/// The relation is in the plan.
pub open spec fn in_plan(plan: DropPlanModel, r: RelationIdEnum) -> bool {
    match r {
        RelationIdEnum::Table(id) => plan.tables.contains(id),
        RelationIdEnum::Index(id) => plan.indexes.contains(id),
        RelationIdEnum::Source(id) => plan.sources.contains(id),
        RelationIdEnum::View(id) => plan.views.contains(id),
        RelationIdEnum::Sink(id) => plan.sinks.contains(id),
        RelationIdEnum::Subscription(id) => plan.subscriptions.contains(id),
    }
}

/// The relation `r` is in the catalog and depends on `id`.
pub open spec fn depends(db: DatabaseManagerModel, r: RelationIdEnum, id: u32) -> bool {
    &&& known(db, r)
    &&& match r {
        RelationIdEnum::Table(t) => db.tables[t].dependent_relations.contains(id),
        RelationIdEnum::View(v) => db.views[v].dependent_relations.contains(id),
        RelationIdEnum::Sink(s) => db.sinks[s].dependent_relations.contains(id),
        RelationIdEnum::Subscription(s) => db.subscriptions[s].dependent_table_id == id,
        _ => false,
    }
}

/// The catalog is finite.
pub open spec fn is_finite(db: DatabaseManagerModel) -> bool {
    &&& db.tables.dom().finite()
    &&& db.indexes.dom().finite()
    &&& db.views.dom().finite()
    &&& db.sinks.dom().finite()
    &&& db.subscriptions.dom().finite()
}

/// Every relation that depends on something is counted there.
pub open spec fn dependents_counted(db: DatabaseManagerModel) -> bool {
    forall|id: u32|
        (#[trigger] dependents(db, id)).len() <= count_of(db.relation_ref_count, id)
}

/// Each index has a table of its own, which depends on the indexed table.
pub open spec fn index_tables_owned(db: DatabaseManagerModel) -> bool {
    &&& forall|i: u32| #[trigger]
        db.indexes.contains_key(i) ==> depends(
            db,
            RelationIdEnum::Table(db.indexes[i].index_table_id),
            db.indexes[i].primary_table_id,
        )
    &&& forall|i: u32, j: u32| #[trigger]
        db.indexes.contains_key(i) && #[trigger] db.indexes.contains_key(j) && i != j
            ==> db.indexes[i].index_table_id != db.indexes[j].index_table_id
}

/// Nothing depends on the source of a table: whatever reads it depends on the table.
pub open spec fn associated_sources_free(db: DatabaseManagerModel) -> bool {
    forall|t: u32, r: RelationIdEnum|
        db.tables.contains_key(t) && db.tables[t].optional_associated_source_id is Some
            ==> !#[trigger] depends(db, r, db.tables[t].optional_associated_source_id->0)
}

/// What the catalog keeps of its dependencies.
pub open spec fn dependencies_kept(db: DatabaseManagerModel) -> bool {
    &&& is_finite(db)
    &&& dependents_counted(db)
    &&& index_tables_owned(db)
    &&& associated_sources_free(db)
}

/// With a relation, all that depends on it is in the plan.
pub open spec fn closed_under_dependents(db: DatabaseManagerModel, plan: DropPlanModel) -> bool {
    forall|p: RelationIdEnum, r: RelationIdEnum|
        #![trigger in_plan(plan, p), depends(db, r, id_of(p))]
        in_plan(plan, p) && !(p is Index) && depends(db, r, id_of(p)) ==> in_plan(plan, r)
}

/// With a relation, all that depends on it is in the plan or still to be handled.
spec fn pending(db: DatabaseManagerModel, plan: DropPlanModel, queue: Seq<RelationIdEnum>) -> bool {
    forall|p: RelationIdEnum, r: RelationIdEnum|
        #![trigger in_plan(plan, p), depends(db, r, id_of(p))]
        in_plan(plan, p) && !(p is Index) && depends(db, r, id_of(p)) ==> in_plan(plan, r)
            || queue.contains(r)
}

proof fn lemma_image_contains(
    q: Seq<u32>,
    f: spec_fn(u32) -> RelationIdEnum,
    r: RelationIdEnum,
)
    ensures
        image(q, f).contains(r) <==> exists|x: u32| q.contains(x) && #[trigger] f(x) == r,
{
    if image(q, f).contains(r) {
        let k = choose|k: int| 0 <= k < image(q, f).len() && image(q, f)[k] == r;
        assert(q.contains(q[k]) && f(q[k]) == r);
    }
    if exists|x: u32| q.contains(x) && #[trigger] f(x) == r {
        let x = choose|x: u32| q.contains(x) && #[trigger] f(x) == r;
        let k = choose|k: int| 0 <= k < q.len() && q[k] == x;
        assert(image(q, f)[k] == r);
    }
}

proof fn lemma_added(a: Seq<RelationIdEnum>, b: Seq<RelationIdEnum>, x: RelationIdEnum)
    ensures
        (a + b).contains(x) <==> a.contains(x) || b.contains(x),
{
    if a.contains(x) {
        let k = choose|k: int| 0 <= k < a.len() && a[k] == x;
        assert((a + b)[k] == x);
    }
    if b.contains(x) {
        let k = choose|k: int| 0 <= k < b.len() && b[k] == x;
        assert((a + b)[a.len() + k] == x);
    }
    if (a + b).contains(x) {
        let k = choose|k: int| 0 <= k < (a + b).len() && (a + b)[k] == x;
        if k < a.len() {
            assert(a[k] == x);
        } else {
            assert(b[k - a.len()] == x);
        }
    }
}

/// The listed dependents are those relations that depend on `id`.
pub proof fn lemma_dependents(db: DatabaseManagerModel, id: u32, r: RelationIdEnum)
    requires
        is_finite(db),
    ensures
        dependents(db, id).contains(r) <==> depends(db, r, id),
{
    let tables = ids_where(db.tables, table_depends_on(id));
    let sinks = ids_where(db.sinks, sink_depends_on(id));
    let subscriptions = ids_where(db.subscriptions, subscription_depends_on(id));
    let views = ids_where(db.views, view_depends_on(id));
    let t = |x: u32| RelationIdEnum::Table(x);
    let s = |x: u32| RelationIdEnum::Sink(x);
    let u = |x: u32| RelationIdEnum::Subscription(x);
    let v = |x: u32| RelationIdEnum::View(x);
    lemma_ids_where(db.tables, table_depends_on(id));
    lemma_ids_where(db.sinks, sink_depends_on(id));
    lemma_ids_where(db.subscriptions, subscription_depends_on(id));
    lemma_ids_where(db.views, view_depends_on(id));
    lemma_image_contains(tables, t, r);
    lemma_image_contains(sinks, s, r);
    lemma_image_contains(subscriptions, u, r);
    lemma_image_contains(views, v, r);
    lemma_added(image(tables, t), image(sinks, s), r);
    lemma_added(image(tables, t) + image(sinks, s), image(subscriptions, u), r);
    lemma_added(
        image(tables, t) + image(sinks, s) + image(subscriptions, u),
        image(views, v),
        r,
    );
    match r {
        RelationIdEnum::Table(x) => {
            if depends(db, r, id) {
                assert(tables.contains(x) && t(x) == r);
            }
        },
        RelationIdEnum::Sink(x) => {
            if depends(db, r, id) {
                assert(sinks.contains(x) && s(x) == r);
            }
        },
        RelationIdEnum::Subscription(x) => {
            if depends(db, r, id) {
                assert(subscriptions.contains(x) && u(x) == r);
            }
        },
        RelationIdEnum::View(x) => {
            if depends(db, r, id) {
                assert(views.contains(x) && v(x) == r);
            }
        },
        _ => {},
    }
}

/// What something depends on is counted.
proof fn lemma_depended_on(db: DatabaseManagerModel, id: u32, r: RelationIdEnum)
    requires
        is_finite(db),
        dependents_counted(db),
        depends(db, r, id),
    ensures
        count_of(db.relation_ref_count, id) > 0,
        db.relation_ref_count.contains_key(id),
{
    lemma_dependents(db, id, r);
    assert(dependents(db, id).contains(r));
    assert(dependents(db, id).len() > 0);
}

/// The tables of the indexes on a table.
proof fn lemma_index_tables(db: DatabaseManagerModel, id: u32)
    requires
        is_finite(db),
        index_tables_owned(db),
    ensures
        index_tables_of(db, id).no_duplicates(),
        forall|t: u32| #[trigger]
            index_tables_of(db, id).contains(t) ==> depends(db, RelationIdEnum::Table(t), id),
{
    let q = indexes_of(db, id);
    let f = |i: u32| db.indexes[i].index_table_id;
    lemma_ids_where(db.indexes, index_on(id));
    let tables = index_tables_of(db, id);
    assert forall|a: int, b: int| 0 <= a < tables.len() && 0 <= b < tables.len() && a
        != b implies tables[a] != tables[b] by {
        assert(q[a] != q[b]);
        assert(q.contains(q[a]) && q.contains(q[b]));
        assert(db.indexes.contains_key(q[a]) && db.indexes.contains_key(q[b]));
    }
    assert forall|t: u32| #[trigger] tables.contains(t) implies depends(
        db,
        RelationIdEnum::Table(t),
        id,
    ) by {
        let k = choose|k: int| 0 <= k < tables.len() && tables[k] == t;
        assert(q.contains(q[k]));
        assert(db.indexes.contains_key(q[k]));
        assert(db.indexes[q[k]].primary_table_id == id);
    }
}

/// Where something other than the tables of its indexes depends on a table, the table is referred
/// to more often than it has indexes.
proof fn lemma_more_than_indexes(db: DatabaseManagerModel, id: u32, r: RelationIdEnum)
    requires
        is_finite(db),
        dependents_counted(db),
        index_tables_owned(db),
        depends(db, r, id),
        no_table_of(index_tables_of(db, id))(r),
    ensures
        count_of(db.relation_ref_count, id) > index_tables_of(db, id).len(),
{
    let tables = index_tables_of(db, id);
    let f = |t: u32| RelationIdEnum::Table(t);
    let q = image(tables, f).push(r);
    let all = dependents(db, id);
    lemma_index_tables(db, id);
    assert(q.no_duplicates()) by {
        assert forall|a: int, b: int| 0 <= a < q.len() && 0 <= b < q.len() && a != b implies q[a]
            != q[b] by {
            if a < tables.len() && b < tables.len() {
                assert(tables[a] != tables[b]);
            } else if a < tables.len() {
                assert(tables.contains(tables[a]));
            } else {
                assert(tables.contains(tables[b]));
            }
        }
    }
    assert(q.to_set().subset_of(all.to_set())) by {
        assert forall|x: RelationIdEnum| q.contains(x) implies all.contains(x) by {
            let k = choose|k: int| 0 <= k < q.len() && q[k] == x;
            if k < tables.len() {
                assert(tables.contains(tables[k]));
            }
            lemma_dependents(db, id, x);
        }
    }
    q.unique_seq_to_set();
    all.lemma_cardinality_of_set();
    vstd::seq_lib::seq_to_set_is_finite(all);
    vstd::set_lib::lemma_len_subset(q.to_set(), all.to_set());
}

// ---------------------------------------------------------------------------
// One step of planning.
// ---------------------------------------------------------------------------

/// A step takes nothing out of the plan, and puts the handled relation in.
proof fn lemma_step_plans(
    db: DatabaseManagerModel,
    fragments: Map<u32, JobFragmentsModel>,
    mode: DropMode,
    plan: DropPlanModel,
    item: RelationIdEnum,
)
    requires
        step(db, fragments, mode, plan, item) is Ok,
    ensures
        known(db, item) ==> in_plan(step(db, fragments, mode, plan, item)->Ok_0.0, item),
        forall|x: RelationIdEnum|
            in_plan(plan, x) ==> #[trigger] in_plan(
                step(db, fragments, mode, plan, item)->Ok_0.0,
                x,
            ),
{
}

/// What is queued where `id` is referred to covers all that depends on it.
proof fn lemma_released(
    db: DatabaseManagerModel,
    mode: DropMode,
    kind: crate::catalog::error::CatalogKind,
    name: Seq<char>,
    id: u32,
    r: RelationIdEnum,
)
    requires
        is_finite(db),
        dependents_counted(db),
        released(db, mode, kind, name, id) is Ok,
        depends(db, r, id),
    ensures
        released(db, mode, kind, name, id)->Ok_0.contains(r),
{
    lemma_depended_on(db, id, r);
    lemma_dependents(db, id, r);
}

/// What is queued with a table covers all that depends on the table or on the tables of its
/// indexes, apart from these tables.
proof fn lemma_table_released(db: DatabaseManagerModel, mode: DropMode, id: u32, p: u32, r: RelationIdEnum)
    requires
        dependencies_kept(db),
        table_released(db, mode, id) is Ok,
        p == id || index_tables_of(db, id).contains(p),
        depends(db, r, p),
    ensures
        table_released(db, mode, id)->Ok_0.contains(r) || (r is Table && index_tables_of(
            db,
            id,
        ).contains(id_of(r))),
{
    let tables = index_tables_of(db, id);
    let more = table_released(db, mode, id)->Ok_0;
    let of_indexes = gather(tables, index_table_dependents(db));
    let others = dependents(db, id).filter(no_table_of(tables));
    let count = count_of(db.relation_ref_count, id);
    lemma_dependents(db, p, r);
    lemma_added(of_indexes, others, r);
    if tables.contains(p) {
        lemma_depended_on(db, p, r);
        let k = choose|k: int| 0 <= k < tables.len() && tables[k] == p;
        assert(index_table_dependents(db)(tables[k]).contains(r));
        lemma_gather_contains(tables, index_table_dependents(db), r);
        assert(of_indexes.contains(r));
    } else if no_table_of(tables)(r) {
        lemma_more_than_indexes(db, id, r);
        assert(mode == DropMode::Cascade);
        broadcast use vstd::seq_lib::group_filter_ensures;

        let all = dependents(db, id);
        let k = choose|k: int| 0 <= k < all.len() && all[k] == r;
        assert(no_table_of(tables)(all[k]));
        assert(others.contains(all[k]));
    }
}

/// A step keeps track of all that depends on what is planned.
proof fn lemma_step_closes(
    db: DatabaseManagerModel,
    fragments: Map<u32, JobFragmentsModel>,
    mode: DropMode,
    plan: DropPlanModel,
    queue: Seq<RelationIdEnum>,
)
    requires
        dependencies_kept(db),
        queue.len() > 0,
        pending(db, plan, queue),
        step(db, fragments, mode, plan, queue[0]) is Ok,
    ensures
        pending(
            db,
            step(db, fragments, mode, plan, queue[0])->Ok_0.0,
            queue.drop_first() + step(db, fragments, mode, plan, queue[0])->Ok_0.1,
        ),
{
    let item = queue[0];
    let (after, more) = step(db, fragments, mode, plan, item)->Ok_0;
    let rest = queue.drop_first() + more;
    lemma_step_plans(db, fragments, mode, plan, item);
    assert forall|p: RelationIdEnum, r: RelationIdEnum|
        #![trigger in_plan(after, p), depends(db, r, id_of(p))]
        in_plan(after, p) && !(p is Index) && depends(db, r, id_of(p)) implies in_plan(after, r)
        || rest.contains(r) by {
        lemma_added(queue.drop_first(), more, r);
        if in_plan(plan, p) {
            if !in_plan(plan, r) {
                assert(queue.contains(r));
                let k = choose|k: int| 0 <= k < queue.len() && queue[k] == r;
                if k > 0 {
                    assert(queue.drop_first()[k - 1] == r);
                }
            } else {
                assert(in_plan(after, r));
            }
        } else {
            match item {
                RelationIdEnum::Table(id) => {
                    match p {
                        RelationIdEnum::Table(t) => {
                            lemma_table_released(db, mode, id, t, r);
                        },
                        RelationIdEnum::Source(s) => {
                            assert(db.tables[id].optional_associated_source_id == Some(s));
                            assert(depends(
                                db,
                                r,
                                db.tables[id].optional_associated_source_id->0,
                            ));
                        },
                        _ => {},
                    }
                },
                RelationIdEnum::Index(id) => {
                    let index = db.indexes[id];
                    lemma_released(
                        db,
                        mode,
                        crate::catalog::error::CatalogKind::Index,
                        index.name,
                        index.index_table_id,
                        r,
                    );
                },
                RelationIdEnum::Source(id) => {
                    lemma_released(
                        db,
                        mode,
                        crate::catalog::error::CatalogKind::Source,
                        db.sources[id].name,
                        id,
                        r,
                    );
                },
                RelationIdEnum::View(id) => {
                    lemma_released(
                        db,
                        mode,
                        crate::catalog::error::CatalogKind::View,
                        db.views[id].name,
                        id,
                        r,
                    );
                },
                RelationIdEnum::Sink(id) => {
                    lemma_released(
                        db,
                        mode,
                        crate::catalog::error::CatalogKind::Sink,
                        db.sinks[id].name,
                        id,
                        r,
                    );
                },
                RelationIdEnum::Subscription(id) => {
                    lemma_released(
                        db,
                        mode,
                        crate::catalog::error::CatalogKind::Subscription,
                        db.subscriptions[id].name,
                        id,
                        r,
                    );
                },
            }
        }
    }
}

// ---------------------------------------------------------------------------
// Whole plans.
// ---------------------------------------------------------------------------

proof fn lemma_planned(
    db: DatabaseManagerModel,
    fragments: Map<u32, JobFragmentsModel>,
    mode: DropMode,
    plan: DropPlanModel,
    queue: Seq<RelationIdEnum>,
)
    requires
        dependencies_kept(db),
        pending(db, plan, queue),
        planned(db, fragments, mode, plan, queue) is Ok,
    ensures
        closed_under_dependents(db, planned(db, fragments, mode, plan, queue)->Ok_0),
        forall|x: RelationIdEnum| #[trigger]
            in_plan(plan, x) ==> in_plan(planned(db, fragments, mode, plan, queue)->Ok_0, x),
        forall|x: RelationIdEnum| #[trigger]
            queue.contains(x) && known(db, x) ==> in_plan(
                planned(db, fragments, mode, plan, queue)->Ok_0,
                x,
            ),
    decreases unplanned(plan), queue.len(),
{
    if queue.len() > 0 {
        let end = planned(db, fragments, mode, plan, queue)->Ok_0;
        let (after, more) = step(db, fragments, mode, plan, queue[0])->Ok_0;
        lemma_step_progress(db, fragments, mode, plan, queue[0]);
        lemma_step_closes(db, fragments, mode, plan, queue);
        lemma_step_plans(db, fragments, mode, plan, queue[0]);
        let rest = queue.drop_first() + more;
        if after == plan && more.len() == 0 {
            assert(rest =~= queue.drop_first());
            lemma_planned(db, fragments, mode, plan, queue.drop_first());
        } else {
            lemma_planned(db, fragments, mode, after, rest);
        }
        assert forall|x: RelationIdEnum| #[trigger] queue.contains(x) && known(
            db,
            x,
        ) implies in_plan(end, x) by {
            let k = choose|k: int| 0 <= k < queue.len() && queue[k] == x;
            if k > 0 {
                assert(queue.drop_first()[k - 1] == x);
                lemma_added(queue.drop_first(), more, x);
                assert(rest.contains(x));
                assert(queue.drop_first().contains(x));
            } else {
                assert(in_plan(after, x));
            }
        }
        assert forall|x: RelationIdEnum| #[trigger] in_plan(plan, x) implies in_plan(end, x) by {
            assert(in_plan(after, x));
        }
    }
}

/// A drop takes the relation along and, with every relation that it takes, all that depends on it.
pub proof fn law_drop_takes_dependents(
    db: DatabaseManagerModel,
    fragments: Map<u32, JobFragmentsModel>,
    mode: DropMode,
    relation: RelationIdEnum,
)
    requires
        dependencies_kept(db),
        drop_plan(db, fragments, mode, relation) is Ok,
    ensures
        in_plan(drop_plan(db, fragments, mode, relation)->Ok_0, relation),
        closed_under_dependents(db, drop_plan(db, fragments, mode, relation)->Ok_0),
{
    let queue = start(db, relation)->Ok_0;
    let plan = DropPlanModel::blank();
    assert(pending(db, plan, queue)) by {
        assert forall|p: RelationIdEnum| !in_plan(plan, p) by {}
    }
    lemma_planned(db, fragments, mode, plan, queue);
    assert(queue[queue.len() - 1] == relation);
    assert(queue.contains(relation));
    assert(known(db, relation));
}

/// After a drop nothing that is left depends on a relation that is gone.
pub proof fn law_nothing_left_depends_on_dropped(
    c: CatalogManagerCoreModel,
    fragments: Map<u32, JobFragmentsModel>,
    mode: DropMode,
    relation: RelationIdEnum,
    p: RelationIdEnum,
    r: RelationIdEnum,
)
    requires
        dependencies_kept(c.database),
        drop_plan(c.database, fragments, mode, relation) is Ok,
        in_plan(drop_plan(c.database, fragments, mode, relation)->Ok_0, p),
        !(p is Index),
    ensures
        !depends(
            dropped(c, drop_plan(c.database, fragments, mode, relation)->Ok_0).database,
            r,
            id_of(p),
        ),
{
    let db = c.database;
    let plan = drop_plan(db, fragments, mode, relation)->Ok_0;
    let after = dropped(c, plan).database;
    law_drop_takes_dependents(db, fragments, mode, relation);
    if depends(after, r, id_of(p)) {
        assert(depends(db, r, id_of(p)));
        assert(in_plan(plan, r));
        assert(!known(after, r));
    }
}

// ---------------------------------------------------------------------------
// Restricted drops.
// ---------------------------------------------------------------------------

/// A restricted drop of a view, a source, a sink or a subscription that is referred to is refused.
pub proof fn law_restricted_drop_refused(
    db: DatabaseManagerModel,
    fragments: Map<u32, JobFragmentsModel>,
    relation: RelationIdEnum,
)
    requires
        known(db, relation),
        !(relation is Table),
        !(relation is Index),
        count_of(db.relation_ref_count, id_of(relation)) > 0,
    ensures
        drop_plan(db, fragments, DropMode::Restrict, relation) is Err,
{
    let queue = start(db, relation)->Ok_0;
    assert(queue =~= seq![relation]);
    assert(step(db, fragments, DropMode::Restrict, DropPlanModel::blank(), queue[0]) is Err);
}

/// A restricted drop of an index whose table is referred to is refused.
pub proof fn law_restricted_drop_of_index_refused(
    db: DatabaseManagerModel,
    fragments: Map<u32, JobFragmentsModel>,
    id: u32,
)
    requires
        db.indexes.contains_key(id),
        count_of(db.relation_ref_count, db.indexes[id].index_table_id) > 0,
    ensures
        drop_plan(db, fragments, DropMode::Restrict, RelationIdEnum::Index(id)) is Err,
{
    let queue = start(db, RelationIdEnum::Index(id))->Ok_0;
    assert(queue =~= seq![RelationIdEnum::Index(id)]);
    assert(step(db, fragments, DropMode::Restrict, DropPlanModel::blank(), queue[0]) is Err);
}

proof fn lemma_restricted_table(
    db: DatabaseManagerModel,
    fragments: Map<u32, JobFragmentsModel>,
    plan: DropPlanModel,
    queue: Seq<RelationIdEnum>,
    id: u32,
)
    requires
        db.tables.contains_key(id),
        !plan.tables.contains(id),
        queue.len() > 0,
        queue.last() == RelationIdEnum::Table(id),
        forall|i: int| 0 <= i < queue.len() - 1 ==> (#[trigger] queue[i]) is Sink,
        count_of(db.relation_ref_count, id) > index_tables_of(db, id).len(),
    ensures
        planned(db, fragments, DropMode::Restrict, plan, queue) is Err,
    decreases queue.len(),
{
    if queue.len() > 1 {
        assert(queue[0] is Sink);
        match step(db, fragments, DropMode::Restrict, plan, queue[0]) {
            Ok((after, more)) => {
                assert(more.len() == 0);
                assert(queue.drop_first() + more =~= queue.drop_first());
                assert(queue.drop_first().last() == queue.last());
                lemma_restricted_table(db, fragments, after, queue.drop_first(), id);
            },
            Err(_) => {},
        }
    } else {
        assert(queue[0] == RelationIdEnum::Table(id));
        assert(step(db, fragments, DropMode::Restrict, plan, queue[0]) is Err);
    }
}

/// A restricted drop of a table that is referred to by more than the tables of its indexes is
/// refused.
pub proof fn law_restricted_drop_of_table_refused(
    db: DatabaseManagerModel,
    fragments: Map<u32, JobFragmentsModel>,
    id: u32,
)
    requires
        db.tables.contains_key(id),
        count_of(db.relation_ref_count, id) > index_tables_of(db, id).len(),
    ensures
        drop_plan(db, fragments, DropMode::Restrict, RelationIdEnum::Table(id)) is Err,
{
    let queue = start(db, RelationIdEnum::Table(id))->Ok_0;
    assert(queue.last() == RelationIdEnum::Table(id));
    lemma_restricted_table(db, fragments, DropPlanModel::blank(), queue, id);
}

} // verus!
