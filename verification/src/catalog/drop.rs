//! Dropping a relation together with what hangs on it.

use vstd::prelude::*;

use crate::catalog::error::{CatalogKind, MetaError, MetaErrorModel, MetaResult};
use crate::catalog::state::{DatabaseManager, DatabaseManagerModel};
use crate::catalog::types::{
    Index, IndexModel, Sink, SinkModel, Subscription, SubscriptionModel, Table, TableModel,
    ViewInfo, ViewInfoModel,
};
use crate::util::counts::count_of;
use crate::util::id_map::{all_in, copy_all, ids_where, views, Entry, IdMap};
use crate::util::id_set::IdSet;
use crate::util::ids::contains_id;
use crate::util::lists::{gather, image, lemma_gather_push};

verus! {

/// A relation to be dropped.
#[derive(Debug, Clone, Copy, PartialEq, Eq, Structural)]
pub enum RelationIdEnum {
    Table(u32),
    Index(u32),
    View(u32),
    Sink(u32),
    Subscription(u32),
    Source(u32),
}

/// Whether a drop is refused where other relations depend on what is dropped, or takes them along.
#[derive(Debug, Clone, Copy, PartialEq, Eq, Structural)]
pub enum DropMode {
    Restrict,
    Cascade,
}

/// What is known of the fragments of a streaming job.
#[derive(Debug, PartialEq, Eq)]
pub struct JobFragments {
    pub internal_table_ids: Vec<u32>,
    pub is_initial: bool,
}

/// The mathematical model of [`JobFragments`].
#[verifier::ext_equal]
pub struct JobFragmentsModel {
    pub internal_table_ids: Seq<u32>,
    pub is_initial: bool,
}

impl View for JobFragments {
    type V = JobFragmentsModel;

    open spec fn view(&self) -> JobFragmentsModel {
        JobFragmentsModel {
            internal_table_ids: self.internal_table_ids@,
            is_initial: self.is_initial,
        }
    }
}

impl Entry for JobFragments {
    fn duplicate(&self) -> (r: Self) {
        JobFragments {
            internal_table_ids: copy_all(&self.internal_table_ids),
            is_initial: self.is_initial,
        }
    }
}

impl JobFragmentsModel {
    /// All fields at their default.
    pub open spec fn blank() -> JobFragmentsModel {
        JobFragmentsModel {
            internal_table_ids: Seq::empty(),
            is_initial: false,
        }
    }
}

impl Default for JobFragments {
    fn default() -> (r: Self)
        ensures
            r@ == JobFragmentsModel::blank(),
    {
        let r = JobFragments {
            internal_table_ids: Vec::new(),
            is_initial: false,
        };
        assert(r@ =~= JobFragmentsModel::blank());
        r
    }
}

/// What a drop removes. `tables` are tables, materialized views and the tables of indexes;
/// `streaming_job_sources` are the sources that a streaming job runs.
#[derive(Debug, PartialEq, Eq)]
pub struct DropPlan {
    pub tables: IdSet,
    pub internal_tables: IdSet,
    pub indexes: IdSet,
    pub sinks: IdSet,
    pub subscriptions: IdSet,
    pub sources: IdSet,
    pub views: IdSet,
    pub streaming_job_sources: IdSet,
}

/// The mathematical model of [`DropPlan`].
#[verifier::ext_equal]
pub struct DropPlanModel {
    pub tables: Set<u32>,
    pub internal_tables: Set<u32>,
    pub indexes: Set<u32>,
    pub sinks: Set<u32>,
    pub subscriptions: Set<u32>,
    pub sources: Set<u32>,
    pub views: Set<u32>,
    pub streaming_job_sources: Set<u32>,
}

impl View for DropPlan {
    type V = DropPlanModel;

    open spec fn view(&self) -> DropPlanModel {
        DropPlanModel {
            tables: self.tables@,
            internal_tables: self.internal_tables@,
            indexes: self.indexes@,
            sinks: self.sinks@,
            subscriptions: self.subscriptions@,
            sources: self.sources@,
            views: self.views@,
            streaming_job_sources: self.streaming_job_sources@,
        }
    }
}

impl Entry for DropPlan {
    fn duplicate(&self) -> (r: Self) {
        DropPlan {
            tables: self.tables.duplicate(),
            internal_tables: self.internal_tables.duplicate(),
            indexes: self.indexes.duplicate(),
            sinks: self.sinks.duplicate(),
            subscriptions: self.subscriptions.duplicate(),
            sources: self.sources.duplicate(),
            views: self.views.duplicate(),
            streaming_job_sources: self.streaming_job_sources.duplicate(),
        }
    }
}

impl DropPlanModel {
    /// All fields at their default.
    pub open spec fn blank() -> DropPlanModel {
        DropPlanModel {
            tables: Set::empty(),
            internal_tables: Set::empty(),
            indexes: Set::empty(),
            sinks: Set::empty(),
            subscriptions: Set::empty(),
            sources: Set::empty(),
            views: Set::empty(),
            streaming_job_sources: Set::empty(),
        }
    }
}

impl Default for DropPlan {
    fn default() -> (r: Self)
        ensures
            r@ == DropPlanModel::blank(),
    {
        let r = DropPlan {
            tables: IdSet::new(),
            internal_tables: IdSet::new(),
            indexes: IdSet::new(),
            sinks: IdSet::new(),
            subscriptions: IdSet::new(),
            sources: IdSet::new(),
            views: IdSet::new(),
            streaming_job_sources: IdSet::new(),
        };
        assert(r@ =~= DropPlanModel::blank());
        r
    }
}

// ---------------------------------------------------------------------------
// Which relations depend on a relation.
// ---------------------------------------------------------------------------

pub open spec fn table_depends_on(id: u32) -> spec_fn(TableModel) -> bool {
    |x: TableModel| x.dependent_relations.contains(id)
}

pub open spec fn sink_depends_on(id: u32) -> spec_fn(SinkModel) -> bool {
    |x: SinkModel| x.dependent_relations.contains(id)
}

pub open spec fn subscription_depends_on(id: u32) -> spec_fn(SubscriptionModel) -> bool {
    |x: SubscriptionModel| x.dependent_table_id == id
}

pub open spec fn view_depends_on(id: u32) -> spec_fn(ViewInfoModel) -> bool {
    |x: ViewInfoModel| x.dependent_relations.contains(id)
}

pub open spec fn index_on(table_id: u32) -> spec_fn(IndexModel) -> bool {
    |x: IndexModel| x.primary_table_id == table_id
}

/// The relations that depend on `id`. Indexes are not among them: they go with their table.
pub open spec fn dependents(db: DatabaseManagerModel, id: u32) -> Seq<RelationIdEnum> {
    image(ids_where(db.tables, table_depends_on(id)), |x: u32| RelationIdEnum::Table(x)) + image(
        ids_where(db.sinks, sink_depends_on(id)),
        |x: u32| RelationIdEnum::Sink(x),
    ) + image(
        ids_where(db.subscriptions, subscription_depends_on(id)),
        |x: u32| RelationIdEnum::Subscription(x),
    ) + image(ids_where(db.views, view_depends_on(id)), |x: u32| RelationIdEnum::View(x))
}

/// The indexes on a table.
pub open spec fn indexes_of(db: DatabaseManagerModel, table_id: u32) -> Seq<u32> {
    ids_where(db.indexes, index_on(table_id))
}

/// The tables of the indexes on a table.
pub open spec fn index_tables_of(db: DatabaseManagerModel, table_id: u32) -> Seq<u32> {
    image(indexes_of(db, table_id), |i: u32| db.indexes[i].index_table_id)
}

/// The internal tables of a job, none for a job that is not known.
pub open spec fn internal_tables(fragments: Map<u32, JobFragmentsModel>, id: u32) -> Seq<u32> {
    if fragments.contains_key(id) {
        fragments[id].internal_table_ids
    } else {
        Seq::empty()
    }
}

// ---------------------------------------------------------------------------
// Planning a drop.
// ---------------------------------------------------------------------------

/// What the drop of `id` takes along where `id` is referred to, or the refusal.
pub open spec fn released(
    db: DatabaseManagerModel,
    mode: DropMode,
    kind: CatalogKind,
    name: Seq<char>,
    id: u32,
) -> Result<Seq<RelationIdEnum>, MetaErrorModel> {
    if count_of(db.relation_ref_count, id) > 0 {
        match mode {
            DropMode::Restrict => Err(
                MetaErrorModel::RelationReferenced(kind, name, db.relation_ref_count[id]),
            ),
            DropMode::Cascade => Ok(dependents(db, id)),
        }
    } else {
        Ok(Seq::empty())
    }
}

/// The first of `ids` that is referred to.
pub open spec fn first_referenced(db: DatabaseManagerModel, ids: Seq<u32>) -> Option<u32>
    decreases ids.len(),
{
    if ids.len() == 0 {
        None
    } else if db.relation_ref_count.contains_key(ids[0]) {
        Some(ids[0])
    } else {
        first_referenced(db, ids.drop_first())
    }
}

/// What depends on an index table that is referred to.
pub open spec fn index_table_dependents(db: DatabaseManagerModel) -> spec_fn(u32) -> Seq<RelationIdEnum> {
    |t: u32|
        if db.relation_ref_count.contains_key(t) {
            dependents(db, t)
        } else {
            Seq::empty()
        }
}

/// The relation is none of `tables`.
pub open spec fn no_table_of(tables: Seq<u32>) -> spec_fn(RelationIdEnum) -> bool {
    |r: RelationIdEnum|
        match r {
            RelationIdEnum::Table(t) => !tables.contains(t),
            _ => true,
        }
}

/// What the drop of a table takes along, or the refusal.
pub open spec fn table_released(db: DatabaseManagerModel, mode: DropMode, id: u32) -> Result<
    Seq<RelationIdEnum>,
    MetaErrorModel,
> {
    let index_tables = index_tables_of(db, id);
    let count = count_of(db.relation_ref_count, id);
    if mode == DropMode::Restrict && first_referenced(db, index_tables) is Some {
        let t = first_referenced(db, index_tables)->0;
        Err(
            MetaErrorModel::RelationReferenced(
                CatalogKind::IndexTable,
                db.tables[t].name,
                db.relation_ref_count[t],
            ),
        )
    } else if count > index_tables.len() {
        match mode {
            DropMode::Restrict => Err(
                MetaErrorModel::RelationReferenced(
                    CatalogKind::Table,
                    db.tables[id].name,
                    count as usize,
                ),
            ),
            DropMode::Cascade => Ok(
                gather(index_tables, index_table_dependents(db)) + dependents(db, id).filter(
                    no_table_of(index_tables),
                ),
            ),
        }
    } else {
        Ok(gather(index_tables, index_table_dependents(db)))
    }
}

/// The plan with a table, its indexes and their tables, the internal tables of all of them, and
/// the source that the table is associated with.
pub open spec fn with_table(
    db: DatabaseManagerModel,
    fragments: Map<u32, JobFragmentsModel>,
    plan: DropPlanModel,
    id: u32,
) -> DropPlanModel {
    DropPlanModel {
        tables: plan.tables.insert(id).union(index_tables_of(db, id).to_set()),
        internal_tables: plan.internal_tables.union(
            internal_tables(fragments, id).to_set(),
        ).union(
            gather(index_tables_of(db, id), |t: u32| internal_tables(fragments, t)).to_set(),
        ),
        indexes: plan.indexes.union(indexes_of(db, id).to_set()),
        sources: match db.tables[id].optional_associated_source_id {
            Some(source_id) => plan.sources.insert(source_id),
            None => plan.sources,
        },
        ..plan
    }
}

/// The source is run by a streaming job.
pub open spec fn is_shared(db: DatabaseManagerModel, id: u32) -> bool {
    match db.sources[id].info {
        Some(info) => info.is_shared,
        None => false,
    }
}

/// What handling one relation does to the plan, and which relations have to be handled after it.
/// A relation that is in the plan is not handled again.
pub open spec fn step(
    db: DatabaseManagerModel,
    fragments: Map<u32, JobFragmentsModel>,
    mode: DropMode,
    plan: DropPlanModel,
    item: RelationIdEnum,
) -> Result<(DropPlanModel, Seq<RelationIdEnum>), MetaErrorModel> {
    let nothing = Ok((plan, Seq::<RelationIdEnum>::empty()));
    match item {
        RelationIdEnum::Table(id) => if plan.tables.contains(id) || !db.tables.contains_key(id) {
            nothing
        } else if !fragments.contains_key(id) {
            Err(MetaErrorModel::FragmentNotFound(id))
        } else {
            match table_released(db, mode, id) {
                Err(e) => Err(e),
                Ok(more) => Ok((with_table(db, fragments, plan, id), more)),
            }
        },
        RelationIdEnum::Index(id) => if plan.indexes.contains(id) || !db.indexes.contains_key(id) {
            nothing
        } else {
            let index = db.indexes[id];
            match released(db, mode, CatalogKind::Index, index.name, index.index_table_id) {
                Err(e) => Err(e),
                Ok(more) => Ok(
                    (
                        DropPlanModel {
                            indexes: plan.indexes.insert(id),
                            tables: plan.tables.insert(index.index_table_id),
                            internal_tables: plan.internal_tables.union(
                                internal_tables(fragments, index.index_table_id).to_set(),
                            ),
                            ..plan
                        },
                        more,
                    ),
                ),
            }
        },
        RelationIdEnum::Source(id) => if plan.sources.contains(id) || !db.sources.contains_key(id) {
            nothing
        } else if is_shared(db, id) && !fragments.contains_key(id) {
            Err(MetaErrorModel::FragmentNotFound(id))
        } else {
            match released(db, mode, CatalogKind::Source, db.sources[id].name, id) {
                Err(e) => Err(e),
                Ok(more) => Ok(
                    (
                        if is_shared(db, id) {
                            DropPlanModel {
                                sources: plan.sources.insert(id),
                                streaming_job_sources: plan.streaming_job_sources.insert(id),
                                internal_tables: plan.internal_tables.union(
                                    internal_tables(fragments, id).to_set(),
                                ),
                                ..plan
                            }
                        } else {
                            DropPlanModel { sources: plan.sources.insert(id), ..plan }
                        },
                        more,
                    ),
                ),
            }
        },
        RelationIdEnum::View(id) => if plan.views.contains(id) || !db.views.contains_key(id) {
            nothing
        } else {
            match released(db, mode, CatalogKind::View, db.views[id].name, id) {
                Err(e) => Err(e),
                Ok(more) => Ok((DropPlanModel { views: plan.views.insert(id), ..plan }, more)),
            }
        },
        RelationIdEnum::Sink(id) => if plan.sinks.contains(id) || !db.sinks.contains_key(id) {
            nothing
        } else if !fragments.contains_key(id) {
            Err(MetaErrorModel::FragmentNotFound(id))
        } else {
            match released(db, mode, CatalogKind::Sink, db.sinks[id].name, id) {
                Err(e) => Err(e),
                Ok(more) => Ok(
                    (
                        DropPlanModel {
                            sinks: plan.sinks.insert(id),
                            internal_tables: plan.internal_tables.union(
                                internal_tables(fragments, id).to_set(),
                            ),
                            ..plan
                        },
                        more,
                    ),
                ),
            }
        },
        RelationIdEnum::Subscription(id) => if plan.subscriptions.contains(id)
            || !db.subscriptions.contains_key(id) {
            nothing
        } else {
            match released(db, mode, CatalogKind::Subscription, db.subscriptions[id].name, id) {
                Err(e) => Err(e),
                Ok(more) => Ok(
                    (DropPlanModel { subscriptions: plan.subscriptions.insert(id), ..plan }, more),
                ),
            }
        },
    }
}

/// What handling one relation presumes: the tables of the indexes that are dropped exist, and
/// each of their jobs has at most one internal table (the one of its table scan).
pub open spec fn step_presumes(
    db: DatabaseManagerModel,
    fragments: Map<u32, JobFragmentsModel>,
    plan: DropPlanModel,
    item: RelationIdEnum,
) -> bool {
    match item {
        RelationIdEnum::Table(id) => !plan.tables.contains(id) && db.tables.contains_key(id)
            && fragments.contains_key(id) ==> {
            let index_tables = index_tables_of(db, id);
            &&& all_in(index_tables, db.tables)
            &&& forall|i: int|
                0 <= i < index_tables.len() ==> internal_tables(
                    fragments,
                    #[trigger] index_tables[i],
                ).len() <= 1
        },
        RelationIdEnum::Index(id) => !plan.indexes.contains(id) && db.indexes.contains_key(id)
            ==> internal_tables(fragments, db.indexes[id].index_table_id).len() <= 1,
        _ => true,
    }
}

/// How many identifiers are not in `s`.
pub open spec fn remaining(s: Set<u32>) -> nat {
    Set::<u32>::full().difference(s).len()
}

/// How many relations are not in the plan.
pub open spec fn unplanned(plan: DropPlanModel) -> nat {
    remaining(plan.tables) + remaining(plan.indexes) + remaining(plan.sources) + remaining(
        plan.views,
    ) + remaining(plan.sinks) + remaining(plan.subscriptions)
}

pub proof fn lemma_remaining(a: Set<u32>, b: Set<u32>)
    requires
        a.subset_of(b),
    ensures
        remaining(b) <= remaining(a),
        forall|x: u32| #[trigger] b.contains(x) && !a.contains(x) ==> remaining(b) < remaining(a),
{
    <u32 as vstd::set_lib::FiniteFull>::full_properties();
    let full = Set::<u32>::full();
    assert(full.finite());
    assert(full.difference(a).subset_of(full));
    vstd::set_lib::lemma_len_subset(full.difference(a), full);
    assert(full.difference(b).subset_of(full.difference(a)));
    vstd::set_lib::lemma_len_subset(full.difference(b), full.difference(a));
    assert forall|x: u32| #[trigger] b.contains(x) && !a.contains(x) implies remaining(b) < remaining(a) by {
        full.difference(b).lemma_subset_not_in_lt(full.difference(a), x);
    }
}

/// Every step that does something adds to the plan.
pub proof fn lemma_step_progress(
    db: DatabaseManagerModel,
    fragments: Map<u32, JobFragmentsModel>,
    mode: DropMode,
    plan: DropPlanModel,
    item: RelationIdEnum,
)
    ensures
        match step(db, fragments, mode, plan, item) {
            Ok((p, more)) => unplanned(p) < unplanned(plan) || (p == plan && more.len() == 0),
            Err(_) => true,
        },
{
    match step(db, fragments, mode, plan, item) {
        Ok((p, more)) => {
            assert(plan.tables.subset_of(p.tables));
            lemma_remaining(plan.tables, p.tables);
            lemma_remaining(plan.indexes, p.indexes);
            lemma_remaining(plan.sources, p.sources);
            lemma_remaining(plan.views, p.views);
            lemma_remaining(plan.sinks, p.sinks);
            lemma_remaining(plan.subscriptions, p.subscriptions);
            match item {
                RelationIdEnum::Table(id) => {
                    if !(plan.tables.contains(id) || !db.tables.contains_key(id)) {
                        assert(p.tables.contains(id));
                    }
                },
                RelationIdEnum::Index(id) => {
                    if !(plan.indexes.contains(id) || !db.indexes.contains_key(id)) {
                        assert(p.indexes.contains(id));
                    }
                },
                RelationIdEnum::Source(id) => {
                    if !(plan.sources.contains(id) || !db.sources.contains_key(id)) {
                        assert(p.sources.contains(id));
                    }
                },
                RelationIdEnum::View(id) => {
                    if !(plan.views.contains(id) || !db.views.contains_key(id)) {
                        assert(p.views.contains(id));
                    }
                },
                RelationIdEnum::Sink(id) => {
                    if !(plan.sinks.contains(id) || !db.sinks.contains_key(id)) {
                        assert(p.sinks.contains(id));
                    }
                },
                RelationIdEnum::Subscription(id) => {
                    if !(plan.subscriptions.contains(id) || !db.subscriptions.contains_key(id)) {
                        assert(p.subscriptions.contains(id));
                    }
                },
            }
        },
        Err(_) => {},
    }
}

/// The plan after the relations of `queue` and all that follow from them are handled, in the
/// order in which they were found.
pub open spec fn planned(
    db: DatabaseManagerModel,
    fragments: Map<u32, JobFragmentsModel>,
    mode: DropMode,
    plan: DropPlanModel,
    queue: Seq<RelationIdEnum>,
) -> Result<DropPlanModel, MetaErrorModel>
    decreases unplanned(plan), queue.len(),
{
    if queue.len() == 0 {
        Ok(plan)
    } else {
        proof {
            lemma_step_progress(db, fragments, mode, plan, queue[0]);
        }
        match step(db, fragments, mode, plan, queue[0]) {
            Err(e) => Err(e),
            Ok((p, more)) => if p == plan && more.len() == 0 {
                planned(db, fragments, mode, plan, queue.drop_first())
            } else {
                planned(db, fragments, mode, p, queue.drop_first() + more)
            },
        }
    }
}

/// What planning presumes of every relation that it handles.
pub open spec fn plan_presumes(
    db: DatabaseManagerModel,
    fragments: Map<u32, JobFragmentsModel>,
    mode: DropMode,
    plan: DropPlanModel,
    queue: Seq<RelationIdEnum>,
) -> bool
    decreases unplanned(plan), queue.len(),
{
    if queue.len() == 0 {
        true
    } else {
        proof {
            lemma_step_progress(db, fragments, mode, plan, queue[0]);
        }
        &&& step_presumes(db, fragments, plan, queue[0])
        &&& match step(db, fragments, mode, plan, queue[0]) {
            Err(_) => true,
            Ok((p, more)) => if p == plan && more.len() == 0 {
                plan_presumes(db, fragments, mode, plan, queue.drop_first())
            } else {
                plan_presumes(db, fragments, mode, p, queue.drop_first() + more)
            },
        }
    }
}

/// The relations that a drop starts with: the relation itself and, before a table, the sinks
/// that write into it.
pub open spec fn start(db: DatabaseManagerModel, relation: RelationIdEnum) -> Result<
    Seq<RelationIdEnum>,
    MetaErrorModel,
> {
    match relation {
        RelationIdEnum::Table(id) => if db.tables.contains_key(id) {
            Ok(
                image(
                    db.tables[id].incoming_sinks.filter(|s: u32| db.sinks.contains_key(s)),
                    |s: u32| RelationIdEnum::Sink(s),
                ).push(relation),
            )
        } else {
            Err(MetaErrorModel::RelationMissing(CatalogKind::Table))
        },
        RelationIdEnum::Index(id) => if db.indexes.contains_key(id) {
            Ok(seq![relation])
        } else {
            Err(MetaErrorModel::RelationMissing(CatalogKind::Index))
        },
        RelationIdEnum::Sink(id) => if db.sinks.contains_key(id) {
            Ok(seq![relation])
        } else {
            Err(MetaErrorModel::RelationMissing(CatalogKind::Sink))
        },
        RelationIdEnum::Subscription(id) => if db.subscriptions.contains_key(id) {
            Ok(seq![relation])
        } else {
            Err(MetaErrorModel::RelationMissing(CatalogKind::Subscription))
        },
        RelationIdEnum::View(id) => if db.views.contains_key(id) {
            Ok(seq![relation])
        } else {
            Err(MetaErrorModel::RelationMissing(CatalogKind::Source))
        },
        RelationIdEnum::Source(id) => if db.sources.contains_key(id) {
            Ok(seq![relation])
        } else {
            Err(MetaErrorModel::RelationMissing(CatalogKind::View))
        },
    }
}

/// The plan for dropping `relation`.
pub open spec fn drop_plan(
    db: DatabaseManagerModel,
    fragments: Map<u32, JobFragmentsModel>,
    mode: DropMode,
    relation: RelationIdEnum,
) -> Result<DropPlanModel, MetaErrorModel> {
    match start(db, relation) {
        Err(e) => Err(e),
        Ok(queue) => planned(db, fragments, mode, DropPlanModel::blank(), queue),
    }
}

/// What planning the drop of `relation` presumes.
pub open spec fn drop_plan_presumes(
    db: DatabaseManagerModel,
    fragments: Map<u32, JobFragmentsModel>,
    mode: DropMode,
    relation: RelationIdEnum,
) -> bool {
    match start(db, relation) {
        Err(_) => true,
        Ok(queue) => plan_presumes(db, fragments, mode, DropPlanModel::blank(), queue),
    }
}

impl DatabaseManager {
    /// The relations that depend on `id`.
    pub fn relations_depend_on(&self, id: u32) -> (r: Vec<RelationIdEnum>)
        ensures
            r@ == dependents(self@, id),
    {
        let mut r: Vec<RelationIdEnum> = Vec::new();
        let f = |x: &Table| -> (b: bool)
            ensures
                b == table_depends_on(id)(x@),
        {
            contains_id(&x.dependent_relations, id)
        };
        let tables = self.tables.ids_where(f, Ghost(table_depends_on(id)));
        let f = |x: &Sink| -> (b: bool)
            ensures
                b == sink_depends_on(id)(x@),
        {
            contains_id(&x.dependent_relations, id)
        };
        let sinks = self.sinks.ids_where(f, Ghost(sink_depends_on(id)));
        let f = |x: &Subscription| -> (b: bool)
            ensures
                b == subscription_depends_on(id)(x@),
        {
            x.dependent_table_id == id
        };
        let subscriptions = self.subscriptions.ids_where(f, Ghost(subscription_depends_on(id)));
        let f = |x: &ViewInfo| -> (b: bool)
            ensures
                b == view_depends_on(id)(x@),
        {
            contains_id(&x.dependent_relations, id)
        };
        let view_ids = self.views.ids_where(f, Ghost(view_depends_on(id)));
        let ghost a = image(tables@, |x: u32| RelationIdEnum::Table(x));
        let ghost b = image(sinks@, |x: u32| RelationIdEnum::Sink(x));
        let ghost c = image(subscriptions@, |x: u32| RelationIdEnum::Subscription(x));
        let ghost d = image(view_ids@, |x: u32| RelationIdEnum::View(x));
        let mut i: usize = 0;
        while i < tables.len()
            invariant
                i <= tables.len(),
                a == image(tables@, |x: u32| RelationIdEnum::Table(x)),
                r@ == a.take(i as int),
            decreases tables.len() - i,
        {
            r.push(RelationIdEnum::Table(tables[i]));
            i = i + 1;
            assert(r@ =~= a.take(i as int));
        }
        assert(r@ =~= a + b.take(0));
        let mut i: usize = 0;
        while i < sinks.len()
            invariant
                i <= sinks.len(),
                b == image(sinks@, |x: u32| RelationIdEnum::Sink(x)),
                r@ == a + b.take(i as int),
            decreases sinks.len() - i,
        {
            r.push(RelationIdEnum::Sink(sinks[i]));
            i = i + 1;
            assert(r@ =~= a + b.take(i as int));
        }
        assert(r@ =~= a + b + c.take(0));
        let mut i: usize = 0;
        while i < subscriptions.len()
            invariant
                i <= subscriptions.len(),
                c == image(subscriptions@, |x: u32| RelationIdEnum::Subscription(x)),
                r@ == a + b + c.take(i as int),
            decreases subscriptions.len() - i,
        {
            r.push(RelationIdEnum::Subscription(subscriptions[i]));
            i = i + 1;
            assert(r@ =~= a + b + c.take(i as int));
        }
        assert(r@ =~= a + b + c + d.take(0));
        let mut i: usize = 0;
        while i < view_ids.len()
            invariant
                i <= view_ids.len(),
                d == image(view_ids@, |x: u32| RelationIdEnum::View(x)),
                r@ == a + b + c + d.take(i as int),
            decreases view_ids.len() - i,
        {
            r.push(RelationIdEnum::View(view_ids[i]));
            i = i + 1;
            assert(r@ =~= a + b + c + d.take(i as int));
        }
        assert(d.take(i as int) =~= d);
        r
    }

    /// The indexes on a table, and their tables.
    pub fn indexes_on(&self, table_id: u32) -> (r: (Vec<u32>, Vec<u32>))
        ensures
            r.0@ == indexes_of(self@, table_id),
            r.1@ == index_tables_of(self@, table_id),
            all_in(r.0@, self@.indexes),
    {
        let f = |x: &Index| -> (b: bool)
            ensures
                b == index_on(table_id)(x@),
        {
            x.primary_table_id == table_id
        };
        let ids = self.indexes.ids_where(f, Ghost(index_on(table_id)));
        let mut tables: Vec<u32> = Vec::new();
        let mut i: usize = 0;
        while i < ids.len()
            invariant
                i <= ids.len(),
                all_in(ids@, self@.indexes),
                tables@.len() == i,
                forall|k: int| 0 <= k < i ==> tables@[k] == self@.indexes[ids@[k]].index_table_id,
            decreases ids.len() - i,
        {
            assert(self@.indexes.contains_key(ids@[i as int]));
            match self.indexes.get(ids[i]) {
                Some(x) => {
                    tables.push(x.index_table_id);
                },
                None => {},
            }
            i = i + 1;
        }
        assert(tables@ =~= index_tables_of(self@, table_id));
        (ids, tables)
    }

    /// What the drop of `id` takes along where `id` is referred to, or the refusal.
    fn release(&self, mode: DropMode, kind: CatalogKind, name: &String, id: u32) -> (r: MetaResult<
        Vec<RelationIdEnum>,
    >)
        ensures
            match released(self@, mode, kind, name@, id) {
                Ok(more) => r is Ok && r->Ok_0@ == more,
                Err(e) => r is Err && r->Err_0@ == e,
            },
    {
        let count: usize = match self.relation_ref_count.get(id) {
            Some(count) => *count,
            None => 0,
        };
        if count > 0 {
            match mode {
                DropMode::Restrict => Err(MetaError::RelationReferenced(kind, name.clone(), count)),
                DropMode::Cascade => Ok(self.relations_depend_on(id)),
            }
        } else {
            let more: Vec<RelationIdEnum> = Vec::new();
            assert(more@ =~= Seq::<RelationIdEnum>::empty());
            Ok(more)
        }
    }

    /// What the drop of a table takes along, or the refusal.
    fn release_table(&self, mode: DropMode, table: &Table, id: u32, index_tables: &Vec<u32>) -> (r:
        MetaResult<Vec<RelationIdEnum>>)
        requires
            self@.tables.contains_key(id),
            table@ == self@.tables[id],
            index_tables@ == index_tables_of(self@, id),
            all_in(index_tables@, self@.tables),
        ensures
            match table_released(self@, mode, id) {
                Ok(more) => r is Ok && r->Ok_0@ == more,
                Err(e) => r is Err && r->Err_0@ == e,
            },
    {
        let mut more: Vec<RelationIdEnum> = Vec::new();
        let mut i: usize = 0;
        let ghost p = index_table_dependents(self@);
        assert(index_tables@.take(0) =~= Seq::<u32>::empty());
        assert(index_tables@.skip(0) =~= index_tables@);
        while i < index_tables.len()
            invariant
                i <= index_tables.len(),
                index_tables@ == index_tables_of(self@, id),
                all_in(index_tables@, self@.tables),
                p == index_table_dependents(self@),
                more@ == gather(index_tables@.take(i as int), p),
                mode == DropMode::Restrict ==> first_referenced(self@, index_tables@) == first_referenced(
                    self@,
                    index_tables@.skip(i as int),
                ),
            decreases index_tables.len() - i,
        {
            let t: u32 = index_tables[i];
            proof {
                assert(self@.tables.contains_key(index_tables@[i as int]));
                assert(index_tables@.skip(i as int)[0] == t);
                assert(index_tables@.skip(i as int).drop_first() =~= index_tables@.skip(i + 1));
                assert(index_tables@.take(i + 1) =~= index_tables@.take(i as int).push(t));
                lemma_gather_push(index_tables@.take(i as int), t, p);
            }
            match self.relation_ref_count.get(t) {
                Some(count) => {
                    match mode {
                        DropMode::Restrict => {
                            let name = match self.tables.get(t) {
                                Some(x) => x.name.clone(),
                                None => String::new(),
                            };
                            return Err(
                                MetaError::RelationReferenced(
                                    CatalogKind::IndexTable,
                                    name,
                                    *count,
                                ),
                            );
                        },
                        DropMode::Cascade => {
                            let mut part = self.relations_depend_on(t);
                            more.append(&mut part);
                        },
                    }
                },
                None => {
                    assert(more@ + Seq::<RelationIdEnum>::empty() =~= more@);
                },
            }
            i = i + 1;
        }
        assert(index_tables@.take(i as int) =~= index_tables@);
        assert(index_tables@.skip(i as int) =~= Seq::<u32>::empty());
        let count: usize = match self.relation_ref_count.get(id) {
            Some(count) => *count,
            None => 0,
        };
        if count > index_tables.len() {
            match mode {
                DropMode::Restrict => {
                    return Err(
                        MetaError::RelationReferenced(
                            CatalogKind::Table,
                            table.name.clone(),
                            count,
                        ),
                    );
                },
                DropMode::Cascade => {
                    let own = self.relations_depend_on(id);
                    let mut kept = Self::without_tables(&own, index_tables);
                    more.append(&mut kept);
                },
            }
        }
        Ok(more)
    }

    fn without_tables(items: &Vec<RelationIdEnum>, tables: &Vec<u32>) -> (r: Vec<RelationIdEnum>)
        ensures
            r@ == items@.filter(no_table_of(tables@)),
    {
        let mut r: Vec<RelationIdEnum> = Vec::new();
        let mut i: usize = 0;
        let ghost p = no_table_of(tables@);
        proof {
            reveal(Seq::filter);
            assert(items@.take(0) =~= Seq::<RelationIdEnum>::empty());
        }
        while i < items.len()
            invariant
                i <= items.len(),
                p == no_table_of(tables@),
                r@ == items@.take(i as int).filter(p),
            decreases items.len() - i,
        {
            let item = items[i];
            proof {
                reveal(Seq::filter);
                assert(items@.take(i + 1).drop_last() =~= items@.take(i as int));
                assert(items@.take(i + 1).last() == item);
            }
            let keep: bool = match item {
                RelationIdEnum::Table(t) => !contains_id(tables, t),
                _ => true,
            };
            if keep {
                r.push(item);
            }
            i = i + 1;
        }
        assert(items@.take(i as int) =~= items@);
        r
    }

    /// Handles one relation of a drop.
    fn plan_step(
        &self,
        fragments: &IdMap<JobFragments>,
        mode: DropMode,
        plan: &mut DropPlan,
        item: RelationIdEnum,
    ) -> (r: MetaResult<Vec<RelationIdEnum>>)
        requires
            step_presumes(self@, fragments@, old(plan)@, item),
        ensures
            match step(self@, fragments@, mode, old(plan)@, item) {
                Ok((p, more)) => r is Ok && r->Ok_0@ == more && final(plan)@ == p,
                Err(e) => r is Err && r->Err_0@ == e,
            },
    {
        let nothing: Vec<RelationIdEnum> = Vec::new();
        assert(nothing@ =~= Seq::<RelationIdEnum>::empty());
        match item {
            RelationIdEnum::Table(id) => {
                if plan.tables.contains(id) {
                    return Ok(nothing);
                }
                let table = match self.tables.get(id) {
                    Some(table) => table,
                    None => {
                        return Ok(nothing);
                    },
                };
                let job = match fragments.get(id) {
                    Some(job) => job,
                    None => {
                        return Err(MetaError::FragmentNotFound(id));
                    },
                };
                let (index_ids, index_tables) = self.indexes_on(id);
                match self.release_table(mode, table, id, &index_tables) {
                    Err(e) => Err(e),
                    Ok(more) => {
                        plan.tables.insert(id);
                        plan.tables.insert_all(&index_tables);
                        plan.internal_tables.insert_all(&job.internal_table_ids);
                        plan.indexes.insert_all(&index_ids);
                        let scans = Self::internal_tables_of(fragments, &index_tables);
                        plan.internal_tables.insert_all(&scans);
                        match table.optional_associated_source_id {
                            Some(source_id) => {
                                plan.sources.insert(source_id);
                            },
                            None => {},
                        }
                        assert(plan@ =~= with_table(self@, fragments@, old(plan)@, id));
                        Ok(more)
                    },
                }
            },
            RelationIdEnum::Index(id) => {
                if plan.indexes.contains(id) {
                    return Ok(nothing);
                }
                let index = match self.indexes.get(id) {
                    Some(index) => index,
                    None => {
                        return Ok(nothing);
                    },
                };
                match self.release(mode, CatalogKind::Index, &index.name, index.index_table_id) {
                    Err(e) => Err(e),
                    Ok(more) => {
                        plan.indexes.insert(id);
                        plan.tables.insert(index.index_table_id);
                        match fragments.get(index.index_table_id) {
                            Some(job) => {
                                plan.internal_tables.insert_all(&job.internal_table_ids);
                            },
                            None => {
                                proof {
                                    lemma_union_empty(plan@.internal_tables);
                                }
                            },
                        }
                        Ok(more)
                    },
                }
            },
            RelationIdEnum::Source(id) => {
                if plan.sources.contains(id) {
                    return Ok(nothing);
                }
                let source = match self.sources.get(id) {
                    Some(source) => source,
                    None => {
                        return Ok(nothing);
                    },
                };
                let shared: bool = match &source.info {
                    Some(info) => info.is_shared,
                    None => false,
                };
                if shared && !fragments.contains_key(id) {
                    return Err(MetaError::FragmentNotFound(id));
                }
                match self.release(mode, CatalogKind::Source, &source.name, id) {
                    Err(e) => Err(e),
                    Ok(more) => {
                        plan.sources.insert(id);
                        if shared {
                            plan.streaming_job_sources.insert(id);
                            match fragments.get(id) {
                                Some(job) => {
                                    plan.internal_tables.insert_all(&job.internal_table_ids);
                                },
                                None => {},
                            }
                        }
                        Ok(more)
                    },
                }
            },
            RelationIdEnum::View(id) => {
                if plan.views.contains(id) {
                    return Ok(nothing);
                }
                let view = match self.views.get(id) {
                    Some(view) => view,
                    None => {
                        return Ok(nothing);
                    },
                };
                match self.release(mode, CatalogKind::View, &view.name, id) {
                    Err(e) => Err(e),
                    Ok(more) => {
                        plan.views.insert(id);
                        Ok(more)
                    },
                }
            },
            RelationIdEnum::Sink(id) => {
                if plan.sinks.contains(id) {
                    return Ok(nothing);
                }
                let sink = match self.sinks.get(id) {
                    Some(sink) => sink,
                    None => {
                        return Ok(nothing);
                    },
                };
                let job = match fragments.get(id) {
                    Some(job) => job,
                    None => {
                        return Err(MetaError::FragmentNotFound(id));
                    },
                };
                match self.release(mode, CatalogKind::Sink, &sink.name, id) {
                    Err(e) => Err(e),
                    Ok(more) => {
                        plan.sinks.insert(id);
                        plan.internal_tables.insert_all(&job.internal_table_ids);
                        Ok(more)
                    },
                }
            },
            RelationIdEnum::Subscription(id) => {
                if plan.subscriptions.contains(id) {
                    return Ok(nothing);
                }
                let subscription = match self.subscriptions.get(id) {
                    Some(subscription) => subscription,
                    None => {
                        return Ok(nothing);
                    },
                };
                match self.release(mode, CatalogKind::Subscription, &subscription.name, id) {
                    Err(e) => Err(e),
                    Ok(more) => {
                        plan.subscriptions.insert(id);
                        Ok(more)
                    },
                }
            },
        }
    }

    /// Tells whether one relation of a drop can be handled.
    fn can_step(&self, fragments: &IdMap<JobFragments>, plan: &DropPlan, item: RelationIdEnum) -> (r: bool)
        ensures
            r == step_presumes(self@, fragments@, plan@, item),
    {
        match item {
            RelationIdEnum::Table(id) => {
                if plan.tables.contains(id) || !self.tables.contains_key(id)
                    || !fragments.contains_key(id) {
                    return true;
                }
                let (_, index_tables) = self.indexes_on(id);
                if !self.tables.contains_all(&index_tables) {
                    return false;
                }
                let mut i: usize = 0;
                while i < index_tables.len()
                    invariant
                        i <= index_tables.len(),
                        item == RelationIdEnum::Table(id),
                        index_tables@ == index_tables_of(self@, id),
                        !plan@.tables.contains(id),
                        self@.tables.contains_key(id),
                        fragments@.contains_key(id),
                        forall|k: int|
                            0 <= k < i ==> internal_tables(
                                fragments@,
                                #[trigger] index_tables@[k],
                            ).len() <= 1,
                    decreases index_tables.len() - i,
                {
                    if !Self::at_most_one_internal(fragments, index_tables[i]) {
                        assert(internal_tables(fragments@, index_tables@[i as int]).len() > 1);
                        return false;
                    }
                    i = i + 1;
                }
                true
            },
            RelationIdEnum::Index(id) => {
                if plan.indexes.contains(id) {
                    return true;
                }
                match self.indexes.get(id) {
                    Some(index) => Self::at_most_one_internal(fragments, index.index_table_id),
                    None => true,
                }
            },
            _ => true,
        }
    }

    /// Whether the job has at most one internal table.
    fn at_most_one_internal(fragments: &IdMap<JobFragments>, id: u32) -> (r: bool)
        ensures
            r == (internal_tables(fragments@, id).len() <= 1),
    {
        match fragments.get(id) {
            Some(job) => job.internal_table_ids.len() <= 1,
            None => true,
        }
    }

    /// The internal tables of jobs, one behind the other.
    fn internal_tables_of(fragments: &IdMap<JobFragments>, ids: &Vec<u32>) -> (r: Vec<u32>)
        ensures
            r@ == gather(ids@, |t: u32| internal_tables(fragments@, t)),
    {
        let mut r: Vec<u32> = Vec::new();
        let mut i: usize = 0;
        let ghost p = |t: u32| internal_tables(fragments@, t);
        assert(ids@.take(0) =~= Seq::<u32>::empty());
        while i < ids.len()
            invariant
                i <= ids.len(),
                p == (|t: u32| internal_tables(fragments@, t)),
                r@ == gather(ids@.take(i as int), p),
            decreases ids.len() - i,
        {
            proof {
                assert(ids@.take(i + 1) =~= ids@.take(i as int).push(ids@[i as int]));
                lemma_gather_push(ids@.take(i as int), ids@[i as int], p);
            }
            match fragments.get(ids[i]) {
                Some(job) => {
                    let mut part = copy_all(&job.internal_table_ids);
                    r.append(&mut part);
                },
                None => {
                    assert(r@ + Seq::<u32>::empty() =~= r@);
                },
            }
            i = i + 1;
        }
        assert(ids@.take(i as int) =~= ids@);
        r
    }

    /// The relations that a drop starts with.
    fn drop_start(&self, relation: RelationIdEnum) -> (r: MetaResult<Vec<RelationIdEnum>>)
        ensures
            match start(self@, relation) {
                Ok(queue) => r is Ok && r->Ok_0@ == queue,
                Err(e) => r is Err && r->Err_0@ == e,
            },
    {
        let mut queue: Vec<RelationIdEnum> = Vec::new();
        match relation {
            RelationIdEnum::Table(id) => {
                match self.tables.get(id) {
                    Some(table) => {
                        let sinks = &table.incoming_sinks;
                        let ghost p = |s: u32| self@.sinks.contains_key(s);
                        let ghost g = |s: u32| RelationIdEnum::Sink(s);
                        let mut i: usize = 0;
                        proof {
                            reveal(Seq::filter);
                            assert(sinks@.take(0) =~= Seq::<u32>::empty());
                            assert(queue@ =~= image(sinks@.take(0).filter(p), g));
                        }
                        while i < sinks.len()
                            invariant
                                i <= sinks.len(),
                                p == (|s: u32| self@.sinks.contains_key(s)),
                                g == (|s: u32| RelationIdEnum::Sink(s)),
                                queue@ == image(sinks@.take(i as int).filter(p), g),
                            decreases sinks.len() - i,
                        {
                            let s: u32 = sinks[i];
                            proof {
                                reveal(Seq::filter);
                                assert(sinks@.take(i + 1).drop_last() =~= sinks@.take(i as int));
                                assert(sinks@.take(i + 1).last() == s);
                            }
                            if self.sinks.contains_key(s) {
                                queue.push(RelationIdEnum::Sink(s));
                                assert(queue@ =~= image(sinks@.take(i + 1).filter(p), g));
                            }
                            i = i + 1;
                        }
                        assert(sinks@.take(i as int) =~= sinks@);
                        queue.push(relation);
                        Ok(queue)
                    },
                    None => Err(MetaError::RelationMissing(CatalogKind::Table)),
                }
            },
            RelationIdEnum::Index(id) => {
                if self.indexes.contains_key(id) {
                    queue.push(relation);
                    assert(queue@ =~= seq![relation]);
                    Ok(queue)
                } else {
                    Err(MetaError::RelationMissing(CatalogKind::Index))
                }
            },
            RelationIdEnum::Sink(id) => {
                if self.sinks.contains_key(id) {
                    queue.push(relation);
                    assert(queue@ =~= seq![relation]);
                    Ok(queue)
                } else {
                    Err(MetaError::RelationMissing(CatalogKind::Sink))
                }
            },
            RelationIdEnum::Subscription(id) => {
                if self.subscriptions.contains_key(id) {
                    queue.push(relation);
                    assert(queue@ =~= seq![relation]);
                    Ok(queue)
                } else {
                    Err(MetaError::RelationMissing(CatalogKind::Subscription))
                }
            },
            RelationIdEnum::View(id) => {
                if self.views.contains_key(id) {
                    queue.push(relation);
                    assert(queue@ =~= seq![relation]);
                    Ok(queue)
                } else {
                    Err(MetaError::RelationMissing(CatalogKind::Source))
                }
            },
            RelationIdEnum::Source(id) => {
                if self.sources.contains_key(id) {
                    queue.push(relation);
                    assert(queue@ =~= seq![relation]);
                    Ok(queue)
                } else {
                    Err(MetaError::RelationMissing(CatalogKind::View))
                }
            },
        }
    }

    /// Tells whether [`Self::plan_drop`] can be called.
    pub fn can_plan_drop(
        &self,
        fragments: &IdMap<JobFragments>,
        mode: DropMode,
        relation: RelationIdEnum,
    ) -> (r: bool)
        ensures
            r == drop_plan_presumes(self@, fragments@, mode, relation),
    {
        let mut queue = match self.drop_start(relation) {
            Ok(queue) => queue,
            Err(_) => {
                return true;
            },
        };
        let mut plan = DropPlan::default();
        let mut head: usize = 0;
        let ghost goal = drop_plan_presumes(self@, fragments@, mode, relation);
        assert(queue@.skip(0) =~= queue@);
        while head < queue.len()
            invariant
                head <= queue.len(),
                goal == drop_plan_presumes(self@, fragments@, mode, relation),
                goal == plan_presumes(self@, fragments@, mode, plan@, queue@.skip(head as int)),
            decreases unplanned(plan@), queue.len() - head,
        {
            let item = queue[head];
            let ghost before = plan@;
            let ghost rest = queue@.skip(head as int);
            proof {
                assert(rest[0] == item);
                assert(rest.drop_first() =~= queue@.skip(head + 1));
                lemma_step_progress(self@, fragments@, mode, before, item);
            }
            if !self.can_step(fragments, &plan, item) {
                return false;
            }
            match self.plan_step(fragments, mode, &mut plan, item) {
                Ok(more) => {
                    let mut more = more;
                    let ghost added = more@;
                    let ghost old_queue = queue@;
                    queue.append(&mut more);
                    head = head + 1;
                    proof {
                        assert(queue@.skip(head as int) =~= rest.drop_first() + added);
                        if added.len() == 0 {
                            assert(queue@ =~= old_queue);
                            assert(rest.drop_first() + added =~= rest.drop_first());
                        }
                    }
                },
                Err(_) => {
                    return true;
                },
            }
        }
        assert(queue@.skip(head as int) =~= Seq::<RelationIdEnum>::empty());
        true
    }

    /// Finds everything that the drop of `relation` removes.
    pub fn plan_drop(
        &self,
        fragments: &IdMap<JobFragments>,
        mode: DropMode,
        relation: RelationIdEnum,
    ) -> (r: MetaResult<DropPlan>)
        requires
            drop_plan_presumes(self@, fragments@, mode, relation),
        ensures
            match drop_plan(self@, fragments@, mode, relation) {
                Ok(plan) => r is Ok && r->Ok_0@ == plan,
                Err(e) => r is Err && r->Err_0@ == e,
            },
    {
        let mut queue = match self.drop_start(relation) {
            Ok(queue) => queue,
            Err(e) => {
                return Err(e);
            },
        };
        let mut plan = DropPlan::default();
        let mut head: usize = 0;
        let ghost first = queue@;
        let ghost goal = drop_plan(self@, fragments@, mode, relation);
        assert(queue@.skip(0) =~= queue@);
        while head < queue.len()
            invariant
                head <= queue.len(),
                goal == drop_plan(self@, fragments@, mode, relation),
                plan_presumes(self@, fragments@, mode, plan@, queue@.skip(head as int)),
                goal == planned(self@, fragments@, mode, plan@, queue@.skip(head as int)),
            decreases unplanned(plan@), queue.len() - head,
        {
            let item = queue[head];
            let ghost before = plan@;
            let ghost rest = queue@.skip(head as int);
            proof {
                assert(rest[0] == item);
                assert(rest.drop_first() =~= queue@.skip(head + 1));
                lemma_step_progress(self@, fragments@, mode, before, item);
            }
            match self.plan_step(fragments, mode, &mut plan, item) {
                Ok(more) => {
                    let mut more = more;
                    let ghost added = more@;
                    let ghost old_queue = queue@;
                    queue.append(&mut more);
                    head = head + 1;
                    proof {
                        assert(queue@.skip(head as int) =~= rest.drop_first() + added);
                        if added.len() == 0 {
                            assert(queue@ =~= old_queue);
                            assert(rest.drop_first() + added =~= rest.drop_first());
                        }
                    }
                },
                Err(e) => {
                    return Err(e);
                },
            }
        }
        assert(queue@.skip(head as int) =~= Seq::<RelationIdEnum>::empty());
        Ok(plan)
    }
}

pub proof fn lemma_union_empty(s: Set<u32>)
    ensures
        s.union(Seq::<u32>::empty().to_set()) == s,
{
    assert(s.union(Seq::<u32>::empty().to_set()) =~= s);
}

} // verus!
