//! Carrying out the drop of a relation.

use vstd::prelude::*;

use crate::catalog::drop::{
    drop_plan, drop_plan_presumes, DropMode, DropPlan, DropPlanModel, JobFragments,
    JobFragmentsModel, RelationIdEnum,
};
use crate::catalog::error::{MetaError, MetaErrorModel, MetaResult};
use crate::catalog::manager::CatalogManager;
use crate::catalog::notify::{Notification, NotificationModel, Operation, RelationInfoModel};
use crate::catalog::privilege::{
    all_objects_named, check_objects_named, notify_users, stripped_users, updated_users, user_updates,
};
use crate::catalog::relations::{
    collect_sink_connections, collect_sink_dependencies, collect_sink_secrets,
    collect_source_connections, collect_source_secrets, collect_subscription_dependencies,
    collect_table_dependencies, collect_view_dependencies, frontend_relations, index_infos,
    index_owners, indexes_to_infos, owners_of_indexes, owners_of_sinks, owners_of_sources,
    owners_of_subscriptions, owners_of_tables, owners_of_views, sink_connections,
    sink_dependencies, sink_infos, sink_owners, sink_secrets, sinks_to_infos, source_connections,
    source_infos, source_owners, source_secrets, sources_to_infos, subscription_dependencies,
    subscription_infos, subscription_owners, subscriptions_to_infos, table_dependencies,
    table_infos, table_owners, tables_to_infos, view_dependencies, view_infos, view_owners,
    views_to_infos,
};
use crate::catalog::state::{
    CatalogManagerCoreModel, DatabaseManager, DatabaseManagerModel, UserManagerModel,
};
use crate::catalog::types::{Index, Object, Sink, Source, Subscription, Table, ViewInfo};
use crate::util::counts::{check_covers, covers, lower_all, lowered};
use crate::util::id_map::{all_in, values_at, views, Entry, IdMap};
use crate::util::id_set::IdSet;
use crate::util::ids::{listing, lists};
use crate::util::lists::{append_all, image};

verus! {

/// The sink writes into a table, and that table is not the relation that is dropped.
pub open spec fn into_other_table(db: DatabaseManagerModel, relation: RelationIdEnum) -> spec_fn(u32) -> bool {
    |s: u32|
        match db.sinks[s].target_table {
            Some(t) => relation != RelationIdEnum::Table(t),
            None => false,
        }
}

/// How many of the planned sinks write into a table that is not dropped by name.
pub open spec fn table_sinks(db: DatabaseManagerModel, relation: RelationIdEnum, plan: DropPlanModel) -> nat {
    if relation is Sink {
        0
    } else {
        listing(plan.sinks).filter(into_other_table(db, relation)).len()
    }
}

/// The objects whose privileges go.
pub open spec fn planned_objects(plan: DropPlanModel) -> Seq<Object> {
    image(listing(plan.tables), |x: u32| Object::TableId(x)) + image(
        listing(plan.internal_tables),
        |x: u32| Object::TableId(x),
    ) + image(listing(plan.sources), |x: u32| Object::SourceId(x)) + image(
        listing(plan.views),
        |x: u32| Object::ViewId(x),
    ) + image(listing(plan.sinks), |x: u32| Object::SinkId(x))
}

/// The owners of what is dropped. Internal tables are not counted.
pub open spec fn planned_owners(db: DatabaseManagerModel, plan: DropPlanModel) -> Seq<u32> {
    index_owners(values_at(db.indexes, listing(plan.indexes))) + table_owners(
        values_at(db.tables, listing(plan.tables)),
    ) + source_owners(values_at(db.sources, listing(plan.sources))) + view_owners(
        values_at(db.views, listing(plan.views)),
    ) + sink_owners(values_at(db.sinks, listing(plan.sinks))) + subscription_owners(
        values_at(db.subscriptions, listing(plan.subscriptions)),
    )
}

/// The relations that what is dropped refers to.
pub open spec fn planned_relations(db: DatabaseManagerModel, plan: DropPlanModel) -> Seq<u32> {
    table_dependencies(values_at(db.tables, listing(plan.tables))) + view_dependencies(
        values_at(db.views, listing(plan.views)),
    ) + sink_dependencies(values_at(db.sinks, listing(plan.sinks))) + subscription_dependencies(
        values_at(db.subscriptions, listing(plan.subscriptions)),
    )
}

/// The connections that what is dropped refers to.
pub open spec fn planned_connections(db: DatabaseManagerModel, plan: DropPlanModel) -> Seq<u32> {
    source_connections(values_at(db.sources, listing(plan.sources))) + sink_connections(
        values_at(db.sinks, listing(plan.sinks)),
    )
}

/// The secrets that what is dropped refers to.
pub open spec fn planned_secrets(db: DatabaseManagerModel, plan: DropPlanModel) -> Seq<u32> {
    source_secrets(values_at(db.sources, listing(plan.sources))) + sink_secrets(
        values_at(db.sinks, listing(plan.sinks)),
    )
}

/// What is dropped, as relations.
pub open spec fn planned_infos(db: DatabaseManagerModel, plan: DropPlanModel) -> Seq<RelationInfoModel> {
    index_infos(values_at(db.indexes, listing(plan.indexes))) + table_infos(
        values_at(db.tables, listing(plan.internal_tables)),
    ) + table_infos(values_at(db.tables, listing(plan.tables))) + source_infos(
        values_at(db.sources, listing(plan.sources)),
    ) + view_infos(values_at(db.views, listing(plan.views))) + sink_infos(
        values_at(db.sinks, listing(plan.sinks)),
    ) + subscription_infos(values_at(db.subscriptions, listing(plan.subscriptions)))
}

/// The messages about a drop: the users who lose privileges, then the relations.
pub open spec fn drop_messages(c: CatalogManagerCoreModel, plan: DropPlanModel) -> Seq<NotificationModel> {
    user_updates(updated_users(c.user.user_info, planned_objects(plan))).push(
        frontend_relations(Operation::Delete, planned_infos(c.database, plan)),
    )
}

/// The streaming jobs that end with a drop.
pub open spec fn planned_jobs(plan: DropPlanModel) -> Seq<u32> {
    listing(plan.tables) + listing(plan.sinks) + listing(plan.streaming_job_sources)
}

/// The catalog without what is planned.
pub open spec fn dropped(c: CatalogManagerCoreModel, plan: DropPlanModel) -> CatalogManagerCoreModel {
    let db = c.database;
    CatalogManagerCoreModel {
        database: DatabaseManagerModel {
            tables: db.tables.remove_keys(plan.tables.union(plan.internal_tables)),
            indexes: db.indexes.remove_keys(plan.indexes),
            sources: db.sources.remove_keys(plan.sources),
            views: db.views.remove_keys(plan.views),
            sinks: db.sinks.remove_keys(plan.sinks),
            subscriptions: db.subscriptions.remove_keys(plan.subscriptions),
            relation_ref_count: lowered(db.relation_ref_count, planned_relations(db, plan)),
            connection_ref_count: lowered(db.connection_ref_count, planned_connections(db, plan)),
            secret_ref_count: lowered(db.secret_ref_count, planned_secrets(db, plan)),
            ..db
        },
        user: UserManagerModel {
            user_info: stripped_users(c.user.user_info, planned_objects(plan)),
            catalog_create_ref_count: lowered(
                c.user.catalog_create_ref_count,
                planned_owners(db, plan),
            ),
            ..c.user
        },
    }
}

/// All planned relations are in the catalog.
pub open spec fn plan_known(db: DatabaseManagerModel, plan: DropPlanModel) -> bool {
    &&& plan.tables.subset_of(db.tables.dom())
    &&& plan.indexes.subset_of(db.indexes.dom())
    &&& plan.sources.subset_of(db.sources.dom())
    &&& plan.views.subset_of(db.views.dom())
    &&& plan.sinks.subset_of(db.sinks.dom())
    &&& plan.subscriptions.subset_of(db.subscriptions.dom())
}

/// What carrying out a plan presumes: the internal tables are tables beside the planned ones,
/// all references that go are counted, and privileges name their objects.
pub open spec fn plan_presumed(c: CatalogManagerCoreModel, plan: DropPlanModel) -> bool {
    let db = c.database;
    &&& plan.internal_tables.subset_of(db.tables.dom())
    &&& plan.internal_tables.disjoint(plan.tables)
    &&& covers(db.relation_ref_count, planned_relations(db, plan))
    &&& covers(db.connection_ref_count, planned_connections(db, plan))
    &&& covers(db.secret_ref_count, planned_secrets(db, plan))
    &&& covers(c.user.catalog_create_ref_count, planned_owners(db, plan))
    &&& all_objects_named(c.user.user_info)
}

/// What dropping `relation` presumes.
pub open spec fn drop_presumes(
    c: CatalogManagerCoreModel,
    fragments: Map<u32, JobFragmentsModel>,
    mode: DropMode,
    relation: RelationIdEnum,
) -> bool {
    &&& drop_plan_presumes(c.database, fragments, mode, relation)
    &&& match drop_plan(c.database, fragments, mode, relation) {
        Err(_) => true,
        Ok(plan) => {
            &&& plan_known(c.database, plan)
            &&& table_sinks(c.database, relation, plan) == 0 ==> plan_presumed(c, plan)
        },
    }
}

/// The catalog, the messages and the ended jobs after the drop of `relation`, or the refusal.
pub open spec fn drop_result(
    c: CatalogManagerCoreModel,
    fragments: Map<u32, JobFragmentsModel>,
    mode: DropMode,
    relation: RelationIdEnum,
) -> Result<(CatalogManagerCoreModel, Seq<NotificationModel>, Seq<u32>), MetaErrorModel> {
    match drop_plan(c.database, fragments, mode, relation) {
        Err(e) => Err(e),
        Ok(plan) => {
            let n = table_sinks(c.database, relation, plan);
            if n > 0 {
                Err(MetaErrorModel::TableSinksInDependency(n as usize))
            } else {
                Ok((dropped(c, plan), drop_messages(c, plan), planned_jobs(plan)))
            }
        },
    }
}

pub proof fn lemma_listed_known<V>(q: Seq<u32>, s: Set<u32>, m: Map<u32, V>)
    requires
        lists(q, s),
        s.subset_of(m.dom()),
    ensures
        all_in(q, m),
        q.no_duplicates(),
        q.to_set() == s,
{
    assert forall|i: int| 0 <= i < q.len() implies m.contains_key(#[trigger] q[i]) by {
        assert(q.contains(q[i]));
    }
    assert(q.to_set() =~= s);
}

/// What is planned, taken out of the catalog.
struct Removed {
    tables: Vec<Table>,
    internal_tables: Vec<Table>,
    indexes: Vec<Index>,
    sources: Vec<Source>,
    views: Vec<ViewInfo>,
    sinks: Vec<Sink>,
    subscriptions: Vec<Subscription>,
}

impl Removed {
    /// The parts are what `plan` takes out of `db`.
    spec fn is_from(self, db: DatabaseManagerModel, plan: DropPlanModel) -> bool {
        &&& views(self.tables@) == values_at(db.tables, listing(plan.tables))
        &&& views(self.internal_tables@) == values_at(db.tables, listing(plan.internal_tables))
        &&& views(self.indexes@) == values_at(db.indexes, listing(plan.indexes))
        &&& views(self.sources@) == values_at(db.sources, listing(plan.sources))
        &&& views(self.views@) == values_at(db.views, listing(plan.views))
        &&& views(self.sinks@) == values_at(db.sinks, listing(plan.sinks))
        &&& views(self.subscriptions@) == values_at(db.subscriptions, listing(plan.subscriptions))
    }

    fn owners(&self, Ghost(db): Ghost<DatabaseManagerModel>, Ghost(plan): Ghost<DropPlanModel>) -> (r:
        Vec<u32>)
        requires
            self.is_from(db, plan),
        ensures
            r@ == planned_owners(db, plan),
    {
        let mut r = owners_of_indexes(&self.indexes);
        let mut part = owners_of_tables(&self.tables);
        r.append(&mut part);
        let mut part = owners_of_sources(&self.sources);
        r.append(&mut part);
        let mut part = owners_of_views(&self.views);
        r.append(&mut part);
        let mut part = owners_of_sinks(&self.sinks);
        r.append(&mut part);
        let mut part = owners_of_subscriptions(&self.subscriptions);
        r.append(&mut part);
        r
    }

    fn relations(&self, Ghost(db): Ghost<DatabaseManagerModel>, Ghost(plan): Ghost<DropPlanModel>) -> (r:
        Vec<u32>)
        requires
            self.is_from(db, plan),
        ensures
            r@ == planned_relations(db, plan),
    {
        let mut r = collect_table_dependencies(&self.tables);
        let mut part = collect_view_dependencies(&self.views);
        r.append(&mut part);
        let mut part = collect_sink_dependencies(&self.sinks);
        r.append(&mut part);
        let mut part = collect_subscription_dependencies(&self.subscriptions);
        r.append(&mut part);
        r
    }

    fn connections(&self, Ghost(db): Ghost<DatabaseManagerModel>, Ghost(plan): Ghost<DropPlanModel>) -> (r:
        Vec<u32>)
        requires
            self.is_from(db, plan),
        ensures
            r@ == planned_connections(db, plan),
    {
        let mut r = collect_source_connections(&self.sources);
        let mut part = collect_sink_connections(&self.sinks);
        r.append(&mut part);
        r
    }

    fn secrets(&self, Ghost(db): Ghost<DatabaseManagerModel>, Ghost(plan): Ghost<DropPlanModel>) -> (r:
        Vec<u32>)
        requires
            self.is_from(db, plan),
        ensures
            r@ == planned_secrets(db, plan),
    {
        let mut r = collect_source_secrets(&self.sources);
        let mut part = collect_sink_secrets(&self.sinks);
        r.append(&mut part);
        r
    }

    fn message(&self, Ghost(db): Ghost<DatabaseManagerModel>, Ghost(plan): Ghost<DropPlanModel>) -> (r:
        Notification)
        requires
            self.is_from(db, plan),
        ensures
            r@ == frontend_relations(Operation::Delete, planned_infos(db, plan)),
    {
        let mut infos = indexes_to_infos(&self.indexes);
        append_all(&mut infos, tables_to_infos(&self.internal_tables));
        append_all(&mut infos, tables_to_infos(&self.tables));
        append_all(&mut infos, sources_to_infos(&self.sources));
        append_all(&mut infos, views_to_infos(&self.views));
        append_all(&mut infos, sinks_to_infos(&self.sinks));
        append_all(&mut infos, subscriptions_to_infos(&self.subscriptions));
        CatalogManager::notify_frontend_relations(Operation::Delete, infos)
    }
}

impl DropPlan {
    /// The objects whose privileges go.
    fn objects(&self) -> (r: Vec<Object>)
        ensures
            r@ == planned_objects(self@),
    {
        let mut r: Vec<Object> = Vec::new();
        let tables = self.tables.ids();
        let internal = self.internal_tables.ids();
        let sources = self.sources.ids();
        let view_ids = self.views.ids();
        let sinks = self.sinks.ids();
        let ghost a = image(tables@, |x: u32| Object::TableId(x));
        let ghost b = image(internal@, |x: u32| Object::TableId(x));
        let ghost c = image(sources@, |x: u32| Object::SourceId(x));
        let ghost d = image(view_ids@, |x: u32| Object::ViewId(x));
        let ghost e = image(sinks@, |x: u32| Object::SinkId(x));
        let mut i: usize = 0;
        while i < tables.len()
            invariant
                i <= tables.len(),
                a == image(tables@, |x: u32| Object::TableId(x)),
                r@ == a.take(i as int),
            decreases tables.len() - i,
        {
            r.push(Object::TableId(tables[i]));
            i = i + 1;
            assert(r@ =~= a.take(i as int));
        }
        assert(r@ =~= a + b.take(0));
        let mut i: usize = 0;
        while i < internal.len()
            invariant
                i <= internal.len(),
                b == image(internal@, |x: u32| Object::TableId(x)),
                r@ == a + b.take(i as int),
            decreases internal.len() - i,
        {
            r.push(Object::TableId(internal[i]));
            i = i + 1;
            assert(r@ =~= a + b.take(i as int));
        }
        assert(r@ =~= a + b + c.take(0));
        let mut i: usize = 0;
        while i < sources.len()
            invariant
                i <= sources.len(),
                c == image(sources@, |x: u32| Object::SourceId(x)),
                r@ == a + b + c.take(i as int),
            decreases sources.len() - i,
        {
            r.push(Object::SourceId(sources[i]));
            i = i + 1;
            assert(r@ =~= a + b + c.take(i as int));
        }
        assert(r@ =~= a + b + c + d.take(0));
        let mut i: usize = 0;
        while i < view_ids.len()
            invariant
                i <= view_ids.len(),
                d == image(view_ids@, |x: u32| Object::ViewId(x)),
                r@ == a + b + c + d.take(i as int),
            decreases view_ids.len() - i,
        {
            r.push(Object::ViewId(view_ids[i]));
            i = i + 1;
            assert(r@ =~= a + b + c + d.take(i as int));
        }
        assert(r@ =~= a + b + c + d + e.take(0));
        let mut i: usize = 0;
        while i < sinks.len()
            invariant
                i <= sinks.len(),
                e == image(sinks@, |x: u32| Object::SinkId(x)),
                r@ == a + b + c + d + e.take(i as int),
            decreases sinks.len() - i,
        {
            r.push(Object::SinkId(sinks[i]));
            i = i + 1;
            assert(r@ =~= a + b + c + d + e.take(i as int));
        }
        assert(e.take(i as int) =~= e);
        r
    }

    /// The streaming jobs that end with the drop.
    fn jobs(&self) -> (r: Vec<u32>)
        ensures
            r@ == planned_jobs(self@),
    {
        let mut r = self.tables.ids();
        let mut part = self.sinks.ids();
        r.append(&mut part);
        let mut part = self.streaming_job_sources.ids();
        r.append(&mut part);
        r
    }

    /// How many of the planned sinks write into a table that is not dropped by name.
    fn table_sinks(&self, db: &DatabaseManager, relation: RelationIdEnum) -> (r: usize)
        requires
            self@.sinks.subset_of(db@.sinks.dom()),
        ensures
            r == table_sinks(db@, relation, self@),
    {
        match relation {
            RelationIdEnum::Sink(_) => {
                return 0;
            },
            _ => {},
        }
        let sinks = self.sinks.ids();
        let ghost p = into_other_table(db@, relation);
        let mut n: usize = 0;
        let mut i: usize = 0;
        proof {
            reveal(Seq::filter);
            assert(sinks@.take(0) =~= Seq::<u32>::empty());
        }
        while i < sinks.len()
            invariant
                i <= sinks.len(),
                lists(sinks@, self@.sinks),
                self@.sinks.subset_of(db@.sinks.dom()),
                p == into_other_table(db@, relation),
                n == sinks@.take(i as int).filter(p).len(),
                n <= i,
            decreases sinks.len() - i,
        {
            proof {
                reveal(Seq::filter);
                assert(sinks@.contains(sinks@[i as int]));
                assert(sinks@.take(i + 1).drop_last() =~= sinks@.take(i as int));
                assert(sinks@.take(i + 1).last() == sinks@[i as int]);
            }
            match db.sinks.get(sinks[i]) {
                Some(sink) => {
                    match sink.target_table {
                        Some(t) => {
                            if relation != RelationIdEnum::Table(t) {
                                n = n + 1;
                            }
                        },
                        None => {},
                    }
                },
                None => {},
            }
            i = i + 1;
        }
        assert(sinks@.take(i as int) =~= sinks@);
        n
    }
}

/// Whether all members of `s` have an entry in `m`.
fn all_known<T: Entry>(s: &IdSet, m: &IdMap<T>) -> (r: bool)
    ensures
        r == s@.subset_of(m@.dom()),
{
    let ids = s.ids();
    let r: bool = m.contains_all(&ids);
    proof {
        if r {
            assert forall|x: u32| s@.contains(x) implies m@.dom().contains(x) by {
                assert(ids@.contains(x));
            }
        } else {
            let i = choose|i: int| 0 <= i < ids@.len() && !m@.contains_key(#[trigger] ids@[i]);
            assert(ids@.contains(ids@[i]));
            assert(s@.contains(ids@[i]));
        }
    }
    r
}

impl DatabaseManager {
    /// Tells whether all planned relations are in the catalog.
    fn knows_planned(&self, plan: &DropPlan) -> (r: bool)
        ensures
            r == plan_known(self@, plan@),
    {
        all_known(&plan.tables, &self.tables) && all_known(&plan.indexes, &self.indexes)
            && all_known(&plan.sources, &self.sources) && all_known(&plan.views, &self.views)
            && all_known(&plan.sinks, &self.sinks) && all_known(
            &plan.subscriptions,
            &self.subscriptions,
        )
    }

    /// Copies what is planned.
    fn copy_planned(&self, plan: &DropPlan) -> (r: Removed)
        requires
            plan_known(self@, plan@),
            plan@.internal_tables.subset_of(self@.tables.dom()),
        ensures
            r.is_from(self@, plan@),
    {
        let table_ids = plan.tables.ids();
        let internal_ids = plan.internal_tables.ids();
        let index_ids = plan.indexes.ids();
        let source_ids = plan.sources.ids();
        let view_ids = plan.views.ids();
        let sink_ids = plan.sinks.ids();
        let subscription_ids = plan.subscriptions.ids();
        proof {
            lemma_listed_known(table_ids@, plan@.tables, self@.tables);
            lemma_listed_known(internal_ids@, plan@.internal_tables, self@.tables);
            lemma_listed_known(index_ids@, plan@.indexes, self@.indexes);
            lemma_listed_known(source_ids@, plan@.sources, self@.sources);
            lemma_listed_known(view_ids@, plan@.views, self@.views);
            lemma_listed_known(sink_ids@, plan@.sinks, self@.sinks);
            lemma_listed_known(subscription_ids@, plan@.subscriptions, self@.subscriptions);
        }
        Removed {
            tables: self.tables.values_at(&table_ids),
            internal_tables: self.tables.values_at(&internal_ids),
            indexes: self.indexes.values_at(&index_ids),
            sources: self.sources.values_at(&source_ids),
            views: self.views.values_at(&view_ids),
            sinks: self.sinks.values_at(&sink_ids),
            subscriptions: self.subscriptions.values_at(&subscription_ids),
        }
    }

    /// Takes what is planned out of the catalog.
    fn remove_planned(&mut self, plan: &DropPlan) -> (r: Removed)
        requires
            plan_known(old(self)@, plan@),
            plan@.internal_tables.subset_of(old(self)@.tables.dom()),
            plan@.internal_tables.disjoint(plan@.tables),
        ensures
            r.is_from(old(self)@, plan@),
            final(self)@ == (DatabaseManagerModel {
                tables: old(self)@.tables.remove_keys(plan@.tables.union(plan@.internal_tables)),
                indexes: old(self)@.indexes.remove_keys(plan@.indexes),
                sources: old(self)@.sources.remove_keys(plan@.sources),
                views: old(self)@.views.remove_keys(plan@.views),
                sinks: old(self)@.sinks.remove_keys(plan@.sinks),
                subscriptions: old(self)@.subscriptions.remove_keys(plan@.subscriptions),
                ..old(self)@
            }),
    {
        let ghost db = self@;
        let table_ids = plan.tables.ids();
        let internal_ids = plan.internal_tables.ids();
        let index_ids = plan.indexes.ids();
        let source_ids = plan.sources.ids();
        let view_ids = plan.views.ids();
        let sink_ids = plan.sinks.ids();
        let subscription_ids = plan.subscriptions.ids();
        proof {
            lemma_listed_known(table_ids@, plan@.tables, db.tables);
            lemma_listed_known(internal_ids@, plan@.internal_tables, db.tables.remove_keys(plan@.tables));
            lemma_listed_known(index_ids@, plan@.indexes, db.indexes);
            lemma_listed_known(source_ids@, plan@.sources, db.sources);
            lemma_listed_known(view_ids@, plan@.views, db.views);
            lemma_listed_known(sink_ids@, plan@.sinks, db.sinks);
            lemma_listed_known(subscription_ids@, plan@.subscriptions, db.subscriptions);
        }
        let tables = self.tables.remove_all(&table_ids);
        let internal_tables = self.tables.remove_all(&internal_ids);
        let indexes = self.indexes.remove_all(&index_ids);
        let sources = self.sources.remove_all(&source_ids);
        let view_infos = self.views.remove_all(&view_ids);
        let sinks = self.sinks.remove_all(&sink_ids);
        let subscriptions = self.subscriptions.remove_all(&subscription_ids);
        proof {
            assert(self@.tables =~= db.tables.remove_keys(plan@.tables.union(plan@.internal_tables)));
            assert(values_at(db.tables.remove_keys(plan@.tables), internal_ids@) =~= values_at(
                db.tables,
                internal_ids@,
            )) by {
                assert forall|i: int| 0 <= i < internal_ids@.len() implies db.tables.remove_keys(
                    plan@.tables,
                )[#[trigger] internal_ids@[i]] == db.tables[internal_ids@[i]] by {
                    assert(db.tables.remove_keys(plan@.tables).contains_key(internal_ids@[i]));
                }
            }
        }
        Removed {
            tables,
            internal_tables,
            indexes,
            sources,
            views: view_infos,
            sinks,
            subscriptions,
        }
    }
}

impl CatalogManager {
    /// Tells whether a plan can be carried out.
    fn can_carry_out(&self, plan: &DropPlan) -> (r: bool)
        requires
            plan_known(self@.database, plan@),
        ensures
            r == plan_presumed(self@, plan@),
    {
        let db = &self.core.database;
        if !all_known(&plan.internal_tables, &db.tables) || !plan.internal_tables.is_disjoint(
            &plan.tables,
        ) {
            return false;
        }
        let planned = db.copy_planned(plan);
        let ghost g = db@;
        let relations = planned.relations(Ghost(g), Ghost(plan@));
        let connections = planned.connections(Ghost(g), Ghost(plan@));
        let secrets = planned.secrets(Ghost(g), Ghost(plan@));
        let owners = planned.owners(Ghost(g), Ghost(plan@));
        check_covers(&db.relation_ref_count, &relations) && check_covers(
            &db.connection_ref_count,
            &connections,
        ) && check_covers(&db.secret_ref_count, &secrets) && check_covers(
            &self.core.user.catalog_create_ref_count,
            &owners,
        ) && check_objects_named(&self.core.user.user_info)
    }

    /// Tells whether [`Self::drop_relation`] can be called.
    pub fn can_drop(&self, relation: RelationIdEnum, fragments: &IdMap<JobFragments>, drop_mode: DropMode) -> (r:
        bool)
        ensures
            r == drop_presumes(self@, fragments@, drop_mode, relation),
    {
        let db = &self.core.database;
        if !db.can_plan_drop(fragments, drop_mode, relation) {
            return false;
        }
        match db.plan_drop(fragments, drop_mode, relation) {
            Err(_) => true,
            Ok(plan) => db.knows_planned(&plan) && (plan.table_sinks(db, relation) > 0
                || self.can_carry_out(&plan)),
        }
    }

    /// return id of streaming jobs in the database which need to be dropped by stream manager.
    pub fn drop_relation(
        &mut self,
        relation: RelationIdEnum,
        fragments: &IdMap<JobFragments>,
        drop_mode: DropMode,
    ) -> (r: MetaResult<(Vec<Notification>, Vec<u32>)>)
        requires
            drop_presumes(old(self)@, fragments@, drop_mode, relation),
        ensures
            match drop_result(old(self)@, fragments@, drop_mode, relation) {
                Ok((c, messages, jobs)) => {
                    &&& r is Ok
                    &&& views(r->Ok_0.0@) == messages
                    &&& r->Ok_0.1@ == jobs
                    &&& final(self)@ == c
                },
                Err(e) => r is Err && r->Err_0@ == e && final(self)@ == old(self)@,
            },
    {
        let ghost c = self@;
        let plan = match self.core.database.plan_drop(fragments, drop_mode, relation) {
            Ok(plan) => plan,
            Err(e) => {
                return Err(e);
            },
        };
        let n: usize = plan.table_sinks(&self.core.database, relation);
        if n > 0 {
            return Err(MetaError::TableSinksInDependency(n));
        }
        let objects = plan.objects();
        let removed = self.core.database.remove_planned(&plan);
        let users = Self::update_user_privileges(&mut self.core.user.user_info, &objects);
        let mut messages = notify_users(users);
        let ghost before = messages@;
        messages.push(removed.message(Ghost(c.database), Ghost(plan@)));
        assert(views(messages@) =~= drop_messages(c, plan@));
        let owners = removed.owners(Ghost(c.database), Ghost(plan@));
        lower_all(&mut self.core.user.catalog_create_ref_count, &owners);
        let relations = removed.relations(Ghost(c.database), Ghost(plan@));
        lower_all(&mut self.core.database.relation_ref_count, &relations);
        let connections = removed.connections(Ghost(c.database), Ghost(plan@));
        lower_all(&mut self.core.database.connection_ref_count, &connections);
        let secrets = removed.secrets(Ghost(c.database), Ghost(plan@));
        lower_all(&mut self.core.database.secret_ref_count, &secrets);
        Ok((messages, plan.jobs()))
    }
}

} // verus!
