//! Whether a request can be made: tests of what the requests presume of the catalog. Those for
//! drops, grants, owners and schemas stand with the requests themselves.

use vstd::prelude::*;

use crate::catalog::creating::{
    being_replaced, index_cancelling_presumes, index_starting_presumes, mview_cancelling_presumes,
    mview_starting_presumes, sink_cancelling_presumes, sink_starting_presumes,
    source_cancelling_presumes, source_starting_presumes, subscription_starting_presumes,
    table_cancelling_presumes, table_starting_presumes, table_with_source_cancelling_presumes,
    table_with_source_starting_presumes,
};
use crate::catalog::drop::{
    indexes_of, subscription_depends_on, table_depends_on, view_depends_on, JobFragments,
};
use crate::catalog::finishing::{
    index_table_key, maps_all, maps_index, mapping_of, mview_finishing_presumes,
    replace_starting_presumes, replacing_presumes, subscription_finishing_presumes, ColIndexMapping,
};
use crate::catalog::init::{chosen_for, init_presumes, legacy_sink, legacy_source, targets_known};
use crate::catalog::jobs::{
    job_starting_presumes, relation_finishing_presumes, subscriptions_cleaning_presumes, unfinished,
};
use crate::catalog::manager::CatalogManager;
use crate::catalog::notify::{StreamingJob, TargetTable};
use crate::catalog::objects::DEFAULT_SCHEMA_COUNT;
use crate::catalog::recovery::{clean_presumes, dirty_job, surviving_job, tables_keyed};
use crate::catalog::relations::{
    collect_subscription_dependencies, collect_table_dependencies, id_list,
    owners_of_subscriptions, owners_of_tables,
};
use crate::catalog::rename::{
    index_renaming_presumes, rewrites_complete, sink_mentions, source_renaming_presumes,
    table_renaming_presumes, view_renaming_presumes, Rewrites,
};
use crate::catalog::state::DatabaseManager;
use crate::catalog::types::{
    CreateType, Index, IndexItem, RelationKey, Sink, SinkModel, Source, StreamJobStatus,
    Subscription, SubscriptionModel, SubscriptionState, Table, TableJobType, TableModel, TableType,
    ViewInfo,
};
use crate::catalog::users::DEFAULT_SUPER_USER_ID;
use crate::util::counts::{check_covers, check_fits};
use crate::util::id_map::{
    all_in, copy_all, duplicate_all, ids_where, lemma_ids_where, opt_view, views, Entry, IdMap,
};
use crate::util::ids::{check_no_duplicates, contains_id};

verus! {

// ---------------------------------------------------------------------------
// Starting and cancelling a creation.
// ---------------------------------------------------------------------------

impl CatalogManager {
    /// Tells whether [`Self::start_create_table_procedure`] can be called.
    pub fn can_start_table(&self, table: &Table) -> (r: bool)
        ensures
            r == table_starting_presumes(self@, table@),
    {
        self.core.user.can_own(table.owner, 1) && check_fits(
            &self.core.database.relation_ref_count,
            &table.dependent_relations,
        )
    }

    /// Tells whether [`Self::cancel_create_table_procedure`] can be called.
    pub fn can_cancel_table(&self, table: &Table) -> (r: bool)
        ensures
            r == table_cancelling_presumes(self@, table@),
    {
        let db = &self.core.database;
        !db.tables.contains_key(table.id) && db.has_in_progress_creation(&table.key())
            && check_covers(&db.relation_ref_count, &table.dependent_relations)
            && self.core.user.owns(table.owner, 1)
    }

    /// Tells whether [`Self::start_create_materialized_view_procedure`] can be called.
    pub fn can_start_materialized_view(&self, table: &Table) -> (r: bool)
        ensures
            r == mview_starting_presumes(self@, table@),
    {
        self.check_table_start(table).is_err() || (!self.core.database.tables.contains_key(table.id)
            && self.can_start_table(table))
    }

    /// Tells whether [`Self::cancel_create_materialized_view_procedure`] can be called.
    pub fn can_cancel_materialized_view(&self, table_id: u32, internal_table_ids: &Vec<u32>) -> (r: bool)
        ensures
            r == mview_cancelling_presumes(self@, table_id, internal_table_ids@),
    {
        let db = &self.core.database;
        match db.tables.get(table_id) {
            Some(table) => {
                if table.stream_job_status != StreamJobStatus::Creating {
                    return true;
                }
                let mut all: Vec<u32> = Vec::new();
                all.push(table_id);
                let mut part = copy_all(internal_table_ids);
                all.append(&mut part);
                assert(all@ =~= seq![table_id] + internal_table_ids@);
                check_no_duplicates(&all) && db.tables.contains_all(internal_table_ids)
                    && check_covers(&db.relation_ref_count, &table.dependent_relations)
                    && self.core.user.owns(table.owner, 1)
            },
            None => true,
        }
    }

    /// Tells whether [`Self::start_create_source_procedure`] can be called.
    pub fn can_start_source(&self, source: &Source) -> (r: bool)
        ensures
            r == source_starting_presumes(self@, source@),
    {
        let none: Vec<u32> = Vec::new();
        assert(none@ =~= Seq::<u32>::empty());
        self.core.user.can_own(source.owner, 1) && self.core.database.can_refer(
            &none,
            &id_list(source.connection_id),
            &source.secret_ids,
        )
    }

    /// Tells whether [`Self::cancel_create_source_procedure`] can be called.
    pub fn can_cancel_source(&self, source: &Source) -> (r: bool)
        ensures
            r == source_cancelling_presumes(self@, source@),
    {
        let db = &self.core.database;
        let none: Vec<u32> = Vec::new();
        assert(none@ =~= Seq::<u32>::empty());
        !db.sources.contains_key(source.id) && db.has_in_progress_creation(&source.key())
            && self.core.user.owns(source.owner, 1) && db.refers(
            &none,
            &id_list(source.connection_id),
            &source.secret_ids,
        )
    }

    /// Tells whether [`Self::start_create_table_procedure_with_source`] can be called.
    pub fn can_start_table_with_source(&self, source: &Source, table: &Table) -> (r: bool)
        ensures
            r == table_with_source_starting_presumes(self@, source@, table@),
    {
        let none: Vec<u32> = Vec::new();
        assert(none@ =~= Seq::<u32>::empty());
        (source.owner == table.owner || self.check_source_start(source).is_err())
            && self.core.user.can_own(source.owner, 2) && self.core.database.can_refer(
            &none,
            &id_list(source.connection_id),
            &source.secret_ids,
        )
    }

    /// Tells whether [`Self::cancel_create_table_procedure_with_source`] can be called.
    pub fn can_cancel_table_with_source(&self, source: &Source, table: &Table) -> (r: bool)
        ensures
            r == table_with_source_cancelling_presumes(self@, source@, table@),
    {
        let db = &self.core.database;
        let none: Vec<u32> = Vec::new();
        assert(none@ =~= Seq::<u32>::empty());
        !db.sources.contains_key(source.id) && !db.tables.contains_key(table.id)
            && self.core.user.owns(source.owner, 2) && db.refers(
            &none,
            &id_list(source.connection_id),
            &source.secret_ids,
        )
    }

    /// Tells whether [`Self::start_create_index_procedure`] can be called.
    pub fn can_start_index(&self, index: &Index, index_table: &Table) -> (r: bool)
        ensures
            r == index_starting_presumes(self@, index@, index_table@),
    {
        let relations = &index_table.dependent_relations;
        let alone: bool = relations.len() == 1 && relations[0] == index.primary_table_id;
        proof {
            if alone {
                assert(relations@ =~= seq![index@.primary_table_id]);
            }
        }
        ((index.owner == index_table.owner && alone) || self.check_index_start(index).is_err())
            && self.core.user.can_own(index.owner, 2) && check_fits(
            &self.core.database.relation_ref_count,
            relations,
        )
    }

    /// Tells whether [`Self::cancel_create_index_procedure`] can be called.
    pub fn can_cancel_index(&self, index: &Index, index_table: &Table) -> (r: bool)
        ensures
            r == index_cancelling_presumes(self@, index@, index_table@),
    {
        !self.core.database.indexes.contains_key(index.id) && check_covers(
            &self.core.database.relation_ref_count,
            &index_table.dependent_relations,
        ) && self.core.user.owns(index.owner, 2)
    }

    /// Tells whether [`Self::start_create_sink_procedure`] can be called.
    pub fn can_start_sink(&self, sink: &Sink) -> (r: bool)
        ensures
            r == sink_starting_presumes(self@, sink@),
    {
        self.core.user.can_own(sink.owner, 1) && self.core.database.can_refer(
            &sink.dependent_relations,
            &id_list(sink.connection_id),
            &sink.secret_ids,
        )
    }

    /// Tells whether [`Self::cancel_create_sink_procedure`] can be called.
    pub fn can_cancel_sink(&self, sink: &Sink, target_table: &Option<TargetTable>) -> (r: bool)
        ensures
            r == sink_cancelling_presumes(self@, sink@, opt_view(*target_table)),
    {
        let db = &self.core.database;
        !db.sinks.contains_key(sink.id) && db.refers(
            &sink.dependent_relations,
            &id_list(sink.connection_id),
            &sink.secret_ids,
        ) && self.core.user.owns(sink.owner, 1) && match target_table {
            Some(target) => {
                let mut db = db.duplicate();
                db.unmark_creating(&sink.key());
                db.is_being_replaced(&target.source, &target.table)
            },
            None => true,
        }
    }

    /// Tells whether [`Self::start_create_subscription_procedure`] can be called.
    pub fn can_start_subscription(&self, subscription: &Subscription) -> (r: bool)
        ensures
            r == subscription_starting_presumes(self@, subscription@),
    {
        let mut relations: Vec<u32> = Vec::new();
        relations.push(subscription.dependent_table_id);
        assert(relations@ =~= seq![subscription@.dependent_table_id]);
        self.core.user.can_own(subscription.owner, 1) && check_fits(
            &self.core.database.relation_ref_count,
            &relations,
        )
    }

    /// Tells whether [`Self::start_create_stream_job_procedure`] can be called.
    pub fn can_start_job(&self, stream_job: &StreamingJob) -> (r: bool)
        ensures
            r == job_starting_presumes(self@, stream_job@),
    {
        match stream_job {
            StreamingJob::MaterializedView(table) => self.can_start_materialized_view(table),
            StreamingJob::Sink(sink, _) => self.can_start_sink(sink),
            StreamingJob::Index(index, index_table) => self.can_start_index(index, index_table),
            StreamingJob::Table(source, table, _) => match source {
                Some(source) => self.can_start_table_with_source(source, table),
                None => self.can_start_table(table),
            },
            StreamingJob::Source(source) => self.can_start_source(source),
        }
    }
}

// ---------------------------------------------------------------------------
// Finishing a creation, and replacing tables.
// ---------------------------------------------------------------------------

impl DatabaseManager {
    /// Tells whether a table, and its source, are being replaced.
    pub fn is_being_replaced(&self, source: &Option<Source>, table: &Table) -> (r: bool)
        ensures
            r == being_replaced(self@, opt_view(*source), table@),
    {
        self.tables.contains_key(table.id) && self.has_in_progress_creation(&table.key())
            && match source {
            Some(source) => self.sources.contains_key(source.id) && self.has_in_progress_creation(
                &source.key(),
            ),
            None => true,
        }
    }
}

impl ColIndexMapping {
    /// Tells whether the columns are mapped.
    fn maps_all(&self, columns: &Vec<u32>) -> (r: bool)
        ensures
            r == maps_all(self.map@, columns@),
    {
        let mut i: usize = 0;
        while i < columns.len()
            invariant
                i <= columns.len(),
                forall|k: int|
                    0 <= k < i ==> (#[trigger] columns@[k]) < self.map@.len()
                        && self.map@[columns@[k] as int] is Some,
            decreases columns.len() - i,
        {
            let c: u32 = columns[i];
            assert(columns@[i as int] == c);
            if c as usize >= self.map.len() || self.map[c as usize].is_none() {
                return false;
            }
            i = i + 1;
        }
        true
    }

    /// Tells whether all columns that the expressions of an index read are mapped.
    fn maps_index(&self, index: &Index) -> (r: bool)
        ensures
            r == maps_index(self.map@, index@),
    {
        let ghost q = index@.index_item;
        let mut i: usize = 0;
        while i < index.index_item.len()
            invariant
                i <= index.index_item.len(),
                q == index@.index_item,
                q == views(index.index_item@),
                forall|k: int| 0 <= k < i ==> maps_all(self.map@, (#[trigger] q[k]).input_refs),
            decreases index.index_item.len() - i,
        {
            let item: &IndexItem = &index.index_item[i];
            assert(q[i as int] == item@);
            if !self.maps_all(&item.input_refs) {
                assert(!maps_all(self.map@, q[i as int].input_refs));
                return false;
            }
            i = i + 1;
        }
        true
    }
}

impl CatalogManager {
    /// Tells whether [`Self::start_replace_table_procedure`] can be called.
    pub fn can_start_replace(&self, table: &Table, job_type: TableJobType) -> (r: bool)
        ensures
            r == replace_starting_presumes(self@, table@, job_type),
    {
        let db = &self.core.database;
        if job_type == TableJobType::General && db.databases.contains_key(table.database_id)
            && db.schemas.contains_key(table.schema_id) && table.dependent_relations.len() > 0 {
            return false;
        }
        match db.tables.get(table.id) {
            Some(stored) => match stored.version {
                Some(version) => version < u64::MAX,
                None => true,
            },
            None => true,
        }
    }

    /// Tells whether [`Self::finish_replace_table_procedure`] can be called.
    pub fn can_finish_replace(
        &self,
        source: &Option<Source>,
        table: &Table,
        table_col_index_mapping: &Option<ColIndexMapping>,
        updated_sink_ids: &Vec<u32>,
    ) -> (r: bool)
        ensures
            r == replacing_presumes(
                self@.database,
                opt_view(*source),
                table@,
                mapping_of(*table_col_index_mapping),
                updated_sink_ids@,
            ),
    {
        let db = &self.core.database;
        if !db.is_being_replaced(source, table) || !db.sinks.contains_all(updated_sink_ids) {
            return false;
        }
        match table_col_index_mapping {
            Some(mapping) => {
                let (ids, _) = db.indexes_on(table.id);
                let mut i: usize = 0;
                while i < ids.len()
                    invariant
                        i <= ids.len(),
                        db@ == self@.database,
                        ids@ == indexes_of(db@, table@.id),
                        all_in(ids@, db@.indexes),
                        *table_col_index_mapping == Some(*mapping),
                        forall|k: int|
                            0 <= k < i ==> maps_index(mapping.map@, db@.indexes[#[trigger] ids@[k]]),
                    decreases ids.len() - i,
                {
                    assert(db@.indexes.contains_key(ids@[i as int]));
                    match db.indexes.get(ids[i]) {
                        Some(index) => {
                            if !mapping.maps_index(index) {
                                assert(!maps_index(mapping.map@, db@.indexes[ids@[i as int]]));
                                return false;
                            }
                        },
                        None => {},
                    }
                    i = i + 1;
                }
                true
            },
            None => true,
        }
    }

    /// Tells whether a materialized view can be finished.
    fn can_finish_materialized_view(&self, table: &Table) -> (r: bool)
        ensures
            r == mview_finishing_presumes(self@, table@),
    {
        match self.core.database.tables.get(table.id) {
            Some(stored) => stored.stream_job_status == StreamJobStatus::Creating,
            None => table.create_type == CreateType::Foreground,
        }
    }

    /// Tells whether [`Self::finish_stream_job`] can be called.
    pub fn can_finish_job(
        &self,
        stream_job: &StreamingJob,
        internal_tables: &Vec<Table>,
        epoch: u64,
        cluster_version: &String,
    ) -> (r: bool)
        ensures
            r == relation_finishing_presumes(
                self@,
                stream_job@.stamped(epoch, cluster_version@),
                views(internal_tables@),
            ),
    {
        let db = &self.core.database;
        let job = stream_job.duplicate().mark_created(epoch, cluster_version.clone());
        match job {
            StreamingJob::MaterializedView(table) => self.can_finish_materialized_view(&table),
            StreamingJob::Sink(sink, target) => {
                if db.sinks.contains_key(sink.id) || !db.has_in_progress_creation(&sink.key()) {
                    return false;
                }
                match target {
                    Some(target) => {
                        let mut next = CatalogManager { core: self.core.duplicate() };
                        let internal = duplicate_all(internal_tables);
                        next.finish_create_sink_procedure(internal, sink);
                        let none: Vec<u32> = Vec::new();
                        assert(none@ =~= Seq::<u32>::empty());
                        next.can_finish_replace(&target.source, &target.table, &None, &none)
                    },
                    None => true,
                }
            },
            StreamingJob::Table(source, table, _) => match source {
                Some(source) => !db.sources.contains_key(source.id) && !db.tables.contains_key(
                    table.id,
                ) && db.has_in_progress_creation(&source.key()) && db.has_in_progress_creation(
                    &table.key(),
                ),
                None => !db.tables.contains_key(table.id) && db.has_in_progress_creation(
                    &table.key(),
                ),
            },
            StreamingJob::Index(index, table) => {
                let key = RelationKey {
                    database_id: table.database_id,
                    schema_id: table.schema_id,
                    name: index.name.clone(),
                };
                assert(key@ == index_table_key(index@, table@));
                !db.indexes.contains_key(index.id) && db.has_in_progress_creation(&key)
            },
            StreamingJob::Source(source) => !db.sources.contains_key(source.id)
                && db.has_in_progress_creation(&source.key()),
        }
    }

    /// Tells whether [`Self::finish_create_subscription_procedure`] can be called.
    pub fn can_finish_subscription(&self, subscription_id: u32) -> (r: bool)
        ensures
            r == subscription_finishing_presumes(self@, subscription_id),
    {
        match self.core.database.subscriptions.get(subscription_id) {
            Some(subscription) => subscription.subscription_state == SubscriptionState::Init
                && self.core.database.has_in_progress_creation(&subscription.key()),
            None => true,
        }
    }
}

// ---------------------------------------------------------------------------
// Starting up and cleaning up.
// ---------------------------------------------------------------------------

impl CatalogManager {
    /// Tells whether the options of each source that has none were chosen.
    fn can_choose(&self, chosen: &Vec<Vec<bool>>) -> (r: bool)
        ensures
            r == chosen_for(self@, chosen@),
    {
        let ids = self.legacy_sources();
        if chosen.len() != ids.len() {
            return false;
        }
        proof {
            self.core.database.sources.lemma_finite();
            lemma_ids_where(
                self@.database.sources,
                legacy_source(),
            );
        }
        let mut i: usize = 0;
        while i < ids.len()
            invariant
                i <= ids.len(),
                ids@ == ids_where(
                    self@.database.sources,
                    legacy_source(),
                ),
                all_in(ids@, self@.database.sources),
                chosen@.len() == ids@.len(),
                forall|k: int|
                    0 <= k < i ==> (#[trigger] chosen@[k])@.len()
                        == self@.database.sources[ids@[k]].with_properties.len(),
            decreases ids.len() - i,
        {
            assert(self@.database.sources.contains_key(ids@[i as int]));
            match self.core.database.sources.get(ids[i]) {
                Some(source) => {
                    assert(source@.with_properties.len() == source.with_properties@.len());
                    if chosen[i].len() != source.with_properties.len() {
                        assert(chosen@[i as int]@.len()
                            != self@.database.sources[ids@[i as int]].with_properties.len());
                        return false;
                    }
                },
                None => {},
            }
            i = i + 1;
        }
        true
    }

    /// Tells whether the tables are there that sinks write into without noting their columns.
    fn can_note_targets(&self) -> (r: bool)
        ensures
            r == targets_known(self@),
    {
        let tables = &self.core.database.tables;
        let f = |id: u32, x: &Sink| -> (b: bool)
            ensures
                b == (legacy_sink()(x@) ==> tables@.contains_key(x@.target_table->0)),
        {
            match x.target_table {
                Some(target) => x.original_target_columns.len() > 0 || tables.contains_key(target),
                None => true,
            }
        };
        let ghost p = |id: u32, x: SinkModel|
            legacy_sink()(x) ==> tables@.contains_key(x.target_table->0);
        let r: bool = self.core.database.sinks.all(f, Ghost(p));
        proof {
            if r {
                assert forall|id: u32| #[trigger]
                    self@.database.sinks.contains_key(id) && legacy_sink()(self@.database.sinks[id]) implies self@.database.tables.contains_key(
                self@.database.sinks[id].target_table->0) by {
                    assert(p(id, self@.database.sinks[id]));
                }
            }
        }
        r
    }

    /// Tells whether [`Self::init`] can be called.
    pub fn can_init(&self, schema_ids: &Vec<u32>, chosen: &Vec<Vec<bool>>) -> (r: bool)
        ensures
            r == init_presumes(self@, schema_ids@, chosen@),
    {
        schema_ids.len() == DEFAULT_SCHEMA_COUNT && self.core.user.can_own(DEFAULT_SUPER_USER_ID, 5)
            && self.can_choose(chosen) && self.can_note_targets()
    }

    /// Tells whether [`Self::clean_dirty_tables`] can be called.
    pub fn can_clean_tables(&self, fragments: &IdMap<JobFragments>) -> (r: bool)
        ensures
            r == clean_presumes(self@, fragments@),
    {
        let db = &self.core.database;
        let f = |id: u32, t: &Table| -> (b: bool)
            ensures
                b == (t@.id == id),
        {
            t.id == id
        };
        let keyed: bool = db.tables.all(f, Ghost(|id: u32, t: TableModel| t.id == id));
        let f = |id: u32, t: &Table| -> (b: bool)
            ensures
                b == (surviving_job(fragments@)(t@) ==> t@.create_type == CreateType::Background),
        {
            t.create_type == CreateType::Background || !(t.stream_job_status
                == StreamJobStatus::Creating && t.table_type != TableType::Internal && !(t.create_type
                == CreateType::Foreground || match fragments.get(t.id) {
                Some(job) => job.is_initial,
                None => true,
            }))
        };
        let ghost p = |id: u32, t: TableModel|
            surviving_job(fragments@)(t) ==> t.create_type == CreateType::Background;
        let background: bool = db.tables.all(f, Ghost(p));
        proof {
            if keyed {
                assert(tables_keyed(db@.tables));
            }
            if background {
                assert forall|id: u32| #[trigger]
                    db@.tables.contains_key(id) && surviving_job(fragments@)(db@.tables[id]) implies db@.tables[id].create_type
                    == CreateType::Background by {
                    assert(p(id, db@.tables[id]));
                }
            }
        }
        let f = |t: &Table| -> (b: bool)
            ensures
                b == dirty_job(fragments@)(t@),
        {
            t.stream_job_status == StreamJobStatus::Creating && t.table_type != TableType::Internal
                && (t.create_type == CreateType::Foreground || match fragments.get(t.id) {
                Some(job) => job.is_initial,
                None => true,
            })
        };
        let jobs = db.tables.values_where(f, Ghost(dirty_job(fragments@)));
        keyed && background && check_covers(
            &db.relation_ref_count,
            &collect_table_dependencies(&jobs),
        ) && check_covers(&self.core.user.catalog_create_ref_count, &owners_of_tables(&jobs))
    }

    /// Tells whether [`Self::clean_dirty_subscription`] can be called.
    pub fn can_clean_subscriptions(&self) -> (r: bool)
        ensures
            r == subscriptions_cleaning_presumes(self@),
    {
        let db = &self.core.database;
        let f = |id: u32, x: &Subscription| -> (b: bool)
            ensures
                b == (x@.id == id),
        {
            x.id == id
        };
        let ghost p = |id: u32, x: SubscriptionModel| x.id == id;
        let keyed: bool = db.subscriptions.all(f, Ghost(p));
        let f = |x: &Subscription| -> (b: bool)
            ensures
                b == unfinished()(x@),
        {
            x.subscription_state == SubscriptionState::Init
        };
        let list = db.subscriptions.values_where(f, Ghost(unfinished()));
        keyed && check_covers(
            &db.relation_ref_count,
            &collect_subscription_dependencies(&list),
        ) && check_covers(
            &self.core.user.catalog_create_ref_count,
            &owners_of_subscriptions(&list),
        )
    }
}

// ---------------------------------------------------------------------------
// Renaming.
// ---------------------------------------------------------------------------

/// The relations that mention a relation.
#[derive(Debug, PartialEq, Eq)]
pub struct Mentions {
    pub tables: Vec<u32>,
    pub views: Vec<u32>,
    pub sinks: Vec<u32>,
    pub subscriptions: Vec<u32>,
}

impl DatabaseManager {
    /// The relations whose definitions mention the relation: they are to be rewritten where it is
    /// renamed.
    pub fn mentions_of(&self, id: u32) -> (r: Mentions)
        ensures
            r.tables@ == ids_where(self@.tables, table_depends_on(id)),
            r.views@ == ids_where(self@.views, view_depends_on(id)),
            r.sinks@ == ids_where(self@.sinks, sink_mentions(id)),
            r.subscriptions@ == ids_where(
                self@.subscriptions,
                subscription_depends_on(id),
            ),
    {
        let f = |x: &Table| -> (b: bool)
            ensures
                b == table_depends_on(id)(x@),
        {
            contains_id(&x.dependent_relations, id)
        };
        let tables = self.tables.ids_where(f, Ghost(table_depends_on(id)));
        let f = |x: &ViewInfo| -> (b: bool)
            ensures
                b == view_depends_on(id)(x@),
        {
            contains_id(&x.dependent_relations, id)
        };
        let view_ids = self.views.ids_where(f, Ghost(view_depends_on(id)));
        let f = |x: &Sink| -> (b: bool)
            ensures
                b == sink_mentions(id)(x@),
        {
            contains_id(&x.dependent_relations, id) || x.target_table == Some(id)
        };
        let sinks = self.sinks.ids_where(f, Ghost(sink_mentions(id)));
        let f = |x: &Subscription| -> (b: bool)
            ensures
                b == subscription_depends_on(id)(x@),
        {
            x.dependent_table_id == id
        };
        let subscriptions = self.subscriptions.ids_where(f, Ghost(subscription_depends_on(id)));
        Mentions { tables, views: view_ids, sinks, subscriptions }
    }

    /// Tells whether all relations that mention the relation are rewritten.
    fn is_rewritten(&self, rewrites: &Rewrites, id: u32) -> (r: bool)
        ensures
            r == rewrites_complete(self@, rewrites@, id),
    {
        let m = self.mentions_of(id);
        rewrites.tables.contains_all(&m.tables) && rewrites.views.contains_all(&m.views)
            && rewrites.sinks.contains_all(&m.sinks) && rewrites.subscriptions.contains_all(
            &m.subscriptions,
        )
    }
}

impl CatalogManager {
    /// Tells whether [`Self::alter_table_name`] can be called.
    pub fn can_rename_table(&self, table_id: u32, table_name: &str, rewrites: &Rewrites) -> (r: bool)
        ensures
            r == table_renaming_presumes(self@, table_id, table_name@, rewrites@),
    {
        let db = &self.core.database;
        match db.tables.get(table_id) {
            Some(table) => {
                let key = RelationKey {
                    database_id: table.database_id,
                    schema_id: table.schema_id,
                    name: table_name.to_string(),
                };
                db.check_relation_name_duplicated(&key).is_err() || (db.is_rewritten(
                    rewrites,
                    table_id,
                ) && match table.optional_associated_source_id {
                    Some(source_id) => db.sources.contains_key(source_id),
                    None => true,
                })
            },
            None => true,
        }
    }

    /// Tells whether [`Self::alter_view_name`] can be called.
    pub fn can_rename_view(&self, view_id: u32, view_name: &str, rewrites: &Rewrites) -> (r: bool)
        ensures
            r == view_renaming_presumes(self@, view_id, view_name@, rewrites@),
    {
        let db = &self.core.database;
        match db.views.get(view_id) {
            Some(view) => {
                let key = RelationKey {
                    database_id: view.database_id,
                    schema_id: view.schema_id,
                    name: view_name.to_string(),
                };
                db.check_relation_name_duplicated(&key).is_err() || db.is_rewritten(
                    rewrites,
                    view_id,
                )
            },
            None => true,
        }
    }

    /// Tells whether [`Self::alter_source_name`] can be called.
    pub fn can_rename_source(&self, source_id: u32, source_name: &str, rewrites: &Rewrites) -> (r: bool)
        ensures
            r == source_renaming_presumes(self@, source_id, source_name@, rewrites@),
    {
        let db = &self.core.database;
        match db.sources.get(source_id) {
            Some(source) => {
                let key = RelationKey {
                    database_id: source.database_id,
                    schema_id: source.schema_id,
                    name: source_name.to_string(),
                };
                db.check_relation_name_duplicated(&key).is_err() || db.is_rewritten(
                    rewrites,
                    source_id,
                )
            },
            None => true,
        }
    }

    /// Tells whether [`Self::alter_index_name`] can be called.
    pub fn can_rename_index(&self, index_id: u32, index_name: &str) -> (r: bool)
        ensures
            r == index_renaming_presumes(self@, index_id, index_name@),
    {
        let db = &self.core.database;
        match db.indexes.get(index_id) {
            Some(index) => {
                let key = RelationKey {
                    database_id: index.database_id,
                    schema_id: index.schema_id,
                    name: index_name.to_string(),
                };
                db.check_relation_name_duplicated(&key).is_err() || db.tables.contains_key(
                    index.index_table_id,
                )
            },
            None => true,
        }
    }
}

} // verus!
