//! Streaming jobs as a whole: starting and finishing them, and who waits for them.

use vstd::prelude::*;

use crate::catalog::creating::{
    index_started, index_starting_presumes, mview_started, mview_starting_presumes, sink_key,
    sink_started, sink_starting_presumes, source_key, source_started, source_starting_presumes,
    subscription_key, table_key, table_start_refusal, table_started, table_starting_presumes,
    table_with_source_started, table_with_source_starting_presumes, waiting_for, Step,
};
use crate::catalog::error::{CatalogKind, MetaError, MetaErrorModel, MetaResult};
use crate::catalog::finishing::{
    index_finished, index_table_key, mview_finished, mview_finishing_presumes, sink_finished,
    source_finished, table_finished, table_with_source_finished, Change, Replacement,
};
use crate::catalog::manager::CatalogManager;
use crate::catalog::notify::{
    Audience, Info, InfoModel, Notification, NotificationModel, Operation, RelationInfo,
    RelationInfoModel, StreamingJob, StreamingJobModel, TargetTableModel,
};
use crate::catalog::relations::{
    collect_subscription_dependencies, owners_of_subscriptions, subscription_dependencies,
    subscription_owners,
};
use crate::catalog::rename::table_id;
use crate::catalog::state::{
    CatalogManagerCore, CatalogManagerCoreModel, DatabaseManagerModel, UserManagerModel,
};
use crate::catalog::types::{
    IndexModel, SinkModel, SourceModel, StreamJobStatus, Subscription, SubscriptionModel,
    SubscriptionState, Table, TableModel,
};
use crate::util::counts::{covers, lower_all, lowered};
use crate::util::id_map::{
    all_in, ids_where, inserted, lemma_ids_where, values_at, values_where, views, Entry, IdMap,
};
use crate::util::ids::{listing, lists};
use crate::util::lists::{append_all, copy_map, gather, image, lemma_gather_push, map_all};

verus! {

impl StreamingJobModel {
    /// The identifier of the job.
    pub open spec fn id(self) -> u32 {
        match self {
            StreamingJobModel::MaterializedView(table) => table.id,
            StreamingJobModel::Sink(sink, _) => sink.id,
            StreamingJobModel::Table(_, table, _) => table.id,
            StreamingJobModel::Index(index, _) => index.id,
            StreamingJobModel::Source(source) => source.id,
        }
    }

    /// The name of what the job creates.
    pub open spec fn name(self) -> Seq<char> {
        match self {
            StreamingJobModel::MaterializedView(table) => table.name,
            StreamingJobModel::Sink(sink, _) => sink.name,
            StreamingJobModel::Table(_, table, _) => table.name,
            StreamingJobModel::Index(index, _) => index.name,
            StreamingJobModel::Source(source) => source.name,
        }
    }

    /// The kind of what the job creates.
    pub open spec fn kind(self) -> CatalogKind {
        match self {
            StreamingJobModel::MaterializedView(_) => CatalogKind::MaterializedView,
            StreamingJobModel::Sink(..) => CatalogKind::Sink,
            StreamingJobModel::Table(..) => CatalogKind::Table,
            StreamingJobModel::Index(..) => CatalogKind::Index,
            StreamingJobModel::Source(_) => CatalogKind::Source,
        }
    }

    /// The job with the time and the version of the cluster at which it was created.
    pub open spec fn stamped(self, epoch: u64, version: Seq<char>) -> StreamingJobModel {
        match self {
            StreamingJobModel::MaterializedView(table) => StreamingJobModel::MaterializedView(
                stamped_table(table, epoch, version),
            ),
            StreamingJobModel::Sink(sink, target) => StreamingJobModel::Sink(
                SinkModel {
                    created_at_epoch: Some(epoch),
                    created_at_cluster_version: Some(version),
                    ..sink
                },
                target,
            ),
            StreamingJobModel::Table(source, table, kind) => StreamingJobModel::Table(
                match source {
                    Some(source) => Some(stamped_source(source, epoch, version)),
                    None => None,
                },
                stamped_table(table, epoch, version),
                kind,
            ),
            StreamingJobModel::Index(index, table) => StreamingJobModel::Index(
                IndexModel {
                    created_at_epoch: Some(epoch),
                    created_at_cluster_version: Some(version),
                    ..index
                },
                table,
            ),
            StreamingJobModel::Source(source) => StreamingJobModel::Source(
                stamped_source(source, epoch, version),
            ),
        }
    }
}

pub open spec fn stamped_table(table: TableModel, epoch: u64, version: Seq<char>) -> TableModel {
    TableModel {
        created_at_epoch: Some(epoch),
        created_at_cluster_version: Some(version),
        ..table
    }
}

pub open spec fn stamped_source(source: SourceModel, epoch: u64, version: Seq<char>) -> SourceModel {
    SourceModel {
        created_at_epoch: Some(epoch),
        created_at_cluster_version: Some(version),
        ..source
    }
}

impl StreamingJob {
    pub fn id(&self) -> (r: u32)
        ensures
            r == self@.id(),
    {
        match self {
            StreamingJob::MaterializedView(table) => table.id,
            StreamingJob::Sink(sink, _) => sink.id,
            StreamingJob::Table(_, table, _) => table.id,
            StreamingJob::Index(index, _) => index.id,
            StreamingJob::Source(source) => source.id,
        }
    }

    pub fn name(&self) -> (r: String)
        ensures
            r@ == self@.name(),
    {
        match self {
            StreamingJob::MaterializedView(table) => table.name.clone(),
            StreamingJob::Sink(sink, _) => sink.name.clone(),
            StreamingJob::Table(_, table, _) => table.name.clone(),
            StreamingJob::Index(index, _) => index.name.clone(),
            StreamingJob::Source(source) => source.name.clone(),
        }
    }

    pub fn kind(&self) -> (r: CatalogKind)
        ensures
            r == self@.kind(),
    {
        match self {
            StreamingJob::MaterializedView(_) => CatalogKind::MaterializedView,
            StreamingJob::Sink(..) => CatalogKind::Sink,
            StreamingJob::Table(..) => CatalogKind::Table,
            StreamingJob::Index(..) => CatalogKind::Index,
            StreamingJob::Source(_) => CatalogKind::Source,
        }
    }

    /// Notes the time and the version of the cluster at which the job was created.
    pub fn mark_created(self, epoch: u64, cluster_version: String) -> (r: StreamingJob)
        ensures
            r@ == self@.stamped(epoch, cluster_version@),
    {
        match self {
            StreamingJob::MaterializedView(table) => {
                let mut table = table;
                table.created_at_epoch = Some(epoch);
                table.created_at_cluster_version = Some(cluster_version);
                StreamingJob::MaterializedView(table)
            },
            StreamingJob::Sink(sink, target) => {
                let mut sink = sink;
                sink.created_at_epoch = Some(epoch);
                sink.created_at_cluster_version = Some(cluster_version);
                StreamingJob::Sink(sink, target)
            },
            StreamingJob::Table(source, table, kind) => {
                let mut table = table;
                table.created_at_epoch = Some(epoch);
                table.created_at_cluster_version = Some(cluster_version.clone());
                let source = match source {
                    Some(source) => {
                        let mut source = source;
                        source.created_at_epoch = Some(epoch);
                        source.created_at_cluster_version = Some(cluster_version);
                        Some(source)
                    },
                    None => None,
                };
                StreamingJob::Table(source, table, kind)
            },
            StreamingJob::Index(index, table) => {
                let mut index = index;
                index.created_at_epoch = Some(epoch);
                index.created_at_cluster_version = Some(cluster_version);
                StreamingJob::Index(index, table)
            },
            StreamingJob::Source(source) => {
                let mut source = source;
                source.created_at_epoch = Some(epoch);
                source.created_at_cluster_version = Some(cluster_version);
                StreamingJob::Source(source)
            },
        }
    }
}

// ---------------------------------------------------------------------------
// Who waits for a job.
// ---------------------------------------------------------------------------

/// The state of the job in the catalog, if it stands there.
pub open spec fn job_status(db: DatabaseManagerModel, job: StreamingJobModel) -> Option<StreamJobStatus> {
    match job {
        StreamingJobModel::MaterializedView(table) => if db.tables.contains_key(table.id) {
            Some(db.tables[table.id].stream_job_status)
        } else {
            None
        },
        StreamingJobModel::Table(_, table, _) => if db.tables.contains_key(table.id) {
            Some(db.tables[table.id].stream_job_status)
        } else {
            None
        },
        StreamingJobModel::Sink(sink, _) => if db.sinks.contains_key(sink.id) {
            Some(db.sinks[sink.id].stream_job_status)
        } else {
            None
        },
        StreamingJobModel::Index(index, _) => if db.indexes.contains_key(index.id) {
            Some(db.indexes[index.id].stream_job_status)
        } else {
            None
        },
        StreamingJobModel::Source(_) => None,
    }
}

/// Whether a job is finished: it stands in the catalog as created. A job that neither stands
/// there nor is being created is gone. A source is finished once it stands in the catalog.
pub open spec fn job_is_finished(db: DatabaseManagerModel, job: StreamingJobModel) -> Result<bool, MetaErrorModel> {
    if job is Source {
        Ok(db.sources.contains_key(job.id()))
    } else {
        match job_status(db, job) {
            Some(status) => Ok(status == StreamJobStatus::Created),
            None => if db.in_progress_creating_streaming_job.contains_key(job.id()) {
                Ok(false)
            } else {
                Err(MetaErrorModel::JobGone(job.kind(), job.name()))
            },
        }
    }
}

/// Those who wait for any job, in the order of the jobs.
pub open spec fn all_waiting(db: DatabaseManagerModel) -> Seq<u64> {
    gather(
        listing(db.creating_table_finish_notifier.dom()),
        |id: u32| db.creating_table_finish_notifier[id],
    )
}

impl CatalogManagerCore {
    /// Notes that `sender` waits for the job `id`.
    pub fn register_finish_notifier(&mut self, id: u32, sender: u64)
        ensures
            final(self)@ == (CatalogManagerCoreModel {
                database: DatabaseManagerModel {
                    creating_table_finish_notifier: old(
                        self,
                    )@.database.creating_table_finish_notifier.insert(
                        id,
                        waiting_for(old(self)@.database, id).push(sender),
                    ),
                    ..old(self)@.database
                },
                ..old(self)@
            }),
    {
        let mut senders = match self.database.creating_table_finish_notifier.get(id) {
            Some(senders) => senders.duplicate(),
            None => {
                let none: Vec<u64> = Vec::new();
                assert(none@ =~= Seq::<u64>::empty());
                none
            },
        };
        senders.push(sender);
        self.database.creating_table_finish_notifier.insert(id, senders);
    }

    pub fn streaming_job_is_finished(&self, job: &StreamingJob) -> (r: MetaResult<bool>)
        ensures
            match job_is_finished(self@.database, job@) {
                Ok(finished) => r is Ok && r->Ok_0 == finished,
                Err(e) => r is Err && r->Err_0@ == e,
            },
    {
        let status: Option<StreamJobStatus> = match job {
            StreamingJob::MaterializedView(table) => match self.database.tables.get(table.id) {
                Some(x) => Some(x.stream_job_status),
                None => None,
            },
            StreamingJob::Table(_, table, _) => match self.database.tables.get(table.id) {
                Some(x) => Some(x.stream_job_status),
                None => None,
            },
            StreamingJob::Sink(sink, _) => match self.database.sinks.get(sink.id) {
                Some(x) => Some(x.stream_job_status),
                None => None,
            },
            StreamingJob::Index(index, _) => match self.database.indexes.get(index.id) {
                Some(x) => Some(x.stream_job_status),
                None => None,
            },
            StreamingJob::Source(source) => {
                return Ok(self.database.sources.contains_key(source.id));
            },
        };
        match status {
            Some(status) => Ok(status == StreamJobStatus::Created),
            None => {
                if self.database.in_progress_creating_streaming_job.contains_key(job.id()) {
                    Ok(false)
                } else {
                    Err(MetaError::JobGone(job.kind(), job.name()))
                }
            },
        }
    }

    /// The job `id` is finished: hands out who waits for it, each with the version to be told.
    pub fn notify_finish(&mut self, id: u32, version: u64) -> (r: Vec<(u64, u64)>)
        ensures
            r@ == image(waiting_for(old(self)@.database, id), |sender: u64| (sender, version)),
            final(self)@ == (CatalogManagerCoreModel {
                database: DatabaseManagerModel {
                    creating_table_finish_notifier: old(
                        self,
                    )@.database.creating_table_finish_notifier.remove(id),
                    ..old(self)@.database
                },
                ..old(self)@
            }),
    {
        let ghost waiting = waiting_for(self@.database, id);
        let mut r: Vec<(u64, u64)> = Vec::new();
        match self.database.creating_table_finish_notifier.remove(id) {
            Some(senders) => {
                let mut i: usize = 0;
                while i < senders.len()
                    invariant
                        i <= senders.len(),
                        r@.len() == i,
                        forall|k: int| 0 <= k < i ==> r@[k] == (senders@[k], version),
                    decreases senders.len() - i,
                {
                    r.push((senders[i], version));
                    i = i + 1;
                }
            },
            None => {},
        }
        assert(r@ =~= image(waiting, |sender: u64| (sender, version)));
        r
    }

    /// All jobs have failed: hands out who waits for any of them, each with the error to be told.
    ///
    /// Clear in progress creation streaming job. Note that background job is not tracked here, so
    /// that
    /// it won't affect background jobs.
    pub fn notify_finish_failed(&mut self, err: &MetaError) -> (r: Vec<(u64, MetaError)>)
        ensures
            r@.len() == all_waiting(old(self)@.database).len(),
            forall|i: int|
                0 <= i < r@.len() ==> (#[trigger] r@[i]).0 == all_waiting(old(self)@.database)[i]
                    && r@[i].1@ == err@,
            final(self)@ == (CatalogManagerCoreModel {
                database: DatabaseManagerModel {
                    creating_table_finish_notifier: Map::empty(),
                    in_progress_creating_streaming_job: Map::empty(),
                    ..old(self)@.database
                },
                ..old(self)@
            }),
    {
        let ghost db = self@.database;
        let ghost p = |id: u32| db.creating_table_finish_notifier[id];
        let ids = self.database.creating_table_finish_notifier.ids();
        let mut r: Vec<(u64, MetaError)> = Vec::new();
        let mut i: usize = 0;
        assert(ids@.take(0) =~= Seq::<u32>::empty());
        while i < ids.len()
            invariant
                i <= ids.len(),
                self@ == old(self)@,
                db == self@.database,
                p == (|id: u32| db.creating_table_finish_notifier[id]),
                lists(ids@, db.creating_table_finish_notifier.dom()),
                r@.len() == gather(ids@.take(i as int), p).len(),
                forall|k: int|
                    0 <= k < r@.len() ==> (#[trigger] r@[k]).0 == gather(ids@.take(i as int), p)[k]
                        && r@[k].1@ == err@,
            decreases ids.len() - i,
        {
            proof {
                assert(ids@.contains(ids@[i as int]));
                assert(ids@.take(i + 1) =~= ids@.take(i as int).push(ids@[i as int]));
                lemma_gather_push(ids@.take(i as int), ids@[i as int], p);
            }
            let ghost so_far = gather(ids@.take(i as int), p);
            match self.database.creating_table_finish_notifier.get(ids[i]) {
                Some(senders) => {
                    let mut j: usize = 0;
                    while j < senders.len()
                        invariant
                            j <= senders.len(),
                            r@.len() == so_far.len() + j,
                            forall|k: int|
                                0 <= k < r@.len() ==> (#[trigger] r@[k]).0 == (so_far + senders@)[k]
                                    && r@[k].1@ == err@,
                        decreases senders.len() - j,
                    {
                        r.push((senders[j], err.duplicate()));
                        j = j + 1;
                    }
                },
                None => {},
            }
            i = i + 1;
        }
        assert(ids@.take(i as int) =~= ids@);
        self.database.creating_table_finish_notifier = IdMap::new();
        self.database.in_progress_creating_streaming_job = IdMap::new();
        r
    }
}

// ---------------------------------------------------------------------------
// Tables that are being created.
// ---------------------------------------------------------------------------

/// A message to those who store tables.
pub open spec fn storage(operation: Operation, table: TableModel) -> NotificationModel {
    NotificationModel {
        audience: Audience::HummockAndCompactor,
        operation,
        info: InfoModel::RelationGroup(seq![RelationInfoModel::Table(table)]),
    }
}

/// A table of which only the identifier is told.
pub open spec fn bare_table(id: u32) -> TableModel {
    TableModel { id, ..TableModel::blank() }
}

impl CatalogManager {
    fn notify_hummock_and_compactor_relation_info(operation: Operation, table: Table) -> (r: Notification)
        ensures
            r@ == storage(operation, table@),
    {
        let mut relations: Vec<RelationInfo> = Vec::new();
        relations.push(RelationInfo::Table(table));
        assert(views(relations@) =~= seq![RelationInfoModel::Table(table@)]);
        Notification {
            audience: Audience::HummockAndCompactor,
            operation,
            info: Info::RelationGroup(relations),
        }
    }

    pub fn mark_creating_tables(&mut self, creating_tables: &Vec<Table>) -> (r: Vec<Notification>)
        ensures
            final(self)@ == (CatalogManagerCoreModel {
                database: DatabaseManagerModel {
                    in_progress_creating_tables: inserted(
                        old(self)@.database.in_progress_creating_tables,
                        views(creating_tables@),
                        table_id(),
                    ),
                    ..old(self)@.database
                },
                ..old(self)@
            }),
            views(r@) == image(
                views(creating_tables@),
                |t: TableModel| storage(Operation::Add, t),
            ),
    {
        let f = |x: &Table| -> (y: u32)
            ensures
                y == x@.id,
        {
            x.id
        };
        self.core.database.in_progress_creating_tables.insert_all(
            creating_tables,
            f,
            Ghost(table_id()),
        );
        let f = |x: &Table| -> (y: Notification)
            ensures
                y@ == storage(Operation::Add, x@),
        {
            Self::notify_hummock_and_compactor_relation_info(Operation::Add, x.duplicate())
        };
        map_all(creating_tables, f, Ghost(|t: TableModel| storage(Operation::Add, t)))
    }

    pub fn unmark_creating_tables(&mut self, creating_table_ids: &Vec<u32>, need_notify: bool) -> (r:
        Vec<Notification>)
        ensures
            final(self)@ == (CatalogManagerCoreModel {
                database: DatabaseManagerModel {
                    in_progress_creating_tables: old(
                        self,
                    )@.database.in_progress_creating_tables.remove_keys(
                        creating_table_ids@.to_set(),
                    ),
                    ..old(self)@.database
                },
                ..old(self)@
            }),
            views(r@) == if need_notify {
                image(creating_table_ids@, |id: u32| storage(Operation::Delete, bare_table(id)))
            } else {
                Seq::empty()
            },
    {
        let ghost before = self@.database.in_progress_creating_tables;
        let ghost c = self@;
        let ghost ids = creating_table_ids@;
        let mut r: Vec<Notification> = Vec::new();
        let mut i: usize = 0;
        assert(before =~= before.remove_keys(ids.take(0).to_set()));
        while i < creating_table_ids.len()
            invariant
                i <= creating_table_ids.len(),
                ids == creating_table_ids@,
                self@ == (CatalogManagerCoreModel {
                    database: DatabaseManagerModel {
                        in_progress_creating_tables: before.remove_keys(ids.take(i as int).to_set()),
                        ..c.database
                    },
                    ..c
                }),
                r@.len() == if need_notify { i as nat } else { 0 },
                forall|k: int|
                    0 <= k < r@.len() ==> (#[trigger] r@[k])@ == storage(
                        Operation::Delete,
                        bare_table(ids[k]),
                    ),
            decreases creating_table_ids.len() - i,
        {
            let id: u32 = creating_table_ids[i];
            proof {
                assert(ids.take(i + 1) =~= ids.take(i as int).push(id));
                assert(ids.take(i + 1).to_set() =~= ids.take(i as int).to_set().insert(id)) by {
                    broadcast use Seq::lemma_push_to_set_commute;

                }
            }
            self.core.database.in_progress_creating_tables.remove(id);
            assert(self.core.database.in_progress_creating_tables@ =~= before.remove_keys(
                ids.take(i + 1).to_set(),
            ));
            if need_notify {
                let mut table = Table::default();
                table.id = id;
                assert(table@ =~= bare_table(id));
                r.push(Self::notify_hummock_and_compactor_relation_info(Operation::Delete, table));
            }
            i = i + 1;
        }
        assert(ids.take(i as int) =~= ids);
        if need_notify {
            assert(views(r@) =~= image(
                ids,
                |id: u32| storage(Operation::Delete, bare_table(id)),
            ));
        } else {
            assert(views(r@) =~= Seq::<NotificationModel>::empty());
        }
        r
    }
}

// ---------------------------------------------------------------------------
// Starting a job.
// ---------------------------------------------------------------------------

/// The catalog and the messages after a job is started, and the refusal where there was one.
pub open spec fn job_started(c: CatalogManagerCoreModel, job: StreamingJobModel, internal: Seq<TableModel>) -> (
    Step,
    Seq<NotificationModel>,
) {
    match job {
        StreamingJobModel::MaterializedView(table) => match table_start_refusal(c, table) {
            Some(e) => ((c, Some(e)), Seq::empty()),
            None => {
                let (after, messages) = mview_started(c, table, internal);
                ((after, None), messages)
            },
        },
        StreamingJobModel::Sink(sink, _) => (sink_started(c, sink), Seq::empty()),
        StreamingJobModel::Index(index, table) => (index_started(c, index, table), Seq::empty()),
        StreamingJobModel::Table(Some(source), table, _) => (
            table_with_source_started(c, source, table),
            Seq::empty(),
        ),
        StreamingJobModel::Table(None, table, _) => (table_started(c, table), Seq::empty()),
        StreamingJobModel::Source(source) => (source_started(c, source), Seq::empty()),
    }
}

/// What starting a job presumes.
pub open spec fn job_starting_presumes(c: CatalogManagerCoreModel, job: StreamingJobModel) -> bool {
    match job {
        StreamingJobModel::MaterializedView(table) => mview_starting_presumes(c, table),
        StreamingJobModel::Sink(sink, _) => sink_starting_presumes(c, sink),
        StreamingJobModel::Index(index, table) => index_starting_presumes(c, index, table),
        StreamingJobModel::Table(Some(source), table, _) => table_with_source_starting_presumes(
            c,
            source,
            table,
        ),
        StreamingJobModel::Table(None, table, _) => table_starting_presumes(c, table),
        StreamingJobModel::Source(source) => source_starting_presumes(c, source),
    }
}

impl CatalogManager {
    /// Marks current relation as "creating" and add reference count to dependent relations.
    /// And persists internal tables for background DDL progress tracking.
    pub fn start_create_stream_job_procedure(
        &mut self,
        stream_job: &StreamingJob,
        internal_tables: &Vec<Table>,
    ) -> (r: MetaResult<Vec<Notification>>)
        requires
            job_starting_presumes(old(self)@, stream_job@),
        ensures
            ({
                let ((c, e), messages) = job_started(
                    old(self)@,
                    stream_job@,
                    views(internal_tables@),
                );
                &&& final(self)@ == c
                &&& match e {
                    Some(e) => r is Err && r->Err_0@ == e,
                    None => r is Ok && views(r->Ok_0@) == messages,
                }
            }),
    {
        let none: Vec<Notification> = Vec::new();
        assert(views(none@) =~= Seq::<NotificationModel>::empty());
        let started = match stream_job {
            StreamingJob::MaterializedView(table) => {
                return self.start_create_materialized_view_procedure(table, internal_tables);
            },
            StreamingJob::Sink(sink, _) => self.start_create_sink_procedure(sink),
            StreamingJob::Index(index, index_table) => self.start_create_index_procedure(
                index,
                index_table,
            ),
            StreamingJob::Table(source, table, _) => match source {
                Some(source) => self.start_create_table_procedure_with_source(source, table),
                None => self.start_create_table_procedure(table),
            },
            StreamingJob::Source(source) => self.start_create_source_procedure(source),
        };
        match started {
            Ok(_) => Ok(none),
            Err(e) => Err(e),
        }
    }
}

// ---------------------------------------------------------------------------
// Finishing a job.
// ---------------------------------------------------------------------------

/// The change that a sink makes to the table it writes into.
pub open spec fn sink_replacement(target: TargetTableModel, sink_id: u32) -> Replacement {
    Replacement {
        source: target.source,
        table: target.table,
        mapping: None,
        creating_sink: Some(sink_id),
        dropping_sink: None,
        updated_sinks: Seq::empty(),
    }
}

/// The catalog and the messages after what the job creates is finished.
pub open spec fn relation_finished(
    c: CatalogManagerCoreModel,
    job: StreamingJobModel,
    internal: Seq<TableModel>,
    epoch: u64,
) -> Result<Change, MetaErrorModel> {
    match job {
        StreamingJobModel::MaterializedView(table) => if c.database.tables.contains_key(table.id) {
            Ok(mview_finished(c, internal, table))
        } else {
            Err(MetaErrorModel::RecoveryDroppedTable)
        },
        StreamingJobModel::Sink(sink, target) => {
            let (middle, messages) = sink_finished(c, internal, sink);
            match target {
                Some(target) => {
                    let (after, more) = sink_replacement(target, sink.id).applied(middle);
                    Ok((after, messages + more))
                },
                None => Ok((middle, messages)),
            }
        },
        StreamingJobModel::Table(Some(source), table, _) => Ok(
            table_with_source_finished(c, source, table, internal),
        ),
        StreamingJobModel::Table(None, table, _) => Ok(table_finished(c, internal, table)),
        StreamingJobModel::Index(index, table) => Ok(index_finished(c, internal, index, table)),
        StreamingJobModel::Source(source) => Ok(source_finished(c, source, internal, epoch)),
    }
}

/// What finishing a job presumes.
pub open spec fn relation_finishing_presumes(c: CatalogManagerCoreModel, job: StreamingJobModel, internal: Seq<TableModel>) -> bool {
    match job {
        StreamingJobModel::MaterializedView(table) => mview_finishing_presumes(c, table),
        StreamingJobModel::Sink(sink, target) => {
            &&& !c.database.sinks.contains_key(sink.id)
            &&& c.database.in_progress(sink_key(sink))
            &&& target is Some ==> sink_replacement(target->0, sink.id).presumes(
                sink_finished(c, internal, sink).0,
            )
        },
        StreamingJobModel::Table(Some(source), table, _) => {
            &&& !c.database.sources.contains_key(source.id)
            &&& !c.database.tables.contains_key(table.id)
            &&& c.database.in_progress(source_key(source))
            &&& c.database.in_progress(table_key(table))
        },
        StreamingJobModel::Table(None, table, _) => {
            &&& !c.database.tables.contains_key(table.id)
            &&& c.database.in_progress(table_key(table))
        },
        StreamingJobModel::Index(index, table) => {
            &&& !c.database.indexes.contains_key(index.id)
            &&& c.database.in_progress(index_table_key(index, table))
        },
        StreamingJobModel::Source(source) => {
            &&& !c.database.sources.contains_key(source.id)
            &&& c.database.in_progress(source_key(source))
        },
    }
}

/// The tables of a job that are no longer being created: its internal tables and its own table.
pub open spec fn tables_of_job(job: StreamingJobModel, internal: Seq<TableModel>) -> Seq<u32> {
    let ids = image(internal, table_id());
    match job {
        StreamingJobModel::MaterializedView(table) => ids.push(table.id),
        StreamingJobModel::Table(_, table, _) => ids.push(table.id),
        StreamingJobModel::Index(_, table) => ids.push(table.id),
        _ => ids,
    }
}

/// The identifier under which others wait for the job.
pub open spec fn awaited_id(job: StreamingJobModel) -> u32 {
    match job {
        StreamingJobModel::Index(_, table) => table.id,
        _ => job.id(),
    }
}

/// The catalog, the messages and the awaited identifier after a job is finished.
pub open spec fn job_finished(
    c: CatalogManagerCoreModel,
    job: StreamingJobModel,
    internal: Seq<TableModel>,
    epoch: u64,
    version: Seq<char>,
) -> Result<(CatalogManagerCoreModel, Seq<NotificationModel>, u32), MetaErrorModel> {
    let job = job.stamped(epoch, version);
    match relation_finished(c, job, internal, epoch) {
        Err(e) => Err(e),
        Ok((after, messages)) => Ok(
            (
                CatalogManagerCoreModel {
                    database: DatabaseManagerModel {
                        in_progress_creating_tables:
                            after.database.in_progress_creating_tables.remove_keys(
                            tables_of_job(job, internal).to_set(),
                        ),
                        ..after.database
                    },
                    ..after
                },
                messages,
                awaited_id(job),
            ),
        ),
    }
}

impl CatalogManager {
    fn finish_relation(&mut self, job: StreamingJob, internal_tables: Vec<Table>, epoch: u64) -> (r:
        MetaResult<Vec<Notification>>)
        requires
            relation_finishing_presumes(old(self)@, job@, views(internal_tables@)),
        ensures
            match relation_finished(old(self)@, job@, views(internal_tables@), epoch) {
                Ok((c, messages)) => r is Ok && views(r->Ok_0@) == messages && final(self)@ == c,
                Err(e) => r is Err && r->Err_0@ == e && final(self)@ == old(self)@,
            },
    {
        match job {
            StreamingJob::MaterializedView(table) => {
                self.finish_create_materialized_view_procedure(internal_tables, table)
            },
            StreamingJob::Sink(sink, target) => {
                let sink_id: u32 = sink.id;
                let mut messages = self.finish_create_sink_procedure(internal_tables, sink);
                match target {
                    Some(target) => {
                        let none: Vec<u32> = Vec::new();
                        assert(none@ =~= Seq::<u32>::empty());
                        let more = self.finish_replace_table_procedure(
                            &target.source,
                            &target.table,
                            None,
                            Some(sink_id),
                            None,
                            none,
                        );
                        append_all(&mut messages, more);
                    },
                    None => {},
                }
                Ok(messages)
            },
            StreamingJob::Table(source, table, _) => match source {
                Some(source) => Ok(
                    self.finish_create_table_procedure_with_source(source, table, internal_tables),
                ),
                None => Ok(self.finish_create_table_procedure(internal_tables, table)),
            },
            StreamingJob::Index(index, table) => Ok(
                self.finish_create_index_procedure(internal_tables, index, table),
            ),
            StreamingJob::Source(source) => Ok(
                self.finish_create_source_procedure(source, internal_tables, epoch),
            ),
        }
    }

    /// `finish_stream_job` finishes a stream job and clean some states. It hands out the
    /// identifier under which others wait for the job; once the messages are sent they are to be
    /// told.
    pub fn finish_stream_job(
        &mut self,
        stream_job: StreamingJob,
        internal_tables: Vec<Table>,
        epoch: u64,
        cluster_version: String,
    ) -> (r: MetaResult<(Vec<Notification>, u32)>)
        requires
            relation_finishing_presumes(
                old(self)@,
                stream_job@.stamped(epoch, cluster_version@),
                views(internal_tables@),
            ),
        ensures
            match job_finished(
                old(self)@,
                stream_job@,
                views(internal_tables@),
                epoch,
                cluster_version@,
            ) {
                Ok((c, messages, id)) => {
                    &&& r is Ok
                    &&& views(r->Ok_0.0@) == messages
                    &&& r->Ok_0.1 == id
                    &&& final(self)@ == c
                },
                Err(e) => r is Err && r->Err_0@ == e && final(self)@ == old(self)@,
            },
    {
        let job = stream_job.mark_created(epoch, cluster_version);
        let ghost model = job@;
        let ghost internal = views(internal_tables@);
        let f = |x: &Table| -> (y: u32)
            ensures
                y == x@.id,
        {
            x.id
        };
        let mut ids = copy_map(&internal_tables, f, Ghost(table_id()));
        let awaited: u32 = match &job {
            StreamingJob::MaterializedView(table) => {
                ids.push(table.id);
                table.id
            },
            StreamingJob::Sink(sink, _) => sink.id,
            StreamingJob::Table(_, table, _) => {
                ids.push(table.id);
                table.id
            },
            StreamingJob::Index(_, table) => {
                ids.push(table.id);
                table.id
            },
            StreamingJob::Source(source) => source.id,
        };
        assert(ids@ == tables_of_job(model, internal));
        match self.finish_relation(job, internal_tables, epoch) {
            Ok(messages) => {
                self.unmark_creating_tables(&ids, false);
                Ok((messages, awaited))
            },
            Err(e) => Err(e),
        }
    }
}

// ---------------------------------------------------------------------------
// Subscriptions that were not finished.
// ---------------------------------------------------------------------------

/// The creation of the subscription was started and not finished.
pub open spec fn unfinished() -> spec_fn(SubscriptionModel) -> bool {
    |s: SubscriptionModel| s.subscription_state == SubscriptionState::Init
}

/// The catalog without the subscriptions that were not finished.
pub open spec fn without_unfinished(c: CatalogManagerCoreModel) -> CatalogManagerCoreModel {
    let db = c.database;
    let ids = ids_where(db.subscriptions, unfinished());
    let list = values_at(db.subscriptions, ids);
    CatalogManagerCoreModel {
        database: DatabaseManagerModel {
            subscriptions: db.subscriptions.remove_keys(ids.to_set()),
            in_progress_creation_tracker: db.in_progress_creation_tracker.difference(
                image(list, |s: SubscriptionModel| subscription_key(s)).to_set(),
            ),
            in_progress_creating_streaming_job: db.in_progress_creating_streaming_job.remove_keys(
                ids.to_set(),
            ),
            relation_ref_count: lowered(db.relation_ref_count, subscription_dependencies(list)),
            ..db
        },
        user: UserManagerModel {
            catalog_create_ref_count: lowered(
                c.user.catalog_create_ref_count,
                subscription_owners(list),
            ),
            ..c.user
        },
    }
}

/// What cleaning the subscriptions presumes: each stands at its identifier, and all references
/// that go are counted.
pub open spec fn subscriptions_cleaning_presumes(c: CatalogManagerCoreModel) -> bool {
    let db = c.database;
    let list = values_where(db.subscriptions, unfinished());
    &&& forall|id: u32| #[trigger]
        db.subscriptions.contains_key(id) ==> db.subscriptions[id].id == id
    &&& covers(db.relation_ref_count, subscription_dependencies(list))
    &&& covers(c.user.catalog_create_ref_count, subscription_owners(list))
}

impl CatalogManager {
    pub fn clean_dirty_subscription(&mut self)
        requires
            subscriptions_cleaning_presumes(old(self)@),
        ensures
            final(self)@ == without_unfinished(old(self)@),
    {
        let ghost c = self@;
        let ghost db = c.database;
        let f = |x: &Subscription| -> (b: bool)
            ensures
                b == unfinished()(x@),
        {
            x.subscription_state == SubscriptionState::Init
        };
        let ids = self.core.database.subscriptions.ids_where(f, Ghost(unfinished()));
        proof {
            self.core.database.subscriptions.lemma_finite();
            lemma_ids_where(db.subscriptions, unfinished());
        }
        let list = self.core.database.subscriptions.remove_all(&ids);
        let ghost q = views(list@);
        let ghost keys = image(q, |s: SubscriptionModel| subscription_key(s));
        let ghost middle = self@;
        let mut i: usize = 0;
        proof {
            assert(q.len() == list@.len());
            assert(db.in_progress_creation_tracker =~= db.in_progress_creation_tracker.difference(
                keys.take(0).to_set(),
            ));
            assert(db.in_progress_creating_streaming_job
                =~= db.in_progress_creating_streaming_job.remove_keys(ids@.take(0).to_set()));
        }
        while i < list.len()
            invariant
                i <= list.len(),
                q == views(list@),
                q == values_at(db.subscriptions, ids@),
                all_in(ids@, db.subscriptions),
                keys == image(q, |s: SubscriptionModel| subscription_key(s)),
                list@.len() == ids@.len(),
                forall|id: u32| #[trigger]
                    db.subscriptions.contains_key(id) ==> db.subscriptions[id].id == id,
                middle.database.in_progress_creation_tracker == db.in_progress_creation_tracker,
                middle.database.in_progress_creating_streaming_job
                    == db.in_progress_creating_streaming_job,
                self@ == (CatalogManagerCoreModel {
                    database: DatabaseManagerModel {
                        in_progress_creation_tracker: db.in_progress_creation_tracker.difference(
                            keys.take(i as int).to_set(),
                        ),
                        in_progress_creating_streaming_job:
                            db.in_progress_creating_streaming_job.remove_keys(
                            ids@.take(i as int).to_set(),
                        ),
                        ..middle.database
                    },
                    ..middle
                }),
            decreases list.len() - i,
        {
            proof {
                assert(db.subscriptions.contains_key(ids@[i as int]));
                assert(q[i as int] == list@[i as int]@);
                assert(list@[i as int]@.id == ids@[i as int]);
                assert(keys.take(i + 1) =~= keys.take(i as int).push(keys[i as int]));
                assert(ids@.take(i + 1) =~= ids@.take(i as int).push(ids@[i as int]));
                assert(keys.take(i + 1).to_set() =~= keys.take(i as int).to_set().insert(
                    keys[i as int],
                )) by {
                    broadcast use Seq::lemma_push_to_set_commute;

                }
                assert(ids@.take(i + 1).to_set() =~= ids@.take(i as int).to_set().insert(
                    ids@[i as int],
                )) by {
                    broadcast use Seq::lemma_push_to_set_commute;

                }
            }
            self.core.database.unmark_creating(&list[i].key());
            self.core.database.unmark_creating_streaming_job(list[i].id);
            proof {
                assert(self@.database.in_progress_creation_tracker
                    =~= db.in_progress_creation_tracker.difference(keys.take(i + 1).to_set()));
                assert(self@.database.in_progress_creating_streaming_job
                    =~= db.in_progress_creating_streaming_job.remove_keys(
                    ids@.take(i + 1).to_set(),
                ));
            }
            i = i + 1;
        }
        assert(keys.take(i as int) =~= keys);
        assert(ids@.take(i as int) =~= ids@);
        let dependencies = collect_subscription_dependencies(&list);
        lower_all(&mut self.core.database.relation_ref_count, &dependencies);
        let owners = owners_of_subscriptions(&list);
        lower_all(&mut self.core.user.catalog_create_ref_count, &owners);
        assert(self@ =~= without_unfinished(c));
    }
}

} // verus!
