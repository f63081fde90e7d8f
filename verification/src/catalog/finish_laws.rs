//! What holds once a creation is finished: the relation stands in the catalog as created, it is no
//! longer in progress, and the frontends are told of exactly what stands there.

use vstd::prelude::*;

use crate::catalog::creating::{
    index_key, sink_key, source_key, subscription_key, table_key,
};
use crate::catalog::effects::{
    distinct_by, kept_but, lemma_inserted_at, lemma_inserted_other, stands, tells, told_of,
    told_truly,
};
use crate::catalog::finishing::{
    created_table, created_tables, index_finished, mview_finished, sink_finished, source_finished,
    subscription_finished, table_finished, table_with_source_finished,
};
use crate::catalog::jobs::{
    awaited_id, job_finished, job_is_finished, relation_finished, tables_of_job,
};
use crate::catalog::notify::{Operation, RelationInfoModel, StreamingJobModel};
use crate::catalog::relations::table_infos;
use crate::catalog::rename::table_id;
use crate::catalog::state::{CatalogManagerCoreModel, DatabaseManagerModel};
use crate::catalog::types::{
    IndexModel, SinkModel, SourceModel, StreamJobStatus, SubscriptionModel, SubscriptionState,
    TableModel,
};
use crate::util::id_map::inserted;

verus! {

/// The table stands in the catalog as created, and otherwise as it was given.
pub open spec fn table_stands_created(db: DatabaseManagerModel, given: TableModel) -> bool {
    &&& db.tables.contains_key(given.id)
    &&& db.tables[given.id].stream_job_status == StreamJobStatus::Created
    &&& db.tables[given.id] == (TableModel {
        stream_job_status: db.tables[given.id].stream_job_status,
        ..given
    })
}

/// Every one of the tables stands in the catalog as created, and otherwise as it was given.
pub open spec fn tables_stand_created(db: DatabaseManagerModel, given: Seq<TableModel>) -> bool {
    forall|i: int| 0 <= i < given.len() ==> table_stands_created(db, #[trigger] given[i])
}

/// The identifiers of the tables.
pub open spec fn ids_of(q: Seq<TableModel>) -> Set<u32> {
    Set::new(|x: u32| exists|i: int| 0 <= i < q.len() && (#[trigger] q[i]).id == x)
}

/// The internal tables of a job are tables of their own.
pub open spec fn own_tables(id: u32, internal: Seq<TableModel>) -> bool {
    &&& distinct_by(internal, table_id())
    &&& forall|i: int| 0 <= i < internal.len() ==> (#[trigger] internal[i]).id != id
}

proof fn lemma_internal_stand(m: Map<u32, TableModel>, internal: Seq<TableModel>, db: DatabaseManagerModel)
    requires
        distinct_by(internal, table_id()),
        db.tables == inserted(m, created_tables(internal), table_id()),
    ensures
        tables_stand_created(db, internal),
        kept_but(m, db.tables, ids_of(internal)),
        forall|i: int|
            0 <= i < internal.len() ==> stands(db, #[trigger] table_infos(created_tables(internal))[i]),
{
    let q = created_tables(internal);
    let p = table_id();
    assert forall|i: int| 0 <= i < internal.len() implies stands(db, #[trigger] table_infos(q)[i])
        && db.tables.contains_key(internal[i].id) && db.tables[internal[i].id] == q[i] by {
        assert forall|j: int| i < j < q.len() implies p(#[trigger] q[j]) != p(q[i]) by {
            assert(p(internal[i]) != p(internal[j]));
        }
        lemma_inserted_at(m, q, p, i);
        assert(q[i].id == internal[i].id);
    }
    assert forall|i: int| 0 <= i < internal.len() implies table_stands_created(
        db,
        #[trigger] internal[i],
    ) by {
        assert(stands(db, table_infos(q)[i]));
    }
    assert forall|x: u32| !ids_of(internal).contains(x) implies {
        &&& (#[trigger] db.tables.contains_key(x) <==> m.contains_key(x))
        &&& m.contains_key(x) ==> db.tables[x] == m[x]
    } by {
        assert forall|i: int| 0 <= i < q.len() implies p(#[trigger] q[i]) != x by {
            assert(internal[i].id != x);
        }
        lemma_inserted_other(m, q, p, x);
    }
}

/// A table of the map that the internal tables leave alone.
proof fn lemma_own_table(m: Map<u32, TableModel>, internal: Seq<TableModel>, id: u32)
    requires
        own_tables(id, internal),
        m.contains_key(id),
    ensures
        inserted(m, created_tables(internal), table_id()).contains_key(id),
        inserted(m, created_tables(internal), table_id())[id] == m[id],
{
    let q = created_tables(internal);
    assert forall|i: int| 0 <= i < q.len() implies table_id()(#[trigger] q[i]) != id by {
        assert(internal[i].id != id);
    }
    lemma_inserted_other(m, q, table_id(), id);
}

/// A materialized view whose creation is finished stands in the catalog as created, whatever status
/// it was given with, and so do its internal tables; the frontends are told of the view as it stands.
/// Nothing else changes.
pub proof fn law_finished_mview_stands_created(
    c: CatalogManagerCoreModel,
    internal: Seq<TableModel>,
    table: TableModel,
)
    requires
        own_tables(table.id, internal),
    ensures
        ({
            let (after, messages) = mview_finished(c, internal, table);
            let db = after.database;
            &&& table_stands_created(db, table)
            &&& tables_stand_created(db, internal)
            &&& job_is_finished(db, StreamingJobModel::MaterializedView(table)) == Ok::<
                bool,
                crate::catalog::error::MetaErrorModel,
            >(true)
            &&& told_truly(db, messages, Operation::Update)
            &&& tells(messages, RelationInfoModel::Table(db.tables[table.id]))
            &&& told_of(messages).len() == 1 + internal.len()
            &&& kept_but(c.database.tables, db.tables, ids_of(internal).insert(table.id))
            &&& db == (DatabaseManagerModel { tables: db.tables, ..c.database })
            &&& after.user == c.user
        }),
{
    let (after, messages) = mview_finished(c, internal, table);
    let db = after.database;
    let m = c.database.tables.insert(table.id, created_table()(table));
    lemma_internal_stand(m, internal, db);
    lemma_own_table(m, internal, table.id);
    let told = told_of(messages);
    assert(told[0] == RelationInfoModel::Table(db.tables[table.id]));
    assert(told.skip(1) =~= table_infos(created_tables(internal)));
    lemma_told_tail(db, told, 1, internal);
}

/// What is told of the internal tables stands.
proof fn lemma_told_tail(
    db: DatabaseManagerModel,
    told: Seq<RelationInfoModel>,
    n: int,
    internal: Seq<TableModel>,
)
    requires
        0 <= n <= told.len(),
        told.skip(n) == table_infos(created_tables(internal)),
        forall|i: int|
            0 <= i < internal.len() ==> stands(db, #[trigger] table_infos(created_tables(internal))[i]),
        forall|i: int| 0 <= i < n ==> stands(db, #[trigger] told[i]),
    ensures
        forall|k: int| 0 <= k < told.len() ==> stands(db, #[trigger] told[k]),
        told.len() == n + internal.len(),
{
    let q = table_infos(created_tables(internal));
    assert(q.len() == internal.len());
    assert forall|k: int| 0 <= k < told.len() implies stands(db, #[trigger] told[k]) by {
        if k >= n {
            assert(told.skip(n)[k - n] == q[k - n]);
        }
    }
}

/// A table whose creation is finished stands in the catalog as created, and so do its internal
/// tables; it is no longer in progress, and the frontends are told of it. Nothing else changes.
pub proof fn law_finished_table_stands_created(
    c: CatalogManagerCoreModel,
    internal: Seq<TableModel>,
    table: TableModel,
)
    requires
        own_tables(table.id, internal),
    ensures
        ({
            let (after, messages) = table_finished(c, internal, table);
            let db = after.database;
            &&& table_stands_created(db, table)
            &&& tables_stand_created(db, internal)
            &&& !db.in_progress(table_key(table))
            &&& forall|k| k != table_key(table) ==> #[trigger] db.in_progress(k) == c.database.in_progress(k)
            &&& !db.in_progress_creating_streaming_job.contains_key(table.id)
            &&& kept_but(
                c.database.in_progress_creating_streaming_job,
                db.in_progress_creating_streaming_job,
                set![table.id],
            )
            &&& job_is_finished(
                db,
                StreamingJobModel::Table(None, table, crate::catalog::types::TableJobType::General),
            ) == Ok::<bool, crate::catalog::error::MetaErrorModel>(true)
            &&& told_truly(db, messages, Operation::Add)
            &&& tells(messages, RelationInfoModel::Table(db.tables[table.id]))
            &&& told_of(messages).len() == 1 + internal.len()
            &&& kept_but(c.database.tables, db.tables, ids_of(internal).insert(table.id))
            &&& db == (DatabaseManagerModel {
                tables: db.tables,
                in_progress_creation_tracker: db.in_progress_creation_tracker,
                in_progress_creating_streaming_job: db.in_progress_creating_streaming_job,
                ..c.database
            })
            &&& after.user == c.user
        }),
{
    let (after, messages) = table_finished(c, internal, table);
    let db = after.database;
    let m = c.database.tables.insert(table.id, created_table()(table));
    lemma_internal_stand(m, internal, db);
    lemma_own_table(m, internal, table.id);
    let told = told_of(messages);
    assert(told[0] == RelationInfoModel::Table(db.tables[table.id]));
    assert(told.skip(1) =~= table_infos(created_tables(internal)));
    lemma_told_tail(db, told, 1, internal);
}

/// A source whose creation is finished stands in the catalog with the epoch of its creation, and its
/// internal tables as created; it is no longer in progress, and the frontends are told of it. Nothing
/// else changes.
pub proof fn law_finished_source_stands(
    c: CatalogManagerCoreModel,
    source: SourceModel,
    internal: Seq<TableModel>,
    epoch: u64,
)
    requires
        distinct_by(internal, table_id()),
    ensures
        ({
            let (after, messages) = source_finished(c, source, internal, epoch);
            let db = after.database;
            &&& db.sources.contains_key(source.id)
            &&& db.sources[source.id].created_at_epoch == Some(epoch)
            &&& db.sources[source.id] == (SourceModel {
                created_at_epoch: db.sources[source.id].created_at_epoch,
                ..source
            })
            &&& tables_stand_created(db, internal)
            &&& !db.in_progress(source_key(source))
            &&& forall|k| k != source_key(source) ==> #[trigger] db.in_progress(k) == c.database.in_progress(k)
            &&& job_is_finished(db, StreamingJobModel::Source(source)) == Ok::<
                bool,
                crate::catalog::error::MetaErrorModel,
            >(true)
            &&& told_truly(db, messages, Operation::Add)
            &&& tells(messages, RelationInfoModel::Source(db.sources[source.id]))
            &&& told_of(messages).len() == 1 + internal.len()
            &&& kept_but(c.database.sources, db.sources, set![source.id])
            &&& kept_but(c.database.tables, db.tables, ids_of(internal))
            &&& db == (DatabaseManagerModel {
                sources: db.sources,
                tables: db.tables,
                in_progress_creation_tracker: db.in_progress_creation_tracker,
                ..c.database
            })
            &&& after.user == c.user
        }),
{
    let (after, messages) = source_finished(c, source, internal, epoch);
    let db = after.database;
    lemma_internal_stand(c.database.tables, internal, db);
    let told = told_of(messages);
    assert(told[0] == RelationInfoModel::Source(db.sources[source.id]));
    assert(told.skip(1) =~= table_infos(created_tables(internal)));
    lemma_told_tail(db, told, 1, internal);
}

/// A table with its source, once their creation is finished: both stand in the catalog, the table as
/// created and the source as given, neither is in progress, and the frontends are told of both.
/// Nothing else changes.
pub proof fn law_finished_table_with_source_stands(
    c: CatalogManagerCoreModel,
    source: SourceModel,
    table: TableModel,
    internal: Seq<TableModel>,
)
    requires
        own_tables(table.id, internal),
    ensures
        ({
            let (after, messages) = table_with_source_finished(c, source, table, internal);
            let db = after.database;
            &&& table_stands_created(db, table)
            &&& tables_stand_created(db, internal)
            &&& db.sources.contains_key(source.id)
            &&& db.sources[source.id] == source
            &&& !db.in_progress(source_key(source))
            &&& !db.in_progress(table_key(table))
            &&& forall|k|
                k != table_key(table) && k != source_key(source) ==> #[trigger] db.in_progress(k)
                    == c.database.in_progress(k)
            &&& !db.in_progress_creating_streaming_job.contains_key(table.id)
            &&& kept_but(
                c.database.in_progress_creating_streaming_job,
                db.in_progress_creating_streaming_job,
                set![table.id],
            )
            &&& told_truly(db, messages, Operation::Add)
            &&& tells(messages, RelationInfoModel::Table(db.tables[table.id]))
            &&& tells(messages, RelationInfoModel::Source(source))
            &&& told_of(messages).len() == 2 + internal.len()
            &&& kept_but(c.database.sources, db.sources, set![source.id])
            &&& kept_but(c.database.tables, db.tables, ids_of(internal).insert(table.id))
            &&& db == (DatabaseManagerModel {
                sources: db.sources,
                tables: db.tables,
                in_progress_creation_tracker: db.in_progress_creation_tracker,
                in_progress_creating_streaming_job: db.in_progress_creating_streaming_job,
                ..c.database
            })
            &&& after.user == c.user
        }),
{
    let (after, messages) = table_with_source_finished(c, source, table, internal);
    let db = after.database;
    let m = c.database.tables.insert(table.id, created_table()(table));
    lemma_internal_stand(m, internal, db);
    lemma_own_table(m, internal, table.id);
    let told = told_of(messages);
    assert(told[0] == RelationInfoModel::Table(db.tables[table.id]));
    assert(told[1] == RelationInfoModel::Source(source));
    assert(told.skip(2) =~= table_infos(created_tables(internal)));
    lemma_told_tail(db, told, 2, internal);
}

/// An index whose creation is finished stands in the catalog as created, and so do its table and the
/// internal ones; its name in the schema of its table is no longer in progress, and the frontends are
/// told of both. Nothing else changes.
pub proof fn law_finished_index_stands_created(
    c: CatalogManagerCoreModel,
    internal: Seq<TableModel>,
    index: IndexModel,
    table: TableModel,
)
    requires
        own_tables(table.id, internal),
    ensures
        ({
            let (after, messages) = index_finished(c, internal, index, table);
            let db = after.database;
            let key = crate::catalog::types::RelationKeyModel {
                database_id: table.database_id,
                schema_id: table.schema_id,
                name: index.name,
            };
            &&& table_stands_created(db, table)
            &&& tables_stand_created(db, internal)
            &&& db.indexes.contains_key(index.id)
            &&& db.indexes[index.id].stream_job_status == StreamJobStatus::Created
            &&& db.indexes[index.id] == (IndexModel {
                stream_job_status: db.indexes[index.id].stream_job_status,
                ..index
            })
            &&& !db.in_progress(key)
            &&& forall|k| k != key ==> #[trigger] db.in_progress(k) == c.database.in_progress(k)
            &&& !db.in_progress_creating_streaming_job.contains_key(table.id)
            &&& kept_but(
                c.database.in_progress_creating_streaming_job,
                db.in_progress_creating_streaming_job,
                set![table.id],
            )
            &&& job_is_finished(db, StreamingJobModel::Index(index, table)) == Ok::<
                bool,
                crate::catalog::error::MetaErrorModel,
            >(true)
            &&& told_truly(db, messages, Operation::Add)
            &&& tells(messages, RelationInfoModel::Table(db.tables[table.id]))
            &&& tells(messages, RelationInfoModel::Index(db.indexes[index.id]))
            &&& told_of(messages).len() == 2 + internal.len()
            &&& kept_but(c.database.indexes, db.indexes, set![index.id])
            &&& kept_but(c.database.tables, db.tables, ids_of(internal).insert(table.id))
            &&& db == (DatabaseManagerModel {
                indexes: db.indexes,
                tables: db.tables,
                in_progress_creation_tracker: db.in_progress_creation_tracker,
                in_progress_creating_streaming_job: db.in_progress_creating_streaming_job,
                ..c.database
            })
            &&& after.user == c.user
        }),
{
    let (after, messages) = index_finished(c, internal, index, table);
    let db = after.database;
    let m = c.database.tables.insert(table.id, created_table()(table));
    lemma_internal_stand(m, internal, db);
    lemma_own_table(m, internal, table.id);
    let told = told_of(messages);
    assert(told[0] == RelationInfoModel::Table(db.tables[table.id]));
    assert(told[1] == RelationInfoModel::Index(db.indexes[index.id]));
    assert(told.skip(2) =~= table_infos(created_tables(internal)));
    lemma_told_tail(db, told, 2, internal);
}

/// A sink whose creation is finished stands in the catalog as created, and so do its internal
/// tables; it is no longer in progress, and the frontends are told of it. Nothing else changes.
pub proof fn law_finished_sink_stands_created(
    c: CatalogManagerCoreModel,
    internal: Seq<TableModel>,
    sink: SinkModel,
)
    requires
        distinct_by(internal, table_id()),
    ensures
        ({
            let (after, messages) = sink_finished(c, internal, sink);
            let db = after.database;
            &&& db.sinks.contains_key(sink.id)
            &&& db.sinks[sink.id].stream_job_status == StreamJobStatus::Created
            &&& db.sinks[sink.id] == (SinkModel {
                stream_job_status: db.sinks[sink.id].stream_job_status,
                ..sink
            })
            &&& tables_stand_created(db, internal)
            &&& !db.in_progress(sink_key(sink))
            &&& forall|k| k != sink_key(sink) ==> #[trigger] db.in_progress(k) == c.database.in_progress(k)
            &&& !db.in_progress_creating_streaming_job.contains_key(sink.id)
            &&& kept_but(
                c.database.in_progress_creating_streaming_job,
                db.in_progress_creating_streaming_job,
                set![sink.id],
            )
            &&& job_is_finished(db, StreamingJobModel::Sink(sink, None)) == Ok::<
                bool,
                crate::catalog::error::MetaErrorModel,
            >(true)
            &&& told_truly(db, messages, Operation::Add)
            &&& tells(messages, RelationInfoModel::Sink(db.sinks[sink.id]))
            &&& told_of(messages).len() == 1 + internal.len()
            &&& kept_but(c.database.sinks, db.sinks, set![sink.id])
            &&& kept_but(c.database.tables, db.tables, ids_of(internal))
            &&& db == (DatabaseManagerModel {
                sinks: db.sinks,
                tables: db.tables,
                in_progress_creation_tracker: db.in_progress_creation_tracker,
                in_progress_creating_streaming_job: db.in_progress_creating_streaming_job,
                ..c.database
            })
            &&& after.user == c.user
        }),
{
    let (after, messages) = sink_finished(c, internal, sink);
    let db = after.database;
    lemma_internal_stand(c.database.tables, internal, db);
    let told = told_of(messages);
    assert(told[0] == RelationInfoModel::Sink(db.sinks[sink.id]));
    assert(told.skip(1) =~= table_infos(created_tables(internal)));
    lemma_told_tail(db, told, 1, internal);
}

/// A subscription whose creation is finished stands in the catalog as created, with the epoch and
/// the version of the cluster; it is no longer in progress. Nothing else changes.
pub proof fn law_finished_subscription_stands_created(
    c: CatalogManagerCoreModel,
    id: u32,
    epoch: u64,
    version: Seq<char>,
)
    requires
        c.database.subscriptions.contains_key(id),
        c.database.subscriptions[id].id == id,
    ensures
        ({
            let given = c.database.subscriptions[id];
            let after = subscription_finished(c, id, epoch, version);
            let db = after.database;
            let s = db.subscriptions[id];
            &&& db.subscriptions.contains_key(id)
            &&& s.subscription_state == SubscriptionState::Created
            &&& s.created_at_epoch == Some(epoch)
            &&& s.created_at_cluster_version == Some(version)
            &&& s == (SubscriptionModel {
                subscription_state: s.subscription_state,
                created_at_epoch: s.created_at_epoch,
                created_at_cluster_version: s.created_at_cluster_version,
                ..given
            })
            &&& !db.in_progress(subscription_key(given))
            &&& forall|k|
                k != subscription_key(given) ==> #[trigger] db.in_progress(k) == c.database.in_progress(
                    k,
                )
            &&& !db.in_progress_creating_streaming_job.contains_key(id)
            &&& kept_but(
                c.database.in_progress_creating_streaming_job,
                db.in_progress_creating_streaming_job,
                set![id],
            )
            &&& kept_but(c.database.subscriptions, db.subscriptions, set![id])
            &&& db == (DatabaseManagerModel {
                subscriptions: db.subscriptions,
                in_progress_creation_tracker: db.in_progress_creation_tracker,
                in_progress_creating_streaming_job: db.in_progress_creating_streaming_job,
                ..c.database
            })
            &&& after.user == c.user
        }),
{
}

/// The name of a relation is the one under which its creation is noted, together with its database
/// and its schema.
pub proof fn law_names_of_relations(
    table: TableModel,
    source: SourceModel,
    sink: SinkModel,
    index: IndexModel,
    subscription: SubscriptionModel,
)
    ensures
        table_key(table).database_id == table.database_id,
        table_key(table).schema_id == table.schema_id,
        table_key(table).name == table.name,
        source_key(source).database_id == source.database_id,
        source_key(source).schema_id == source.schema_id,
        source_key(source).name == source.name,
        sink_key(sink).database_id == sink.database_id,
        sink_key(sink).schema_id == sink.schema_id,
        sink_key(sink).name == sink.name,
        index_key(index).database_id == index.database_id,
        index_key(index).schema_id == index.schema_id,
        index_key(index).name == index.name,
        subscription_key(subscription).database_id == subscription.database_id,
        subscription_key(subscription).schema_id == subscription.schema_id,
        subscription_key(subscription).name == subscription.name,
{
}

// ---------------------------------------------------------------------------
// Jobs.
// ---------------------------------------------------------------------------

/// A finished job carries the epoch and the version of the cluster with which it was finished;
/// nothing else of it changes.
pub proof fn law_finished_job_is_stamped(job: StreamingJobModel, epoch: u64, version: Seq<char>)
    ensures
        ({
            let r = job.stamped(epoch, version);
            &&& r.id() == job.id()
            &&& r.name() == job.name()
            &&& r.kind() == job.kind()
            &&& match job {
                StreamingJobModel::MaterializedView(t) => r is MaterializedView && r->MaterializedView_0
                    == (TableModel {
                    created_at_epoch: Some(epoch),
                    created_at_cluster_version: Some(version),
                    ..t
                }),
                StreamingJobModel::Sink(s, target) => r is Sink && r->Sink_0 == (SinkModel {
                    created_at_epoch: Some(epoch),
                    created_at_cluster_version: Some(version),
                    ..s
                }) && r->Sink_1 == target,
                StreamingJobModel::Table(s, t, kind) => {
                    &&& r is Table
                    &&& r->Table_1 == (TableModel {
                        created_at_epoch: Some(epoch),
                        created_at_cluster_version: Some(version),
                        ..t
                    })
                    &&& r->Table_2 == kind
                    &&& r->Table_0 is Some <==> s is Some
                    &&& s is Some ==> r->Table_0->0 == (SourceModel {
                        created_at_epoch: Some(epoch),
                        created_at_cluster_version: Some(version),
                        ..s->0
                    })
                },
                StreamingJobModel::Index(i, t) => r is Index && r->Index_0 == (IndexModel {
                    created_at_epoch: Some(epoch),
                    created_at_cluster_version: Some(version),
                    ..i
                }) && r->Index_1 == t,
                StreamingJobModel::Source(s) => r is Source && r->Source_0 == (SourceModel {
                    created_at_epoch: Some(epoch),
                    created_at_cluster_version: Some(version),
                    ..s
                }),
            }
        }),
{
}

/// The identifier, the name and the kind of a job are those of what it creates.
pub proof fn law_job_is_known_by_what_it_creates(job: StreamingJobModel)
    ensures
        job is MaterializedView ==> job.id() == job->MaterializedView_0.id && job.name()
            == job->MaterializedView_0.name && job.kind()
            == crate::catalog::error::CatalogKind::MaterializedView,
        job is Sink ==> job.id() == job->Sink_0.id && job.name() == job->Sink_0.name && job.kind()
            == crate::catalog::error::CatalogKind::Sink,
        job is Table ==> job.id() == job->Table_1.id && job.name() == job->Table_1.name && job.kind()
            == crate::catalog::error::CatalogKind::Table,
        job is Index ==> job.id() == job->Index_0.id && job.name() == job->Index_0.name && job.kind()
            == crate::catalog::error::CatalogKind::Index,
        job is Source ==> job.id() == job->Source_0.id && job.name() == job->Source_0.name
            && job.kind() == crate::catalog::error::CatalogKind::Source,
        awaited_id(job) == if job is Index {
            job->Index_1.id
        } else {
            job.id()
        },
{
}

/// The table that a job creates, where it creates one.
pub open spec fn main_table(job: StreamingJobModel) -> Option<TableModel> {
    match job {
        StreamingJobModel::MaterializedView(t) => Some(t),
        StreamingJobModel::Table(_, t, _) => Some(t),
        StreamingJobModel::Index(_, t) => Some(t),
        _ => None,
    }
}

/// Once a job without a target is finished, it is known as finished; its tables are no longer being
/// created, and those of other jobs still are.
pub proof fn law_finished_job_is_finished(
    c: CatalogManagerCoreModel,
    job: StreamingJobModel,
    internal: Seq<TableModel>,
    epoch: u64,
    version: Seq<char>,
)
    requires
        distinct_by(internal, table_id()),
        main_table(job) is Some ==> own_tables(main_table(job)->0.id, internal),
        job is Sink ==> job->Sink_1 is None,
    ensures
        match job_finished(c, job, internal, epoch, version) {
            Ok((after, messages, waiting)) => {
                let db = after.database;
                &&& job_is_finished(db, job) == Ok::<bool, crate::catalog::error::MetaErrorModel>(true)
                &&& waiting == awaited_id(job)
                &&& forall|i: int|
                    0 <= i < internal.len() ==> !db.in_progress_creating_tables.contains_key(
                        (#[trigger] internal[i]).id,
                    )
                &&& main_table(job) is Some ==> !db.in_progress_creating_tables.contains_key(
                    main_table(job)->0.id,
                )
                &&& forall|x: u32|
                    !ids_of(internal).contains(x) && (main_table(job) is Some ==> x != main_table(
                        job,
                    )->0.id) ==> {
                        &&& (#[trigger] db.in_progress_creating_tables.contains_key(x)
                            <==> c.database.in_progress_creating_tables.contains_key(x))
                        &&& c.database.in_progress_creating_tables.contains_key(x)
                            ==> db.in_progress_creating_tables[x]
                            == c.database.in_progress_creating_tables[x]
                    }
                &&& tables_stand_created(db, internal)
                &&& told_truly(db, messages, if job is MaterializedView {
                    Operation::Update
                } else {
                    Operation::Add
                })
                &&& after.user == c.user
            },
            Err(e) => job is MaterializedView && !c.database.tables.contains_key(job.id()) && e
                is RecoveryDroppedTable,
        },
{
    let stamped = job.stamped(epoch, version);
    match stamped {
        StreamingJobModel::MaterializedView(t) => {
            law_finished_mview_stands_created(c, internal, t);
        },
        StreamingJobModel::Sink(s, _) => {
            law_finished_sink_stands_created(c, internal, s);
        },
        StreamingJobModel::Table(Some(s), t, _) => {
            law_finished_table_with_source_stands(c, s, t, internal);
        },
        StreamingJobModel::Table(None, t, _) => {
            law_finished_table_stands_created(c, internal, t);
        },
        StreamingJobModel::Index(i, t) => {
            law_finished_index_stands_created(c, internal, i, t);
        },
        StreamingJobModel::Source(s) => {
            law_finished_source_stands(c, s, internal, epoch);
        },
    }
    match job_finished(c, job, internal, epoch, version) {
        Ok((after, messages, waiting)) => {
            let mid = relation_finished(c, stamped, internal, epoch)->Ok_0.0;
            let ids = tables_of_job(stamped, internal);
            let short = crate::util::lists::image(internal, table_id());
            assert forall|i: int| 0 <= i < internal.len() implies ids.contains(
                (#[trigger] internal[i]).id,
            ) by {
                assert(ids[i] == internal[i].id);
            }
            if main_table(job) is Some {
                assert(ids[internal.len() as int] == main_table(job)->0.id);
            }
            assert forall|x: u32|
                !ids_of(internal).contains(x) && (main_table(job) is Some ==> x != main_table(
                    job,
                )->0.id) implies !#[trigger] ids.to_set().contains(x) by {
                if ids.contains(x) {
                    let k = choose|k: int| 0 <= k < ids.len() && ids[k] == x;
                    if k < internal.len() {
                        assert(internal[k].id == x);
                    }
                }
            }
            assert(after.database.tables == mid.database.tables);
            assert(tables_stand_created(mid.database, internal));
            assert forall|i: int| 0 <= i < internal.len() implies table_stands_created(
                after.database,
                #[trigger] internal[i],
            ) by {
                assert(table_stands_created(mid.database, internal[i]));
            }
            assert forall|k: int| 0 <= k < told_of(messages).len() implies stands(
                after.database,
                #[trigger] told_of(messages)[k],
            ) by {
                assert(stands(mid.database, told_of(messages)[k]));
            }
        },
        Err(_) => {},
    }
}

} // verus!
