//! Finishing the creation of relations, and replacing tables.

use vstd::prelude::*;

use crate::catalog::creating::{
    being_replaced, ends_at, group_tables, one_message, replacing_cancelled, sink_key, source_key,
    subscription_key, table_key, Step,
};
use crate::catalog::database::refusal;
use crate::catalog::drop::indexes_of;
use crate::catalog::error::{CatalogKind, MetaError, MetaErrorModel, MetaResult};
use crate::catalog::manager::CatalogManager;
use crate::catalog::notify::{
    Notification, NotificationModel, Operation, RelationInfo, RelationInfoModel, StreamingJob,
};
use crate::catalog::relations::{
    frontend_relations, index_infos, indexes_to_infos, sink_infos, sinks_to_infos, source_infos,
    sources_to_infos, table_infos, tables_to_infos,
};
use crate::catalog::rename::table_id;
use crate::catalog::state::{CatalogManagerCoreModel, DatabaseManagerModel};
use crate::catalog::types::{
    ColumnCatalogModel, CreateType, Index, IndexItem, IndexItemModel, IndexModel, RelationKey,
    RelationKeyModel, Sink, SinkModel, Source, SourceModel, StreamJobStatus, Subscription,
    SubscriptionModel, SubscriptionState, Table, TableJobType, TableModel,
};
use crate::util::id_map::{
    all_in, duplicate_all, inserted, opt_view, updated_at, values_at, views, Entry, IdMap,
};
use crate::util::lists::{append_all, image, map_all};

verus! {

/// A table whose job is finished.
pub open spec fn created_table() -> spec_fn(TableModel) -> TableModel {
    |t: TableModel| TableModel { stream_job_status: StreamJobStatus::Created, ..t }
}

/// Tables whose jobs are finished.
pub open spec fn created_tables(q: Seq<TableModel>) -> Seq<TableModel> {
    image(q, created_table())
}

fn mark_created_tables(v: &Vec<Table>) -> (r: Vec<Table>)
    ensures
        views(r@) == created_tables(views(v@)),
{
    let f = |t: &Table| -> (y: Table)
        ensures
            y@ == created_table()(t@),
    {
        let mut y = t.duplicate();
        y.stream_job_status = StreamJobStatus::Created;
        y
    };
    map_all(v, f, Ghost(created_table()))
}

/// The catalog and the messages.
pub type Change = (CatalogManagerCoreModel, Seq<NotificationModel>);

// ---------------------------------------------------------------------------
// Tables and materialized views.
// ---------------------------------------------------------------------------

/// A table is created: it stands in the catalog with its internal tables.
pub open spec fn table_finished(c: CatalogManagerCoreModel, internal: Seq<TableModel>, table: TableModel) -> Change {
    let new = created_table()(table);
    let db = c.database.unmarked(table_key(table)).job_unmarked(table.id);
    (
        CatalogManagerCoreModel {
            database: DatabaseManagerModel {
                tables: inserted(
                    db.tables.insert(table.id, new),
                    created_tables(internal),
                    table_id(),
                ),
                ..db
            },
            ..c
        },
        seq![
            frontend_relations(
                Operation::Add,
                seq![RelationInfoModel::Table(new)] + table_infos(created_tables(internal)),
            ),
        ],
    )
}

/// A materialized view is created.
pub open spec fn mview_finished(c: CatalogManagerCoreModel, internal: Seq<TableModel>, table: TableModel) -> Change {
    let new = created_table()(table);
    (
        CatalogManagerCoreModel {
            database: DatabaseManagerModel {
                tables: inserted(
                    c.database.tables.insert(table.id, new),
                    created_tables(internal),
                    table_id(),
                ),
                ..c.database
            },
            ..c
        },
        seq![
            frontend_relations(
                Operation::Update,
                seq![RelationInfoModel::Table(new)] + table_infos(created_tables(internal)),
            ),
        ],
    )
}

/// A materialized view that is finished is being created, or it was created in the foreground and
/// cleaned up in between.
pub open spec fn mview_finishing_presumes(c: CatalogManagerCoreModel, table: TableModel) -> bool {
    if c.database.tables.contains_key(table.id) {
        c.database.tables[table.id].stream_job_status == StreamJobStatus::Creating
    } else {
        table.create_type == CreateType::Foreground
    }
}

impl CatalogManager {
    /// This is used for `CREATE TABLE`.
    pub fn finish_create_table_procedure(&mut self, internal_tables: Vec<Table>, table: Table) -> (r:
        Vec<Notification>)
        requires
            !old(self)@.database.tables.contains_key(table@.id),
            old(self)@.database.in_progress(table_key(table@)),
        ensures
            (final(self)@, views(r@)) == table_finished(old(self)@, views(internal_tables@), table@),
    {
        let mut table = table;
        self.core.database.unmark_creating(&table.key());
        self.core.database.unmark_creating_streaming_job(table.id);
        table.stream_job_status = StreamJobStatus::Created;
        let internal = mark_created_tables(&internal_tables);
        self.core.database.tables.insert(table.id, table.duplicate());
        self.core.database.insert_tables(&internal);
        let relations = group_tables(RelationInfo::Table(table), &internal);
        one_message(Self::notify_frontend_relations(Operation::Add, relations))
    }

    /// Checks that a materialized view was not cleaned up while it was created.
    pub fn check_table_creating(tables: &IdMap<Table>, table: &Table) -> (r: MetaResult<()>)
        requires
            if tables@.contains_key(table@.id) {
                tables@[table@.id].stream_job_status == StreamJobStatus::Creating
            } else {
                table@.create_type == CreateType::Foreground
            },
        ensures
            refusal(r) == if tables@.contains_key(table@.id) {
                None
            } else {
                Some(MetaErrorModel::RecoveryDroppedTable)
            },
    {
        if tables.contains_key(table.id) {
            Ok(())
        } else {
            Err(MetaError::RecoveryDroppedTable)
        }
    }

    /// This is used for `CREATE MATERIALIZED VIEW`.
    pub fn finish_create_materialized_view_procedure(
        &mut self,
        internal_tables: Vec<Table>,
        table: Table,
    ) -> (r: MetaResult<Vec<Notification>>)
        requires
            mview_finishing_presumes(old(self)@, table@),
        ensures
            if old(self)@.database.tables.contains_key(table@.id) {
                r is Ok && (final(self)@, views(r->Ok_0@)) == mview_finished(
                    old(self)@,
                    views(internal_tables@),
                    table@,
                )
            } else {
                r is Err && r->Err_0@ == MetaErrorModel::RecoveryDroppedTable && final(self)@
                    == old(self)@
            },
    {
        match Self::check_table_creating(&self.core.database.tables, &table) {
            Err(e) => {
                return Err(e);
            },
            Ok(_) => {},
        }
        let mut table = table;
        table.stream_job_status = StreamJobStatus::Created;
        let internal = mark_created_tables(&internal_tables);
        self.core.database.tables.insert(table.id, table.duplicate());
        self.core.database.insert_tables(&internal);
        let relations = group_tables(RelationInfo::Table(table), &internal);
        Ok(one_message(Self::notify_frontend_relations(Operation::Update, relations)))
    }

    pub fn assert_tables_deleted(&self, table_ids: &Vec<u32>) -> (r: bool)
        ensures
            r == forall|i: int|
                0 <= i < table_ids@.len() ==> !self@.database.tables.contains_key(
                    #[trigger] table_ids@[i],
                ),
    {
        let mut i: usize = 0;
        while i < table_ids.len()
            invariant
                i <= table_ids.len(),
                forall|k: int|
                    0 <= k < i ==> !self@.database.tables.contains_key(#[trigger] table_ids@[k]),
            decreases table_ids.len() - i,
        {
            if self.core.database.tables.contains_key(table_ids[i]) {
                assert(self@.database.tables.contains_key(table_ids@[i as int]));
                return false;
            }
            i = i + 1;
        }
        true
    }
}

// ---------------------------------------------------------------------------
// Sources.
// ---------------------------------------------------------------------------

/// A source is created; `epoch` is the time.
pub open spec fn source_finished(c: CatalogManagerCoreModel, source: SourceModel, internal: Seq<TableModel>, epoch: u64) -> Change {
    let new = SourceModel { created_at_epoch: Some(epoch), ..source };
    let db = c.database.unmarked(source_key(source));
    (
        CatalogManagerCoreModel {
            database: DatabaseManagerModel {
                sources: db.sources.insert(source.id, new),
                tables: inserted(db.tables, created_tables(internal), table_id()),
                ..db
            },
            ..c
        },
        seq![
            frontend_relations(
                Operation::Add,
                seq![RelationInfoModel::Source(new)] + table_infos(created_tables(internal)),
            ),
        ],
    )
}

/// A table is created with its source.
pub open spec fn table_with_source_finished(
    c: CatalogManagerCoreModel,
    source: SourceModel,
    table: TableModel,
    internal: Seq<TableModel>,
) -> Change {
    let new = created_table()(table);
    let db = c.database.unmarked(source_key(source)).unmarked(table_key(table)).job_unmarked(
        table.id,
    );
    (
        CatalogManagerCoreModel {
            database: DatabaseManagerModel {
                sources: db.sources.insert(source.id, source),
                tables: inserted(
                    db.tables.insert(table.id, new),
                    created_tables(internal),
                    table_id(),
                ),
                ..db
            },
            ..c
        },
        seq![
            frontend_relations(
                Operation::Add,
                seq![RelationInfoModel::Table(new), RelationInfoModel::Source(source)]
                    + table_infos(created_tables(internal)),
            ),
        ],
    )
}

/// Two relations and then tables, as relations.
fn group_two(first: RelationInfo, second: RelationInfo, tables: &Vec<Table>) -> (r: Vec<
    RelationInfo,
>)
    ensures
        views(r@) == seq![first@, second@] + table_infos(views(tables@)),
{
    let mut r: Vec<RelationInfo> = Vec::new();
    r.push(first);
    r.push(second);
    assert(views(r@) =~= seq![first@, second@]);
    append_all(&mut r, tables_to_infos(tables));
    r
}

impl CatalogManager {
    pub fn finish_create_source_procedure(
        &mut self,
        source: Source,
        internal_tables: Vec<Table>,
        epoch: u64,
    ) -> (r: Vec<Notification>)
        requires
            !old(self)@.database.sources.contains_key(source@.id),
            old(self)@.database.in_progress(source_key(source@)),
        ensures
            (final(self)@, views(r@)) == source_finished(
                old(self)@,
                source@,
                views(internal_tables@),
                epoch,
            ),
    {
        let mut source = source;
        self.core.database.unmark_creating(&source.key());
        source.created_at_epoch = Some(epoch);
        let internal = mark_created_tables(&internal_tables);
        self.core.database.sources.insert(source.id, source.duplicate());
        self.core.database.insert_tables(&internal);
        let relations = group_tables(RelationInfo::Source(source), &internal);
        one_message(Self::notify_frontend_relations(Operation::Add, relations))
    }

    pub fn finish_create_table_procedure_with_source(
        &mut self,
        source: Source,
        mview: Table,
        internal_tables: Vec<Table>,
    ) -> (r: Vec<Notification>)
        requires
            !old(self)@.database.sources.contains_key(source@.id),
            !old(self)@.database.tables.contains_key(mview@.id),
            old(self)@.database.in_progress(source_key(source@)),
            old(self)@.database.in_progress(table_key(mview@)),
        ensures
            (final(self)@, views(r@)) == table_with_source_finished(
                old(self)@,
                source@,
                mview@,
                views(internal_tables@),
            ),
    {
        let mut table = mview;
        self.core.database.unmark_creating(&source.key());
        self.core.database.unmark_creating(&table.key());
        self.core.database.unmark_creating_streaming_job(table.id);
        table.stream_job_status = StreamJobStatus::Created;
        let internal = mark_created_tables(&internal_tables);
        self.core.database.sources.insert(source.id, source.duplicate());
        self.core.database.tables.insert(table.id, table.duplicate());
        self.core.database.insert_tables(&internal);
        let relations = group_two(
            RelationInfo::Table(table),
            RelationInfo::Source(source),
            &internal,
        );
        one_message(Self::notify_frontend_relations(Operation::Add, relations))
    }
}

// ---------------------------------------------------------------------------
// Indexes and sinks.
// ---------------------------------------------------------------------------

/// The name under which an index is marked when it is finished.
pub open spec fn index_table_key(index: IndexModel, table: TableModel) -> RelationKeyModel {
    RelationKeyModel { database_id: table.database_id, schema_id: table.schema_id, name: index.name }
}

/// An index is created with its table.
pub open spec fn index_finished(
    c: CatalogManagerCoreModel,
    internal: Seq<TableModel>,
    index: IndexModel,
    table: TableModel,
) -> Change {
    let new_index = IndexModel { stream_job_status: StreamJobStatus::Created, ..index };
    let new_table = created_table()(table);
    let db = c.database.unmarked(index_table_key(index, table)).job_unmarked(table.id);
    (
        CatalogManagerCoreModel {
            database: DatabaseManagerModel {
                indexes: db.indexes.insert(index.id, new_index),
                tables: inserted(
                    db.tables.insert(table.id, new_table),
                    created_tables(internal),
                    table_id(),
                ),
                ..db
            },
            ..c
        },
        seq![
            frontend_relations(
                Operation::Add,
                seq![RelationInfoModel::Table(new_table), RelationInfoModel::Index(new_index)]
                    + table_infos(created_tables(internal)),
            ),
        ],
    )
}

/// A sink is created.
pub open spec fn sink_finished(c: CatalogManagerCoreModel, internal: Seq<TableModel>, sink: SinkModel) -> Change {
    let new = SinkModel { stream_job_status: StreamJobStatus::Created, ..sink };
    let db = c.database.unmarked(sink_key(sink)).job_unmarked(sink.id);
    (
        CatalogManagerCoreModel {
            database: DatabaseManagerModel {
                sinks: db.sinks.insert(sink.id, new),
                tables: inserted(db.tables, created_tables(internal), table_id()),
                ..db
            },
            ..c
        },
        seq![
            frontend_relations(
                Operation::Add,
                seq![RelationInfoModel::Sink(new)] + table_infos(created_tables(internal)),
            ),
        ],
    )
}

impl CatalogManager {
    pub fn finish_create_index_procedure(
        &mut self,
        internal_tables: Vec<Table>,
        index: Index,
        table: Table,
    ) -> (r: Vec<Notification>)
        requires
            !old(self)@.database.indexes.contains_key(index@.id),
            old(self)@.database.in_progress(index_table_key(index@, table@)),
        ensures
            (final(self)@, views(r@)) == index_finished(
                old(self)@,
                views(internal_tables@),
                index@,
                table@,
            ),
    {
        let mut index = index;
        let mut table = table;
        let key = RelationKey {
            database_id: table.database_id,
            schema_id: table.schema_id,
            name: index.name.clone(),
        };
        self.core.database.unmark_creating(&key);
        self.core.database.unmark_creating_streaming_job(table.id);
        index.stream_job_status = StreamJobStatus::Created;
        table.stream_job_status = StreamJobStatus::Created;
        let internal = mark_created_tables(&internal_tables);
        self.core.database.indexes.insert(index.id, index.duplicate());
        self.core.database.tables.insert(table.id, table.duplicate());
        self.core.database.insert_tables(&internal);
        let relations = group_two(
            RelationInfo::Table(table),
            RelationInfo::Index(index),
            &internal,
        );
        one_message(Self::notify_frontend_relations(Operation::Add, relations))
    }

    pub fn finish_create_sink_procedure(&mut self, internal_tables: Vec<Table>, sink: Sink) -> (r:
        Vec<Notification>)
        requires
            !old(self)@.database.sinks.contains_key(sink@.id),
            old(self)@.database.in_progress(sink_key(sink@)),
        ensures
            (final(self)@, views(r@)) == sink_finished(old(self)@, views(internal_tables@), sink@),
    {
        let mut sink = sink;
        self.core.database.unmark_creating(&sink.key());
        self.core.database.unmark_creating_streaming_job(sink.id);
        sink.stream_job_status = StreamJobStatus::Created;
        let internal = mark_created_tables(&internal_tables);
        self.core.database.sinks.insert(sink.id, sink.duplicate());
        self.core.database.insert_tables(&internal);
        let relations = group_tables(RelationInfo::Sink(sink), &internal);
        one_message(Self::notify_frontend_relations(Operation::Add, relations))
    }
}

// ---------------------------------------------------------------------------
// Subscriptions.
// ---------------------------------------------------------------------------

/// A subscription is created; `epoch` is the time, `version` that of the cluster.
pub open spec fn subscription_finished(c: CatalogManagerCoreModel, id: u32, epoch: u64, version: Seq<char>) -> CatalogManagerCoreModel {
    let old = c.database.subscriptions[id];
    let new = SubscriptionModel {
        created_at_cluster_version: Some(version),
        created_at_epoch: Some(epoch),
        subscription_state: SubscriptionState::Created,
        ..old
    };
    let db = c.database.unmarked(subscription_key(old)).job_unmarked(old.id);
    CatalogManagerCoreModel {
        database: DatabaseManagerModel {
            subscriptions: db.subscriptions.insert(old.id, new),
            ..db
        },
        ..c
    }
}

/// What finishing a subscription presumes: it is being created.
pub open spec fn subscription_finishing_presumes(c: CatalogManagerCoreModel, id: u32) -> bool {
    let subscription = c.database.subscriptions[id];
    c.database.subscriptions.contains_key(id) ==> {
        &&& subscription.subscription_state == SubscriptionState::Init
        &&& c.database.in_progress(subscription_key(subscription))
    }
}

impl CatalogManager {
    pub fn finish_create_subscription_procedure(
        &mut self,
        subscription_id: u32,
        epoch: u64,
        cluster_version: String,
    ) -> (r: MetaResult<()>)
        requires
            subscription_finishing_presumes(old(self)@, subscription_id),
        ensures
            if old(self)@.database.subscriptions.contains_key(subscription_id) {
                r is Ok && final(self)@ == subscription_finished(
                    old(self)@,
                    subscription_id,
                    epoch,
                    cluster_version@,
                )
            } else {
                r is Err && r->Err_0@ == MetaErrorModel::CatalogIdNotFound(
                    CatalogKind::Subscription,
                    subscription_id,
                ) && final(self)@ == old(self)@
            },
    {
        let mut subscription = match self.core.database.subscriptions.get(subscription_id) {
            Some(subscription) => subscription.duplicate(),
            None => {
                return Err(
                    MetaError::CatalogIdNotFound(CatalogKind::Subscription, subscription_id),
                );
            },
        };
        self.core.database.unmark_creating(&subscription.key());
        self.core.database.unmark_creating_streaming_job(subscription.id);
        subscription.created_at_cluster_version = Some(cluster_version);
        subscription.created_at_epoch = Some(epoch);
        subscription.subscription_state = SubscriptionState::Created;
        self.core.database.subscriptions.insert(subscription.id, subscription);
        assert(self@ =~= subscription_finished(
            old(self)@,
            subscription_id,
            epoch,
            cluster_version@,
        ));
        Ok(())
    }

    pub fn notify_create_subscription(&self, subscription_id: u32) -> (r: MetaResult<
        Vec<Notification>,
    >)
        requires
            self@.database.subscriptions.contains_key(subscription_id)
                ==> self@.database.subscriptions[subscription_id].subscription_state
                == SubscriptionState::Created,
        ensures
            match r {
                Ok(messages) => {
                    &&& self@.database.subscriptions.contains_key(subscription_id)
                    &&& views(messages@) == seq![
                        frontend_relations(
                            Operation::Add,
                            seq![
                                RelationInfoModel::Subscription(
                                    self@.database.subscriptions[subscription_id],
                                ),
                            ],
                        ),
                    ]
                },
                Err(e) => !self@.database.subscriptions.contains_key(subscription_id) && e@
                    == MetaErrorModel::CatalogIdNotFound(CatalogKind::Subscription, subscription_id),
            },
    {
        match self.core.database.subscriptions.get(subscription_id) {
            Some(subscription) => Ok(
                one_message(
                    Self::notify_frontend_relation_info(
                        Operation::Add,
                        RelationInfo::Subscription(subscription.duplicate()),
                    ),
                ),
            ),
            None => Err(MetaError::CatalogIdNotFound(CatalogKind::Subscription, subscription_id)),
        }
    }
}

// ---------------------------------------------------------------------------
// Replacing tables.
// ---------------------------------------------------------------------------

/// Where the columns of a table go when it is replaced; a column that goes nowhere is dropped.
#[derive(Debug, PartialEq, Eq)]
pub struct ColIndexMapping {
    pub map: Vec<Option<u32>>,
}

/// The column that `i` becomes.
pub open spec fn mapped(map: Seq<Option<u32>>, i: u32) -> u32 {
    map[i as int]->0
}

/// The columns are mapped.
pub open spec fn maps_all(map: Seq<Option<u32>>, columns: Seq<u32>) -> bool {
    forall|i: int|
        0 <= i < columns.len() ==> (#[trigger] columns[i]) < map.len() && map[columns[i] as int] is Some
}

/// An expression over the columns of the new table.
pub open spec fn rewritten_item(map: Seq<Option<u32>>) -> spec_fn(IndexItemModel) -> IndexItemModel {
    |x: IndexItemModel|
        IndexItemModel { input_refs: image(x.input_refs, |i: u32| mapped(map, i)), ..x }
}

/// An index over the columns of the new table.
pub open spec fn rewritten_index(map: Seq<Option<u32>>) -> spec_fn(IndexModel) -> IndexModel {
    |x: IndexModel| IndexModel { index_item: image(x.index_item, rewritten_item(map)), ..x }
}

/// All columns that the expressions of an index read are mapped.
pub open spec fn maps_index(map: Seq<Option<u32>>, index: IndexModel) -> bool {
    forall|i: int|
        0 <= i < index.index_item.len() ==> maps_all(map, (#[trigger] index.index_item[i]).input_refs)
}

impl ColIndexMapping {
    fn rewrite_item(&self, item: &IndexItem) -> (r: IndexItem)
        requires
            maps_all(self.map@, item@.input_refs),
        ensures
            r@ == rewritten_item(self.map@)(item@),
    {
        let mut refs: Vec<u32> = Vec::new();
        let mut i: usize = 0;
        while i < item.input_refs.len()
            invariant
                i <= item.input_refs.len(),
                maps_all(self.map@, item@.input_refs),
                refs@.len() == i,
                forall|k: int| 0 <= k < i ==> refs@[k] == mapped(self.map@, item@.input_refs[k]),
            decreases item.input_refs.len() - i,
        {
            let c: u32 = item.input_refs[i];
            assert(item@.input_refs[i as int] == c);
            match self.map[c as usize] {
                Some(d) => {
                    refs.push(d);
                },
                None => {},
            }
            i = i + 1;
        }
        let r = IndexItem { input_refs: refs, expression: item.expression.clone() };
        assert(r@ =~= rewritten_item(self.map@)(item@));
        r
    }

    fn rewrite_index(&self, index: &Index) -> (r: Index)
        requires
            maps_index(self.map@, index@),
        ensures
            r@ == rewritten_index(self.map@)(index@),
    {
        let mut items: Vec<IndexItem> = Vec::new();
        let mut i: usize = 0;
        while i < index.index_item.len()
            invariant
                i <= index.index_item.len(),
                maps_index(self.map@, index@),
                items@.len() == i,
                forall|k: int|
                    0 <= k < i ==> (#[trigger] items@[k])@ == rewritten_item(self.map@)(
                        index@.index_item[k],
                    ),
            decreases index.index_item.len() - i,
        {
            assert(index@.index_item[i as int] == index.index_item@[i as int]@);
            items.push(self.rewrite_item(&index.index_item[i]));
            i = i + 1;
        }
        let mut r = index.duplicate();
        r.index_item = items;
        assert(views(r.index_item@) =~= image(index@.index_item, rewritten_item(self.map@)));
        r
    }
}

/// Why a table cannot be replaced.
pub open spec fn replace_refusal(c: CatalogManagerCoreModel, source: Option<SourceModel>, table: TableModel) -> Option<MetaErrorModel> {
    let db = c.database;
    match crate::catalog::database::either(
        db.ensure_database(table.database_id),
        db.ensure_schema(table.schema_id),
    ) {
        Some(e) => Some(e),
        None => if !db.tables.contains_key(table.id) {
            Some(MetaErrorModel::TableToAlterMissing)
        } else if table.version is None || db.tables[table.id].version is None {
            Some(MetaErrorModel::TableVersionMissing)
        } else if table.version->0 != db.tables[table.id].version->0 + 1 {
            Some(MetaErrorModel::TableVersionStale)
        } else if db.in_progress(table_key(table)) {
            Some(MetaErrorModel::AlteringProcedure(CatalogKind::Table))
        } else if source is Some && db.in_progress(source_key(source->0)) {
            Some(MetaErrorModel::AlteringProcedure(CatalogKind::Source))
        } else {
            None
        },
    }
}

/// What starting the replacement of a table presumes: a table of its own depends on nothing, and
/// its version can be raised.
pub open spec fn replace_starting_presumes(
    c: CatalogManagerCoreModel,
    table: TableModel,
    job_type: TableJobType,
) -> bool {
    let db = c.database;
    &&& job_type == TableJobType::General && db.databases.contains_key(table.database_id)
        && db.schemas.contains_key(table.schema_id) ==> table.dependent_relations.len() == 0
    &&& db.tables.contains_key(table.id) && db.tables[table.id].version is Some
        ==> db.tables[table.id].version->0 < u64::MAX
}

/// The replacement of a table starts: the table and its source are marked.
pub open spec fn replace_started(c: CatalogManagerCoreModel, source: Option<SourceModel>, table: TableModel) -> Step {
    match replace_refusal(c, source, table) {
        Some(e) => (c, Some(e)),
        None => (
            CatalogManagerCoreModel {
                database: match source {
                    Some(source) => c.database.marked(source_key(source)).marked(table_key(table)),
                    None => c.database.marked(table_key(table)),
                },
                ..c
            },
            None,
        ),
    }
}

/// A sink whose target has these columns.
pub open spec fn sink_targeting(columns: Seq<ColumnCatalogModel>) -> spec_fn(SinkModel) -> SinkModel {
    |s: SinkModel| SinkModel { original_target_columns: columns, ..s }
}

/// What a replacement brings.
#[verifier::ext_equal]
pub struct Replacement {
    pub source: Option<SourceModel>,
    pub table: TableModel,
    pub mapping: Option<Seq<Option<u32>>>,
    pub creating_sink: Option<u32>,
    pub dropping_sink: Option<u32>,
    pub updated_sinks: Seq<u32>,
}

impl Replacement {
    /// The new table: a sink that is created writes into it, one that is dropped does not.
    pub open spec fn new_table(self) -> TableModel {
        let added = match self.creating_sink {
            Some(s) => self.table.incoming_sinks.push(s),
            None => self.table.incoming_sinks,
        };
        TableModel {
            stream_job_status: StreamJobStatus::Created,
            incoming_sinks: match self.dropping_sink {
                Some(s) => added.filter(|x: u32| x != s),
                None => added,
            },
            ..self.table
        }
    }

    /// The indexes that change.
    pub open spec fn changed_indexes(self, db: DatabaseManagerModel) -> Seq<u32> {
        match self.mapping {
            Some(_) => indexes_of(db, self.table.id),
            None => Seq::empty(),
        }
    }

    /// The catalog and the messages after the replacement.
    pub open spec fn applied(self, c: CatalogManagerCoreModel) -> Change {
        let db = replacing_cancelled(c, self.source, self.table).database;
        let sinks = updated_at(
            db.sinks,
            self.updated_sinks,
            sink_targeting(db.tables[self.table.id].columns),
        );
        let indexes = updated_at(
            db.indexes,
            self.changed_indexes(db),
            rewritten_index(self.mapping->0),
        );
        let source = match self.source {
            Some(source) => seq![source],
            None => Seq::empty(),
        };
        (
            CatalogManagerCoreModel {
                database: DatabaseManagerModel {
                    sinks,
                    indexes,
                    sources: inserted(db.sources, source, |s: SourceModel| s.id),
                    tables: db.tables.insert(self.table.id, self.new_table()),
                    ..db
                },
                ..c
            },
            seq![
                frontend_relations(
                    Operation::Update,
                    seq![RelationInfoModel::Table(self.new_table())] + source_infos(source)
                        + index_infos(values_at(indexes, self.changed_indexes(db))) + sink_infos(
                        values_at(sinks, self.updated_sinks),
                    ),
                ),
            ],
        )
    }

    /// What the replacement presumes.
    pub open spec fn presumes(self, c: CatalogManagerCoreModel) -> bool {
        replacing_presumes(c.database, self.source, self.table, self.mapping, self.updated_sinks)
    }
}

/// What the replacement of a table presumes: it is under way, the updated sinks exist, and the
/// columns that its indexes read are mapped.
pub open spec fn replacing_presumes(
    db: DatabaseManagerModel,
    source: Option<SourceModel>,
    table: TableModel,
    mapping: Option<Seq<Option<u32>>>,
    updated_sinks: Seq<u32>,
) -> bool {
    let indexes = indexes_of(db, table.id);
    &&& being_replaced(db, source, table)
    &&& all_in(updated_sinks, db.sinks)
    &&& mapping is Some ==> forall|i: int|
        0 <= i < indexes.len() ==> maps_index(mapping->0, db.indexes[#[trigger] indexes[i]])
}

/// The model of an optional mapping.
pub open spec fn mapping_of(m: Option<ColIndexMapping>) -> Option<Seq<Option<u32>>> {
    match m {
        Some(m) => Some(m.map@),
        None => None,
    }
}

fn without_id(v: &Vec<u32>, s: u32) -> (r: Vec<u32>)
    ensures
        r@ == v@.filter(|x: u32| x != s),
{
    let mut r: Vec<u32> = Vec::new();
    let ghost p = |x: u32| x != s;
    let mut i: usize = 0;
    proof {
        reveal(Seq::filter);
        assert(v@.take(0) =~= Seq::<u32>::empty());
    }
    while i < v.len()
        invariant
            i <= v.len(),
            p == (|x: u32| x != s),
            r@ == v@.take(i as int).filter(p),
        decreases v.len() - i,
    {
        proof {
            reveal(Seq::filter);
            assert(v@.take(i + 1).drop_last() =~= v@.take(i as int));
            assert(v@.take(i + 1).last() == v@[i as int]);
        }
        if v[i] != s {
            r.push(v[i]);
        }
        i = i + 1;
    }
    assert(v@.take(i as int) =~= v@);
    r
}

impl CatalogManager {
    /// This is used for `ALTER TABLE ADD/DROP COLUMN`.
    pub fn start_replace_table_procedure(&mut self, stream_job: &StreamingJob) -> (r: MetaResult<()>)
        requires
            stream_job is Table,
            replace_starting_presumes(
                old(self)@,
                stream_job->Table_1@,
                stream_job->Table_2,
            ),
        ensures
            ends_at(
                r,
                final(self)@,
                replace_started(
                    old(self)@,
                    opt_view(stream_job->Table_0),
                    stream_job->Table_1@,
                ),
            ),
    {
        match stream_job {
            StreamingJob::Table(source, table, _) => {
                match self.core.database.ensure_database_id(table.database_id) {
                    Err(e) => {
                        return Err(e);
                    },
                    Ok(_) => {},
                }
                match self.core.database.ensure_schema_id(table.schema_id) {
                    Err(e) => {
                        return Err(e);
                    },
                    Ok(_) => {},
                }
                let stored = match self.core.database.tables.get(table.id) {
                    Some(stored) => stored.version,
                    None => {
                        return Err(MetaError::TableToAlterMissing);
                    },
                };
                match (table.version, stored) {
                    (Some(new), Some(current)) => {
                        if new != current + 1 {
                            return Err(MetaError::TableVersionStale);
                        }
                    },
                    _ => {
                        return Err(MetaError::TableVersionMissing);
                    },
                }
                let key = table.key();
                if self.core.database.has_in_progress_creation(&key) {
                    return Err(MetaError::AlteringProcedure(CatalogKind::Table));
                }
                match source {
                    Some(source) => {
                        let name = source.key();
                        if self.core.database.has_in_progress_creation(&name) {
                            return Err(MetaError::AlteringProcedure(CatalogKind::Source));
                        }
                        self.core.database.mark_creating(&name);
                    },
                    None => {},
                }
                self.core.database.mark_creating(&key);
                Ok(())
            },
            _ => Ok(()),
        }
    }

    /// This is used for `ALTER TABLE ADD/DROP COLUMN`.
    pub fn cancel_replace_table_procedure(&mut self, stream_job: &StreamingJob)
        requires
            stream_job is Table,
            being_replaced(
                old(self)@.database,
                opt_view(stream_job->Table_0),
                stream_job->Table_1@,
            ),
        ensures
            final(self)@ == replacing_cancelled(
                old(self)@,
                opt_view(stream_job->Table_0),
                stream_job->Table_1@,
            ),
    {
        match stream_job {
            StreamingJob::Table(source, table, _) => {
                self.cancel_replace_table_procedure_inner(source, table);
            },
            _ => {},
        }
    }

    /// This is used for `ALTER TABLE ADD/DROP COLUMN` and `SINK INTO TABLE`.
    pub fn finish_replace_table_procedure(
        &mut self,
        source: &Option<Source>,
        table: &Table,
        table_col_index_mapping: Option<ColIndexMapping>,
        creating_sink_id: Option<u32>,
        dropping_sink_id: Option<u32>,
        updated_sink_ids: Vec<u32>,
    ) -> (r: Vec<Notification>)
        requires
            (Replacement {
                source: opt_view(*source),
                table: table@,
                mapping: mapping_of(table_col_index_mapping),
                creating_sink: creating_sink_id,
                dropping_sink: dropping_sink_id,
                updated_sinks: updated_sink_ids@,
            }).presumes(old(self)@),
        ensures
            (final(self)@, views(r@)) == (Replacement {
                source: opt_view(*source),
                table: table@,
                mapping: mapping_of(table_col_index_mapping),
                creating_sink: creating_sink_id,
                dropping_sink: dropping_sink_id,
                updated_sinks: updated_sink_ids@,
            }).applied(old(self)@),
    {
        let ghost c = self@;
        let ghost request = Replacement {
            source: opt_view(*source),
            table: table@,
            mapping: mapping_of(table_col_index_mapping),
            creating_sink: creating_sink_id,
            dropping_sink: dropping_sink_id,
            updated_sinks: updated_sink_ids@,
        };
        self.cancel_replace_table_procedure_inner(source, table);
        let ghost db = self@.database;
        let ghost columns = db.tables[table@.id].columns;
        // The sinks into the table.
        let mut updated_sinks: Vec<Sink> = Vec::new();
        match self.core.database.tables.get(table.id) {
            Some(stored) => {
                let columns = &stored.columns;
                let f = |x: Sink| -> (y: Sink)
                    ensures
                        y@ == sink_targeting(views(columns@))(x@),
                {
                    let mut x = x;
                    x.original_target_columns = duplicate_all(columns);
                    x
                };
                updated_sinks =
                self.core.database.sinks.update_all(
                    &updated_sink_ids,
                    f,
                    Ghost(sink_targeting(views(columns@))),
                );
            },
            None => {},
        }
        // The source.
        let mut sources: Vec<Source> = Vec::new();
        match source {
            Some(source) => {
                sources.push(source.duplicate());
                self.core.database.sources.insert(source.id, source.duplicate());
            },
            None => {},
        }
        let ghost source_list = match request.source {
            Some(source) => seq![source],
            None => Seq::empty(),
        };
        proof {
            assert(views(sources@) =~= source_list);
            assert(inserted(db.sources, Seq::<SourceModel>::empty(), |s: SourceModel| s.id)
                == db.sources);
            if request.source is Some {
                assert(source_list.drop_last() =~= Seq::<SourceModel>::empty());
            }
            assert(self@.database.sources =~= inserted(
                db.sources,
                source_list,
                |s: SourceModel| s.id,
            ));
        }
        // The indexes.
        let mut updated_indexes: Vec<Index> = Vec::new();
        match &table_col_index_mapping {
            Some(mapping) => {
                let (index_ids, _tables) = self.core.database.indexes_on(table.id);
                assert(index_ids@ == indexes_of(db, table@.id));
                assert(index_ids@ == request.changed_indexes(c.database));
                assert(request.mapping == Some(mapping.map@));
                proof {
                    self.core.database.indexes.lemma_finite();
                    crate::util::id_map::lemma_ids_where(
                        db.indexes,
                        crate::catalog::drop::index_on(table@.id),
                    );
                }
                updated_indexes = Self::rewrite_indexes(
                    &mut self.core.database.indexes,
                    &index_ids,
                    mapping,
                );
            },
            None => {
                assert(self@.database.indexes =~= updated_at(
                    db.indexes,
                    Seq::empty(),
                    rewritten_index(request.mapping->0),
                ));
                assert(views(updated_indexes@) =~= values_at(self@.database.indexes, Seq::empty()));
            },
        }
        // The table.
        let mut new_table = table.duplicate();
        new_table.stream_job_status = StreamJobStatus::Created;
        match creating_sink_id {
            Some(s) => {
                new_table.incoming_sinks.push(s);
            },
            None => {},
        }
        match dropping_sink_id {
            Some(s) => {
                new_table.incoming_sinks = without_id(&new_table.incoming_sinks, s);
            },
            None => {},
        }
        assert(new_table@ =~= request.new_table());
        self.core.database.tables.insert(table.id, new_table.duplicate());
        let mut relations: Vec<RelationInfo> = Vec::new();
        relations.push(RelationInfo::Table(new_table));
        assert(views(relations@) =~= seq![RelationInfoModel::Table(request.new_table())]);
        append_all(&mut relations, sources_to_infos(&sources));
        append_all(&mut relations, indexes_to_infos(&updated_indexes));
        append_all(&mut relations, sinks_to_infos(&updated_sinks));
        let messages = one_message(
            Self::notify_frontend_relations(Operation::Update, relations),
        );
        assert(self@ =~= request.applied(c).0);
        messages
    }

    /// Rewrites indexes to the columns of the new table.
    fn rewrite_indexes(indexes: &mut IdMap<Index>, ids: &Vec<u32>, mapping: &ColIndexMapping) -> (r:
        Vec<Index>)
        requires
            all_in(ids@, old(indexes)@),
            ids@.no_duplicates(),
            forall|i: int|
                0 <= i < ids@.len() ==> maps_index(
                    mapping.map@,
                    old(indexes)@[#[trigger] ids@[i]],
                ),
        ensures
            final(indexes)@ == updated_at(old(indexes)@, ids@, rewritten_index(mapping.map@)),
            views(r@) == values_at(final(indexes)@, ids@),
    {
        let ghost m = indexes@;
        let ghost g = rewritten_index(mapping.map@);
        let mut r: Vec<Index> = Vec::new();
        let mut i: usize = 0;
        assert(m =~= updated_at(m, ids@.take(0), g));
        while i < ids.len()
            invariant
                i <= ids.len(),
                all_in(ids@, m),
                ids@.no_duplicates(),
                g == rewritten_index(mapping.map@),
                forall|k: int|
                    0 <= k < ids@.len() ==> maps_index(mapping.map@, m[#[trigger] ids@[k]]),
                indexes@ == updated_at(m, ids@.take(i as int), g),
                r@.len() == i,
                forall|k: int| 0 <= k < i ==> (#[trigger] r@[k])@ == g(m[ids@[k]]),
            decreases ids.len() - i,
        {
            let id: u32 = ids[i];
            let ghost seen = ids@.take(i as int);
            proof {
                assert(m.contains_key(ids@[i as int]));
                assert(maps_index(mapping.map@, m[ids@[i as int]]));
                assert(!seen.contains(id));
                assert(ids@.take(i + 1) =~= seen.push(id));
                assert(ids@.take(i + 1)[i as int] == id);
                assert forall|x: u32| #[trigger]
                    seen.push(id).contains(x) <==> seen.contains(x) || x == id by {
                    broadcast use vstd::seq_lib::lemma_seq_contains_after_push;

                }
            }
            match indexes.remove(id) {
                Some(index) => {
                    let new = mapping.rewrite_index(&index);
                    r.push(new.duplicate());
                    indexes.insert(id, new);
                },
                None => {},
            }
            assert(indexes@ =~= updated_at(m, ids@.take(i + 1), g));
            i = i + 1;
        }
        proof {
            assert(ids@.take(i as int) =~= ids@);
            assert forall|k: int| 0 <= k < ids@.len() implies indexes@[ids@[k]] == (#[trigger] r@[k])@ by {
                assert(ids@.contains(ids@[k]));
                assert(m.contains_key(ids@[k]));
            }
            assert(views(r@) =~= values_at(indexes@, ids@));
        }
        r
    }
}

} // verus!
