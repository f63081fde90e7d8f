//! Starting and cancelling the creation of relations.

use vstd::prelude::*;

use crate::catalog::database::{either, refusal};
use crate::catalog::error::{CatalogKind, MetaError, MetaErrorModel, MetaResult};
use crate::catalog::manager::CatalogManager;
use crate::catalog::notify::{
    Notification, NotificationModel, Operation, RelationInfo, RelationInfoModel, TargetTable,
    TargetTableModel,
};
use crate::catalog::objects::{can_own, key_of, owning_less, owning_more, owns};
use crate::catalog::relations::{
    frontend_relations, id_list, one_or_none, table_infos, tables_to_infos,
};
use crate::catalog::rename::table_id;
use crate::catalog::state::{CatalogManagerCoreModel, DatabaseManager, DatabaseManagerModel};
use crate::catalog::types::{
    Index, IndexModel, RelationKey, RelationKeyModel, Sink, SinkModel, Source, SourceModel,
    StreamJobStatus, Subscription, SubscriptionModel, Table, TableModel,
};
use crate::util::counts::{check_covers, check_fits, covers, fits, lower_all, lowered, raise_all, raised};
use crate::util::id_map::{all_in, copy_all, inserted, values_at, views, Entry};
use crate::util::lists::append_all;

verus! {

/// The catalog after a request, and the refusal where there was one.
pub type Step = (CatalogManagerCoreModel, Option<MetaErrorModel>);

/// A request ended as told.
pub open spec fn ends_at(r: MetaResult<()>, after: CatalogManagerCoreModel, step: Step) -> bool {
    after == step.0 && refusal(r) == step.1
}

pub open spec fn table_key(t: TableModel) -> RelationKeyModel {
    key_of(t.database_id, t.schema_id, t.name)
}

pub open spec fn source_key(s: SourceModel) -> RelationKeyModel {
    key_of(s.database_id, s.schema_id, s.name)
}

pub open spec fn sink_key(s: SinkModel) -> RelationKeyModel {
    key_of(s.database_id, s.schema_id, s.name)
}

pub open spec fn index_key(i: IndexModel) -> RelationKeyModel {
    key_of(i.database_id, i.schema_id, i.name)
}

pub open spec fn subscription_key(s: SubscriptionModel) -> RelationKeyModel {
    key_of(s.database_id, s.schema_id, s.name)
}

impl Table {
    pub fn key(&self) -> (r: RelationKey)
        ensures
            r@ == table_key(self@),
    {
        RelationKey {
            database_id: self.database_id,
            schema_id: self.schema_id,
            name: self.name.clone(),
        }
    }
}

impl Source {
    pub fn key(&self) -> (r: RelationKey)
        ensures
            r@ == source_key(self@),
    {
        RelationKey {
            database_id: self.database_id,
            schema_id: self.schema_id,
            name: self.name.clone(),
        }
    }
}

impl Sink {
    pub fn key(&self) -> (r: RelationKey)
        ensures
            r@ == sink_key(self@),
    {
        RelationKey {
            database_id: self.database_id,
            schema_id: self.schema_id,
            name: self.name.clone(),
        }
    }
}

impl Index {
    pub fn key(&self) -> (r: RelationKey)
        ensures
            r@ == index_key(self@),
    {
        RelationKey {
            database_id: self.database_id,
            schema_id: self.schema_id,
            name: self.name.clone(),
        }
    }
}

impl Subscription {
    pub fn key(&self) -> (r: RelationKey)
        ensures
            r@ == subscription_key(self@),
    {
        RelationKey {
            database_id: self.database_id,
            schema_id: self.schema_id,
            name: self.name.clone(),
        }
    }
}

impl DatabaseManagerModel {
    /// Something of this name is being created.
    pub open spec fn in_progress(self, key: RelationKeyModel) -> bool {
        self.in_progress_creation_tracker.contains(key)
    }

    /// The catalog with a name marked as being created.
    pub open spec fn marked(self, key: RelationKeyModel) -> DatabaseManagerModel {
        DatabaseManagerModel {
            in_progress_creation_tracker: self.in_progress_creation_tracker.insert(key),
            ..self
        }
    }

    /// The catalog with the mark on a name taken away.
    pub open spec fn unmarked(self, key: RelationKeyModel) -> DatabaseManagerModel {
        DatabaseManagerModel {
            in_progress_creation_tracker: self.in_progress_creation_tracker.remove(key),
            ..self
        }
    }

    /// The catalog with a streaming job noted under its name.
    pub open spec fn job_marked(self, id: u32, key: RelationKeyModel) -> DatabaseManagerModel {
        DatabaseManagerModel {
            in_progress_creating_streaming_job: self.in_progress_creating_streaming_job.insert(
                id,
                key,
            ),
            ..self
        }
    }

    /// The catalog without the note on a streaming job.
    pub open spec fn job_unmarked(self, id: u32) -> DatabaseManagerModel {
        DatabaseManagerModel {
            in_progress_creating_streaming_job: self.in_progress_creating_streaming_job.remove(id),
            ..self
        }
    }

    /// The catalog with references added.
    pub open spec fn referring(self, relations: Seq<u32>, connections: Seq<u32>, secrets: Seq<u32>) -> DatabaseManagerModel {
        DatabaseManagerModel {
            relation_ref_count: raised(self.relation_ref_count, relations),
            connection_ref_count: raised(self.connection_ref_count, connections),
            secret_ref_count: raised(self.secret_ref_count, secrets),
            ..self
        }
    }

    /// The catalog with references taken back.
    pub open spec fn releasing(self, relations: Seq<u32>, connections: Seq<u32>, secrets: Seq<u32>) -> DatabaseManagerModel {
        DatabaseManagerModel {
            relation_ref_count: lowered(self.relation_ref_count, relations),
            connection_ref_count: lowered(self.connection_ref_count, connections),
            secret_ref_count: lowered(self.secret_ref_count, secrets),
            ..self
        }
    }

    /// The references can be counted.
    pub open spec fn can_refer(self, relations: Seq<u32>, connections: Seq<u32>, secrets: Seq<u32>) -> bool {
        &&& fits(self.relation_ref_count, relations)
        &&& fits(self.connection_ref_count, connections)
        &&& fits(self.secret_ref_count, secrets)
    }

    /// The references are counted.
    pub open spec fn refers(self, relations: Seq<u32>, connections: Seq<u32>, secrets: Seq<u32>) -> bool {
        &&& covers(self.relation_ref_count, relations)
        &&& covers(self.connection_ref_count, connections)
        &&& covers(self.secret_ref_count, secrets)
    }

    /// The connection is missing.
    pub open spec fn connection_missing(self, connection: Option<u32>) -> bool {
        connection is Some && !self.connections.contains_key(connection->0)
    }
}

impl DatabaseManager {
    pub fn has_in_progress_creation(&self, key: &RelationKey) -> (r: bool)
        ensures
            r == self@.in_progress(key@),
    {
        self.in_progress_creation_tracker.contains(key)
    }

    /// Tells whether the references can be counted.
    pub fn can_refer(&self, relations: &Vec<u32>, connections: &Vec<u32>, secrets: &Vec<u32>) -> (r: bool)
        ensures
            r == self@.can_refer(relations@, connections@, secrets@),
    {
        check_fits(&self.relation_ref_count, relations) && check_fits(
            &self.connection_ref_count,
            connections,
        ) && check_fits(&self.secret_ref_count, secrets)
    }

    /// Tells whether the references are counted.
    pub fn refers(&self, relations: &Vec<u32>, connections: &Vec<u32>, secrets: &Vec<u32>) -> (r: bool)
        ensures
            r == self@.refers(relations@, connections@, secrets@),
    {
        check_covers(&self.relation_ref_count, relations) && check_covers(
            &self.connection_ref_count,
            connections,
        ) && check_covers(&self.secret_ref_count, secrets)
    }

    pub fn mark_creating(&mut self, key: &RelationKey)
        ensures
            final(self)@ == old(self)@.marked(key@),
    {
        self.in_progress_creation_tracker.insert(key.duplicate());
    }

    pub fn unmark_creating(&mut self, key: &RelationKey)
        ensures
            final(self)@ == old(self)@.unmarked(key@),
    {
        self.in_progress_creation_tracker.remove(key);
    }

    pub fn mark_creating_streaming_job(&mut self, id: u32, key: RelationKey)
        ensures
            final(self)@ == old(self)@.job_marked(id, key@),
    {
        self.in_progress_creating_streaming_job.insert(id, key);
    }

    pub fn unmark_creating_streaming_job(&mut self, id: u32)
        ensures
            final(self)@ == old(self)@.job_unmarked(id),
    {
        self.in_progress_creating_streaming_job.remove(id);
    }

    /// Takes references back.
    fn release_references(&mut self, relations: &Vec<u32>, connections: &Vec<u32>, secrets: &Vec<u32>)
        requires
            old(self)@.refers(relations@, connections@, secrets@),
        ensures
            final(self)@ == old(self)@.releasing(relations@, connections@, secrets@),
    {
        lower_all(&mut self.relation_ref_count, relations);
        lower_all(&mut self.connection_ref_count, connections);
        lower_all(&mut self.secret_ref_count, secrets);
    }
}

/// Nothing is raised by no references.
pub proof fn lemma_raised_nothing(c: Map<u32, usize>)
    ensures
        raised(c, Seq::empty()) == c,
{
    assert(raised(c, Seq::<u32>::empty()) =~= c);
}

/// Nothing is lowered by no references.
pub proof fn lemma_lowered_nothing(c: Map<u32, usize>)
    ensures
        lowered(c, Seq::empty()) == c,
{
    assert(lowered(c, Seq::<u32>::empty()) =~= c);
}

// ---------------------------------------------------------------------------
// What starting and cancelling presume.
// ---------------------------------------------------------------------------

/// What starting a table presumes: the references and the owner's objects can be counted.
pub open spec fn table_starting_presumes(c: CatalogManagerCoreModel, table: TableModel) -> bool {
    &&& can_own(c.user, table.owner, 1)
    &&& fits(c.database.relation_ref_count, table.dependent_relations)
}

/// What cancelling a table presumes: it is being created, and all that is taken back is counted.
pub open spec fn table_cancelling_presumes(c: CatalogManagerCoreModel, table: TableModel) -> bool {
    &&& !c.database.tables.contains_key(table.id)
    &&& c.database.in_progress(table_key(table))
    &&& covers(c.database.relation_ref_count, table.dependent_relations)
    &&& owns(c.user, table.owner, 1)
}

/// What starting a materialized view presumes: where it is not refused, it is a new table.
pub open spec fn mview_starting_presumes(c: CatalogManagerCoreModel, table: TableModel) -> bool {
    table_start_refusal(c, table) is None ==> {
        &&& !c.database.tables.contains_key(table.id)
        &&& table_starting_presumes(c, table)
    }
}

/// What cancelling a materialized view presumes: its internal tables exist, none is mentioned
/// twice, and all that is taken back is counted.
pub open spec fn mview_cancelling_presumes(c: CatalogManagerCoreModel, id: u32, internal: Seq<u32>) -> bool {
    let table = c.database.tables[id];
    c.database.tables.contains_key(id) && mview_cancel_refusal(c.database, id) is None ==> {
        &&& (seq![id] + internal).no_duplicates()
        &&& all_in(internal, c.database.tables)
        &&& covers(c.database.relation_ref_count, table.dependent_relations)
        &&& owns(c.user, table.owner, 1)
    }
}

/// What starting a source presumes.
pub open spec fn source_starting_presumes(c: CatalogManagerCoreModel, source: SourceModel) -> bool {
    &&& can_own(c.user, source.owner, 1)
    &&& c.database.can_refer(Seq::empty(), one_or_none(source.connection_id), source.secret_ids)
}

/// What cancelling a source presumes.
pub open spec fn source_cancelling_presumes(c: CatalogManagerCoreModel, source: SourceModel) -> bool {
    &&& !c.database.sources.contains_key(source.id)
    &&& c.database.in_progress(source_key(source))
    &&& owns(c.user, source.owner, 1)
    &&& c.database.refers(Seq::empty(), one_or_none(source.connection_id), source.secret_ids)
}

/// What starting a table with its source presumes: where it is not refused, both have one owner.
pub open spec fn table_with_source_starting_presumes(
    c: CatalogManagerCoreModel,
    source: SourceModel,
    table: TableModel,
) -> bool {
    &&& source_start_refusal(c, source) is None ==> source.owner == table.owner
    &&& can_own(c.user, source.owner, 2)
    &&& c.database.can_refer(Seq::empty(), one_or_none(source.connection_id), source.secret_ids)
}

/// What cancelling a table with its source presumes.
pub open spec fn table_with_source_cancelling_presumes(
    c: CatalogManagerCoreModel,
    source: SourceModel,
    table: TableModel,
) -> bool {
    &&& !c.database.sources.contains_key(source.id)
    &&& !c.database.tables.contains_key(table.id)
    &&& owns(c.user, source.owner, 2)
    &&& c.database.refers(Seq::empty(), one_or_none(source.connection_id), source.secret_ids)
}

/// What starting an index presumes: where it is not refused, its table has the same owner and
/// depends on the indexed table alone.
pub open spec fn index_starting_presumes(c: CatalogManagerCoreModel, index: IndexModel, table: TableModel) -> bool {
    &&& index_start_refusal(c, index) is None ==> index.owner == table.owner
        && table.dependent_relations == seq![index.primary_table_id]
    &&& can_own(c.user, index.owner, 2)
    &&& fits(c.database.relation_ref_count, table.dependent_relations)
}

/// What cancelling an index presumes.
pub open spec fn index_cancelling_presumes(c: CatalogManagerCoreModel, index: IndexModel, table: TableModel) -> bool {
    &&& !c.database.indexes.contains_key(index.id)
    &&& covers(c.database.relation_ref_count, table.dependent_relations)
    &&& owns(c.user, index.owner, 2)
}

/// What starting a sink presumes.
pub open spec fn sink_starting_presumes(c: CatalogManagerCoreModel, sink: SinkModel) -> bool {
    &&& can_own(c.user, sink.owner, 1)
    &&& c.database.can_refer(
        sink.dependent_relations,
        one_or_none(sink.connection_id),
        sink.secret_ids,
    )
}

/// What cancelling a sink presumes: the table it writes into, if any, is being replaced.
pub open spec fn sink_cancelling_presumes(
    c: CatalogManagerCoreModel,
    sink: SinkModel,
    target: Option<TargetTableModel>,
) -> bool {
    &&& !c.database.sinks.contains_key(sink.id)
    &&& c.database.refers(
        sink.dependent_relations,
        one_or_none(sink.connection_id),
        sink.secret_ids,
    )
    &&& owns(c.user, sink.owner, 1)
    &&& target is Some ==> being_replaced(
        c.database.unmarked(sink_key(sink)),
        target->0.source,
        target->0.table,
    )
}

/// What starting a subscription presumes.
pub open spec fn subscription_starting_presumes(
    c: CatalogManagerCoreModel,
    subscription: SubscriptionModel,
) -> bool {
    &&& can_own(c.user, subscription.owner, 1)
    &&& fits(c.database.relation_ref_count, seq![subscription.dependent_table_id])
}

// ---------------------------------------------------------------------------
// Tables.
// ---------------------------------------------------------------------------

/// Why the creation of a table or a materialized view cannot start.
pub open spec fn table_start_refusal(c: CatalogManagerCoreModel, table: TableModel) -> Option<MetaErrorModel> {
    either(
        c.database.ensure_database(table.database_id),
        either(
            c.database.ensure_schema(table.schema_id),
            either(
                c.database.ensure_relations(table.dependent_relations),
                either(c.user.ensure_user(table.owner), c.database.name_clash(table_key(table))),
            ),
        ),
    )
}

/// The creation of a table starts: its name is marked, what it depends on is referred to, and
/// its owner is charged with it.
pub open spec fn table_started(c: CatalogManagerCoreModel, table: TableModel) -> Step {
    match table_start_refusal(c, table) {
        Some(e) => (c, Some(e)),
        None => if c.database.in_progress(table_key(table)) {
            (c, Some(MetaErrorModel::TableBeingCreated))
        } else {
            (
                CatalogManagerCoreModel {
                    database: c.database.marked(table_key(table)).job_marked(
                        table.id,
                        table_key(table),
                    ).referring(table.dependent_relations, Seq::empty(), Seq::empty()),
                    user: owning_more(c.user, table.owner, 1),
                },
                None,
            )
        },
    }
}

/// The creation of a table is cancelled.
pub open spec fn table_cancelled(c: CatalogManagerCoreModel, table: TableModel) -> CatalogManagerCoreModel {
    CatalogManagerCoreModel {
        database: c.database.unmarked(table_key(table)).job_unmarked(table.id).releasing(
            table.dependent_relations,
            Seq::empty(),
            Seq::empty(),
        ),
        user: owning_less(c.user, table.owner, 1),
    }
}

impl CatalogManager {
    pub(crate) fn check_table_start(&self, table: &Table) -> (r: MetaResult<()>)
        ensures
            refusal(r) == table_start_refusal(self@, table@),
    {
        match self.core.database.ensure_database_id(table.database_id) {
            Err(e) => {
                return Err(e);
            },
            Ok(_) => {},
        }
        match self.core.database.ensure_schema_id(table.schema_id) {
            Err(e) => {
                return Err(e);
            },
            Ok(_) => {},
        }
        match self.core.database.ensure_table_view_or_source_ids(&table.dependent_relations) {
            Err(e) => {
                return Err(e);
            },
            Ok(_) => {},
        }
        match self.core.user.ensure_user_id(table.owner) {
            Err(e) => {
                return Err(e);
            },
            Ok(_) => {},
        }
        self.core.database.check_relation_name_duplicated(&table.key())
    }

    /// This is used for `CREATE TABLE`.
    pub fn start_create_table_procedure(&mut self, table: &Table) -> (r: MetaResult<()>)
        requires
            table_starting_presumes(old(self)@, table@),
        ensures
            ends_at(r, final(self)@, table_started(old(self)@, table@)),
    {
        match self.check_table_start(table) {
            Err(e) => {
                return Err(e);
            },
            Ok(_) => {},
        }
        let key = table.key();
        if self.core.database.has_in_progress_creation(&key) {
            return Err(MetaError::TableBeingCreated);
        }
        self.core.database.mark_creating(&key);
        self.core.database.mark_creating_streaming_job(table.id, key);
        raise_all(&mut self.core.database.relation_ref_count, &table.dependent_relations);
        self.core.user.increase_ref(table.owner);
        proof {
            lemma_raised_nothing(self@.database.connection_ref_count);
            lemma_raised_nothing(self@.database.secret_ref_count);
        }
        Ok(())
    }

    /// Used to cleanup `CREATE TABLE` state in stream manager.
    pub fn cancel_create_table_procedure(&mut self, table: &Table)
        requires
            table_cancelling_presumes(old(self)@, table@),
        ensures
            final(self)@ == table_cancelled(old(self)@, table@),
    {
        self.core.database.unmark_creating(&table.key());
        self.core.database.unmark_creating_streaming_job(table.id);
        lower_all(&mut self.core.database.relation_ref_count, &table.dependent_relations);
        self.core.user.decrease_ref(table.owner);
        proof {
            lemma_lowered_nothing(self@.database.connection_ref_count);
            lemma_lowered_nothing(self@.database.secret_ref_count);
        }
    }
}

// ---------------------------------------------------------------------------
// Materialized views.
// ---------------------------------------------------------------------------

/// The creation of a materialized view starts: it stands in the catalog from then on, with its
/// internal tables.
pub open spec fn mview_started(c: CatalogManagerCoreModel, table: TableModel, internal: Seq<TableModel>) -> (
    CatalogManagerCoreModel,
    Seq<NotificationModel>,
) {
    (
        CatalogManagerCoreModel {
            database: DatabaseManagerModel {
                tables: inserted(c.database.tables, internal, table_id()).insert(table.id, table),
                relation_ref_count: raised(
                    c.database.relation_ref_count,
                    table.dependent_relations,
                ),
                ..c.database
            },
            user: owning_more(c.user, table.owner, 1),
        },
        seq![
            frontend_relations(
                Operation::Add,
                seq![RelationInfoModel::Table(table)] + table_infos(internal),
            ),
        ],
    )
}

/// A table with its internal tables, as relations.
pub(crate) fn group_tables(first: RelationInfo, tables: &Vec<Table>) -> (r: Vec<RelationInfo>)
    ensures
        views(r@) == seq![first@] + table_infos(views(tables@)),
{
    let mut r: Vec<RelationInfo> = Vec::new();
    r.push(first);
    assert(views(r@) =~= seq![first@]);
    append_all(&mut r, tables_to_infos(tables));
    r
}

/// One message.
pub(crate) fn one_message(message: Notification) -> (r: Vec<Notification>)
    ensures
        views(r@) == seq![message@],
{
    let mut r: Vec<Notification> = Vec::new();
    r.push(message);
    assert(views(r@) =~= seq![message@]);
    r
}

impl DatabaseManager {
    /// Inserts copies of tables.
    pub(crate) fn insert_tables(&mut self, tables: &Vec<Table>)
        ensures
            final(self)@ == (DatabaseManagerModel {
                tables: inserted(old(self)@.tables, views(tables@), table_id()),
                ..old(self)@
            }),
    {
        let f = |x: &Table| -> (y: u32)
            ensures
                y == x@.id,
        {
            x.id
        };
        self.tables.insert_all(tables, f, Ghost(table_id()));
    }
}

impl CatalogManager {
    /// This is used for `CREATE MATERIALIZED VIEW`.
    pub fn start_create_materialized_view_procedure(
        &mut self,
        table: &Table,
        internal_tables: &Vec<Table>,
    ) -> (r: MetaResult<Vec<Notification>>)
        requires
            mview_starting_presumes(old(self)@, table@),
        ensures
            match table_start_refusal(old(self)@, table@) {
                Some(e) => r is Err && r->Err_0@ == e && final(self)@ == old(self)@,
                None => {
                    let (c, messages) = mview_started(old(self)@, table@, views(internal_tables@));
                    r is Ok && views(r->Ok_0@) == messages && final(self)@ == c
                },
            },
    {
        match self.check_table_start(table) {
            Err(e) => {
                return Err(e);
            },
            Ok(_) => {},
        }
        self.core.database.insert_tables(internal_tables);
        self.core.database.tables.insert(table.id, table.duplicate());
        raise_all(&mut self.core.database.relation_ref_count, &table.dependent_relations);
        self.core.user.increase_ref(table.owner);
        let relations = group_tables(RelationInfo::Table(table.duplicate()), internal_tables);
        Ok(one_message(Self::notify_frontend_relations(Operation::Add, relations)))
    }
}

/// What is left for others to do after a materialized view is cancelled: the messages, and those
/// who wait for its end and have to be told that it was cancelled.
pub struct CancelledJob {
    pub messages: Vec<Notification>,
    pub notifiers: Vec<u64>,
}

/// Why a materialized view cannot be cancelled.
pub open spec fn mview_cancel_refusal(db: DatabaseManagerModel, id: u32) -> Option<MetaErrorModel> {
    if db.tables.contains_key(id) && db.tables[id].stream_job_status != StreamJobStatus::Creating {
        Some(MetaErrorModel::NotCreating(id))
    } else {
        None
    }
}

/// Those who wait for the end of a job.
pub open spec fn waiting_for(db: DatabaseManagerModel, id: u32) -> Seq<u64> {
    if db.creating_table_finish_notifier.contains_key(id) {
        db.creating_table_finish_notifier[id]
    } else {
        Seq::empty()
    }
}

/// The catalog after a materialized view is cancelled.
pub open spec fn mview_cancelled(c: CatalogManagerCoreModel, id: u32, internal: Seq<u32>) -> CatalogManagerCoreModel {
    let table = c.database.tables[id];
    CatalogManagerCoreModel {
        database: DatabaseManagerModel {
            tables: c.database.tables.remove_keys((seq![id] + internal).to_set()),
            relation_ref_count: lowered(c.database.relation_ref_count, table.dependent_relations),
            creating_table_finish_notifier: c.database.creating_table_finish_notifier.remove(id),
            ..c.database
        },
        user: owning_less(c.user, table.owner, 1),
    }
}

impl CatalogManager {
    /// Used to cleanup `CREATE MATERIALIZED VIEW` state in stream manager.
    /// It is required because failure may not necessarily happen in barrier,
    /// e.g. when cordon nodes.
    /// and we still need some way to cleanup the state.
    ///
    /// Returns `None` if `table_id` is not found.
    pub fn cancel_create_materialized_view_procedure(
        &mut self,
        table_id: u32,
        internal_table_ids: &Vec<u32>,
    ) -> (r: MetaResult<Option<CancelledJob>>)
        requires
            mview_cancelling_presumes(old(self)@, table_id, internal_table_ids@),
        ensures
            ({
                let c = old(self)@;
                if !c.database.tables.contains_key(table_id) {
                    r matches Ok(None) && final(self)@ == c
                } else {
                    match mview_cancel_refusal(c.database, table_id) {
                        Some(e) => r is Err && r->Err_0@ == e && final(self)@ == c,
                        None => {
                            &&& r matches Ok(Some(job)) && {
                                &&& views(job.messages@) == seq![
                                    frontend_relations(
                                        Operation::Delete,
                                        seq![
                                            RelationInfoModel::Table(c.database.tables[table_id]),
                                        ] + table_infos(
                                            values_at(c.database.tables, internal_table_ids@),
                                        ),
                                    ),
                                ]
                                &&& job.notifiers@ == waiting_for(c.database, table_id)
                            }
                            &&& final(self)@ == mview_cancelled(c, table_id, internal_table_ids@)
                        },
                    }
                }
            }),
    {
        let ghost c = self@;
        let table = match self.core.database.tables.get(table_id) {
            Some(table) => table.duplicate(),
            None => {
                return Ok(None);
            },
        };
        if table.stream_job_status != StreamJobStatus::Creating {
            return Err(MetaError::NotCreating(table_id));
        }
        let internal = self.core.database.tables.values_at(internal_table_ids);
        let mut ids: Vec<u32> = Vec::new();
        ids.push(table_id);
        let mut part = copy_all(internal_table_ids);
        ids.append(&mut part);
        proof {
            assert(ids@ =~= seq![table_id] + internal_table_ids@);
            assert forall|i: int| 0 <= i < ids@.len() implies c.database.tables.contains_key(
                #[trigger] ids@[i],
            ) by {
                if i > 0 {
                    assert(ids@[i] == internal_table_ids@[i - 1]);
                }
            }
        }
        self.core.database.tables.remove_all(&ids);
        self.core.user.decrease_ref(table.owner);
        lower_all(&mut self.core.database.relation_ref_count, &table.dependent_relations);
        let notifiers = match self.core.database.creating_table_finish_notifier.remove(table_id) {
            Some(notifiers) => notifiers,
            None => {
                let none: Vec<u64> = Vec::new();
                assert(none@ =~= Seq::<u64>::empty());
                none
            },
        };
        let relations = group_tables(RelationInfo::Table(table), &internal);
        let messages = one_message(
            Self::notify_frontend_relations(Operation::Delete, relations),
        );
        assert(self@ =~= mview_cancelled(c, table_id, internal_table_ids@));
        Ok(Some(CancelledJob { messages, notifiers }))
    }
}

// ---------------------------------------------------------------------------
// Sources.
// ---------------------------------------------------------------------------

/// Why the creation of a source, alone or with a table, cannot start.
pub open spec fn source_start_refusal(c: CatalogManagerCoreModel, source: SourceModel) -> Option<MetaErrorModel> {
    either(
        c.database.ensure_database(source.database_id),
        either(
            c.database.ensure_schema(source.schema_id),
            either(c.database.name_clash(source_key(source)), c.user.ensure_user(source.owner)),
        ),
    )
}

/// The creation of a source starts. Where its connection is missing, it is marked all the same.
pub open spec fn source_started(c: CatalogManagerCoreModel, source: SourceModel) -> Step {
    match source_start_refusal(c, source) {
        Some(e) => (c, Some(e)),
        None => if c.database.in_progress(source_key(source)) {
            (c, Some(MetaErrorModel::CreatingProcedure(CatalogKind::Source)))
        } else {
            let missing = c.database.connection_missing(source.connection_id);
            (
                CatalogManagerCoreModel {
                    database: c.database.marked(source_key(source)).referring(
                        Seq::empty(),
                        if missing {
                            Seq::empty()
                        } else {
                            one_or_none(source.connection_id)
                        },
                        source.secret_ids,
                    ),
                    user: owning_more(c.user, source.owner, 1),
                },
                if missing {
                    Some(MetaErrorModel::ConnectionMissing(source.connection_id->0))
                } else {
                    None
                },
            )
        },
    }
}

/// The creation of a source is cancelled.
pub open spec fn source_cancelled(c: CatalogManagerCoreModel, source: SourceModel) -> CatalogManagerCoreModel {
    CatalogManagerCoreModel {
        database: c.database.unmarked(source_key(source)).releasing(
            Seq::empty(),
            one_or_none(source.connection_id),
            source.secret_ids,
        ),
        user: owning_less(c.user, source.owner, 1),
    }
}

/// The creation of a table with a source starts. Where the table depends on relations, or where
/// the connection of the source is missing, both are marked all the same.
pub open spec fn table_with_source_started(c: CatalogManagerCoreModel, source: SourceModel, table: TableModel) -> Step {
    match source_start_refusal(c, source) {
        Some(e) => (c, Some(e)),
        None => if c.database.in_progress(source_key(source)) || c.database.in_progress(
            table_key(table),
        ) {
            (c, Some(MetaErrorModel::TableOrSourceCreating))
        } else {
            let marked = c.database.marked(source_key(source)).marked(table_key(table)).job_marked(
                table.id,
                table_key(table),
            );
            if table.dependent_relations.len() > 0 {
                (
                    CatalogManagerCoreModel { database: marked, ..c },
                    Some(MetaErrorModel::DependentRelationsNotEmpty),
                )
            } else {
                let missing = c.database.connection_missing(source.connection_id);
                (
                    CatalogManagerCoreModel {
                        database: marked.referring(
                            Seq::empty(),
                            if missing {
                                Seq::empty()
                            } else {
                                one_or_none(source.connection_id)
                            },
                            source.secret_ids,
                        ),
                        user: owning_more(c.user, source.owner, 2),
                    },
                    if missing {
                        Some(MetaErrorModel::ConnectionMissing(source.connection_id->0))
                    } else {
                        None
                    },
                )
            }
        },
    }
}

/// The creation of a table with a source is cancelled.
pub open spec fn table_with_source_cancelled(
    c: CatalogManagerCoreModel,
    source: SourceModel,
    table: TableModel,
) -> CatalogManagerCoreModel {
    CatalogManagerCoreModel {
        database: c.database.unmarked(source_key(source)).unmarked(table_key(table)).job_unmarked(
            table.id,
        ).releasing(Seq::empty(), one_or_none(source.connection_id), source.secret_ids),
        user: owning_less(c.user, source.owner, 2),
    }
}

impl CatalogManager {
    pub(crate) fn check_source_start(&self, source: &Source) -> (r: MetaResult<()>)
        ensures
            refusal(r) == source_start_refusal(self@, source@),
    {
        match self.core.database.ensure_database_id(source.database_id) {
            Err(e) => {
                return Err(e);
            },
            Ok(_) => {},
        }
        match self.core.database.ensure_schema_id(source.schema_id) {
            Err(e) => {
                return Err(e);
            },
            Ok(_) => {},
        }
        match self.core.database.check_relation_name_duplicated(&source.key()) {
            Err(e) => {
                return Err(e);
            },
            Ok(_) => {},
        }
        self.core.user.ensure_user_id(source.owner)
    }

    /// Adds the references of a source or a sink; a missing connection is an error.
    fn refer_connection(&mut self, connection: Option<u32>) -> (r: MetaResult<()>)
        requires
            fits(old(self)@.database.connection_ref_count, one_or_none(connection)),
        ensures
            match connection {
                Some(id) if old(self)@.database.connection_missing(connection) => r is Err
                    && r->Err_0@ == MetaErrorModel::ConnectionMissing(id) && final(self)@ == old(
                    self,
                )@,
                _ => r is Ok && final(self)@ == (CatalogManagerCoreModel {
                    database: DatabaseManagerModel {
                        connection_ref_count: raised(
                            old(self)@.database.connection_ref_count,
                            one_or_none(connection),
                        ),
                        ..old(self)@.database
                    },
                    ..old(self)@
                }),
            },
    {
        match connection {
            Some(id) => {
                if !self.core.database.connections.contains_key(id) {
                    return Err(MetaError::ConnectionMissing(id));
                }
            },
            None => {},
        }
        let ids = id_list(connection);
        raise_all(&mut self.core.database.connection_ref_count, &ids);
        Ok(())
    }

    pub fn start_create_source_procedure(&mut self, source: &Source) -> (r: MetaResult<()>)
        requires
            source_starting_presumes(old(self)@, source@),
        ensures
            ends_at(r, final(self)@, source_started(old(self)@, source@)),
    {
        match self.check_source_start(source) {
            Err(e) => {
                return Err(e);
            },
            Ok(_) => {},
        }
        let key = source.key();
        if self.core.database.has_in_progress_creation(&key) {
            return Err(MetaError::CreatingProcedure(CatalogKind::Source));
        }
        self.core.database.mark_creating(&key);
        self.core.user.increase_ref(source.owner);
        raise_all(&mut self.core.database.secret_ref_count, &source.secret_ids);
        proof {
            lemma_raised_nothing(self@.database.relation_ref_count);
            lemma_raised_nothing(self@.database.connection_ref_count);
        }
        self.refer_connection(source.connection_id)
    }

    pub fn cancel_create_source_procedure(&mut self, source: &Source)
        requires
            source_cancelling_presumes(old(self)@, source@),
        ensures
            final(self)@ == source_cancelled(old(self)@, source@),
    {
        self.core.database.unmark_creating(&source.key());
        self.core.user.decrease_ref(source.owner);
        let none: Vec<u32> = Vec::new();
        assert(none@ =~= Seq::<u32>::empty());
        let connections = id_list(source.connection_id);
        self.core.database.release_references(&none, &connections, &source.secret_ids);
    }

    pub fn start_create_table_procedure_with_source(&mut self, source: &Source, table: &Table) -> (r:
        MetaResult<()>)
        requires
            table_with_source_starting_presumes(old(self)@, source@, table@),
        ensures
            ends_at(r, final(self)@, table_with_source_started(old(self)@, source@, table@)),
    {
        match self.check_source_start(source) {
            Err(e) => {
                return Err(e);
            },
            Ok(_) => {},
        }
        let source_name = source.key();
        let table_name = table.key();
        if self.core.database.has_in_progress_creation(&source_name)
            || self.core.database.has_in_progress_creation(&table_name) {
            return Err(MetaError::TableOrSourceCreating);
        }
        self.core.database.mark_creating(&source_name);
        self.core.database.mark_creating(&table_name);
        self.core.database.mark_creating_streaming_job(table.id, table_name);
        if table.dependent_relations.len() > 0 {
            return Err(MetaError::DependentRelationsNotEmpty);
        }
        self.core.user.increase_ref_count(source.owner, 2);
        raise_all(&mut self.core.database.secret_ref_count, &source.secret_ids);
        proof {
            lemma_raised_nothing(self@.database.relation_ref_count);
            lemma_raised_nothing(self@.database.connection_ref_count);
        }
        self.refer_connection(source.connection_id)
    }

    pub fn cancel_create_table_procedure_with_source(&mut self, source: &Source, table: &Table)
        requires
            table_with_source_cancelling_presumes(old(self)@, source@, table@),
        ensures
            final(self)@ == table_with_source_cancelled(old(self)@, source@, table@),
    {
        self.core.database.unmark_creating(&source.key());
        self.core.database.unmark_creating(&table.key());
        self.core.database.unmark_creating_streaming_job(table.id);
        self.core.user.decrease_ref_count(source.owner, 2);
        let none: Vec<u32> = Vec::new();
        assert(none@ =~= Seq::<u32>::empty());
        let connections = id_list(source.connection_id);
        self.core.database.release_references(&none, &connections, &source.secret_ids);
    }
}

// ---------------------------------------------------------------------------
// Indexes.
// ---------------------------------------------------------------------------

/// Why the creation of an index cannot start.
pub open spec fn index_start_refusal(c: CatalogManagerCoreModel, index: IndexModel) -> Option<MetaErrorModel> {
    either(
        c.database.ensure_database(index.database_id),
        either(
            c.database.ensure_schema(index.schema_id),
            either(
                c.database.ensure_table(index.primary_table_id),
                either(c.database.name_clash(index_key(index)), c.user.ensure_user(index.owner)),
            ),
        ),
    )
}

/// The creation of an index starts; its owner is charged with the index and its table.
pub open spec fn index_started(c: CatalogManagerCoreModel, index: IndexModel, table: TableModel) -> Step {
    match index_start_refusal(c, index) {
        Some(e) => (c, Some(e)),
        None => if c.database.in_progress(index_key(index)) {
            (c, Some(MetaErrorModel::AlreadyCreating(CatalogKind::Index)))
        } else {
            (
                CatalogManagerCoreModel {
                    database: c.database.marked(index_key(index)).job_marked(
                        table.id,
                        index_key(index),
                    ).referring(table.dependent_relations, Seq::empty(), Seq::empty()),
                    user: owning_more(c.user, index.owner, 2),
                },
                None,
            )
        },
    }
}

/// The creation of an index is cancelled.
pub open spec fn index_cancelled(c: CatalogManagerCoreModel, index: IndexModel, table: TableModel) -> CatalogManagerCoreModel {
    CatalogManagerCoreModel {
        database: c.database.unmarked(index_key(index)).job_unmarked(table.id).releasing(
            table.dependent_relations,
            Seq::empty(),
            Seq::empty(),
        ),
        user: owning_less(c.user, index.owner, 2),
    }
}

impl CatalogManager {
    pub(crate) fn check_index_start(&self, index: &Index) -> (r: MetaResult<()>)
        ensures
            refusal(r) == index_start_refusal(self@, index@),
    {
        match self.core.database.ensure_database_id(index.database_id) {
            Err(e) => {
                return Err(e);
            },
            Ok(_) => {},
        }
        match self.core.database.ensure_schema_id(index.schema_id) {
            Err(e) => {
                return Err(e);
            },
            Ok(_) => {},
        }
        match self.core.database.ensure_table_id(index.primary_table_id) {
            Err(e) => {
                return Err(e);
            },
            Ok(_) => {},
        }
        match self.core.database.check_relation_name_duplicated(&index.key()) {
            Err(e) => {
                return Err(e);
            },
            Ok(_) => {},
        }
        self.core.user.ensure_user_id(index.owner)
    }

    /// The table of an index depends on the indexed table alone.
    pub fn start_create_index_procedure(&mut self, index: &Index, index_table: &Table) -> (r:
        MetaResult<()>)
        requires
            index_starting_presumes(old(self)@, index@, index_table@),
        ensures
            ends_at(r, final(self)@, index_started(old(self)@, index@, index_table@)),
    {
        match self.check_index_start(index) {
            Err(e) => {
                return Err(e);
            },
            Ok(_) => {},
        }
        let key = index.key();
        if self.core.database.has_in_progress_creation(&key) {
            return Err(MetaError::AlreadyCreating(CatalogKind::Index));
        }
        self.core.database.mark_creating(&key);
        self.core.database.mark_creating_streaming_job(index_table.id, key);
        raise_all(&mut self.core.database.relation_ref_count, &index_table.dependent_relations);
        self.core.user.increase_ref_count(index.owner, 2);
        proof {
            lemma_raised_nothing(self@.database.connection_ref_count);
            lemma_raised_nothing(self@.database.secret_ref_count);
        }
        Ok(())
    }

    pub fn cancel_create_index_procedure(&mut self, index: &Index, index_table: &Table)
        requires
            index_cancelling_presumes(old(self)@, index@, index_table@),
        ensures
            final(self)@ == index_cancelled(old(self)@, index@, index_table@),
    {
        self.core.database.unmark_creating(&index.key());
        self.core.database.unmark_creating_streaming_job(index_table.id);
        lower_all(&mut self.core.database.relation_ref_count, &index_table.dependent_relations);
        self.core.user.decrease_ref_count(index.owner, 2);
        proof {
            lemma_lowered_nothing(self@.database.connection_ref_count);
            lemma_lowered_nothing(self@.database.secret_ref_count);
        }
    }
}

// ---------------------------------------------------------------------------
// Sinks.
// ---------------------------------------------------------------------------

/// Why the creation of a sink cannot start.
pub open spec fn sink_start_refusal(c: CatalogManagerCoreModel, sink: SinkModel) -> Option<MetaErrorModel> {
    either(
        c.database.ensure_database(sink.database_id),
        either(
            c.database.ensure_schema(sink.schema_id),
            either(
                c.database.ensure_relations(sink.dependent_relations),
                either(c.database.name_clash(sink_key(sink)), c.user.ensure_user(sink.owner)),
            ),
        ),
    )
}

/// The creation of a sink starts. Where its connection is missing, it is marked all the same.
pub open spec fn sink_started(c: CatalogManagerCoreModel, sink: SinkModel) -> Step {
    match sink_start_refusal(c, sink) {
        Some(e) => (c, Some(e)),
        None => if c.database.in_progress(sink_key(sink)) {
            (c, Some(MetaErrorModel::AlreadyCreating(CatalogKind::Sink)))
        } else {
            let missing = c.database.connection_missing(sink.connection_id);
            (
                CatalogManagerCoreModel {
                    database: c.database.marked(sink_key(sink)).job_marked(
                        sink.id,
                        sink_key(sink),
                    ).referring(
                        sink.dependent_relations,
                        if missing {
                            Seq::empty()
                        } else {
                            one_or_none(sink.connection_id)
                        },
                        sink.secret_ids,
                    ),
                    user: owning_more(c.user, sink.owner, 1),
                },
                if missing {
                    Some(MetaErrorModel::ConnectionMissing(sink.connection_id->0))
                } else {
                    None
                },
            )
        },
    }
}

/// A table that is being replaced is left as it is.
pub open spec fn replacing_cancelled(c: CatalogManagerCoreModel, source: Option<SourceModel>, table: TableModel) -> CatalogManagerCoreModel {
    CatalogManagerCoreModel {
        database: match source {
            Some(source) => c.database.unmarked(source_key(source)).unmarked(table_key(table)),
            None => c.database.unmarked(table_key(table)),
        },
        ..c
    }
}

/// A table, and its source, are in the catalog and being replaced.
pub open spec fn being_replaced(db: DatabaseManagerModel, source: Option<SourceModel>, table: TableModel) -> bool {
    &&& db.tables.contains_key(table.id)
    &&& db.in_progress(table_key(table))
    &&& match source {
        Some(source) => db.sources.contains_key(source.id) && db.in_progress(source_key(source)),
        None => true,
    }
}

/// The creation of a sink is cancelled, and with it the change of the table it writes into.
pub open spec fn sink_cancelled(c: CatalogManagerCoreModel, sink: SinkModel, target: Option<TargetTableModel>) -> CatalogManagerCoreModel {
    let cancelled = CatalogManagerCoreModel {
        database: c.database.unmarked(sink_key(sink)).job_unmarked(sink.id).releasing(
            sink.dependent_relations,
            one_or_none(sink.connection_id),
            sink.secret_ids,
        ),
        user: owning_less(c.user, sink.owner, 1),
    };
    match target {
        Some(target) => replacing_cancelled(cancelled, target.source, target.table),
        None => cancelled,
    }
}

impl CatalogManager {
    fn check_sink_start(&self, sink: &Sink) -> (r: MetaResult<()>)
        ensures
            refusal(r) == sink_start_refusal(self@, sink@),
    {
        match self.core.database.ensure_database_id(sink.database_id) {
            Err(e) => {
                return Err(e);
            },
            Ok(_) => {},
        }
        match self.core.database.ensure_schema_id(sink.schema_id) {
            Err(e) => {
                return Err(e);
            },
            Ok(_) => {},
        }
        match self.core.database.ensure_table_view_or_source_ids(&sink.dependent_relations) {
            Err(e) => {
                return Err(e);
            },
            Ok(_) => {},
        }
        match self.core.database.check_relation_name_duplicated(&sink.key()) {
            Err(e) => {
                return Err(e);
            },
            Ok(_) => {},
        }
        self.core.user.ensure_user_id(sink.owner)
    }

    pub fn start_create_sink_procedure(&mut self, sink: &Sink) -> (r: MetaResult<()>)
        requires
            sink_starting_presumes(old(self)@, sink@),
        ensures
            ends_at(r, final(self)@, sink_started(old(self)@, sink@)),
    {
        match self.check_sink_start(sink) {
            Err(e) => {
                return Err(e);
            },
            Ok(_) => {},
        }
        let key = sink.key();
        if self.core.database.has_in_progress_creation(&key) {
            return Err(MetaError::AlreadyCreating(CatalogKind::Sink));
        }
        self.core.database.mark_creating(&key);
        self.core.database.mark_creating_streaming_job(sink.id, key);
        raise_all(&mut self.core.database.relation_ref_count, &sink.dependent_relations);
        self.core.user.increase_ref(sink.owner);
        raise_all(&mut self.core.database.secret_ref_count, &sink.secret_ids);
        proof {
            lemma_raised_nothing(self@.database.connection_ref_count);
        }
        self.refer_connection(sink.connection_id)
    }

    pub fn cancel_create_sink_procedure(&mut self, sink: &Sink, target_table: &Option<TargetTable>)
        requires
            sink_cancelling_presumes(old(self)@, sink@, crate::util::id_map::opt_view(*target_table)),
        ensures
            final(self)@ == sink_cancelled(
                old(self)@,
                sink@,
                crate::util::id_map::opt_view(*target_table),
            ),
    {
        self.core.database.unmark_creating(&sink.key());
        self.core.database.unmark_creating_streaming_job(sink.id);
        let connections = id_list(sink.connection_id);
        self.core.database.release_references(
            &sink.dependent_relations,
            &connections,
            &sink.secret_ids,
        );
        self.core.user.decrease_ref(sink.owner);
        match target_table {
            Some(target) => {
                self.cancel_replace_table_procedure_inner(&target.source, &target.table);
            },
            None => {},
        }
    }

    pub fn cancel_replace_table_procedure_inner(&mut self, source: &Option<Source>, table: &Table)
        requires
            being_replaced(old(self)@.database, crate::util::id_map::opt_view(*source), table@),
        ensures
            final(self)@ == replacing_cancelled(
                old(self)@,
                crate::util::id_map::opt_view(*source),
                table@,
            ),
    {
        match source {
            Some(source) => {
                self.core.database.unmark_creating(&source.key());
            },
            None => {},
        }
        self.core.database.unmark_creating(&table.key());
    }
}

// ---------------------------------------------------------------------------
// Subscriptions.
// ---------------------------------------------------------------------------

/// Why the creation of a subscription cannot start.
pub open spec fn subscription_start_refusal(c: CatalogManagerCoreModel, subscription: SubscriptionModel) -> Option<
    MetaErrorModel,
> {
    either(
        c.database.ensure_database(subscription.database_id),
        either(
            c.database.ensure_schema(subscription.schema_id),
            either(
                c.database.ensure_relations(seq![subscription.dependent_table_id]),
                either(
                    c.database.name_clash(subscription_key(subscription)),
                    c.user.ensure_user(subscription.owner),
                ),
            ),
        ),
    )
}

/// The creation of a subscription starts; it stands in the catalog from then on.
pub open spec fn subscription_started(c: CatalogManagerCoreModel, subscription: SubscriptionModel) -> Step {
    match subscription_start_refusal(c, subscription) {
        Some(e) => (c, Some(e)),
        None => if c.database.in_progress(subscription_key(subscription)) {
            (c, Some(MetaErrorModel::AlreadyCreating(CatalogKind::Subscription)))
        } else {
            let database = c.database.marked(subscription_key(subscription)).job_marked(
                subscription.id,
                subscription_key(subscription),
            ).referring(seq![subscription.dependent_table_id], Seq::empty(), Seq::empty());
            (
                CatalogManagerCoreModel {
                    database: DatabaseManagerModel {
                        subscriptions: database.subscriptions.insert(subscription.id, subscription),
                        ..database
                    },
                    user: owning_more(c.user, subscription.owner, 1),
                },
                None,
            )
        },
    }
}

impl CatalogManager {
    fn check_subscription_start(&self, subscription: &Subscription) -> (r: MetaResult<()>)
        ensures
            refusal(r) == subscription_start_refusal(self@, subscription@),
    {
        match self.core.database.ensure_database_id(subscription.database_id) {
            Err(e) => {
                return Err(e);
            },
            Ok(_) => {},
        }
        match self.core.database.ensure_schema_id(subscription.schema_id) {
            Err(e) => {
                return Err(e);
            },
            Ok(_) => {},
        }
        let ids = id_list(Some(subscription.dependent_table_id));
        match self.core.database.ensure_table_view_or_source_ids(&ids) {
            Err(e) => {
                return Err(e);
            },
            Ok(_) => {},
        }
        match self.core.database.check_relation_name_duplicated(&subscription.key()) {
            Err(e) => {
                return Err(e);
            },
            Ok(_) => {},
        }
        self.core.user.ensure_user_id(subscription.owner)
    }

    pub fn start_create_subscription_procedure(&mut self, subscription: &Subscription) -> (r:
        MetaResult<()>)
        requires
            subscription_starting_presumes(old(self)@, subscription@),
        ensures
            ends_at(r, final(self)@, subscription_started(old(self)@, subscription@)),
    {
        match self.check_subscription_start(subscription) {
            Err(e) => {
                return Err(e);
            },
            Ok(_) => {},
        }
        let key = subscription.key();
        if self.core.database.has_in_progress_creation(&key) {
            return Err(MetaError::AlreadyCreating(CatalogKind::Subscription));
        }
        self.core.database.mark_creating(&key);
        self.core.database.mark_creating_streaming_job(subscription.id, key);
        let ids = id_list(Some(subscription.dependent_table_id));
        raise_all(&mut self.core.database.relation_ref_count, &ids);
        self.core.user.increase_ref(subscription.owner);
        self.core.database.subscriptions.insert(subscription.id, subscription.duplicate());
        proof {
            lemma_raised_nothing(self@.database.connection_ref_count);
            lemma_raised_nothing(self@.database.secret_ref_count);
        }
        Ok(())
    }
}

} // verus!
