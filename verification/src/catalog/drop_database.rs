//! Dropping a database with all that stands in it.

use vstd::prelude::*;

use crate::catalog::error::{CatalogKind, MetaError, MetaErrorModel, MetaResult};
use crate::catalog::manager::CatalogManager;
use crate::catalog::names::{internal_name, valid_table_name};
use crate::catalog::notify::{Info, InfoModel, Notification, NotificationModel, Operation};
use crate::catalog::privilege::{
    all_objects_named, check_objects_named, notify_users, stripped_users, updated_users, user_updates,
};
use crate::catalog::relations::{
    connection_owners, frontend, function_owners, index_owners, owners_of_connections,
    owners_of_functions, owners_of_indexes, owners_of_schemas, owners_of_secrets, owners_of_sinks,
    owners_of_sources, owners_of_subscriptions, owners_of_tables, owners_of_views, schema_owners,
    secret_owners, sink_owners, source_owners, subscription_owners, table_owners, view_owners,
};
use crate::catalog::state::{
    CatalogManagerCoreModel, DatabaseManager, DatabaseManagerModel, UserManagerModel,
};
use crate::catalog::types::{
    Connection, ConnectionModel, Function, FunctionModel, Index, IndexModel, Object, Schema,
    SchemaModel, Secret, SecretModel, Sink, SinkModel, Source, SourceModel, Subscription,
    SubscriptionModel, Table, TableModel, ViewInfo, ViewInfoModel,
};
use crate::util::counts::{check_covers, covers, lower_all, lowered};
use crate::util::id_map::{ids_where, lemma_ids_where, values_where, views, Entry, IdMap};
use crate::util::lists::{image, keep};

verus! {

pub open spec fn schema_of_database(id: u32) -> spec_fn(SchemaModel) -> bool {
    |x: SchemaModel| x.database_id == id
}

pub open spec fn source_of_database(id: u32) -> spec_fn(SourceModel) -> bool {
    |x: SourceModel| x.database_id == id
}

pub open spec fn sink_of_database(id: u32) -> spec_fn(SinkModel) -> bool {
    |x: SinkModel| x.database_id == id
}

pub open spec fn subscription_of_database(id: u32) -> spec_fn(SubscriptionModel) -> bool {
    |x: SubscriptionModel| x.database_id == id
}

pub open spec fn table_of_database(id: u32) -> spec_fn(TableModel) -> bool {
    |x: TableModel| x.database_id == id
}

pub open spec fn index_of_database(id: u32) -> spec_fn(IndexModel) -> bool {
    |x: IndexModel| x.database_id == id
}

pub open spec fn view_of_database(id: u32) -> spec_fn(ViewInfoModel) -> bool {
    |x: ViewInfoModel| x.database_id == id
}

pub open spec fn function_of_database(id: u32) -> spec_fn(FunctionModel) -> bool {
    |x: FunctionModel| x.database_id == id
}

pub open spec fn connection_of_database(id: u32) -> spec_fn(ConnectionModel) -> bool {
    |x: ConnectionModel| x.database_id == id
}

pub open spec fn secret_of_database(id: u32) -> spec_fn(SecretModel) -> bool {
    |x: SecretModel| x.database_id == id
}

/// The table is no internal table.
pub open spec fn named_table() -> spec_fn(TableModel) -> bool {
    |t: TableModel| !internal_name(t.name)
}

/// The source is run by a streaming job.
pub open spec fn shared_source() -> spec_fn(SourceModel) -> bool {
    |s: SourceModel|
        match s.info {
            Some(info) => info.is_shared,
            None => false,
        }
}

/// The objects whose privileges go with a database.
pub open spec fn database_objects(db: DatabaseManagerModel, id: u32) -> Seq<Object> {
    seq![Object::DatabaseId(id)] + image(
        ids_where(db.schemas, schema_of_database(id)),
        |x: u32| Object::SchemaId(x),
    ) + image(ids_where(db.views, view_of_database(id)), |x: u32| Object::ViewId(x)) + image(
        ids_where(db.tables, table_of_database(id)),
        |x: u32| Object::TableId(x),
    ) + image(ids_where(db.sources, source_of_database(id)), |x: u32| Object::SourceId(x)) + image(
        ids_where(db.functions, function_of_database(id)),
        |x: u32| Object::FunctionId(x),
    )
}

/// The owners of a database and of what stands in it. Internal tables are not counted.
pub open spec fn database_owners(db: DatabaseManagerModel, id: u32) -> Seq<u32> {
    seq![db.databases[id].owner] + schema_owners(values_where(db.schemas, schema_of_database(id)))
        + source_owners(values_where(db.sources, source_of_database(id))) + sink_owners(
        values_where(db.sinks, sink_of_database(id)),
    ) + subscription_owners(values_where(db.subscriptions, subscription_of_database(id)))
        + table_owners(values_where(db.tables, table_of_database(id)).filter(named_table()))
        + index_owners(values_where(db.indexes, index_of_database(id))) + view_owners(
        values_where(db.views, view_of_database(id)),
    ) + function_owners(values_where(db.functions, function_of_database(id))) + connection_owners(
        values_where(db.connections, connection_of_database(id)),
    ) + secret_owners(values_where(db.secrets, secret_of_database(id)))
}

/// The streaming jobs that end with a database: its tables, its shared sources and its sinks.
pub open spec fn database_jobs(db: DatabaseManagerModel, id: u32) -> Seq<u32> {
    image(
        values_where(db.tables, table_of_database(id)).filter(named_table()),
        |t: TableModel| t.id,
    ) + image(
        values_where(db.sources, source_of_database(id)).filter(shared_source()),
        |s: SourceModel| s.id,
    ) + image(values_where(db.sinks, sink_of_database(id)), |s: SinkModel| s.id)
}

/// The catalog without a database. Secrets are left where they are; only their owners are no
/// longer charged with them.
pub open spec fn without_database(c: CatalogManagerCoreModel, id: u32) -> CatalogManagerCoreModel {
    let db = c.database;
    let tables = ids_where(db.tables, table_of_database(id)).to_set();
    let sources = ids_where(db.sources, source_of_database(id)).to_set();
    let view_ids = ids_where(db.views, view_of_database(id)).to_set();
    let connections = ids_where(db.connections, connection_of_database(id)).to_set();
    CatalogManagerCoreModel {
        database: DatabaseManagerModel {
            databases: db.databases.remove(id),
            schemas: db.schemas.remove_keys(
                ids_where(db.schemas, schema_of_database(id)).to_set(),
            ),
            sources: db.sources.remove_keys(sources),
            sinks: db.sinks.remove_keys(ids_where(db.sinks, sink_of_database(id)).to_set()),
            subscriptions: db.subscriptions.remove_keys(
                ids_where(db.subscriptions, subscription_of_database(id)).to_set(),
            ),
            tables: db.tables.remove_keys(tables),
            indexes: db.indexes.remove_keys(
                ids_where(db.indexes, index_of_database(id)).to_set(),
            ),
            views: db.views.remove_keys(view_ids),
            functions: db.functions.remove_keys(
                ids_where(db.functions, function_of_database(id)).to_set(),
            ),
            connections: db.connections.remove_keys(connections),
            relation_ref_count: db.relation_ref_count.remove_keys(tables).remove_keys(
                sources,
            ).remove_keys(view_ids),
            connection_ref_count: db.connection_ref_count.remove_keys(connections),
            ..db
        },
        user: UserManagerModel {
            user_info: stripped_users(c.user.user_info, database_objects(db, id)),
            catalog_create_ref_count: lowered(
                c.user.catalog_create_ref_count,
                database_owners(db, id),
            ),
            ..c.user
        },
    }
}

/// What is told about the drop of a database: the users who lose privileges, then the database.
pub open spec fn database_drop_messages(c: CatalogManagerCoreModel, id: u32) -> Seq<NotificationModel> {
    user_updates(updated_users(c.user.user_info, database_objects(c.database, id))).push(
        frontend(Operation::Delete, InfoModel::Database(c.database.databases[id])),
    )
}

/// Why a database cannot be dropped.
pub open spec fn database_drop_refusal(db: DatabaseManagerModel, id: u32) -> Option<MetaErrorModel> {
    if db.creating_in_database(id) {
        Some(MetaErrorModel::DatabaseBusy)
    } else if !db.databases.contains_key(id) {
        Some(MetaErrorModel::CatalogIdNotFound(CatalogKind::Database, id))
    } else {
        None
    }
}

/// What is left for others to do after a database is dropped.
pub struct DroppedDatabase {
    pub messages: Vec<Notification>,
    pub streaming_job_ids: Vec<u32>,
    pub source_ids: Vec<u32>,
    pub connections: Vec<Connection>,
}

/// Removes the counts at `ids`.
fn forget_counts(counts: &mut IdMap<usize>, ids: &Vec<u32>)
    ensures
        final(counts)@ == old(counts)@.remove_keys(ids@.to_set()),
{
    let ghost before = counts@;
    let mut i: usize = 0;
    assert(before =~= before.remove_keys(ids@.take(0).to_set()));
    while i < ids.len()
        invariant
            i <= ids.len(),
            counts@ == before.remove_keys(ids@.take(i as int).to_set()),
        decreases ids.len() - i,
    {
        let id: u32 = ids[i];
        proof {
            assert(ids@.take(i + 1) =~= ids@.take(i as int).push(id));
            assert(ids@.take(i + 1).to_set() =~= ids@.take(i as int).to_set().insert(id)) by {
                broadcast use Seq::lemma_push_to_set_commute;

            }
        }
        counts.remove(id);
        assert(counts@ =~= before.remove_keys(ids@.take(i + 1).to_set()));
        i = i + 1;
    }
    assert(ids@.take(i as int) =~= ids@);
}

fn add_schema_objects(objects: &mut Vec<Object>, ids: &Vec<u32>)
    ensures
        final(objects)@ == old(objects)@ + image(ids@, |x: u32| Object::SchemaId(x)),
{
    let ghost before = objects@;
    let ghost more = image(ids@, |x: u32| Object::SchemaId(x));
    let mut i: usize = 0;
    assert(before =~= before + more.take(0));
    while i < ids.len()
        invariant
            i <= ids.len(),
            more == image(ids@, |x: u32| Object::SchemaId(x)),
            objects@ == before + more.take(i as int),
        decreases ids.len() - i,
    {
        objects.push(Object::SchemaId(ids[i]));
        i = i + 1;
        assert(objects@ =~= before + more.take(i as int));
    }
    assert(more.take(i as int) =~= more);
}

fn add_view_objects(objects: &mut Vec<Object>, ids: &Vec<u32>)
    ensures
        final(objects)@ == old(objects)@ + image(ids@, |x: u32| Object::ViewId(x)),
{
    let ghost before = objects@;
    let ghost more = image(ids@, |x: u32| Object::ViewId(x));
    let mut i: usize = 0;
    assert(before =~= before + more.take(0));
    while i < ids.len()
        invariant
            i <= ids.len(),
            more == image(ids@, |x: u32| Object::ViewId(x)),
            objects@ == before + more.take(i as int),
        decreases ids.len() - i,
    {
        objects.push(Object::ViewId(ids[i]));
        i = i + 1;
        assert(objects@ =~= before + more.take(i as int));
    }
    assert(more.take(i as int) =~= more);
}

fn add_table_objects(objects: &mut Vec<Object>, ids: &Vec<u32>)
    ensures
        final(objects)@ == old(objects)@ + image(ids@, |x: u32| Object::TableId(x)),
{
    let ghost before = objects@;
    let ghost more = image(ids@, |x: u32| Object::TableId(x));
    let mut i: usize = 0;
    assert(before =~= before + more.take(0));
    while i < ids.len()
        invariant
            i <= ids.len(),
            more == image(ids@, |x: u32| Object::TableId(x)),
            objects@ == before + more.take(i as int),
        decreases ids.len() - i,
    {
        objects.push(Object::TableId(ids[i]));
        i = i + 1;
        assert(objects@ =~= before + more.take(i as int));
    }
    assert(more.take(i as int) =~= more);
}

fn add_source_objects(objects: &mut Vec<Object>, ids: &Vec<u32>)
    ensures
        final(objects)@ == old(objects)@ + image(ids@, |x: u32| Object::SourceId(x)),
{
    let ghost before = objects@;
    let ghost more = image(ids@, |x: u32| Object::SourceId(x));
    let mut i: usize = 0;
    assert(before =~= before + more.take(0));
    while i < ids.len()
        invariant
            i <= ids.len(),
            more == image(ids@, |x: u32| Object::SourceId(x)),
            objects@ == before + more.take(i as int),
        decreases ids.len() - i,
    {
        objects.push(Object::SourceId(ids[i]));
        i = i + 1;
        assert(objects@ =~= before + more.take(i as int));
    }
    assert(more.take(i as int) =~= more);
}

fn add_function_objects(objects: &mut Vec<Object>, ids: &Vec<u32>)
    ensures
        final(objects)@ == old(objects)@ + image(ids@, |x: u32| Object::FunctionId(x)),
{
    let ghost before = objects@;
    let ghost more = image(ids@, |x: u32| Object::FunctionId(x));
    let mut i: usize = 0;
    assert(before =~= before + more.take(0));
    while i < ids.len()
        invariant
            i <= ids.len(),
            more == image(ids@, |x: u32| Object::FunctionId(x)),
            objects@ == before + more.take(i as int),
        decreases ids.len() - i,
    {
        objects.push(Object::FunctionId(ids[i]));
        i = i + 1;
        assert(objects@ =~= before + more.take(i as int));
    }
    assert(more.take(i as int) =~= more);
}

impl DatabaseManager {
    /// The owners of a database and of what stands in it.
    fn owners_in_database(&self, database_id: u32) -> (r: Vec<u32>)
        requires
            self@.databases.contains_key(database_id),
        ensures
            r@ == database_owners(self@, database_id),
    {
        let mut owners: Vec<u32> = Vec::new();
        match self.databases.get(database_id) {
            Some(database) => {
                owners.push(database.owner);
            },
            None => {},
        }
        assert(owners@ =~= seq![self@.databases[database_id].owner]);
        let f = |x: &Schema| -> (b: bool)
            ensures
                b == schema_of_database(database_id)(x@),
        {
            x.database_id == database_id
        };
        let list = self.schemas.values_where(f, Ghost(schema_of_database(database_id)));
        let mut part = owners_of_schemas(&list);
        owners.append(&mut part);
        let f = |x: &Source| -> (b: bool)
            ensures
                b == source_of_database(database_id)(x@),
        {
            x.database_id == database_id
        };
        let list = self.sources.values_where(f, Ghost(source_of_database(database_id)));
        let mut part = owners_of_sources(&list);
        owners.append(&mut part);
        let f = |x: &Sink| -> (b: bool)
            ensures
                b == sink_of_database(database_id)(x@),
        {
            x.database_id == database_id
        };
        let list = self.sinks.values_where(f, Ghost(sink_of_database(database_id)));
        let mut part = owners_of_sinks(&list);
        owners.append(&mut part);
        let f = |x: &Subscription| -> (b: bool)
            ensures
                b == subscription_of_database(database_id)(x@),
        {
            x.database_id == database_id
        };
        let list = self.subscriptions.values_where(f, Ghost(subscription_of_database(database_id)));
        let mut part = owners_of_subscriptions(&list);
        owners.append(&mut part);
        let f = |x: &Table| -> (b: bool)
            ensures
                b == table_of_database(database_id)(x@),
        {
            x.database_id == database_id
        };
        let list = self.tables.values_where(f, Ghost(table_of_database(database_id)));
        let f = |x: &Table| -> (b: bool)
            ensures
                b == named_table()(x@),
        {
            valid_table_name(x.name.as_str())
        };
        let list = keep(&list, f, Ghost(named_table()));
        let mut part = owners_of_tables(&list);
        owners.append(&mut part);
        let f = |x: &Index| -> (b: bool)
            ensures
                b == index_of_database(database_id)(x@),
        {
            x.database_id == database_id
        };
        let list = self.indexes.values_where(f, Ghost(index_of_database(database_id)));
        let mut part = owners_of_indexes(&list);
        owners.append(&mut part);
        let f = |x: &ViewInfo| -> (b: bool)
            ensures
                b == view_of_database(database_id)(x@),
        {
            x.database_id == database_id
        };
        let list = self.views.values_where(f, Ghost(view_of_database(database_id)));
        let mut part = owners_of_views(&list);
        owners.append(&mut part);
        let f = |x: &Function| -> (b: bool)
            ensures
                b == function_of_database(database_id)(x@),
        {
            x.database_id == database_id
        };
        let list = self.functions.values_where(f, Ghost(function_of_database(database_id)));
        let mut part = owners_of_functions(&list);
        owners.append(&mut part);
        let f = |x: &Connection| -> (b: bool)
            ensures
                b == connection_of_database(database_id)(x@),
        {
            x.database_id == database_id
        };
        let list = self.connections.values_where(f, Ghost(connection_of_database(database_id)));
        let mut part = owners_of_connections(&list);
        owners.append(&mut part);
        let f = |x: &Secret| -> (b: bool)
            ensures
                b == secret_of_database(database_id)(x@),
        {
            x.database_id == database_id
        };
        let list = self.secrets.values_where(f, Ghost(secret_of_database(database_id)));
        let mut part = owners_of_secrets(&list);
        owners.append(&mut part);
        assert(owners@ == database_owners(self@, database_id));
        owners
    }
}

/// What dropping a database presumes: its owners are charged with it and with what stands in it,
/// and privileges name their objects.
pub open spec fn database_dropping_presumes(c: CatalogManagerCoreModel, id: u32) -> bool {
    database_drop_refusal(c.database, id) is None ==> covers(
        c.user.catalog_create_ref_count,
        database_owners(c.database, id),
    ) && all_objects_named(c.user.user_info)
}

impl CatalogManager {
    /// Tells whether [`Self::drop_database`] can be called.
    pub fn can_drop_database(&self, database_id: u32) -> (r: bool)
        ensures
            r == database_dropping_presumes(self@, database_id),
    {
        let db = &self.core.database;
        if db.has_creation_in_database(database_id) || !db.databases.contains_key(database_id) {
            return true;
        }
        let owners = db.owners_in_database(database_id);
        check_covers(&self.core.user.catalog_create_ref_count, &owners) && check_objects_named(
            &self.core.user.user_info,
        )
    }

    /// return id of streaming jobs in the database which need to be dropped by stream manager.
    pub fn drop_database(&mut self, database_id: u32) -> (r: MetaResult<DroppedDatabase>)
        requires
            database_dropping_presumes(old(self)@, database_id),
        ensures
            match database_drop_refusal(old(self)@.database, database_id) {
                Some(e) => r is Err && r->Err_0@ == e && final(self)@ == old(self)@,
                None => {
                    &&& r is Ok
                    &&& final(self)@ == without_database(old(self)@, database_id)
                    &&& views(r->Ok_0.messages@) == database_drop_messages(old(self)@, database_id)
                    &&& r->Ok_0.streaming_job_ids@ == database_jobs(old(self)@.database, database_id)
                    &&& r->Ok_0.source_ids@ == image(
                        values_where(
                            old(self)@.database.sources,
                            source_of_database(database_id),
                        ),
                        |s: SourceModel| s.id,
                    )
                    &&& views(r->Ok_0.connections@) == values_where(
                        old(self)@.database.connections,
                        connection_of_database(database_id),
                    )
                },
            },
    {
        let ghost c = self@;
        let ghost db = c.database;
        if self.core.database.has_creation_in_database(database_id) {
            return Err(MetaError::DatabaseBusy);
        }
        let database = match self.core.database.databases.get(database_id) {
            Some(database) => database.duplicate(),
            None => {
                return Err(MetaError::CatalogIdNotFound(CatalogKind::Database, database_id));
            },
        };
        let owners = self.core.database.owners_in_database(database_id);
        let f = |x: &Schema| -> (b: bool)
            ensures
                b == schema_of_database(database_id)(x@),
        {
            x.database_id == database_id
        };
        let schema_ids = self.core.database.schemas.ids_where(f, Ghost(schema_of_database(database_id)));
        proof {
            self.core.database.schemas.lemma_finite();
            lemma_ids_where(db.schemas, schema_of_database(database_id));
        }
        let f = |x: &Source| -> (b: bool)
            ensures
                b == source_of_database(database_id)(x@),
        {
            x.database_id == database_id
        };
        let source_ids = self.core.database.sources.ids_where(f, Ghost(source_of_database(database_id)));
        proof {
            self.core.database.sources.lemma_finite();
            lemma_ids_where(db.sources, source_of_database(database_id));
        }
        let f = |x: &Sink| -> (b: bool)
            ensures
                b == sink_of_database(database_id)(x@),
        {
            x.database_id == database_id
        };
        let sink_ids = self.core.database.sinks.ids_where(f, Ghost(sink_of_database(database_id)));
        proof {
            self.core.database.sinks.lemma_finite();
            lemma_ids_where(db.sinks, sink_of_database(database_id));
        }
        let f = |x: &Subscription| -> (b: bool)
            ensures
                b == subscription_of_database(database_id)(x@),
        {
            x.database_id == database_id
        };
        let subscription_ids = self.core.database.subscriptions.ids_where(f, Ghost(subscription_of_database(database_id)));
        proof {
            self.core.database.subscriptions.lemma_finite();
            lemma_ids_where(db.subscriptions, subscription_of_database(database_id));
        }
        let f = |x: &Table| -> (b: bool)
            ensures
                b == table_of_database(database_id)(x@),
        {
            x.database_id == database_id
        };
        let table_ids = self.core.database.tables.ids_where(f, Ghost(table_of_database(database_id)));
        proof {
            self.core.database.tables.lemma_finite();
            lemma_ids_where(db.tables, table_of_database(database_id));
        }
        let f = |x: &Index| -> (b: bool)
            ensures
                b == index_of_database(database_id)(x@),
        {
            x.database_id == database_id
        };
        let index_ids = self.core.database.indexes.ids_where(f, Ghost(index_of_database(database_id)));
        proof {
            self.core.database.indexes.lemma_finite();
            lemma_ids_where(db.indexes, index_of_database(database_id));
        }
        let f = |x: &ViewInfo| -> (b: bool)
            ensures
                b == view_of_database(database_id)(x@),
        {
            x.database_id == database_id
        };
        let view_ids = self.core.database.views.ids_where(f, Ghost(view_of_database(database_id)));
        proof {
            self.core.database.views.lemma_finite();
            lemma_ids_where(db.views, view_of_database(database_id));
        }
        let f = |x: &Function| -> (b: bool)
            ensures
                b == function_of_database(database_id)(x@),
        {
            x.database_id == database_id
        };
        let function_ids = self.core.database.functions.ids_where(f, Ghost(function_of_database(database_id)));
        proof {
            self.core.database.functions.lemma_finite();
            lemma_ids_where(db.functions, function_of_database(database_id));
        }
        let f = |x: &Connection| -> (b: bool)
            ensures
                b == connection_of_database(database_id)(x@),
        {
            x.database_id == database_id
        };
        let connection_ids = self.core.database.connections.ids_where(f, Ghost(connection_of_database(database_id)));
        proof {
            self.core.database.connections.lemma_finite();
            lemma_ids_where(db.connections, connection_of_database(database_id));
        }
        let mut objects: Vec<Object> = Vec::new();
        objects.push(Object::DatabaseId(database_id));
        assert(objects@ =~= seq![Object::DatabaseId(database_id)]);
        add_schema_objects(&mut objects, &schema_ids);
        add_view_objects(&mut objects, &view_ids);
        add_table_objects(&mut objects, &table_ids);
        add_source_objects(&mut objects, &source_ids);
        add_function_objects(&mut objects, &function_ids);
        self.core.database.databases.remove(database_id);
        self.core.database.schemas.remove_all(&schema_ids);
        let source_list = self.core.database.sources.remove_all(&source_ids);
        let sink_list = self.core.database.sinks.remove_all(&sink_ids);
        self.core.database.subscriptions.remove_all(&subscription_ids);
        let table_list = self.core.database.tables.remove_all(&table_ids);
        self.core.database.indexes.remove_all(&index_ids);
        self.core.database.views.remove_all(&view_ids);
        self.core.database.functions.remove_all(&function_ids);
        let connection_list = self.core.database.connections.remove_all(&connection_ids);
        let users = Self::update_user_privileges(&mut self.core.user.user_info, &objects);
        let f = |x: &Table| -> (b: bool)
            ensures
                b == named_table()(x@),
        {
            valid_table_name(x.name.as_str())
        };
        let named = keep(&table_list, f, Ghost(named_table()));
        lower_all(&mut self.core.user.catalog_create_ref_count, &owners);
        forget_counts(&mut self.core.database.relation_ref_count, &table_ids);
        forget_counts(&mut self.core.database.relation_ref_count, &source_ids);
        forget_counts(&mut self.core.database.relation_ref_count, &view_ids);
        forget_counts(&mut self.core.database.connection_ref_count, &connection_ids);
        let mut messages = notify_users(users);
        messages.push(Self::notify_frontend(Operation::Delete, Info::Database(database)));
        assert(views(messages@) =~= database_drop_messages(c, database_id));
        let f = |x: &Source| -> (b: bool)
            ensures
                b == shared_source()(x@),
        {
            match &x.info {
                Some(info) => info.is_shared,
                None => false,
            }
        };
        let shared = keep(&source_list, f, Ghost(shared_source()));
        let f = |x: &Table| -> (y: u32)
            ensures
                y == x@.id,
        {
            x.id
        };
        let mut jobs = crate::util::lists::copy_map(&named, f, Ghost(|x: TableModel| x.id));
        let f = |x: &Source| -> (y: u32)
            ensures
                y == x@.id,
        {
            x.id
        };
        let mut part = crate::util::lists::copy_map(&shared, f, Ghost(|x: SourceModel| x.id));
        jobs.append(&mut part);
        let f = |x: &Sink| -> (y: u32)
            ensures
                y == x@.id,
        {
            x.id
        };
        let mut part = crate::util::lists::copy_map(&sink_list, f, Ghost(|x: SinkModel| x.id));
        jobs.append(&mut part);
        let f = |x: &Source| -> (y: u32)
            ensures
                y == x@.id,
        {
            x.id
        };
        let sources = crate::util::lists::copy_map(&source_list, f, Ghost(|x: SourceModel| x.id));
        assert(self@ =~= without_database(c, database_id));
        Ok(
            DroppedDatabase {
                messages,
                streaming_job_ids: jobs,
                source_ids: sources,
                connections: connection_list,
            },
        )
    }
}

/// Nothing that stood in a dropped database is left, apart from its secrets; what stood elsewhere
/// is.
pub proof fn law_dropped_database_is_empty(c: CatalogManagerCoreModel, id: u32, x: u32)
    requires
        c.database.schemas.dom().finite(),
        c.database.sources.dom().finite(),
        c.database.sinks.dom().finite(),
        c.database.subscriptions.dom().finite(),
        c.database.tables.dom().finite(),
        c.database.indexes.dom().finite(),
        c.database.views.dom().finite(),
        c.database.functions.dom().finite(),
        c.database.connections.dom().finite(),
    ensures
        ({
            let a = c.database;
            let b = without_database(c, id).database;
            &&& !b.databases.contains_key(id)
            &&& b.schemas.contains_key(x) <==> a.schemas.contains_key(x) && a.schemas[x].database_id != id
            &&& b.sources.contains_key(x) <==> a.sources.contains_key(x) && a.sources[x].database_id != id
            &&& b.sinks.contains_key(x) <==> a.sinks.contains_key(x) && a.sinks[x].database_id != id
            &&& b.subscriptions.contains_key(x) <==> a.subscriptions.contains_key(x)
                && a.subscriptions[x].database_id != id
            &&& b.tables.contains_key(x) <==> a.tables.contains_key(x) && a.tables[x].database_id != id
            &&& b.indexes.contains_key(x) <==> a.indexes.contains_key(x) && a.indexes[x].database_id != id
            &&& b.views.contains_key(x) <==> a.views.contains_key(x) && a.views[x].database_id != id
            &&& b.functions.contains_key(x) <==> a.functions.contains_key(x)
                && a.functions[x].database_id != id
            &&& b.connections.contains_key(x) <==> a.connections.contains_key(x)
                && a.connections[x].database_id != id
        }),
{
    let db = c.database;
    lemma_ids_where(db.schemas, schema_of_database(id));
    lemma_ids_where(db.sources, source_of_database(id));
    lemma_ids_where(db.sinks, sink_of_database(id));
    lemma_ids_where(db.subscriptions, subscription_of_database(id));
    lemma_ids_where(db.tables, table_of_database(id));
    lemma_ids_where(db.indexes, index_of_database(id));
    lemma_ids_where(db.views, view_of_database(id));
    lemma_ids_where(db.functions, function_of_database(id));
    lemma_ids_where(db.connections, connection_of_database(id));
}

} // verus!
