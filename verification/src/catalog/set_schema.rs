//! Moving objects to another schema.

use vstd::prelude::*;

use crate::catalog::drop::{indexes_of, JobFragments, JobFragmentsModel};
use crate::catalog::error::{CatalogKind, MetaError, MetaErrorModel, MetaResult};
use crate::catalog::manager::CatalogManager;
use crate::catalog::notify::{
    Info, InfoModel, Notification, NotificationModel, Operation, RelationInfo, RelationInfoModel,
};
use crate::catalog::owner::{
    all_internal_tables, collect_internal_tables, first_without, table_family,
};
use crate::catalog::outcome::{ends_as, with_database, Outcome};
use crate::catalog::relations::{
    frontend, frontend_relations, index_infos, indexes_to_infos, one_or_none, source_infos,
    sources_to_infos, table_infos, tables_to_infos,
};
use crate::catalog::state::{
    CatalogManagerCoreModel, DatabaseManagerModel,
};
use crate::catalog::types::{
    ConnectionModel, FunctionModel, Index, IndexModel, RelationKey, RelationKeyModel, SinkModel,
    Source, SourceModel, SubscriptionModel, Table, TableModel, ViewInfoModel,
};
use crate::util::id_map::{all_in, copy_all, updated_at, values_at, views, Entry, IdMap};
use crate::util::lists::append_all;

verus! {

/// An object that can be moved.
#[derive(Debug, Clone, Copy, PartialEq, Eq, Structural)]
pub enum MovableObject {
    TableId(u32),
    ViewId(u32),
    SourceId(u32),
    SinkId(u32),
    ConnectionId(u32),
    FunctionId(u32),
    SubscriptionId(u32),
}

/// A table in another schema.
pub open spec fn table_moved(schema_id: u32) -> spec_fn(TableModel) -> TableModel {
    |x: TableModel| TableModel { schema_id, ..x }
}

/// An index in another schema.
pub open spec fn index_moved(schema_id: u32) -> spec_fn(IndexModel) -> IndexModel {
    |x: IndexModel| IndexModel { schema_id, ..x }
}

/// A source in another schema.
pub open spec fn source_moved(schema_id: u32) -> spec_fn(SourceModel) -> SourceModel {
    |x: SourceModel| SourceModel { schema_id, ..x }
}

/// The name that an object would have in a schema.
pub open spec fn name_in(db: DatabaseManagerModel, schema_id: u32, name: Seq<char>) -> RelationKeyModel {
    RelationKeyModel { database_id: db.schemas[schema_id].database_id, schema_id, name }
}

// ---------------------------------------------------------------------------
// Tables.
// ---------------------------------------------------------------------------

/// A table is moved with its indexes, their tables, the source it is associated with and all
/// internal tables.
pub open spec fn table_relocated(
    c: CatalogManagerCoreModel,
    fragments: Map<u32, JobFragmentsModel>,
    id: u32,
    schema_id: u32,
) -> Outcome {
    let db = c.database;
    match db.ensure_table(id) {
        Some(e) => Err(e),
        None => {
            let table = db.tables[id];
            let family = table_family(db, id);
            if table.schema_id == schema_id {
                Ok((c, Seq::empty()))
            } else if db.name_clash(name_in(db, schema_id, table.name)) is Some {
                Err(db.name_clash(name_in(db, schema_id, table.name))->0)
            } else if first_without(fragments, family) is Some {
                Err(MetaErrorModel::FragmentNotFound(first_without(fragments, family)->0))
            } else {
                let all = family + all_internal_tables(fragments, family);
                let source = one_or_none(table.optional_associated_source_id);
                let new = DatabaseManagerModel {
                    tables: updated_at(db.tables, all, table_moved(schema_id)),
                    sources: updated_at(db.sources, source, source_moved(schema_id)),
                    indexes: updated_at(db.indexes, indexes_of(db, id), index_moved(schema_id)),
                    ..db
                };
                Ok(
                    (
                        with_database(c, new),
                        seq![
                            frontend_relations(
                                Operation::Update,
                                table_infos(values_at(new.tables, all)) + source_infos(
                                    values_at(new.sources, source),
                                ) + index_infos(values_at(new.indexes, indexes_of(db, id))),
                            ),
                        ],
                    ),
                )
            }
        },
    }
}

/// What moving a table presumes: all that goes with it exists.
pub open spec fn table_moving_presumes(
    c: CatalogManagerCoreModel,
    fragments: Map<u32, JobFragmentsModel>,
    id: u32,
    schema_id: u32,
) -> bool {
    let db = c.database;
    let table = db.tables[id];
    let family = table_family(db, id);
    db.tables.contains_key(id) && table.schema_id != schema_id && db.name_clash(
        name_in(db, schema_id, table.name),
    ) is None && first_without(fragments, family) is None ==> {
        &&& all_in(family + all_internal_tables(fragments, family), db.tables)
        &&& all_in(one_or_none(table.optional_associated_source_id), db.sources)
    }
}

impl CatalogManager {
    fn move_table(&mut self, fragments: &IdMap<JobFragments>, id: u32, schema_id: u32, database_id: u32) -> (r:
        MetaResult<Vec<Notification>>)
        requires
            database_id == old(self)@.database.schemas[schema_id].database_id,
            table_moving_presumes(old(self)@, fragments@, id, schema_id),
        ensures
            ends_as(
                r,
                old(self)@,
                final(self)@,
                table_relocated(old(self)@, fragments@, id, schema_id),
            ),
    {
        let ghost c = self@;
        let ghost db = c.database;
        let mut messages: Vec<Notification> = Vec::new();
        assert(views(messages@) =~= Seq::<NotificationModel>::empty());
        let source_id = match self.core.database.tables.get(id) {
            Some(table) => {
                if table.schema_id == schema_id {
                    return Ok(messages);
                }
                let key = RelationKey { database_id, schema_id, name: table.name.clone() };
                match self.core.database.check_relation_name_duplicated(&key) {
                    Err(e) => {
                        return Err(e);
                    },
                    Ok(_) => {},
                }
                table.optional_associated_source_id
            },
            None => {
                return Err(MetaError::CatalogIdNotFound(CatalogKind::Table, id));
            },
        };
        let (index_ids, index_tables) = self.core.database.indexes_on(id);
        let mut all: Vec<u32> = Vec::new();
        all.push(id);
        let mut part = index_tables;
        all.append(&mut part);
        assert(all@ =~= table_family(db, id));
        let mut internal = match collect_internal_tables(fragments, &all) {
            Ok(internal) => internal,
            Err(e) => {
                return Err(e);
            },
        };
        all.append(&mut internal);
        let source_ids = crate::catalog::relations::id_list(source_id);
        let f = |x: Table| -> (y: Table)
            ensures
                y@ == table_moved(schema_id)(x@),
        {
            let mut x = x;
            x.schema_id = schema_id;
            x
        };
        let tables = self.core.database.tables.update_all(&all, f, Ghost(table_moved(schema_id)));
        let f = |x: Source| -> (y: Source)
            ensures
                y@ == source_moved(schema_id)(x@),
        {
            let mut x = x;
            x.schema_id = schema_id;
            x
        };
        let sources = self.core.database.sources.update_all(
            &source_ids,
            f,
            Ghost(source_moved(schema_id)),
        );
        let f = |x: Index| -> (y: Index)
            ensures
                y@ == index_moved(schema_id)(x@),
        {
            let mut x = x;
            x.schema_id = schema_id;
            x
        };
        let indexes = self.core.database.indexes.update_all(
            &index_ids,
            f,
            Ghost(index_moved(schema_id)),
        );
        let mut relations = tables_to_infos(&tables);
        append_all(&mut relations, sources_to_infos(&sources));
        append_all(&mut relations, indexes_to_infos(&indexes));
        messages.push(Self::notify_frontend_relations(Operation::Update, relations));
        assert(views(messages@) =~= table_relocated(c, fragments@, id, schema_id)->Ok_0.1);
        assert(self@ =~= table_relocated(c, fragments@, id, schema_id)->Ok_0.0);
        Ok(messages)
    }
}

// ---------------------------------------------------------------------------
// Sinks.
// ---------------------------------------------------------------------------

/// A sink is moved with its internal tables.
pub open spec fn sink_relocated(
    c: CatalogManagerCoreModel,
    fragments: Map<u32, JobFragmentsModel>,
    id: u32,
    schema_id: u32,
) -> Outcome {
    let db = c.database;
    match db.ensure_sink(id) {
        Some(e) => Err(e),
        None => if db.sinks[id].schema_id == schema_id {
            Ok((c, Seq::empty()))
        } else if !fragments.contains_key(id) {
            Err(MetaErrorModel::FragmentNotFound(id))
        } else if db.name_clash(name_in(db, schema_id, db.sinks[id].name)) is Some {
            Err(db.name_clash(name_in(db, schema_id, db.sinks[id].name))->0)
        } else {
            let new = SinkModel { schema_id, ..db.sinks[id] };
            let internal = fragments[id].internal_table_ids;
            let tables = updated_at(db.tables, internal, table_moved(schema_id));
            Ok(
                (
                    with_database(
                        c,
                        DatabaseManagerModel { sinks: db.sinks.insert(id, new), tables, ..db },
                    ),
                    seq![
                        frontend_relations(
                            Operation::Update,
                            seq![RelationInfoModel::Sink(new)] + table_infos(
                                values_at(tables, internal),
                            ),
                        ),
                    ],
                ),
            )
        },
    }
}

/// What moving a sink presumes: its internal tables exist.
pub open spec fn sink_moving_presumes(
    c: CatalogManagerCoreModel,
    fragments: Map<u32, JobFragmentsModel>,
    id: u32,
    schema_id: u32,
) -> bool {
    let db = c.database;
    db.sinks.contains_key(id) && db.sinks[id].schema_id != schema_id && fragments.contains_key(id)
        && db.name_clash(name_in(db, schema_id, db.sinks[id].name)) is None ==> all_in(
        fragments[id].internal_table_ids,
        db.tables,
    )
}

impl CatalogManager {
    fn move_sink(&mut self, fragments: &IdMap<JobFragments>, id: u32, schema_id: u32, database_id: u32) -> (r:
        MetaResult<Vec<Notification>>)
        requires
            database_id == old(self)@.database.schemas[schema_id].database_id,
            sink_moving_presumes(old(self)@, fragments@, id, schema_id),
        ensures
            ends_as(
                r,
                old(self)@,
                final(self)@,
                sink_relocated(old(self)@, fragments@, id, schema_id),
            ),
    {
        let ghost c = self@;
        let mut messages: Vec<Notification> = Vec::new();
        assert(views(messages@) =~= Seq::<NotificationModel>::empty());
        let mut new = match self.core.database.sinks.get(id) {
            Some(x) => x.duplicate(),
            None => {
                return Err(MetaError::CatalogIdNotFound(CatalogKind::Sink, id));
            },
        };
        if new.schema_id == schema_id {
            return Ok(messages);
        }
        let internal = match fragments.get(id) {
            Some(job) => copy_all(&job.internal_table_ids),
            None => {
                return Err(MetaError::FragmentNotFound(id));
            },
        };
        let key = RelationKey { database_id, schema_id, name: new.name.clone() };
        match self.core.database.check_relation_name_duplicated(&key) {
            Err(e) => {
                return Err(e);
            },
            Ok(_) => {},
        }
        new.schema_id = schema_id;
        let f = |x: Table| -> (y: Table)
            ensures
                y@ == table_moved(schema_id)(x@),
        {
            let mut x = x;
            x.schema_id = schema_id;
            x
        };
        let tables = self.core.database.tables.update_all(&internal, f, Ghost(table_moved(schema_id)));
        let mut relations: Vec<RelationInfo> = Vec::new();
        relations.push(RelationInfo::Sink(new.duplicate()));
        assert(views(relations@) =~= seq![RelationInfoModel::Sink(new@)]);
        append_all(&mut relations, tables_to_infos(&tables));
        messages.push(Self::notify_frontend_relations(Operation::Update, relations));
        self.core.database.sinks.insert(id, new);
        assert(views(messages@) =~= sink_relocated(c, fragments@, id, schema_id)->Ok_0.1);
        assert(self@ =~= sink_relocated(c, fragments@, id, schema_id)->Ok_0.0);
        Ok(messages)
    }
}

// ---------------------------------------------------------------------------
// Objects that are moved alone.
// ---------------------------------------------------------------------------

pub open spec fn view_relocated(c: CatalogManagerCoreModel, id: u32, schema_id: u32) -> Outcome {
    let db = c.database;
    match db.ensure_view(id) {
        Some(e) => Err(e),
        None => if db.views[id].schema_id == schema_id {
            Ok((c, Seq::empty()))
        } else if db.name_clash(name_in(db, schema_id, db.views[id].name)) is Some {
            Err(db.name_clash(name_in(db, schema_id, db.views[id].name))->0)
        } else {
            let new = ViewInfoModel { schema_id, ..db.views[id] };
            Ok(
                (
                    with_database(c, DatabaseManagerModel { views: db.views.insert(id, new), ..db }),
                    seq![frontend_relations(Operation::Update, seq![RelationInfoModel::View(new)])],
                ),
            )
        },
    }
}

impl CatalogManager {
    fn move_view(&mut self, id: u32, schema_id: u32, database_id: u32) -> (r: MetaResult<
        Vec<Notification>,
    >)
        requires
            database_id == old(self)@.database.schemas[schema_id].database_id,
        ensures
            ends_as(r, old(self)@, final(self)@, view_relocated(old(self)@, id, schema_id)),
    {
        let ghost c = self@;
        let mut messages: Vec<Notification> = Vec::new();
        assert(views(messages@) =~= Seq::<NotificationModel>::empty());
        let mut new = match self.core.database.views.get(id) {
            Some(x) => x.duplicate(),
            None => {
                return Err(MetaError::CatalogIdNotFound(CatalogKind::View, id));
            },
        };
        if new.schema_id == schema_id {
            return Ok(messages);
        }
        let key = RelationKey { database_id, schema_id, name: new.name.clone() };
        match self.core.database.check_relation_name_duplicated(&key) {
            Err(e) => {
                return Err(e);
            },
            Ok(_) => {},
        }
        new.schema_id = schema_id;
        messages.push(
            Self::notify_frontend_relation_info(
                Operation::Update,
                RelationInfo::View(new.duplicate()),
            ),
        );
        self.core.database.views.insert(id, new);
        assert(views(messages@) =~= view_relocated(c, id, schema_id)->Ok_0.1);
        Ok(messages)
    }
}

pub open spec fn source_relocated(c: CatalogManagerCoreModel, id: u32, schema_id: u32) -> Outcome {
    let db = c.database;
    match db.ensure_source(id) {
        Some(e) => Err(e),
        None => if db.sources[id].schema_id == schema_id {
            Ok((c, Seq::empty()))
        } else if db.name_clash(name_in(db, schema_id, db.sources[id].name)) is Some {
            Err(db.name_clash(name_in(db, schema_id, db.sources[id].name))->0)
        } else {
            let new = SourceModel { schema_id, ..db.sources[id] };
            Ok(
                (
                    with_database(c, DatabaseManagerModel { sources: db.sources.insert(id, new), ..db }),
                    seq![frontend_relations(Operation::Update, seq![RelationInfoModel::Source(new)])],
                ),
            )
        },
    }
}

impl CatalogManager {
    fn move_source(&mut self, id: u32, schema_id: u32, database_id: u32) -> (r: MetaResult<
        Vec<Notification>,
    >)
        requires
            database_id == old(self)@.database.schemas[schema_id].database_id,
        ensures
            ends_as(r, old(self)@, final(self)@, source_relocated(old(self)@, id, schema_id)),
    {
        let ghost c = self@;
        let mut messages: Vec<Notification> = Vec::new();
        assert(views(messages@) =~= Seq::<NotificationModel>::empty());
        let mut new = match self.core.database.sources.get(id) {
            Some(x) => x.duplicate(),
            None => {
                return Err(MetaError::CatalogIdNotFound(CatalogKind::Source, id));
            },
        };
        if new.schema_id == schema_id {
            return Ok(messages);
        }
        let key = RelationKey { database_id, schema_id, name: new.name.clone() };
        match self.core.database.check_relation_name_duplicated(&key) {
            Err(e) => {
                return Err(e);
            },
            Ok(_) => {},
        }
        new.schema_id = schema_id;
        messages.push(
            Self::notify_frontend_relation_info(
                Operation::Update,
                RelationInfo::Source(new.duplicate()),
            ),
        );
        self.core.database.sources.insert(id, new);
        assert(views(messages@) =~= source_relocated(c, id, schema_id)->Ok_0.1);
        Ok(messages)
    }
}

pub open spec fn subscription_relocated(c: CatalogManagerCoreModel, id: u32, schema_id: u32) -> Outcome {
    let db = c.database;
    match db.ensure_subscription(id) {
        Some(e) => Err(e),
        None => if db.subscriptions[id].schema_id == schema_id {
            Ok((c, Seq::empty()))
        } else if db.name_clash(name_in(db, schema_id, db.subscriptions[id].name)) is Some {
            Err(db.name_clash(name_in(db, schema_id, db.subscriptions[id].name))->0)
        } else {
            let new = SubscriptionModel { schema_id, ..db.subscriptions[id] };
            Ok(
                (
                    with_database(c, DatabaseManagerModel { subscriptions: db.subscriptions.insert(id, new), ..db }),
                    seq![frontend_relations(Operation::Update, seq![RelationInfoModel::Subscription(new)])],
                ),
            )
        },
    }
}

impl CatalogManager {
    fn move_subscription(&mut self, id: u32, schema_id: u32, database_id: u32) -> (r: MetaResult<
        Vec<Notification>,
    >)
        requires
            database_id == old(self)@.database.schemas[schema_id].database_id,
        ensures
            ends_as(r, old(self)@, final(self)@, subscription_relocated(old(self)@, id, schema_id)),
    {
        let ghost c = self@;
        let mut messages: Vec<Notification> = Vec::new();
        assert(views(messages@) =~= Seq::<NotificationModel>::empty());
        let mut new = match self.core.database.subscriptions.get(id) {
            Some(x) => x.duplicate(),
            None => {
                return Err(MetaError::CatalogIdNotFound(CatalogKind::Subscription, id));
            },
        };
        if new.schema_id == schema_id {
            return Ok(messages);
        }
        let key = RelationKey { database_id, schema_id, name: new.name.clone() };
        match self.core.database.check_relation_name_duplicated(&key) {
            Err(e) => {
                return Err(e);
            },
            Ok(_) => {},
        }
        new.schema_id = schema_id;
        messages.push(
            Self::notify_frontend_relation_info(
                Operation::Update,
                RelationInfo::Subscription(new.duplicate()),
            ),
        );
        self.core.database.subscriptions.insert(id, new);
        assert(views(messages@) =~= subscription_relocated(c, id, schema_id)->Ok_0.1);
        Ok(messages)
    }
}

pub open spec fn connection_relocated(c: CatalogManagerCoreModel, id: u32, schema_id: u32) -> Outcome {
    let db = c.database;
    match db.ensure_connection(id) {
        Some(e) => Err(e),
        None => if db.connections[id].schema_id == schema_id {
            Ok((c, Seq::empty()))
        } else if db.connection_clash(name_in(db, schema_id, db.connections[id].name)) is Some {
            Err(db.connection_clash(name_in(db, schema_id, db.connections[id].name))->0)
        } else {
            let new = ConnectionModel { schema_id, ..db.connections[id] };
            Ok(
                (
                    with_database(c, DatabaseManagerModel { connections: db.connections.insert(id, new), ..db }),
                    seq![frontend(Operation::Update, InfoModel::Connection(new))],
                ),
            )
        },
    }
}

impl CatalogManager {
    fn move_connection(&mut self, id: u32, schema_id: u32, database_id: u32) -> (r: MetaResult<
        Vec<Notification>,
    >)
        requires
            database_id == old(self)@.database.schemas[schema_id].database_id,
        ensures
            ends_as(r, old(self)@, final(self)@, connection_relocated(old(self)@, id, schema_id)),
    {
        let ghost c = self@;
        let mut messages: Vec<Notification> = Vec::new();
        assert(views(messages@) =~= Seq::<NotificationModel>::empty());
        let mut new = match self.core.database.connections.get(id) {
            Some(x) => x.duplicate(),
            None => {
                return Err(MetaError::CatalogIdNotFound(CatalogKind::Connection, id));
            },
        };
        if new.schema_id == schema_id {
            return Ok(messages);
        }
        let key = RelationKey { database_id, schema_id, name: new.name.clone() };
        match self.core.database.check_connection_name_duplicated(&key) {
            Err(e) => {
                return Err(e);
            },
            Ok(_) => {},
        }
        new.schema_id = schema_id;
        messages.push(
            Self::notify_frontend(Operation::Update, Info::Connection(new.duplicate())),
        );
        self.core.database.connections.insert(id, new);
        assert(views(messages@) =~= connection_relocated(c, id, schema_id)->Ok_0.1);
        Ok(messages)
    }
}

pub open spec fn function_relocated(c: CatalogManagerCoreModel, id: u32, schema_id: u32) -> Outcome {
    let db = c.database;
    match db.ensure_function(id) {
        Some(e) => Err(e),
        None => if db.functions[id].schema_id == schema_id {
            Ok((c, Seq::empty()))
        } else if db.function_clash(name_in(db, schema_id, db.functions[id].name), db.functions[id].arg_types) is Some {
            Err(db.function_clash(name_in(db, schema_id, db.functions[id].name), db.functions[id].arg_types)->0)
        } else {
            let new = FunctionModel { schema_id, ..db.functions[id] };
            Ok(
                (
                    with_database(c, DatabaseManagerModel { functions: db.functions.insert(id, new), ..db }),
                    seq![frontend(Operation::Update, InfoModel::Function(new))],
                ),
            )
        },
    }
}

impl CatalogManager {
    fn move_function(&mut self, id: u32, schema_id: u32, database_id: u32) -> (r: MetaResult<
        Vec<Notification>,
    >)
        requires
            database_id == old(self)@.database.schemas[schema_id].database_id,
        ensures
            ends_as(r, old(self)@, final(self)@, function_relocated(old(self)@, id, schema_id)),
    {
        let ghost c = self@;
        let mut messages: Vec<Notification> = Vec::new();
        assert(views(messages@) =~= Seq::<NotificationModel>::empty());
        let mut new = match self.core.database.functions.get(id) {
            Some(x) => x.duplicate(),
            None => {
                return Err(MetaError::CatalogIdNotFound(CatalogKind::Function, id));
            },
        };
        if new.schema_id == schema_id {
            return Ok(messages);
        }
        let key = RelationKey { database_id, schema_id, name: new.name.clone() };
        match self.core.database.check_function_duplicated(&key, &new.arg_types) {
            Err(e) => {
                return Err(e);
            },
            Ok(_) => {},
        }
        new.schema_id = schema_id;
        messages.push(
            Self::notify_frontend(Operation::Update, Info::Function(new.duplicate())),
        );
        self.core.database.functions.insert(id, new);
        assert(views(messages@) =~= function_relocated(c, id, schema_id)->Ok_0.1);
        Ok(messages)
    }
}

// ---------------------------------------------------------------------------
// All objects.
// ---------------------------------------------------------------------------

/// The catalog and the messages after an object is moved, or the refusal. Nothing happens where
/// it stands in that schema.
pub open spec fn schema_set(
    c: CatalogManagerCoreModel,
    fragments: Map<u32, JobFragmentsModel>,
    object: MovableObject,
    schema_id: u32,
) -> Outcome {
    match c.database.ensure_schema(schema_id) {
        Some(e) => Err(e),
        None => match object {
            MovableObject::TableId(id) => table_relocated(c, fragments, id, schema_id),
            MovableObject::ViewId(id) => view_relocated(c, id, schema_id),
            MovableObject::SourceId(id) => source_relocated(c, id, schema_id),
            MovableObject::SinkId(id) => sink_relocated(c, fragments, id, schema_id),
            MovableObject::ConnectionId(id) => connection_relocated(c, id, schema_id),
            MovableObject::FunctionId(id) => function_relocated(c, id, schema_id),
            MovableObject::SubscriptionId(id) => subscription_relocated(c, id, schema_id),
        },
    }
}

/// What moving an object presumes.
pub open spec fn moving_presumes(
    c: CatalogManagerCoreModel,
    fragments: Map<u32, JobFragmentsModel>,
    object: MovableObject,
    schema_id: u32,
) -> bool {
    c.database.schemas.contains_key(schema_id) ==> match object {
        MovableObject::TableId(id) => table_moving_presumes(c, fragments, id, schema_id),
        MovableObject::SinkId(id) => sink_moving_presumes(c, fragments, id, schema_id),
        _ => true,
    }
}

impl CatalogManager {
    pub fn alter_set_schema(
        &mut self,
        fragments: &IdMap<JobFragments>,
        object: MovableObject,
        new_schema_id: u32,
    ) -> (r: MetaResult<Vec<Notification>>)
        requires
            moving_presumes(old(self)@, fragments@, object, new_schema_id),
        ensures
            ends_as(
                r,
                old(self)@,
                final(self)@,
                schema_set(old(self)@, fragments@, object, new_schema_id),
            ),
    {
        let database_id: u32 = match self.core.database.schemas.get(new_schema_id) {
            Some(schema) => schema.database_id,
            None => {
                return Err(MetaError::CatalogIdNotFound(CatalogKind::Schema, new_schema_id));
            },
        };
        match object {
            MovableObject::TableId(id) => self.move_table(fragments, id, new_schema_id, database_id),
            MovableObject::ViewId(id) => self.move_view(id, new_schema_id, database_id),
            MovableObject::SourceId(id) => self.move_source(id, new_schema_id, database_id),
            MovableObject::SinkId(id) => self.move_sink(fragments, id, new_schema_id, database_id),
            MovableObject::ConnectionId(id) => self.move_connection(id, new_schema_id, database_id),
            MovableObject::FunctionId(id) => self.move_function(id, new_schema_id, database_id),
            MovableObject::SubscriptionId(id) => self.move_subscription(
                id,
                new_schema_id,
                database_id,
            ),
        }
    }
}

// ---------------------------------------------------------------------------
// Whether an object can be moved.
// ---------------------------------------------------------------------------

impl CatalogManager {
    fn can_move_table(&self, fragments: &IdMap<JobFragments>, id: u32, schema_id: u32, database_id: u32) -> (r:
        bool)
        requires
            database_id == self@.database.schemas[schema_id].database_id,
        ensures
            r == table_moving_presumes(self@, fragments@, id, schema_id),
    {
        let db = &self.core.database;
        let source_ids = match db.tables.get(id) {
            Some(table) => {
                if table.schema_id == schema_id {
                    return true;
                }
                let key = RelationKey { database_id, schema_id, name: table.name.clone() };
                if db.check_relation_name_duplicated(&key).is_err() {
                    return true;
                }
                crate::catalog::relations::id_list(table.optional_associated_source_id)
            },
            None => {
                return true;
            },
        };
        let (_, index_tables) = db.indexes_on(id);
        let mut all: Vec<u32> = Vec::new();
        all.push(id);
        let mut part = index_tables;
        all.append(&mut part);
        assert(all@ =~= table_family(db@, id));
        let mut internal = match collect_internal_tables(fragments, &all) {
            Ok(internal) => internal,
            Err(_) => {
                return true;
            },
        };
        all.append(&mut internal);
        db.tables.contains_all(&all) && db.sources.contains_all(&source_ids)
    }

    fn can_move_sink(&self, fragments: &IdMap<JobFragments>, id: u32, schema_id: u32, database_id: u32) -> (r:
        bool)
        requires
            database_id == self@.database.schemas[schema_id].database_id,
        ensures
            r == sink_moving_presumes(self@, fragments@, id, schema_id),
    {
        let db = &self.core.database;
        match (db.sinks.get(id), fragments.get(id)) {
            (Some(sink), Some(job)) => {
                if sink.schema_id == schema_id {
                    return true;
                }
                let key = RelationKey { database_id, schema_id, name: sink.name.clone() };
                db.check_relation_name_duplicated(&key).is_err() || db.tables.contains_all(
                    &job.internal_table_ids,
                )
            },
            _ => true,
        }
    }

    /// Tells whether [`Self::alter_set_schema`] can be called.
    pub fn can_set_schema(
        &self,
        fragments: &IdMap<JobFragments>,
        object: MovableObject,
        new_schema_id: u32,
    ) -> (r: bool)
        ensures
            r == moving_presumes(self@, fragments@, object, new_schema_id),
    {
        match self.core.database.schemas.get(new_schema_id) {
            Some(schema) => match object {
                MovableObject::TableId(id) => self.can_move_table(
                    fragments,
                    id,
                    new_schema_id,
                    schema.database_id,
                ),
                MovableObject::SinkId(id) => self.can_move_sink(
                    fragments,
                    id,
                    new_schema_id,
                    schema.database_id,
                ),
                _ => true,
            },
            None => true,
        }
    }
}

} // verus!
