//! Creating and dropping databases, schemas, views, functions, connections and secrets.

use vstd::prelude::*;
use vstd::string::*;

use crate::catalog::database::either;
use crate::catalog::error::{CatalogKind, MetaError, MetaErrorModel, MetaResult};
use crate::catalog::manager::CatalogManager;
use crate::catalog::notify::{
    Audience, Info, InfoModel, Notification, NotificationModel, Operation, RelationInfo,
    RelationInfoModel,
};
use crate::catalog::outcome::{ends_as, Outcome};
use crate::catalog::privilege::{
    all_objects_named, check_objects_named, notify_users, stripped_users, updated_users, user_updates,
};
use crate::catalog::relations::{frontend, frontend_relations};
use crate::catalog::state::{
    CatalogManagerCoreModel, DatabaseManagerModel, UserManager, UserManagerModel,
};
use crate::catalog::types::{
    Connection, ConnectionModel, Database, DatabaseModel, Function, FunctionModel, Object,
    RelationKey, RelationKeyModel, Schema, SchemaModel, Secret, SecretModel, ViewInfo,
    ViewInfoModel,
};
use crate::util::counts::{count, count_of, fits, lower_by, lowered, raise_all, raise_by, raised, times};
use crate::util::id_map::{views, Entry};

verus! {

/// The name of an object and where it stands.
pub open spec fn key_of(database_id: u32, schema_id: u32, name: Seq<char>) -> RelationKeyModel {
    RelationKeyModel { database_id, schema_id, name }
}

/// The users after `owner` owns `n` objects more.
pub open spec fn owning_more(user: UserManagerModel, owner: u32, n: nat) -> UserManagerModel {
    UserManagerModel {
        catalog_create_ref_count: raised(user.catalog_create_ref_count, times(owner, n)),
        ..user
    }
}

/// The users after `owner` owns `n` objects less.
pub open spec fn owning_less(user: UserManagerModel, owner: u32, n: nat) -> UserManagerModel {
    UserManagerModel {
        catalog_create_ref_count: lowered(user.catalog_create_ref_count, times(owner, n)),
        ..user
    }
}

/// `owner` can own `n` objects more.
pub open spec fn can_own(user: UserManagerModel, owner: u32, n: nat) -> bool {
    count_of(user.catalog_create_ref_count, owner) + n <= usize::MAX
}

/// `owner` owns at least `n` objects.
pub open spec fn owns(user: UserManagerModel, owner: u32, n: nat) -> bool {
    n <= count_of(user.catalog_create_ref_count, owner)
}

impl UserManager {
    /// Tells whether `user_id` can own `n` objects more.
    pub fn can_own(&self, user_id: u32, n: usize) -> (r: bool)
        ensures
            r == can_own(self@, user_id, n as nat),
    {
        n <= usize::MAX - count(&self.catalog_create_ref_count, user_id)
    }

    /// Tells whether `user_id` owns at least `n` objects.
    pub fn owns(&self, user_id: u32, n: usize) -> (r: bool)
        ensures
            r == owns(self@, user_id, n as nat),
    {
        n <= count(&self.catalog_create_ref_count, user_id)
    }

    pub fn increase_ref_count(&mut self, user_id: u32, count: usize)
        requires
            count > 0,
            can_own(old(self)@, user_id, count as nat),
        ensures
            final(self)@ == owning_more(old(self)@, user_id, count as nat),
    {
        raise_by(&mut self.catalog_create_ref_count, user_id, count);
    }

    pub fn decrease_ref_count(&mut self, user_id: u32, count: usize)
        requires
            count > 0,
            owns(old(self)@, user_id, count as nat),
        ensures
            final(self)@ == owning_less(old(self)@, user_id, count as nat),
    {
        lower_by(&mut self.catalog_create_ref_count, user_id, count);
    }

    pub fn increase_ref(&mut self, user_id: u32)
        requires
            can_own(old(self)@, user_id, 1),
        ensures
            final(self)@ == owning_more(old(self)@, user_id, 1),
    {
        self.increase_ref_count(user_id, 1);
    }

    pub fn decrease_ref(&mut self, user_id: u32)
        requires
            owns(old(self)@, user_id, 1),
        ensures
            final(self)@ == owning_less(old(self)@, user_id, 1),
    {
        self.decrease_ref_count(user_id, 1);
    }
}

// ---------------------------------------------------------------------------
// Databases.
// ---------------------------------------------------------------------------

/// The schemas that every database has.
pub open spec fn default_schema_name(i: int) -> Seq<char> {
    if i == 0 {
        "public"@
    } else if i == 1 {
        "pg_catalog"@
    } else if i == 2 {
        "information_schema"@
    } else {
        "rw_catalog"@
    }
}

fn default_schema_text(i: usize) -> (r: String)
    ensures
        r@ == default_schema_name(i as int),
{
    if i == 0 {
        "public".to_string()
    } else if i == 1 {
        "pg_catalog".to_string()
    } else if i == 2 {
        "information_schema".to_string()
    } else {
        "rw_catalog".to_string()
    }
}

/// How many schemas every database has.
pub const DEFAULT_SCHEMA_COUNT: usize = 4;

/// One of the schemas that a database starts with.
pub open spec fn default_schema(database: DatabaseModel, ids: Seq<u32>, i: int) -> SchemaModel {
    SchemaModel {
        id: ids[i],
        database_id: database.id,
        name: default_schema_name(i),
        owner: database.owner,
    }
}

/// The schemas with the first `n` that a database starts with.
pub open spec fn with_default_schemas(
    schemas: Map<u32, SchemaModel>,
    database: DatabaseModel,
    ids: Seq<u32>,
    n: int,
) -> Map<u32, SchemaModel>
    decreases n,
{
    if n <= 0 {
        schemas
    } else {
        with_default_schemas(schemas, database, ids, n - 1).insert(
            ids[n - 1],
            default_schema(database, ids, n - 1),
        )
    }
}

/// A database is created with its schemas, whose identifiers are `schema_ids`.
pub open spec fn database_created(c: CatalogManagerCoreModel, database: DatabaseModel, schema_ids: Seq<u32>) -> Outcome {
    match either(c.database.database_clash(database.name), c.user.ensure_user(database.owner)) {
        Some(e) => Err(e),
        None => Ok(
            (
                CatalogManagerCoreModel {
                    database: DatabaseManagerModel {
                        databases: c.database.databases.insert(database.id, database),
                        schemas: with_default_schemas(
                            c.database.schemas,
                            database,
                            schema_ids,
                            schema_ids.len() as int,
                        ),
                        ..c.database
                    },
                    user: owning_more(c.user, database.owner, 1 + schema_ids.len()),
                },
                seq![frontend(Operation::Add, InfoModel::Database(database))] + Seq::new(
                    schema_ids.len(),
                    |i: int|
                        frontend(
                            Operation::Add,
                            InfoModel::Schema(default_schema(database, schema_ids, i)),
                        ),
                ),
            ),
        ),
    }
}

/// The outcome of adding the database that is there from the start.
pub open spec fn default_database_added(
    c: CatalogManagerCoreModel,
    database_id: u32,
    schema_ids: Seq<u32>,
) -> Outcome {
    if c.database.database_clash("dev"@) is Some {
        Ok((c, Seq::empty()))
    } else {
        database_created(c, default_database(database_id), schema_ids)
    }
}

/// A database that is there from the start.
pub open spec fn default_database(id: u32) -> DatabaseModel {
    DatabaseModel { id, name: "dev"@, owner: 1 }
}

impl CatalogManager {
    /// Creates a database. `schema_ids` are fresh identifiers for the schemas it starts with.
    pub fn create_database(&mut self, database: &Database, schema_ids: &Vec<u32>) -> (r: MetaResult<
        Vec<Notification>,
    >)
        requires
            schema_ids@.len() == DEFAULT_SCHEMA_COUNT,
            can_own(old(self)@.user, database@.owner, 5),
        ensures
            ends_as(
                r,
                old(self)@,
                final(self)@,
                database_created(old(self)@, database@, schema_ids@),
            ),
    {
        let ghost c = self@;
        match self.core.database.check_database_duplicated(&database.name) {
            Err(e) => {
                return Err(e);
            },
            Ok(_) => {},
        }
        match self.core.user.ensure_user_id(database.owner) {
            Err(e) => {
                return Err(e);
            },
            Ok(_) => {},
        }
        self.core.database.databases.insert(database.id, database.duplicate());
        let mut messages: Vec<Notification> = Vec::new();
        messages.push(Self::notify_frontend(Operation::Add, Info::Database(database.duplicate())));
        let ghost wanted = database_created(c, database@, schema_ids@)->Ok_0.1;
        assert(views(messages@) =~= wanted.take(1));
        let mut i: usize = 0;
        while i < schema_ids.len()
            invariant
                i <= schema_ids.len(),
                schema_ids.len() == 4,
                wanted == seq![frontend(Operation::Add, InfoModel::Database(database@))] + Seq::new(
                    schema_ids@.len(),
                    |k: int|
                        frontend(
                            Operation::Add,
                            InfoModel::Schema(default_schema(database@, schema_ids@, k)),
                        ),
                ),
                views(messages@) == wanted.take(i + 1),
                self@ == (CatalogManagerCoreModel {
                    database: DatabaseManagerModel {
                        databases: c.database.databases.insert(database@.id, database@),
                        schemas: with_default_schemas(
                            c.database.schemas,
                            database@,
                            schema_ids@,
                            i as int,
                        ),
                        ..c.database
                    },
                    ..c
                }),
            decreases schema_ids.len() - i,
        {
            let schema = Schema {
                id: schema_ids[i],
                database_id: database.id,
                name: default_schema_text(i),
                owner: database.owner,
            };
            assert(schema@ =~= default_schema(database@, schema_ids@, i as int));
            let ghost before = messages@;
            let message = Self::notify_frontend(Operation::Add, Info::Schema(schema.duplicate()));
            assert(message@ == wanted[i + 1]);
            messages.push(message);
            assert(views(messages@) =~= views(before).push(wanted[i + 1]));
            assert(views(messages@) =~= wanted.take(i + 2));
            self.core.database.schemas.insert(schema_ids[i], schema);
            i = i + 1;
        }
        self.core.user.increase_ref_count(database.owner, 1 + schema_ids.len());
        assert(wanted.take(i + 1) =~= wanted);
        Ok(messages)
    }

    /// Creates the database that is there from the start, unless there is one of its name.
    pub fn init_database(&mut self, database_id: u32, schema_ids: &Vec<u32>) -> (r: MetaResult<
        Vec<Notification>,
    >)
        requires
            schema_ids@.len() == DEFAULT_SCHEMA_COUNT,
            can_own(old(self)@.user, 1, 5),
        ensures
            ends_as(
                r,
                old(self)@,
                final(self)@,
                default_database_added(old(self)@, database_id, schema_ids@),
            ),
    {
        let database = Database { id: database_id, name: "dev".to_string(), owner: 1 };
        assert(database@ =~= default_database(database_id));
        match self.core.database.check_database_duplicated(&database.name) {
            Err(_) => {
                let none: Vec<Notification> = Vec::new();
                assert(views(none@) =~= Seq::<NotificationModel>::empty());
                Ok(none)
            },
            Ok(_) => self.create_database(&database, schema_ids),
        }
    }
}

// ---------------------------------------------------------------------------
// Schemas.
// ---------------------------------------------------------------------------

pub open spec fn schema_created(c: CatalogManagerCoreModel, schema: SchemaModel) -> Outcome {
    match either(
        c.database.ensure_database(schema.database_id),
        either(
            c.database.schema_clash(schema.database_id, schema.name),
            c.user.ensure_user(schema.owner),
        ),
    ) {
        Some(e) => Err(e),
        None => Ok(
            (
                CatalogManagerCoreModel {
                    database: DatabaseManagerModel {
                        schemas: c.database.schemas.insert(schema.id, schema),
                        ..c.database
                    },
                    user: owning_more(c.user, schema.owner, 1),
                },
                seq![frontend(Operation::Add, InfoModel::Schema(schema))],
            ),
        ),
    }
}

/// A schema is dropped; nothing may stand in it or be created in it.
pub open spec fn schema_dropped(c: CatalogManagerCoreModel, id: u32) -> Outcome {
    let objects = seq![Object::SchemaId(id)];
    if !c.database.schemas.contains_key(id) {
        Err(MetaErrorModel::CatalogIdNotFound(CatalogKind::Schema, id))
    } else if c.database.creating_in_schema(id) {
        Err(MetaErrorModel::SchemaBusy)
    } else if !c.database.schema_empty(id) {
        Err(MetaErrorModel::SchemaNotEmpty)
    } else {
        let schema = c.database.schemas[id];
        Ok(
            (
                CatalogManagerCoreModel {
                    database: DatabaseManagerModel {
                        schemas: c.database.schemas.remove(id),
                        ..c.database
                    },
                    user: UserManagerModel {
                        user_info: stripped_users(c.user.user_info, objects),
                        ..owning_less(c.user, schema.owner, 1)
                    },
                },
                user_updates(updated_users(c.user.user_info, objects)).push(
                    frontend(Operation::Delete, InfoModel::Schema(schema)),
                ),
            ),
        )
    }
}

impl CatalogManager {
    pub fn create_schema(&mut self, schema: &Schema) -> (r: MetaResult<Vec<Notification>>)
        requires
            can_own(old(self)@.user, schema@.owner, 1),
        ensures
            ends_as(r, old(self)@, final(self)@, schema_created(old(self)@, schema@)),
    {
        match self.core.database.ensure_database_id(schema.database_id) {
            Err(e) => {
                return Err(e);
            },
            Ok(_) => {},
        }
        match self.core.database.check_schema_duplicated(schema.database_id, &schema.name) {
            Err(e) => {
                return Err(e);
            },
            Ok(_) => {},
        }
        match self.core.user.ensure_user_id(schema.owner) {
            Err(e) => {
                return Err(e);
            },
            Ok(_) => {},
        }
        self.core.database.schemas.insert(schema.id, schema.duplicate());
        self.core.user.increase_ref(schema.owner);
        let mut messages: Vec<Notification> = Vec::new();
        messages.push(Self::notify_frontend(Operation::Add, Info::Schema(schema.duplicate())));
        assert(views(messages@) =~= schema_created(old(self)@, schema@)->Ok_0.1);
        Ok(messages)
    }

    pub fn drop_schema(&mut self, schema_id: u32) -> (r: MetaResult<Vec<Notification>>)
        requires
            schema_dropped(old(self)@, schema_id) is Ok ==> owns(
                old(self)@.user,
                old(self)@.database.schemas[schema_id].owner,
                1,
            ) && all_objects_named(old(self)@.user.user_info),
        ensures
            ends_as(r, old(self)@, final(self)@, schema_dropped(old(self)@, schema_id)),
    {
        let ghost c = self@;
        if !self.core.database.schemas.contains_key(schema_id) {
            return Err(MetaError::CatalogIdNotFound(CatalogKind::Schema, schema_id));
        }
        if self.core.database.has_creation_in_schema(schema_id) {
            return Err(MetaError::SchemaBusy);
        }
        if !self.core.database.schema_is_empty(schema_id) {
            return Err(MetaError::SchemaNotEmpty);
        }
        let mut objects: Vec<Object> = Vec::new();
        objects.push(Object::SchemaId(schema_id));
        assert(objects@ =~= seq![Object::SchemaId(schema_id)]);
        let users = Self::update_user_privileges(&mut self.core.user.user_info, &objects);
        let mut messages = notify_users(users);
        match self.core.database.schemas.remove(schema_id) {
            Some(schema) => {
                self.core.user.decrease_ref(schema.owner);
                messages.push(Self::notify_frontend(Operation::Delete, Info::Schema(schema)));
            },
            None => {},
        }
        assert(views(messages@) =~= schema_dropped(c, schema_id)->Ok_0.1);
        Ok(messages)
    }
}

// ---------------------------------------------------------------------------
// Views.
// ---------------------------------------------------------------------------

pub open spec fn view_created(c: CatalogManagerCoreModel, view: ViewInfoModel) -> Outcome {
    match either(
        c.database.ensure_database(view.database_id),
        either(
            c.database.ensure_schema(view.schema_id),
            either(
                c.database.ensure_relations(view.dependent_relations),
                either(
                    c.database.name_clash(key_of(view.database_id, view.schema_id, view.name)),
                    c.user.ensure_user(view.owner),
                ),
            ),
        ),
    ) {
        Some(e) => Err(e),
        None => Ok(
            (
                CatalogManagerCoreModel {
                    database: DatabaseManagerModel {
                        views: c.database.views.insert(view.id, view),
                        relation_ref_count: raised(
                            c.database.relation_ref_count,
                            view.dependent_relations,
                        ),
                        ..c.database
                    },
                    user: owning_more(c.user, view.owner, 1),
                },
                seq![frontend_relations(Operation::Add, seq![RelationInfoModel::View(view)])],
            ),
        ),
    }
}

impl CatalogManager {
    pub fn create_view(&mut self, view: &ViewInfo) -> (r: MetaResult<Vec<Notification>>)
        requires
            can_own(old(self)@.user, view@.owner, 1),
            fits(old(self)@.database.relation_ref_count, view@.dependent_relations),
        ensures
            ends_as(r, old(self)@, final(self)@, view_created(old(self)@, view@)),
    {
        match self.core.database.ensure_database_id(view.database_id) {
            Err(e) => {
                return Err(e);
            },
            Ok(_) => {},
        }
        match self.core.database.ensure_schema_id(view.schema_id) {
            Err(e) => {
                return Err(e);
            },
            Ok(_) => {},
        }
        match self.core.database.ensure_table_view_or_source_ids(&view.dependent_relations) {
            Err(e) => {
                return Err(e);
            },
            Ok(_) => {},
        }
        let key = RelationKey {
            database_id: view.database_id,
            schema_id: view.schema_id,
            name: view.name.clone(),
        };
        match self.core.database.check_relation_name_duplicated(&key) {
            Err(e) => {
                return Err(e);
            },
            Ok(_) => {},
        }
        match self.core.user.ensure_user_id(view.owner) {
            Err(e) => {
                return Err(e);
            },
            Ok(_) => {},
        }
        self.core.database.views.insert(view.id, view.duplicate());
        self.core.user.increase_ref(view.owner);
        raise_all(&mut self.core.database.relation_ref_count, &view.dependent_relations);
        let mut messages: Vec<Notification> = Vec::new();
        messages.push(
            Self::notify_frontend_relation_info(
                Operation::Add,
                RelationInfo::View(view.duplicate()),
            ),
        );
        assert(views(messages@) =~= view_created(old(self)@, view@)->Ok_0.1);
        Ok(messages)
    }
}

// ---------------------------------------------------------------------------
// Functions.
// ---------------------------------------------------------------------------

pub open spec fn function_created(c: CatalogManagerCoreModel, function: FunctionModel) -> Outcome {
    match either(
        c.database.ensure_database(function.database_id),
        either(
            c.database.ensure_schema(function.schema_id),
            either(
                c.database.function_clash(
                    key_of(function.database_id, function.schema_id, function.name),
                    function.arg_types,
                ),
                c.user.ensure_user(function.owner),
            ),
        ),
    ) {
        Some(e) => Err(e),
        None => Ok(
            (
                CatalogManagerCoreModel {
                    database: DatabaseManagerModel {
                        functions: c.database.functions.insert(function.id, function),
                        ..c.database
                    },
                    user: owning_more(c.user, function.owner, 1),
                },
                seq![frontend(Operation::Add, InfoModel::Function(function))],
            ),
        ),
    }
}

pub open spec fn function_dropped(c: CatalogManagerCoreModel, id: u32) -> Outcome {
    let objects = seq![Object::FunctionId(id)];
    if !c.database.functions.contains_key(id) {
        Err(MetaErrorModel::CatalogIdNotFound(CatalogKind::Function, id))
    } else {
        let function = c.database.functions[id];
        Ok(
            (
                CatalogManagerCoreModel {
                    database: DatabaseManagerModel {
                        functions: c.database.functions.remove(id),
                        ..c.database
                    },
                    user: UserManagerModel {
                        user_info: stripped_users(c.user.user_info, objects),
                        ..owning_less(c.user, function.owner, 1)
                    },
                },
                user_updates(updated_users(c.user.user_info, objects)).push(
                    frontend(Operation::Delete, InfoModel::Function(function)),
                ),
            ),
        )
    }
}

impl CatalogManager {
    pub fn create_function(&mut self, function: &Function) -> (r: MetaResult<Vec<Notification>>)
        requires
            can_own(old(self)@.user, function@.owner, 1),
        ensures
            ends_as(r, old(self)@, final(self)@, function_created(old(self)@, function@)),
    {
        match self.core.database.ensure_database_id(function.database_id) {
            Err(e) => {
                return Err(e);
            },
            Ok(_) => {},
        }
        match self.core.database.ensure_schema_id(function.schema_id) {
            Err(e) => {
                return Err(e);
            },
            Ok(_) => {},
        }
        let key = RelationKey {
            database_id: function.database_id,
            schema_id: function.schema_id,
            name: function.name.clone(),
        };
        match self.core.database.check_function_duplicated(&key, &function.arg_types) {
            Err(e) => {
                return Err(e);
            },
            Ok(_) => {},
        }
        match self.core.user.ensure_user_id(function.owner) {
            Err(e) => {
                return Err(e);
            },
            Ok(_) => {},
        }
        self.core.database.functions.insert(function.id, function.duplicate());
        self.core.user.increase_ref(function.owner);
        let mut messages: Vec<Notification> = Vec::new();
        messages.push(Self::notify_frontend(Operation::Add, Info::Function(function.duplicate())));
        assert(views(messages@) =~= function_created(old(self)@, function@)->Ok_0.1);
        Ok(messages)
    }

    pub fn drop_function(&mut self, function_id: u32) -> (r: MetaResult<Vec<Notification>>)
        requires
            old(self)@.database.functions.contains_key(function_id) ==> owns(
                old(self)@.user,
                old(self)@.database.functions[function_id].owner,
                1,
            ) && all_objects_named(old(self)@.user.user_info),
        ensures
            ends_as(r, old(self)@, final(self)@, function_dropped(old(self)@, function_id)),
    {
        let ghost c = self@;
        if !self.core.database.functions.contains_key(function_id) {
            return Err(MetaError::CatalogIdNotFound(CatalogKind::Function, function_id));
        }
        let mut objects: Vec<Object> = Vec::new();
        objects.push(Object::FunctionId(function_id));
        assert(objects@ =~= seq![Object::FunctionId(function_id)]);
        let users = Self::update_user_privileges(&mut self.core.user.user_info, &objects);
        let mut messages = notify_users(users);
        match self.core.database.functions.remove(function_id) {
            Some(function) => {
                self.core.user.decrease_ref(function.owner);
                messages.push(Self::notify_frontend(Operation::Delete, Info::Function(function)));
            },
            None => {},
        }
        assert(views(messages@) =~= function_dropped(c, function_id)->Ok_0.1);
        Ok(messages)
    }
}

// ---------------------------------------------------------------------------
// Connections.
// ---------------------------------------------------------------------------

pub open spec fn connection_created(c: CatalogManagerCoreModel, connection: ConnectionModel) -> Outcome {
    match either(
        c.database.ensure_database(connection.database_id),
        either(
            c.database.ensure_schema(connection.schema_id),
            either(
                c.user.ensure_user(connection.owner),
                c.database.connection_clash(
                    key_of(connection.database_id, connection.schema_id, connection.name),
                ),
            ),
        ),
    ) {
        Some(e) => Err(e),
        None => Ok(
            (
                CatalogManagerCoreModel {
                    database: DatabaseManagerModel {
                        connections: c.database.connections.insert(connection.id, connection),
                        ..c.database
                    },
                    user: owning_more(c.user, connection.owner, 1),
                },
                seq![frontend(Operation::Add, InfoModel::Connection(connection))],
            ),
        ),
    }
}

/// A connection is dropped; nothing may refer to it.
pub open spec fn connection_dropped(c: CatalogManagerCoreModel, id: u32) -> Outcome {
    if !c.database.connections.contains_key(id) {
        Err(MetaErrorModel::CatalogIdNotFound(CatalogKind::Connection, id))
    } else {
        let connection = c.database.connections[id];
        if c.database.connection_ref_count.contains_key(id) {
            Err(
                MetaErrorModel::ObjectReferenced(
                    CatalogKind::Connection,
                    connection.name,
                    c.database.connection_ref_count[id],
                ),
            )
        } else {
            Ok(
                (
                    CatalogManagerCoreModel {
                        database: DatabaseManagerModel {
                            connections: c.database.connections.remove(id),
                            ..c.database
                        },
                        user: owning_less(c.user, connection.owner, 1),
                    },
                    seq![frontend(Operation::Delete, InfoModel::Connection(connection))],
                ),
            )
        }
    }
}

impl CatalogManager {
    pub fn create_connection(&mut self, connection: Connection) -> (r: MetaResult<Vec<Notification>>)
        requires
            can_own(old(self)@.user, connection@.owner, 1),
        ensures
            ends_as(r, old(self)@, final(self)@, connection_created(old(self)@, connection@)),
    {
        match self.core.database.ensure_database_id(connection.database_id) {
            Err(e) => {
                return Err(e);
            },
            Ok(_) => {},
        }
        match self.core.database.ensure_schema_id(connection.schema_id) {
            Err(e) => {
                return Err(e);
            },
            Ok(_) => {},
        }
        match self.core.user.ensure_user_id(connection.owner) {
            Err(e) => {
                return Err(e);
            },
            Ok(_) => {},
        }
        let key = RelationKey {
            database_id: connection.database_id,
            schema_id: connection.schema_id,
            name: connection.name.clone(),
        };
        match self.core.database.check_connection_name_duplicated(&key) {
            Err(e) => {
                return Err(e);
            },
            Ok(_) => {},
        }
        self.core.database.connections.insert(connection.id, connection.duplicate());
        self.core.user.increase_ref(connection.owner);
        let mut messages: Vec<Notification> = Vec::new();
        messages.push(Self::notify_frontend(Operation::Add, Info::Connection(connection)));
        assert(views(messages@) =~= connection_created(old(self)@, connection@)->Ok_0.1);
        Ok(messages)
    }

    /// Drops a connection and hands it out, so that what it stands for can be taken down.
    pub fn drop_connection(&mut self, conn_id: u32) -> (r: MetaResult<
        (Vec<Notification>, Connection),
    >)
        requires
            connection_dropped(old(self)@, conn_id) is Ok ==> owns(
                old(self)@.user,
                old(self)@.database.connections[conn_id].owner,
                1,
            ),
        ensures
            match connection_dropped(old(self)@, conn_id) {
                Ok((c, messages)) => {
                    &&& r is Ok
                    &&& views(r->Ok_0.0@) == messages
                    &&& r->Ok_0.1@ == old(self)@.database.connections[conn_id]
                    &&& final(self)@ == c
                },
                Err(e) => r is Err && r->Err_0@ == e && final(self)@ == old(self)@,
            },
    {
        let ghost c = self@;
        let connection = match self.core.database.connections.get(conn_id) {
            Some(connection) => connection.duplicate(),
            None => {
                return Err(MetaError::CatalogIdNotFound(CatalogKind::Connection, conn_id));
            },
        };
        match self.core.database.connection_ref_count.get(conn_id) {
            Some(count) => {
                return Err(
                    MetaError::ObjectReferenced(CatalogKind::Connection, connection.name, *count),
                );
            },
            None => {},
        }
        self.core.database.connections.remove(conn_id);
        self.core.user.decrease_ref(connection.owner);
        let mut messages: Vec<Notification> = Vec::new();
        messages.push(
            Self::notify_frontend(Operation::Delete, Info::Connection(connection.duplicate())),
        );
        assert(views(messages@) =~= connection_dropped(c, conn_id)->Ok_0.1);
        Ok((messages, connection))
    }

    pub fn get_connection_by_id(&self, connection_id: u32) -> (r: MetaResult<Connection>)
        ensures
            match r {
                Ok(connection) => self@.database.connections.contains_key(connection_id)
                    && connection@ == self@.database.connections[connection_id],
                Err(e) => !self@.database.connections.contains_key(connection_id) && e@
                    == MetaErrorModel::CatalogIdNotFound(CatalogKind::Connection, connection_id),
            },
    {
        match self.core.database.connections.get(connection_id) {
            Some(connection) => Ok(connection.duplicate()),
            None => Err(MetaError::CatalogIdNotFound(CatalogKind::Connection, connection_id)),
        }
    }
}

// ---------------------------------------------------------------------------
// Secrets.
// ---------------------------------------------------------------------------

/// A message to the compute nodes.
pub open spec fn compute(operation: Operation, info: InfoModel) -> NotificationModel {
    NotificationModel { audience: Audience::Compute, operation, info }
}

/// A secret is kept as it is given; compute nodes and frontends get its plain payload.
pub open spec fn secret_created(c: CatalogManagerCoreModel, secret: SecretModel, payload: Seq<u8>) -> Outcome {
    match either(
        c.database.ensure_database(secret.database_id),
        either(
            c.database.ensure_schema(secret.schema_id),
            either(
                c.user.ensure_user(secret.owner),
                c.database.secret_clash(key_of(secret.database_id, secret.schema_id, secret.name)),
            ),
        ),
    ) {
        Some(e) => Err(e),
        None => {
            let plain = SecretModel { value: payload, ..secret };
            Ok(
                (
                    CatalogManagerCoreModel {
                        database: DatabaseManagerModel {
                            secrets: c.database.secrets.insert(secret.id, secret),
                            ..c.database
                        },
                        user: owning_more(c.user, secret.owner, 1),
                    },
                    seq![
                        compute(Operation::Add, InfoModel::Secret(plain)),
                        frontend(Operation::Add, InfoModel::Secret(plain)),
                    ],
                ),
            )
        },
    }
}

/// A secret is dropped; nothing may refer to it.
pub open spec fn secret_dropped(c: CatalogManagerCoreModel, id: u32) -> Outcome {
    let known = c.database.secrets.contains_key(id);
    let secret = c.database.secrets[id];
    if c.database.secret_ref_count.contains_key(id) {
        if known {
            Err(
                MetaErrorModel::ObjectReferenced(
                    CatalogKind::Secret,
                    secret.name,
                    c.database.secret_ref_count[id],
                ),
            )
        } else {
            Err(MetaErrorModel::CatalogIdNotFound(CatalogKind::Connection, id))
        }
    } else if !known {
        Err(MetaErrorModel::SecretNotFound)
    } else {
        Ok(
            (
                CatalogManagerCoreModel {
                    database: DatabaseManagerModel {
                        secrets: c.database.secrets.remove(id),
                        ..c.database
                    },
                    user: owning_less(c.user, secret.owner, 1),
                },
                seq![
                    compute(Operation::Delete, InfoModel::Secret(secret)),
                    frontend(Operation::Delete, InfoModel::Secret(secret)),
                ],
            ),
        )
    }
}

impl CatalogManager {
    pub fn create_secret(&mut self, secret: Secret, secret_plain_payload: Vec<u8>) -> (r: MetaResult<
        Vec<Notification>,
    >)
        requires
            can_own(old(self)@.user, secret@.owner, 1),
        ensures
            ends_as(
                r,
                old(self)@,
                final(self)@,
                secret_created(old(self)@, secret@, secret_plain_payload@),
            ),
    {
        match self.core.database.ensure_database_id(secret.database_id) {
            Err(e) => {
                return Err(e);
            },
            Ok(_) => {},
        }
        match self.core.database.ensure_schema_id(secret.schema_id) {
            Err(e) => {
                return Err(e);
            },
            Ok(_) => {},
        }
        match self.core.user.ensure_user_id(secret.owner) {
            Err(e) => {
                return Err(e);
            },
            Ok(_) => {},
        }
        let key = RelationKey {
            database_id: secret.database_id,
            schema_id: secret.schema_id,
            name: secret.name.clone(),
        };
        match self.core.database.check_secret_name_duplicated(&key) {
            Err(e) => {
                return Err(e);
            },
            Ok(_) => {},
        }
        let mut plain = secret.duplicate();
        plain.value = secret_plain_payload;
        self.core.user.increase_ref(secret.owner);
        self.core.database.secrets.insert(secret.id, secret);
        let mut messages: Vec<Notification> = Vec::new();
        messages.push(
            Notification {
                audience: Audience::Compute,
                operation: Operation::Add,
                info: Info::Secret(plain.duplicate()),
            },
        );
        messages.push(Self::notify_frontend(Operation::Add, Info::Secret(plain)));
        assert(views(messages@) =~= secret_created(
            old(self)@,
            secret@,
            secret_plain_payload@,
        )->Ok_0.1);
        Ok(messages)
    }

    pub fn drop_secret(&mut self, secret_id: u32) -> (r: MetaResult<Vec<Notification>>)
        requires
            secret_dropped(old(self)@, secret_id) is Ok ==> owns(
                old(self)@.user,
                old(self)@.database.secrets[secret_id].owner,
                1,
            ),
        ensures
            ends_as(r, old(self)@, final(self)@, secret_dropped(old(self)@, secret_id)),
    {
        let ghost c = self@;
        match self.core.database.secret_ref_count.get(secret_id) {
            Some(count) => {
                return match self.core.database.secrets.get(secret_id) {
                    Some(secret) => Err(
                        MetaError::ObjectReferenced(
                            CatalogKind::Secret,
                            secret.name.clone(),
                            *count,
                        ),
                    ),
                    None => Err(MetaError::CatalogIdNotFound(CatalogKind::Connection, secret_id)),
                };
            },
            None => {},
        }
        if !self.core.database.secrets.contains_key(secret_id) {
            return Err(MetaError::SecretNotFound);
        }
        let mut messages: Vec<Notification> = Vec::new();
        match self.core.database.secrets.remove(secret_id) {
            Some(secret) => {
                self.core.user.decrease_ref(secret.owner);
                messages.push(
                    Notification {
                        audience: Audience::Compute,
                        operation: Operation::Delete,
                        info: Info::Secret(secret.duplicate()),
                    },
                );
                messages.push(Self::notify_frontend(Operation::Delete, Info::Secret(secret)));
            },
            None => {},
        }
        assert(views(messages@) =~= secret_dropped(c, secret_id)->Ok_0.1);
        Ok(messages)
    }
}

// ---------------------------------------------------------------------------
// Whether an object can be dropped.
// ---------------------------------------------------------------------------

impl CatalogManager {
    /// Tells whether [`Self::drop_schema`] can be called.
    pub fn can_drop_schema(&self, schema_id: u32) -> (r: bool)
        ensures
            r == (schema_dropped(self@, schema_id) is Ok ==> owns(
                self@.user,
                self@.database.schemas[schema_id].owner,
                1,
            ) && all_objects_named(self@.user.user_info)),
    {
        match self.core.database.schemas.get(schema_id) {
            Some(schema) => self.core.database.has_creation_in_schema(schema_id)
                || !self.core.database.schema_is_empty(schema_id) || (self.core.user.owns(
                schema.owner,
                1,
            ) && check_objects_named(&self.core.user.user_info)),
            None => true,
        }
    }

    /// Tells whether [`Self::drop_function`] can be called.
    pub fn can_drop_function(&self, function_id: u32) -> (r: bool)
        ensures
            r == (self@.database.functions.contains_key(function_id) ==> owns(
                self@.user,
                self@.database.functions[function_id].owner,
                1,
            ) && all_objects_named(self@.user.user_info)),
    {
        match self.core.database.functions.get(function_id) {
            Some(function) => self.core.user.owns(function.owner, 1) && check_objects_named(
                &self.core.user.user_info,
            ),
            None => true,
        }
    }

    /// Tells whether [`Self::drop_connection`] can be called.
    pub fn can_drop_connection(&self, conn_id: u32) -> (r: bool)
        ensures
            r == (connection_dropped(self@, conn_id) is Ok ==> owns(
                self@.user,
                self@.database.connections[conn_id].owner,
                1,
            )),
    {
        match self.core.database.connections.get(conn_id) {
            Some(connection) => self.core.database.connection_ref_count.contains_key(conn_id)
                || self.core.user.owns(connection.owner, 1),
            None => true,
        }
    }

    /// Tells whether [`Self::drop_secret`] can be called.
    pub fn can_drop_secret(&self, secret_id: u32) -> (r: bool)
        ensures
            r == (secret_dropped(self@, secret_id) is Ok ==> owns(
                self@.user,
                self@.database.secrets[secret_id].owner,
                1,
            )),
    {
        match self.core.database.secrets.get(secret_id) {
            Some(secret) => self.core.database.secret_ref_count.contains_key(secret_id)
                || self.core.user.owns(secret.owner, 1),
            None => true,
        }
    }
}

} // verus!
