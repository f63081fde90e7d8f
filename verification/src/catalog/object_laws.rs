//! What holds once a database, a schema, a view, a function, a connection, a secret or a user is
//! created, changed or dropped.

use vstd::prelude::*;

use crate::catalog::effects::{kept_but, stands, tells, told_of, told_truly};
use crate::catalog::error::MetaErrorModel;
use crate::catalog::notify::{Audience, InfoModel, NotificationModel, Operation, RelationInfoModel};
use crate::catalog::objects::{
    can_own, connection_created, connection_dropped, database_created, default_database_added,
    default_schema, function_created, function_dropped, owns, schema_created, schema_dropped,
    secret_created, secret_dropped, view_created, with_default_schemas,
};
use crate::catalog::outcome::{ends_as, Outcome};
use crate::catalog::privilege::{affected, stripped_users, updated_users, user_updates};
use crate::catalog::rename_laws::told_about;
use crate::catalog::start_laws::{
    can_stand, counted, law_taken_names_are_refused, law_unknown_relations_are_refused,
    lemma_counted, lemma_disowned, lemma_owned, owned,
};
use crate::catalog::state::{CatalogManagerCoreModel, DatabaseManagerModel, UserManagerModel};
use crate::catalog::types::{
    ConnectionModel, DatabaseModel, FunctionModel, Object, RelationKeyModel, SchemaModel, SecretModel,
    UpdateField, UserInfoModel, ViewInfoModel,
};
use crate::catalog::users::{
    default_user, default_users_added, user_created, user_dropped, user_updated, with_fields,
};
use crate::util::counts::fits;
use crate::util::id_map::{ids_where, lemma_ids_where};

verus! {

/// A refused request changes nothing and gives the refusal; one that is not refused gives the messages.
pub proof fn law_refused_request_changes_nothing(
    r: crate::catalog::error::MetaResult<Vec<crate::catalog::notify::Notification>>,
    before: CatalogManagerCoreModel,
    after: CatalogManagerCoreModel,
    outcome: Outcome,
)
    requires
        ends_as(r, before, after, outcome),
    ensures
        r is Ok <==> outcome is Ok,
        r is Err ==> after == before && r->Err_0@ == outcome->Err_0,
        r is Ok ==> after == outcome->Ok_0.0 && crate::util::id_map::views(r->Ok_0@) == outcome->Ok_0.1,
{
}

// ---------------------------------------------------------------------------
// Databases and schemas.
// ---------------------------------------------------------------------------

/// The schemas of a new database.
proof fn lemma_default_schemas(
    schemas: Map<u32, SchemaModel>,
    database: DatabaseModel,
    ids: Seq<u32>,
    n: int,
)
    requires
        0 <= n <= ids.len(),
        ids.no_duplicates(),
    ensures
        ({
            let r = with_default_schemas(schemas, database, ids, n);
            &&& forall|i: int|
                0 <= i < n ==> r.contains_key(#[trigger] ids[i]) && r[ids[i]] == default_schema(
                    database,
                    ids,
                    i,
                )
            &&& kept_but(schemas, r, ids.to_set())
        }),
    decreases n,
{
    if n > 0 {
        lemma_default_schemas(schemas, database, ids, n - 1);
        let before = with_default_schemas(schemas, database, ids, n - 1);
        let r = with_default_schemas(schemas, database, ids, n);
        assert forall|i: int| 0 <= i < n implies r.contains_key(#[trigger] ids[i]) && r[ids[i]]
            == default_schema(database, ids, i) by {
            if i < n - 1 {
                assert(ids[i] != ids[n - 1]);
            }
        }
        assert(ids.contains(ids[n - 1]));
        assert forall|x: u32| !ids.to_set().contains(x) implies {
            &&& (#[trigger] r.contains_key(x) <==> schemas.contains_key(x))
            &&& schemas.contains_key(x) ==> r[x] == schemas[x]
        } by {
            assert(x != ids[n - 1]);
            assert(before.contains_key(x) <==> schemas.contains_key(x));
        }
    }
}

/// A database is created exactly where its owner is known and no database has its name. It stands with
/// its default schemas, which belong to it and to its owner and have the default names in their order;
/// the owner owns all of them, and the frontends are told of the database and then of its schemas.
/// Nothing else changes.
pub proof fn law_created_database(
    c: CatalogManagerCoreModel,
    database: DatabaseModel,
    schema_ids: Seq<u32>,
)
    requires
        schema_ids.no_duplicates(),
        can_own(c.user, database.owner, 1 + schema_ids.len()),
    ensures
        ({
            let before = c.database;
            let free = forall|x: u32| #[trigger]
                before.databases.contains_key(x) ==> before.databases[x].name != database.name;
            match database_created(c, database, schema_ids) {
                Ok((after, messages)) => {
                    let db = after.database;
                    &&& free
                    &&& c.user.user_info.contains_key(database.owner)
                    &&& db.databases.contains_key(database.id)
                    &&& db.databases[database.id] == database
                    &&& kept_but(before.databases, db.databases, set![database.id])
                    &&& forall|i: int|
                        0 <= i < schema_ids.len() ==> {
                            let s = db.schemas[#[trigger] schema_ids[i]];
                            &&& db.schemas.contains_key(schema_ids[i])
                            &&& s.id == schema_ids[i]
                            &&& s.database_id == database.id
                            &&& s.owner == database.owner
                            &&& i == 0 ==> s.name == "public"@
                            &&& i == 1 ==> s.name == "pg_catalog"@
                            &&& i == 2 ==> s.name == "information_schema"@
                            &&& i == 3 ==> s.name == "rw_catalog"@
                            &&& messages[i + 1] == (NotificationModel {
                                audience: Audience::Frontend,
                                operation: Operation::Add,
                                info: InfoModel::Schema(s),
                            })
                        }
                    &&& kept_but(before.schemas, db.schemas, schema_ids.to_set())
                    &&& messages.len() == 1 + schema_ids.len()
                    &&& messages[0] == (NotificationModel {
                        audience: Audience::Frontend,
                        operation: Operation::Add,
                        info: InfoModel::Database(database),
                    })
                    &&& owned(c.user, after.user, database.owner, 1 + schema_ids.len())
                    &&& db == (DatabaseManagerModel {
                        databases: db.databases,
                        schemas: db.schemas,
                        ..before
                    })
                },
                Err(_) => !free || !c.user.user_info.contains_key(database.owner),
            }
        }),
{
    lemma_default_schemas(c.database.schemas, database, schema_ids, schema_ids.len() as int);
    lemma_owned(c.user, database.owner, 1 + schema_ids.len());
}

/// The default database is added exactly where no database has its name: nothing happens otherwise, so
/// that adding it again does nothing.
pub proof fn law_default_database_once(
    c: CatalogManagerCoreModel,
    id: u32,
    ids: Seq<u32>,
    other_id: u32,
    other_ids: Seq<u32>,
)
    requires
        c.user.user_info.contains_key(1),
    ensures
        ({
            let r = default_database_added(c, id, ids);
            let (after, messages) = r->Ok_0;
            let named = exists|x: u32| #[trigger]
                c.database.databases.contains_key(x) && c.database.databases[x].name == "dev"@;
            &&& r is Ok
            &&& named ==> after == c && messages.len() == 0
            &&& !named ==> after.database.databases.contains_key(id)
                && after.database.databases[id].name == "dev"@ && after.database.databases[id].owner
                == 1
            &&& default_database_added(after, other_id, other_ids) == Ok::<
                (CatalogManagerCoreModel, Seq<NotificationModel>),
                MetaErrorModel,
            >((after, Seq::empty()))
        }),
{
    let (after, messages) = default_database_added(c, id, ids)->Ok_0;
    if !(exists|x: u32| #[trigger]
        c.database.databases.contains_key(x) && c.database.databases[x].name == "dev"@) {
        assert(c.database.database_clash("dev"@) is None);
        assert(after.database.databases.contains_key(id) && after.database.databases[id].name
            == "dev"@);
        assert(crate::catalog::database::database_named("dev"@)(after.database.databases[id]));
    } else {
        let x = choose|x: u32| #[trigger]
            c.database.databases.contains_key(x) && c.database.databases[x].name == "dev"@;
        assert(crate::catalog::database::database_named("dev"@)(c.database.databases[x]));
    }
}

/// A schema is created exactly where its database and its owner are known and no schema of the database
/// has its name. It stands as it was given, its owner owns one object more, and the frontends are told
/// of it. Nothing else changes.
pub proof fn law_created_schema(c: CatalogManagerCoreModel, schema: SchemaModel)
    requires
        can_own(c.user, schema.owner, 1),
    ensures
        ({
            let before = c.database;
            let free = forall|x: u32| #[trigger]
                before.schemas.contains_key(x) ==> !(before.schemas[x].database_id
                    == schema.database_id && before.schemas[x].name == schema.name);
            let owed = before.databases.contains_key(schema.database_id) && free
                && c.user.user_info.contains_key(schema.owner);
            match schema_created(c, schema) {
                Ok((after, messages)) => {
                    let db = after.database;
                    &&& owed
                    &&& db.schemas.contains_key(schema.id)
                    &&& db.schemas[schema.id] == schema
                    &&& kept_but(before.schemas, db.schemas, set![schema.id])
                    &&& owned(c.user, after.user, schema.owner, 1)
                    &&& told_about(messages, Operation::Add, InfoModel::Schema(schema))
                    &&& db == (DatabaseManagerModel { schemas: db.schemas, ..before })
                },
                Err(_) => !owed,
            }
        }),
{
    lemma_owned(c.user, schema.owner, 1);
}

/// What every user is left with is told: of the users who lose a privilege, each once, and of no other.
pub proof fn law_losers_are_told(users: Map<u32, UserInfoModel>, objects: Seq<Object>, id: u32)
    requires
        users.dom().finite(),
        users.contains_key(id),
    ensures
        ({
            let told = user_updates(updated_users(users, objects));
            let left = stripped_users(users, objects)[id];
            let loses = left.grant_privileges.len() != users[id].grant_privileges.len();
            &&& left == (UserInfoModel { grant_privileges: left.grant_privileges, ..users[id] })
            &&& loses ==> exists|k: int|
                0 <= k < told.len() && (#[trigger] told[k]).info == InfoModel::User(left)
            &&& forall|k: int|
                0 <= k < told.len() ==> {
                    let n = #[trigger] told[k];
                    &&& n.audience == Audience::Frontend
                    &&& n.operation == Operation::Update
                    &&& n.info is User
                    &&& exists|u: u32| #[trigger]
                        users.contains_key(u) && n.info->User_0 == stripped_users(users, objects)[u]
                            && n.info->User_0.grant_privileges.len() != users[u].grant_privileges.len()
                }
            &&& told.len() <= users.dom().len()
        }),
{
    lemma_ids_where(users, affected(objects));
    let ids = ids_where(users, affected(objects));
    let told = user_updates(updated_users(users, objects));
    let left = stripped_users(users, objects)[id];
    if left.grant_privileges.len() != users[id].grant_privileges.len() {
        assert(ids.contains(id));
        let k = choose|k: int| 0 <= k < ids.len() && ids[k] == id;
        assert(told[k].info == InfoModel::User(left));
    }
    assert forall|k: int| 0 <= k < told.len() implies {
        let n = #[trigger] told[k];
        &&& n.info is User
        &&& exists|u: u32| #[trigger]
            users.contains_key(u) && n.info->User_0 == stripped_users(users, objects)[u]
                && n.info->User_0.grant_privileges.len() != users[u].grant_privileges.len()
    } by {
        assert(ids.contains(ids[k]));
        assert(users.contains_key(ids[k]));
        assert(affected(objects)(users[ids[k]]));
    }
    assert(ids.to_set().subset_of(users.dom())) by {
        assert forall|x: u32| #[trigger] ids.to_set().contains(x) implies users.dom().contains(x) by {
            assert(ids.contains(x));
        }
    }
    ids.unique_seq_to_set();
    vstd::set_lib::lemma_len_subset(ids.to_set(), users.dom());
}

/// What is told of a dropped object: first the users who lose a privilege, then the object.
pub open spec fn told_dropped(
    before: Map<u32, UserInfoModel>,
    messages: Seq<NotificationModel>,
    object: Object,
    info: InfoModel,
) -> bool {
    &&& messages.len() > 0
    &&& messages.last() == (NotificationModel {
        audience: Audience::Frontend,
        operation: Operation::Delete,
        info,
    })
    &&& messages.drop_last() == user_updates(updated_users(before, seq![object]))
}

/// A schema is dropped exactly where it is known, nothing is being created in it and no relation is in
/// it. It is gone, no privilege on it is left, its owner owns one object less, and the frontends are
/// told. Nothing else changes.
pub proof fn law_dropped_schema(c: CatalogManagerCoreModel, id: u32)
    requires
        c.database.schemas.contains_key(id) ==> owns(c.user, c.database.schemas[id].owner, 1),
    ensures
        ({
            let before = c.database;
            let busy = exists|k: RelationKeyModel|
                before.in_progress_creation_tracker.contains(k) && #[trigger] k.schema_id == id;
            let empty = (forall|x: u32| #[trigger]
                before.tables.contains_key(x) ==> before.tables[x].schema_id != id) && (forall|x: u32|
             #[trigger]
                before.sources.contains_key(x) ==> before.sources[x].schema_id != id) && (forall|x: u32|
             #[trigger]
                before.sinks.contains_key(x) ==> before.sinks[x].schema_id != id) && (forall|x: u32|
             #[trigger]
                before.subscriptions.contains_key(x) ==> before.subscriptions[x].schema_id != id) && (
            forall|x: u32| #[trigger]
                before.indexes.contains_key(x) ==> before.indexes[x].schema_id != id) && (forall|x: u32|
             #[trigger]
                before.views.contains_key(x) ==> before.views[x].schema_id != id);
            match schema_dropped(c, id) {
                Ok((after, messages)) => {
                    let db = after.database;
                    &&& before.schemas.contains_key(id) && !busy && empty
                    &&& !db.schemas.contains_key(id)
                    &&& kept_but(before.schemas, db.schemas, set![id])
                    &&& owned(
                        UserManagerModel { user_info: c.user.user_info, ..after.user },
                        c.user,
                        before.schemas[id].owner,
                        1,
                    )
                    &&& after.user.user_info == stripped_users(
                        c.user.user_info,
                        seq![Object::SchemaId(id)],
                    )
                    &&& told_dropped(
                        c.user.user_info,
                        messages,
                        Object::SchemaId(id),
                        InfoModel::Schema(before.schemas[id]),
                    )
                    &&& db == (DatabaseManagerModel { schemas: db.schemas, ..before })
                },
                Err(_) => !before.schemas.contains_key(id) || busy || !empty,
            }
        }),
{
    let before = c.database;
    assert(crate::catalog::database::key_in_schema(before.in_progress_creation_tracker, id) <==> exists|
        k: RelationKeyModel,
    |
        before.in_progress_creation_tracker.contains(k) && #[trigger] k.schema_id == id) by {
        if exists|k: RelationKeyModel|
            before.in_progress_creation_tracker.contains(k) && #[trigger] k.schema_id == id {
            let k = choose|k: RelationKeyModel|
                before.in_progress_creation_tracker.contains(k) && #[trigger] k.schema_id == id;
            assert(before.in_progress_creation_tracker.contains(k));
        }
        if crate::catalog::database::key_in_schema(before.in_progress_creation_tracker, id) {
            let k = choose|k: RelationKeyModel| #[trigger]
                before.in_progress_creation_tracker.contains(k) && k.schema_id == id;
            assert(k.schema_id == id);
        }
    }
    if schema_dropped(c, id) is Ok {
        lemma_disowned(c.user, before.schemas[id].owner, 1);
        let messages = schema_dropped(c, id)->Ok_0.1;
        assert(messages.drop_last() =~= user_updates(
            updated_users(c.user.user_info, seq![Object::SchemaId(id)]),
        ));
    }
}

// ---------------------------------------------------------------------------
// Views, functions, connections and secrets.
// ---------------------------------------------------------------------------

/// A view is created exactly where its database, its schema, its owner and what it depends on are known
/// and its name is free. It stands as it was given, what it depends on is counted once more, its owner
/// owns one object more, and the frontends are told of it. Nothing else changes.
pub proof fn law_created_view(c: CatalogManagerCoreModel, view: ViewInfoModel)
    requires
        c.database.tables.dom().finite(),
        can_own(c.user, view.owner, 1),
        fits(c.database.relation_ref_count, view.dependent_relations),
    ensures
        ({
            let before = c.database;
            let owed = can_stand(
                c,
                RelationKeyModel {
                    database_id: view.database_id,
                    schema_id: view.schema_id,
                    name: view.name,
                },
                view.owner,
                view.dependent_relations,
            );
            match view_created(c, view) {
                Ok((after, messages)) => {
                    let db = after.database;
                    &&& owed
                    &&& stands(db, RelationInfoModel::View(view))
                    &&& kept_but(before.views, db.views, set![view.id])
                    &&& counted(
                        before.relation_ref_count,
                        db.relation_ref_count,
                        view.dependent_relations,
                    )
                    &&& owned(c.user, after.user, view.owner, 1)
                    &&& told_truly(db, messages, Operation::Add)
                    &&& tells(messages, RelationInfoModel::View(view))
                    &&& db == (DatabaseManagerModel {
                        views: db.views,
                        relation_ref_count: db.relation_ref_count,
                        ..before
                    })
                },
                Err(_) => !owed,
            }
        }),
{
    let key = RelationKeyModel {
        database_id: view.database_id,
        schema_id: view.schema_id,
        name: view.name,
    };
    law_taken_names_are_refused(c.database, key);
    law_unknown_relations_are_refused(c.database, view.dependent_relations);
    lemma_counted(c.database.relation_ref_count, view.dependent_relations);
    lemma_owned(c.user, view.owner, 1);
    if view_created(c, view) is Ok {
        assert(told_of(view_created(c, view)->Ok_0.1)[0] is View);
    }
}

/// A function is created exactly where its database, its schema and its owner are known and no function
/// of the schema has its name and its arguments. It stands as it was given, its owner owns one object
/// more, and the frontends are told of it. Nothing else changes.
pub proof fn law_created_function(c: CatalogManagerCoreModel, function: FunctionModel)
    requires
        can_own(c.user, function.owner, 1),
    ensures
        ({
            let before = c.database;
            let free = forall|x: u32| #[trigger]
                before.functions.contains_key(x) ==> !(before.functions[x].database_id
                    == function.database_id && before.functions[x].schema_id == function.schema_id
                    && before.functions[x].name == function.name && before.functions[x].arg_types
                    == function.arg_types);
            let owed = before.databases.contains_key(function.database_id)
                && before.schemas.contains_key(function.schema_id) && free
                && c.user.user_info.contains_key(function.owner);
            match function_created(c, function) {
                Ok((after, messages)) => {
                    let db = after.database;
                    &&& owed
                    &&& db.functions.contains_key(function.id)
                    &&& db.functions[function.id] == function
                    &&& kept_but(before.functions, db.functions, set![function.id])
                    &&& owned(c.user, after.user, function.owner, 1)
                    &&& told_about(messages, Operation::Add, InfoModel::Function(function))
                    &&& db == (DatabaseManagerModel { functions: db.functions, ..before })
                },
                Err(_) => !owed,
            }
        }),
{
    lemma_owned(c.user, function.owner, 1);
}

/// A function is dropped exactly where it is known. It is gone, no privilege on it is left, its owner
/// owns one object less, and the frontends are told. Nothing else changes.
pub proof fn law_dropped_function(c: CatalogManagerCoreModel, id: u32)
    requires
        c.database.functions.contains_key(id) ==> owns(c.user, c.database.functions[id].owner, 1),
    ensures
        ({
            let before = c.database;
            match function_dropped(c, id) {
                Ok((after, messages)) => {
                    let db = after.database;
                    &&& before.functions.contains_key(id)
                    &&& !db.functions.contains_key(id)
                    &&& kept_but(before.functions, db.functions, set![id])
                    &&& owned(
                        UserManagerModel { user_info: c.user.user_info, ..after.user },
                        c.user,
                        before.functions[id].owner,
                        1,
                    )
                    &&& after.user.user_info == stripped_users(
                        c.user.user_info,
                        seq![Object::FunctionId(id)],
                    )
                    &&& told_dropped(
                        c.user.user_info,
                        messages,
                        Object::FunctionId(id),
                        InfoModel::Function(before.functions[id]),
                    )
                    &&& db == (DatabaseManagerModel { functions: db.functions, ..before })
                },
                Err(_) => !before.functions.contains_key(id),
            }
        }),
{
    if function_dropped(c, id) is Ok {
        lemma_disowned(c.user, c.database.functions[id].owner, 1);
        let messages = function_dropped(c, id)->Ok_0.1;
        assert(messages.drop_last() =~= user_updates(
            updated_users(c.user.user_info, seq![Object::FunctionId(id)]),
        ));
    }
}

/// A connection is created exactly where its database, its schema and its owner are known and no
/// connection of the schema has its name. It stands as it was given, its owner owns one object more, and
/// the frontends are told of it. Nothing else changes.
pub proof fn law_created_connection(c: CatalogManagerCoreModel, connection: ConnectionModel)
    requires
        can_own(c.user, connection.owner, 1),
    ensures
        ({
            let before = c.database;
            let free = forall|x: u32| #[trigger]
                before.connections.contains_key(x) ==> !(before.connections[x].database_id
                    == connection.database_id && before.connections[x].schema_id
                    == connection.schema_id && before.connections[x].name == connection.name);
            let owed = before.databases.contains_key(connection.database_id)
                && before.schemas.contains_key(connection.schema_id) && free
                && c.user.user_info.contains_key(connection.owner);
            match connection_created(c, connection) {
                Ok((after, messages)) => {
                    let db = after.database;
                    &&& owed
                    &&& db.connections.contains_key(connection.id)
                    &&& db.connections[connection.id] == connection
                    &&& kept_but(before.connections, db.connections, set![connection.id])
                    &&& owned(c.user, after.user, connection.owner, 1)
                    &&& told_about(messages, Operation::Add, InfoModel::Connection(connection))
                    &&& db == (DatabaseManagerModel { connections: db.connections, ..before })
                },
                Err(_) => !owed,
            }
        }),
{
    lemma_owned(c.user, connection.owner, 1);
}

/// A connection is dropped exactly where it is known and nothing refers to it. It is gone, its owner
/// owns one object less, and the frontends are told. Nothing else changes.
pub proof fn law_dropped_connection(c: CatalogManagerCoreModel, id: u32)
    requires
        c.database.connections.contains_key(id) ==> owns(c.user, c.database.connections[id].owner, 1),
    ensures
        ({
            let before = c.database;
            match connection_dropped(c, id) {
                Ok((after, messages)) => {
                    let db = after.database;
                    &&& before.connections.contains_key(id)
                    &&& !before.connection_ref_count.contains_key(id)
                    &&& !db.connections.contains_key(id)
                    &&& kept_but(before.connections, db.connections, set![id])
                    &&& owned(after.user, c.user, before.connections[id].owner, 1)
                    &&& told_about(
                        messages,
                        Operation::Delete,
                        InfoModel::Connection(before.connections[id]),
                    )
                    &&& db == (DatabaseManagerModel { connections: db.connections, ..before })
                },
                Err(_) => !before.connections.contains_key(id)
                    || before.connection_ref_count.contains_key(id),
            }
        }),
{
    if connection_dropped(c, id) is Ok {
        lemma_disowned(c.user, c.database.connections[id].owner, 1);
    }
}

/// A secret is created exactly where its database, its schema and its owner are known and no secret of
/// the schema has its name. It stands as it was given, that is encrypted; the compute nodes and the
/// frontends are told of it with the plain payload. Its owner owns one object more, and nothing else
/// changes.
pub proof fn law_created_secret(c: CatalogManagerCoreModel, secret: SecretModel, payload: Seq<u8>)
    requires
        can_own(c.user, secret.owner, 1),
    ensures
        ({
            let before = c.database;
            let free = forall|x: u32| #[trigger]
                before.secrets.contains_key(x) ==> !(before.secrets[x].database_id
                    == secret.database_id && before.secrets[x].schema_id == secret.schema_id
                    && before.secrets[x].name == secret.name);
            let owed = before.databases.contains_key(secret.database_id)
                && before.schemas.contains_key(secret.schema_id) && free
                && c.user.user_info.contains_key(secret.owner);
            match secret_created(c, secret, payload) {
                Ok((after, messages)) => {
                    let db = after.database;
                    &&& owed
                    &&& db.secrets.contains_key(secret.id)
                    &&& db.secrets[secret.id] == secret
                    &&& kept_but(before.secrets, db.secrets, set![secret.id])
                    &&& owned(c.user, after.user, secret.owner, 1)
                    &&& messages.len() == 2
                    &&& messages[0].audience == Audience::Compute
                    &&& messages[1].audience == Audience::Frontend
                    &&& forall|k: int|
                        0 <= k < 2 ==> {
                            let n = #[trigger] messages[k];
                            &&& n.operation == Operation::Add
                            &&& n.info is Secret
                            &&& n.info->Secret_0.value == payload
                            &&& n.info->Secret_0 == (SecretModel {
                                value: n.info->Secret_0.value,
                                ..secret
                            })
                        }
                    &&& db == (DatabaseManagerModel { secrets: db.secrets, ..before })
                },
                Err(_) => !owed,
            }
        }),
{
    lemma_owned(c.user, secret.owner, 1);
}

/// A secret is dropped exactly where it is known and nothing refers to it. It is gone, its owner owns one
/// object less, and the compute nodes and the frontends are told. Nothing else changes.
pub proof fn law_dropped_secret(c: CatalogManagerCoreModel, id: u32)
    requires
        c.database.secrets.contains_key(id) ==> owns(c.user, c.database.secrets[id].owner, 1),
    ensures
        ({
            let before = c.database;
            match secret_dropped(c, id) {
                Ok((after, messages)) => {
                    let db = after.database;
                    &&& before.secrets.contains_key(id)
                    &&& !before.secret_ref_count.contains_key(id)
                    &&& !db.secrets.contains_key(id)
                    &&& kept_but(before.secrets, db.secrets, set![id])
                    &&& owned(after.user, c.user, before.secrets[id].owner, 1)
                    &&& messages.len() == 2
                    &&& messages[0].audience == Audience::Compute
                    &&& messages[1].audience == Audience::Frontend
                    &&& forall|k: int|
                        0 <= k < 2 ==> (#[trigger] messages[k]).operation == Operation::Delete
                            && messages[k].info == InfoModel::Secret(before.secrets[id])
                    &&& db == (DatabaseManagerModel { secrets: db.secrets, ..before })
                },
                Err(_) => !before.secrets.contains_key(id) || before.secret_ref_count.contains_key(id),
            }
        }),
{
    if secret_dropped(c, id) is Ok {
        lemma_disowned(c.user, c.database.secrets[id].owner, 1);
    }
}

// ---------------------------------------------------------------------------
// Users.
// ---------------------------------------------------------------------------

/// A user is created exactly where no user has the name. The user stands as given, and the frontends are
/// told. Nothing else changes.
pub proof fn law_created_user(c: CatalogManagerCoreModel, user: UserInfoModel)
    ensures
        ({
            let free = forall|x: u32| #[trigger]
                c.user.user_info.contains_key(x) ==> c.user.user_info[x].name != user.name;
            match user_created(c, user) {
                Ok((after, messages)) => {
                    &&& free
                    &&& after.user.user_info.contains_key(user.id)
                    &&& after.user.user_info[user.id] == user
                    &&& kept_but(c.user.user_info, after.user.user_info, set![user.id])
                    &&& told_about(messages, Operation::Add, InfoModel::User(user))
                    &&& after.user == (UserManagerModel {
                        user_info: after.user.user_info,
                        ..c.user
                    })
                    &&& after.database == c.database
                },
                Err(e) => !free && e == MetaErrorModel::UserExists(user.name),
            }
        }),
{
}

/// Each field of a user is taken from the update exactly where it is named, and kept otherwise.
proof fn lemma_with_fields(user: UserInfoModel, update: UserInfoModel, fields: Seq<UpdateField>)
    ensures
        ({
            let r = with_fields(user, update, fields);
            &&& r.id == user.id
            &&& r.grant_privileges == user.grant_privileges
            &&& r.is_super == if fields.contains(UpdateField::Super) {
                update.is_super
            } else {
                user.is_super
            }
            &&& r.can_login == if fields.contains(UpdateField::Login) {
                update.can_login
            } else {
                user.can_login
            }
            &&& r.can_create_db == if fields.contains(UpdateField::CreateDb) {
                update.can_create_db
            } else {
                user.can_create_db
            }
            &&& r.can_create_user == if fields.contains(UpdateField::CreateUser) {
                update.can_create_user
            } else {
                user.can_create_user
            }
            &&& r.auth_info == if fields.contains(UpdateField::AuthInfo) {
                update.auth_info
            } else {
                user.auth_info
            }
            &&& r.name == if fields.contains(UpdateField::Rename) {
                update.name
            } else {
                user.name
            }
        }),
    decreases fields.len(),
{
    if fields.len() > 0 {
        let d = fields.drop_last();
        lemma_with_fields(user, update, d);
        assert forall|f: UpdateField| #[trigger] fields.contains(f) <==> d.contains(f) || fields.last()
            == f by {
            if d.contains(f) {
                let k = choose|k: int| 0 <= k < d.len() && d[k] == f;
                assert(fields[k] == f);
            }
            if fields.last() == f {
                assert(fields[fields.len() - 1] == f);
            }
            if fields.contains(f) {
                let k = choose|k: int| 0 <= k < fields.len() && fields[k] == f;
                if k < d.len() {
                    assert(d[k] == f);
                }
            }
        }
    }
}

/// A user is updated exactly where the name is not changed to one that is taken. The fields that are
/// named are those of the update, every other one is as before, and the frontends are told of the user
/// as it stands. Nothing else changes.
pub proof fn law_updated_user(
    c: CatalogManagerCoreModel,
    update: UserInfoModel,
    fields: Seq<UpdateField>,
)
    requires
        c.user.user_info.contains_key(update.id),
    ensures
        ({
            let user = c.user.user_info[update.id];
            let taken = exists|x: u32| #[trigger]
                c.user.user_info.contains_key(x) && c.user.user_info[x].name == update.name;
            match user_updated(c, update, fields) {
                Ok((after, messages)) => {
                    let r = after.user.user_info[update.id];
                    &&& !(fields.contains(UpdateField::Rename) && taken)
                    &&& after.user.user_info.contains_key(update.id)
                    &&& r.id == user.id
                    &&& r.grant_privileges == user.grant_privileges
                    &&& r.is_super == if fields.contains(UpdateField::Super) {
                        update.is_super
                    } else {
                        user.is_super
                    }
                    &&& r.can_login == if fields.contains(UpdateField::Login) {
                        update.can_login
                    } else {
                        user.can_login
                    }
                    &&& r.can_create_db == if fields.contains(UpdateField::CreateDb) {
                        update.can_create_db
                    } else {
                        user.can_create_db
                    }
                    &&& r.can_create_user == if fields.contains(UpdateField::CreateUser) {
                        update.can_create_user
                    } else {
                        user.can_create_user
                    }
                    &&& r.auth_info == if fields.contains(UpdateField::AuthInfo) {
                        update.auth_info
                    } else {
                        user.auth_info
                    }
                    &&& r.name == if fields.contains(UpdateField::Rename) {
                        update.name
                    } else {
                        user.name
                    }
                    &&& kept_but(c.user.user_info, after.user.user_info, set![update.id])
                    &&& told_about(messages, Operation::Update, InfoModel::User(r))
                    &&& after.user == (UserManagerModel {
                        user_info: after.user.user_info,
                        ..c.user
                    })
                    &&& after.database == c.database
                },
                Err(e) => fields.contains(UpdateField::Rename) && taken && e
                    == MetaErrorModel::UserExists(update.name),
            }
        }),
{
    lemma_with_fields(c.user.user_info[update.id], update, fields);
}

/// A user is dropped exactly where the user is known, is none of the default ones, owns nothing and has
/// granted nothing to anyone. The user is gone, and the frontends are told. Nothing else changes.
pub proof fn law_dropped_user(c: CatalogManagerCoreModel, id: u32)
    ensures
        ({
            let user = c.user.user_info[id];
            let free = c.user.user_info.contains_key(id) && user.name != "root"@ && user.name
                != "postgres"@ && !c.user.catalog_create_ref_count.contains_key(id) && (
            c.user.user_grant_relation.contains_key(id) ==> forall|x: u32|
                !#[trigger] c.user.user_grant_relation[id].contains(x));
            match user_dropped(c, id) {
                Ok((after, messages)) => {
                    &&& free
                    &&& !after.user.user_info.contains_key(id)
                    &&& kept_but(c.user.user_info, after.user.user_info, set![id])
                    &&& told_about(messages, Operation::Delete, InfoModel::User(user))
                    &&& after.user == (UserManagerModel {
                        user_info: after.user.user_info,
                        ..c.user
                    })
                    &&& after.database == c.database
                },
                Err(_) => !free,
            }
        }),
{
    let granted = c.user.user_grant_relation[id];
    if forall|x: u32| !#[trigger] granted.contains(x) {
        assert(granted =~= Set::<u32>::empty());
    }
}

/// The default users may do everything, and each is there once they are added: under its own identifier
/// where it was not there before. No other user changes.
pub proof fn law_default_users(c: CatalogManagerCoreModel)
    ensures
        ({
            let after = default_users_added(c);
            let root = default_user("root"@, crate::catalog::users::DEFAULT_SUPER_USER_ID);
            let pg = default_user("postgres"@, crate::catalog::users::DEFAULT_SUPER_USER_FOR_PG_ID);
            &&& root.is_super && root.can_create_db && root.can_create_user && root.can_login
            &&& root.grant_privileges.len() == 0 && root.auth_info is None
            &&& root.name == "root"@ && root.id == crate::catalog::users::DEFAULT_SUPER_USER_ID
            &&& pg.is_super && pg.can_create_db && pg.can_create_user && pg.can_login
            &&& pg.name == "postgres"@ && pg.id == crate::catalog::users::DEFAULT_SUPER_USER_FOR_PG_ID
            &&& after.user.has_name("postgres"@)
            &&& kept_but(c.user.user_info, after.user.user_info, set![root.id, pg.id])
            &&& !c.user.has_name("root"@) && root.id != pg.id ==> after.user.user_info.contains_key(root.id)
                && after.user.user_info[root.id] == root
            &&& after.user.user_grant_relation == c.user.user_grant_relation
            &&& after.user.catalog_create_ref_count == c.user.catalog_create_ref_count
            &&& after.database == c.database
        }),
{
    let first = c.user.with_default("root"@, crate::catalog::users::DEFAULT_SUPER_USER_ID);
    let after = default_users_added(c);
    let id = crate::catalog::users::DEFAULT_SUPER_USER_FOR_PG_ID;
    if !first.has_name("postgres"@) {
        assert(after.user.user_info.contains_key(id));
        assert(crate::catalog::database::user_named("postgres"@)(after.user.user_info[id]));
    }
}

} // verus!
