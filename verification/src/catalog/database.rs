//! Checks on the objects of the catalog, and what they find.

use vstd::prelude::*;

use crate::catalog::error::{CatalogKind, MetaError, MetaErrorModel, MetaResult};
use crate::catalog::key_set::KeySet;
use crate::catalog::state::{DatabaseManager, DatabaseManagerModel, UserManager, UserManagerModel};
use crate::catalog::types::{
    Connection, ConnectionModel, Database, DatabaseModel, Function, FunctionModel, Index,
    IndexModel, Object, RelationKey, RelationKeyModel, Schema, SchemaModel, Secret, SecretModel,
    Sink, SinkModel, Source, SourceModel, StreamJobStatus, Subscription, SubscriptionModel, Table,
    TableModel, UserInfo, UserInfoModel, ViewInfo, ViewInfoModel,
};
use crate::util::id_map::{ids_where, some_where, views};
use crate::util::text::same_texts;

verus! {

/// The error that a request ended with, if it did.
pub open spec fn refusal<T>(r: Result<T, MetaError>) -> Option<MetaErrorModel> {
    match r {
        Ok(_) => None,
        Err(e) => Some(e@),
    }
}

/// The first of two checks that refuses.
pub open spec fn either(a: Option<MetaErrorModel>, b: Option<MetaErrorModel>) -> Option<MetaErrorModel> {
    if a is Some {
        a
    } else {
        b
    }
}

/// The table stands at `key`.
pub open spec fn table_at(key: RelationKeyModel) -> spec_fn(TableModel) -> bool {
    |x: TableModel|
        x.database_id == key.database_id && x.schema_id == key.schema_id && x.name == key.name
}

/// The source stands at `key`.
pub open spec fn source_at(key: RelationKeyModel) -> spec_fn(SourceModel) -> bool {
    |x: SourceModel|
        x.database_id == key.database_id && x.schema_id == key.schema_id && x.name == key.name
}

/// The index stands at `key`.
pub open spec fn index_at(key: RelationKeyModel) -> spec_fn(IndexModel) -> bool {
    |x: IndexModel|
        x.database_id == key.database_id && x.schema_id == key.schema_id && x.name == key.name
}

/// The sink stands at `key`.
pub open spec fn sink_at(key: RelationKeyModel) -> spec_fn(SinkModel) -> bool {
    |x: SinkModel|
        x.database_id == key.database_id && x.schema_id == key.schema_id && x.name == key.name
}

/// The subscription stands at `key`.
pub open spec fn subscription_at(key: RelationKeyModel) -> spec_fn(SubscriptionModel) -> bool {
    |x: SubscriptionModel|
        x.database_id == key.database_id && x.schema_id == key.schema_id && x.name == key.name
}

/// The view stands at `key`.
pub open spec fn view_at(key: RelationKeyModel) -> spec_fn(ViewInfoModel) -> bool {
    |x: ViewInfoModel|
        x.database_id == key.database_id && x.schema_id == key.schema_id && x.name == key.name
}

/// The connection stands at `key`.
pub open spec fn connection_at(key: RelationKeyModel) -> spec_fn(ConnectionModel) -> bool {
    |x: ConnectionModel|
        x.database_id == key.database_id && x.schema_id == key.schema_id && x.name == key.name
}

/// The secret stands at `key`.
pub open spec fn secret_at(key: RelationKeyModel) -> spec_fn(SecretModel) -> bool {
    |x: SecretModel|
        x.database_id == key.database_id && x.schema_id == key.schema_id && x.name == key.name
}

/// The function stands at `key` and takes `arg_types`.
pub open spec fn function_at(key: RelationKeyModel, arg_types: Seq<Seq<char>>) -> spec_fn(FunctionModel) -> bool {
    |x: FunctionModel|
        x.database_id == key.database_id && x.schema_id == key.schema_id && x.name == key.name
            && x.arg_types == arg_types
}

pub open spec fn database_named(name: Seq<char>) -> spec_fn(DatabaseModel) -> bool {
    |x: DatabaseModel| x.name == name
}

pub open spec fn schema_named(database_id: u32, name: Seq<char>) -> spec_fn(SchemaModel) -> bool {
    |x: SchemaModel| x.database_id == database_id && x.name == name
}

pub open spec fn user_named(name: Seq<char>) -> spec_fn(UserInfoModel) -> bool {
    |x: UserInfoModel| x.name == name
}

pub open spec fn table_in_schema(schema_id: u32) -> spec_fn(TableModel) -> bool {
    |x: TableModel| x.schema_id == schema_id
}

pub open spec fn source_in_schema(schema_id: u32) -> spec_fn(SourceModel) -> bool {
    |x: SourceModel| x.schema_id == schema_id
}

pub open spec fn sink_in_schema(schema_id: u32) -> spec_fn(SinkModel) -> bool {
    |x: SinkModel| x.schema_id == schema_id
}

pub open spec fn subscription_in_schema(schema_id: u32) -> spec_fn(SubscriptionModel) -> bool {
    |x: SubscriptionModel| x.schema_id == schema_id
}

pub open spec fn index_in_schema(schema_id: u32) -> spec_fn(IndexModel) -> bool {
    |x: IndexModel| x.schema_id == schema_id
}

pub open spec fn view_in_schema(schema_id: u32) -> spec_fn(ViewInfoModel) -> bool {
    |x: ViewInfoModel| x.schema_id == schema_id
}

/// A name of the database is among `keys`.
pub open spec fn key_in_database(keys: Set<RelationKeyModel>, database_id: u32) -> bool {
    exists|k: RelationKeyModel| #[trigger] keys.contains(k) && k.database_id == database_id
}

/// A name of the schema is among `keys`.
pub open spec fn key_in_schema(keys: Set<RelationKeyModel>, schema_id: u32) -> bool {
    exists|k: RelationKeyModel| #[trigger] keys.contains(k) && k.schema_id == schema_id
}

impl KeySet {
    /// Whether something is being created in the database.
    pub fn has_database(&self, database_id: u32) -> (r: bool)
        ensures
            r == key_in_database(self@, database_id),
    {
        let keys = self.list();
        let mut i: usize = 0;
        while i < keys.len()
            invariant
                i <= keys.len(),
                views(keys@).to_set() == self@,
                forall|k: int| 0 <= k < i ==> keys@[k]@.database_id != database_id,
            decreases keys.len() - i,
        {
            if keys[i].database_id == database_id {
                assert(views(keys@)[i as int] == keys@[i as int]@);
                assert(self@.contains(keys@[i as int]@));
                return true;
            }
            i = i + 1;
        }
        assert forall|k: RelationKeyModel| #[trigger] self@.contains(k) implies k.database_id != database_id by {
            assert(views(keys@).contains(k));
        }
        false
    }

    /// Whether something is being created in the schema.
    pub fn has_schema(&self, schema_id: u32) -> (r: bool)
        ensures
            r == key_in_schema(self@, schema_id),
    {
        let keys = self.list();
        let mut i: usize = 0;
        while i < keys.len()
            invariant
                i <= keys.len(),
                views(keys@).to_set() == self@,
                forall|k: int| 0 <= k < i ==> keys@[k]@.schema_id != schema_id,
            decreases keys.len() - i,
        {
            if keys[i].schema_id == schema_id {
                assert(views(keys@)[i as int] == keys@[i as int]@);
                assert(self@.contains(keys@[i as int]@));
                return true;
            }
            i = i + 1;
        }
        assert forall|k: RelationKeyModel| #[trigger] self@.contains(k) implies k.schema_id != schema_id by {
            assert(views(keys@).contains(k));
        }
        false
    }
}

impl DatabaseManagerModel {
    /// Refuses an unknown database.
    pub open spec fn ensure_database(self, id: u32) -> Option<MetaErrorModel> {
        if self.databases.contains_key(id) {
            None
        } else {
            Some(MetaErrorModel::CatalogIdNotFound(CatalogKind::Database, id))
        }
    }

    /// Refuses an unknown schema.
    pub open spec fn ensure_schema(self, id: u32) -> Option<MetaErrorModel> {
        if self.schemas.contains_key(id) {
            None
        } else {
            Some(MetaErrorModel::CatalogIdNotFound(CatalogKind::Schema, id))
        }
    }

    /// Refuses an unknown table.
    pub open spec fn ensure_table(self, id: u32) -> Option<MetaErrorModel> {
        if self.tables.contains_key(id) {
            None
        } else {
            Some(MetaErrorModel::CatalogIdNotFound(CatalogKind::Table, id))
        }
    }

    /// Refuses an unknown source.
    pub open spec fn ensure_source(self, id: u32) -> Option<MetaErrorModel> {
        if self.sources.contains_key(id) {
            None
        } else {
            Some(MetaErrorModel::CatalogIdNotFound(CatalogKind::Source, id))
        }
    }

    /// Refuses an unknown sink.
    pub open spec fn ensure_sink(self, id: u32) -> Option<MetaErrorModel> {
        if self.sinks.contains_key(id) {
            None
        } else {
            Some(MetaErrorModel::CatalogIdNotFound(CatalogKind::Sink, id))
        }
    }

    /// Refuses an unknown subscription.
    pub open spec fn ensure_subscription(self, id: u32) -> Option<MetaErrorModel> {
        if self.subscriptions.contains_key(id) {
            None
        } else {
            Some(MetaErrorModel::CatalogIdNotFound(CatalogKind::Subscription, id))
        }
    }

    /// Refuses an unknown index.
    pub open spec fn ensure_index(self, id: u32) -> Option<MetaErrorModel> {
        if self.indexes.contains_key(id) {
            None
        } else {
            Some(MetaErrorModel::CatalogIdNotFound(CatalogKind::Index, id))
        }
    }

    /// Refuses an unknown view.
    pub open spec fn ensure_view(self, id: u32) -> Option<MetaErrorModel> {
        if self.views.contains_key(id) {
            None
        } else {
            Some(MetaErrorModel::CatalogIdNotFound(CatalogKind::View, id))
        }
    }

    /// Refuses an unknown function.
    pub open spec fn ensure_function(self, id: u32) -> Option<MetaErrorModel> {
        if self.functions.contains_key(id) {
            None
        } else {
            Some(MetaErrorModel::CatalogIdNotFound(CatalogKind::Function, id))
        }
    }

    /// Refuses an unknown connection.
    pub open spec fn ensure_connection(self, id: u32) -> Option<MetaErrorModel> {
        if self.connections.contains_key(id) {
            None
        } else {
            Some(MetaErrorModel::CatalogIdNotFound(CatalogKind::Connection, id))
        }
    }

    /// Whether a table, a view or a source has this identifier.
    pub open spec fn knows_relation(self, id: u32) -> bool {
        self.tables.contains_key(id) || self.views.contains_key(id) || self.sources.contains_key(id)
    }

    /// Refuses the first of `ids` that is no table, view or source.
    pub open spec fn ensure_relations(self, ids: Seq<u32>) -> Option<MetaErrorModel>
        decreases ids.len(),
    {
        if ids.len() == 0 {
            None
        } else if !self.knows_relation(ids[0]) {
            Some(MetaErrorModel::CatalogIdNotFound(CatalogKind::Relation, ids[0]))
        } else {
            self.ensure_relations(ids.drop_first())
        }
    }

    /// Refuses a name that a relation of the same schema has.
    pub open spec fn name_clash(self, key: RelationKeyModel) -> Option<MetaErrorModel> {
        let tables = ids_where(self.tables, table_at(key));
        if tables.len() > 0 {
            if self.tables[tables[0]].stream_job_status == StreamJobStatus::Creating {
                Some(MetaErrorModel::RelationCreating(tables[0]))
            } else {
                Some(MetaErrorModel::CatalogDuplicated(CatalogKind::Table, key.name))
            }
        } else if some_where(self.sources, source_at(key)) {
            Some(MetaErrorModel::CatalogDuplicated(CatalogKind::Source, key.name))
        } else if some_where(self.indexes, index_at(key)) {
            Some(MetaErrorModel::CatalogDuplicated(CatalogKind::Index, key.name))
        } else if some_where(self.sinks, sink_at(key)) {
            Some(MetaErrorModel::CatalogDuplicated(CatalogKind::Sink, key.name))
        } else if some_where(self.subscriptions, subscription_at(key)) {
            Some(MetaErrorModel::CatalogDuplicated(CatalogKind::Subscription, key.name))
        } else if some_where(self.views, view_at(key)) {
            Some(MetaErrorModel::CatalogDuplicated(CatalogKind::View, key.name))
        } else {
            None
        }
    }

    pub open spec fn database_clash(self, name: Seq<char>) -> Option<MetaErrorModel> {
        if some_where(self.databases, database_named(name)) {
            Some(MetaErrorModel::CatalogDuplicated(CatalogKind::Database, name))
        } else {
            None
        }
    }

    pub open spec fn schema_clash(self, database_id: u32, name: Seq<char>) -> Option<MetaErrorModel> {
        if some_where(self.schemas, schema_named(database_id, name)) {
            Some(MetaErrorModel::CatalogDuplicated(CatalogKind::Schema, name))
        } else {
            None
        }
    }

    pub open spec fn function_clash(self, key: RelationKeyModel, arg_types: Seq<Seq<char>>) -> Option<
        MetaErrorModel,
    > {
        if some_where(self.functions, function_at(key, arg_types)) {
            Some(MetaErrorModel::CatalogDuplicated(CatalogKind::Function, key.name))
        } else {
            None
        }
    }

    pub open spec fn connection_clash(self, key: RelationKeyModel) -> Option<MetaErrorModel> {
        if some_where(self.connections, connection_at(key)) {
            Some(MetaErrorModel::CatalogDuplicated(CatalogKind::Connection, key.name))
        } else {
            None
        }
    }

    pub open spec fn secret_clash(self, key: RelationKeyModel) -> Option<MetaErrorModel> {
        if some_where(self.secrets, secret_at(key)) {
            Some(MetaErrorModel::CatalogDuplicated(CatalogKind::Secret, key.name))
        } else {
            None
        }
    }

    /// Something is being created in the database.
    pub open spec fn creating_in_database(self, database_id: u32) -> bool {
        key_in_database(self.in_progress_creation_tracker, database_id)
    }

    /// Something is being created in the schema.
    pub open spec fn creating_in_schema(self, schema_id: u32) -> bool {
        key_in_schema(self.in_progress_creation_tracker, schema_id)
    }

    /// No relation stands in the schema.
    pub open spec fn schema_empty(self, schema_id: u32) -> bool {
        &&& !some_where(self.tables, table_in_schema(schema_id))
        &&& !some_where(self.sources, source_in_schema(schema_id))
        &&& !some_where(self.sinks, sink_in_schema(schema_id))
        &&& !some_where(self.subscriptions, subscription_in_schema(schema_id))
        &&& !some_where(self.indexes, index_in_schema(schema_id))
        &&& !some_where(self.views, view_in_schema(schema_id))
    }

    /// Who owns an object, or the error for an unknown one.
    pub open spec fn object_owner(self, object: Object) -> Result<u32, MetaErrorModel> {
        match object {
            Object::DatabaseId(id) => if self.databases.contains_key(id) {
                Ok(self.databases[id].owner)
            } else {
                Err(MetaErrorModel::CatalogIdNotFound(CatalogKind::Database, id))
            },
            Object::SchemaId(id) => if self.schemas.contains_key(id) {
                Ok(self.schemas[id].owner)
            } else {
                Err(MetaErrorModel::CatalogIdNotFound(CatalogKind::Schema, id))
            },
            Object::TableId(id) => if self.tables.contains_key(id) {
                Ok(self.tables[id].owner)
            } else {
                Err(MetaErrorModel::CatalogIdNotFound(CatalogKind::Table, id))
            },
            Object::SourceId(id) => if self.sources.contains_key(id) {
                Ok(self.sources[id].owner)
            } else {
                Err(MetaErrorModel::CatalogIdNotFound(CatalogKind::Source, id))
            },
            Object::SinkId(id) => if self.sinks.contains_key(id) {
                Ok(self.sinks[id].owner)
            } else {
                Err(MetaErrorModel::CatalogIdNotFound(CatalogKind::Sink, id))
            },
            Object::ViewId(id) => if self.views.contains_key(id) {
                Ok(self.views[id].owner)
            } else {
                Err(MetaErrorModel::CatalogIdNotFound(CatalogKind::View, id))
            },
            Object::FunctionId(id) => if self.functions.contains_key(id) {
                Ok(self.functions[id].owner)
            } else {
                Err(MetaErrorModel::CatalogIdNotFound(CatalogKind::Function, id))
            },
            Object::SubscriptionId(id) => if self.subscriptions.contains_key(id) {
                Ok(self.subscriptions[id].owner)
            } else {
                Err(MetaErrorModel::CatalogIdNotFound(CatalogKind::Subscription, id))
            },
        }
    }
}

impl UserManagerModel {
    pub open spec fn ensure_user(self, id: u32) -> Option<MetaErrorModel> {
        if self.user_info.contains_key(id) {
            None
        } else {
            Some(MetaErrorModel::CatalogIdNotFound(CatalogKind::User, id))
        }
    }

    pub open spec fn has_name(self, name: Seq<char>) -> bool {
        some_where(self.user_info, user_named(name))
    }
}

impl DatabaseManager {
    pub fn ensure_database_id(&self, id: u32) -> (r: MetaResult<()>)
        ensures
            refusal(r) == self@.ensure_database(id),
    {
        if self.databases.contains_key(id) {
            Ok(())
        } else {
            Err(MetaError::CatalogIdNotFound(CatalogKind::Database, id))
        }
    }

    pub fn ensure_schema_id(&self, id: u32) -> (r: MetaResult<()>)
        ensures
            refusal(r) == self@.ensure_schema(id),
    {
        if self.schemas.contains_key(id) {
            Ok(())
        } else {
            Err(MetaError::CatalogIdNotFound(CatalogKind::Schema, id))
        }
    }

    pub fn ensure_table_id(&self, id: u32) -> (r: MetaResult<()>)
        ensures
            refusal(r) == self@.ensure_table(id),
    {
        if self.tables.contains_key(id) {
            Ok(())
        } else {
            Err(MetaError::CatalogIdNotFound(CatalogKind::Table, id))
        }
    }

    /// Refuses the first of `ids` that is no table, view or source.
    pub fn ensure_table_view_or_source_ids(&self, ids: &Vec<u32>) -> (r: MetaResult<()>)
        ensures
            refusal(r) == self@.ensure_relations(ids@),
    {
        let mut i: usize = 0;
        assert(ids@.skip(0) =~= ids@);
        while i < ids.len()
            invariant
                i <= ids.len(),
                self@.ensure_relations(ids@) == self@.ensure_relations(ids@.skip(i as int)),
            decreases ids.len() - i,
        {
            let id: u32 = ids[i];
            let ghost rest = ids@.skip(i as int);
            assert(rest[0] == id);
            if !(self.tables.contains_key(id) || self.views.contains_key(id)
                || self.sources.contains_key(id)) {
                return Err(MetaError::CatalogIdNotFound(CatalogKind::Relation, id));
            }
            i = i + 1;
            assert(rest.drop_first() =~= ids@.skip(i as int));
        }
        Ok(())
    }

    pub fn check_relation_name_duplicated(&self, key: &RelationKey) -> (r: MetaResult<()>)
        ensures
            refusal(r) == self@.name_clash(key@),
    {
        let f = |x: &Table| -> (b: bool)
            ensures
                b == table_at(key@)(x@),
        {
            x.database_id == key.database_id && x.schema_id == key.schema_id && x.name == key.name
        };
        let tables = self.tables.ids_where(f, Ghost(table_at(key@)));
        if tables.len() > 0 {
            let id: u32 = tables[0];
            assert(self.tables@.contains_key(tables@[0]));
            let creating = match self.tables.get(id) {
                Some(t) => t.stream_job_status == StreamJobStatus::Creating,
                None => false,
            };
            if creating {
                return Err(MetaError::RelationCreating(id));
            } else {
                return Err(MetaError::CatalogDuplicated(CatalogKind::Table, key.name.clone()));
            }
        }
        let f = |x: &Source| -> (b: bool)
            ensures
                b == source_at(key@)(x@),
        {
            x.database_id == key.database_id && x.schema_id == key.schema_id && x.name == key.name
        };
        let clash: bool = self.sources.any(f, Ghost(source_at(key@)));
        if clash {
            return Err(MetaError::CatalogDuplicated(CatalogKind::Source, key.name.clone()));
        }
        let f = |x: &Index| -> (b: bool)
            ensures
                b == index_at(key@)(x@),
        {
            x.database_id == key.database_id && x.schema_id == key.schema_id && x.name == key.name
        };
        let clash: bool = self.indexes.any(f, Ghost(index_at(key@)));
        if clash {
            return Err(MetaError::CatalogDuplicated(CatalogKind::Index, key.name.clone()));
        }
        let f = |x: &Sink| -> (b: bool)
            ensures
                b == sink_at(key@)(x@),
        {
            x.database_id == key.database_id && x.schema_id == key.schema_id && x.name == key.name
        };
        let clash: bool = self.sinks.any(f, Ghost(sink_at(key@)));
        if clash {
            return Err(MetaError::CatalogDuplicated(CatalogKind::Sink, key.name.clone()));
        }
        let f = |x: &Subscription| -> (b: bool)
            ensures
                b == subscription_at(key@)(x@),
        {
            x.database_id == key.database_id && x.schema_id == key.schema_id && x.name == key.name
        };
        let clash: bool = self.subscriptions.any(f, Ghost(subscription_at(key@)));
        if clash {
            return Err(MetaError::CatalogDuplicated(CatalogKind::Subscription, key.name.clone()));
        }
        let f = |x: &ViewInfo| -> (b: bool)
            ensures
                b == view_at(key@)(x@),
        {
            x.database_id == key.database_id && x.schema_id == key.schema_id && x.name == key.name
        };
        let clash: bool = self.views.any(f, Ghost(view_at(key@)));
        if clash {
            return Err(MetaError::CatalogDuplicated(CatalogKind::View, key.name.clone()));
        }
        Ok(())
    }

    pub fn check_connection_name_duplicated(&self, key: &RelationKey) -> (r: MetaResult<()>)
        ensures
            refusal(r) == self@.connection_clash(key@),
    {
        let f = |x: &Connection| -> (b: bool)
            ensures
                b == connection_at(key@)(x@),
        {
            x.database_id == key.database_id && x.schema_id == key.schema_id && x.name == key.name
        };
        let clash: bool = self.connections.any(f, Ghost(connection_at(key@)));
        if clash {
            Err(MetaError::CatalogDuplicated(CatalogKind::Connection, key.name.clone()))
        } else {
            Ok(())
        }
    }

    pub fn check_secret_name_duplicated(&self, key: &RelationKey) -> (r: MetaResult<()>)
        ensures
            refusal(r) == self@.secret_clash(key@),
    {
        let f = |x: &Secret| -> (b: bool)
            ensures
                b == secret_at(key@)(x@),
        {
            x.database_id == key.database_id && x.schema_id == key.schema_id && x.name == key.name
        };
        let clash: bool = self.secrets.any(f, Ghost(secret_at(key@)));
        if clash {
            Err(MetaError::CatalogDuplicated(CatalogKind::Secret, key.name.clone()))
        } else {
            Ok(())
        }
    }

    pub fn check_function_duplicated(&self, key: &RelationKey, arg_types: &Vec<String>) -> (r:
        MetaResult<()>)
        ensures
            refusal(r) == self@.function_clash(key@, views(arg_types@)),
    {
        let f = |x: &Function| -> (b: bool)
            ensures
                b == function_at(key@, views(arg_types@))(x@),
        {
            x.database_id == key.database_id && x.schema_id == key.schema_id && x.name == key.name && same_texts(&x.arg_types, arg_types)
        };
        let clash: bool = self.functions.any(f, Ghost(function_at(key@, views(arg_types@))));
        if clash {
            Err(MetaError::CatalogDuplicated(CatalogKind::Function, key.name.clone()))
        } else {
            Ok(())
        }
    }

    pub fn check_database_duplicated(&self, name: &String) -> (r: MetaResult<()>)
        ensures
            refusal(r) == self@.database_clash(name@),
    {
        let f = |x: &Database| -> (b: bool)
            ensures
                b == database_named(name@)(x@),
        {
            x.name == *name
        };
        let clash: bool = self.databases.any(f, Ghost(database_named(name@)));
        if clash {
            Err(MetaError::CatalogDuplicated(CatalogKind::Database, name.clone()))
        } else {
            Ok(())
        }
    }

    pub fn check_schema_duplicated(&self, database_id: u32, name: &String) -> (r: MetaResult<()>)
        ensures
            refusal(r) == self@.schema_clash(database_id, name@),
    {
        let f = |x: &Schema| -> (b: bool)
            ensures
                b == schema_named(database_id, name@)(x@),
        {
            x.database_id == database_id && x.name == *name
        };
        let clash: bool = self.schemas.any(f, Ghost(schema_named(database_id, name@)));
        if clash {
            Err(MetaError::CatalogDuplicated(CatalogKind::Schema, name.clone()))
        } else {
            Ok(())
        }
    }

    pub fn has_creation_in_database(&self, database_id: u32) -> (r: bool)
        ensures
            r == self@.creating_in_database(database_id),
    {
        self.in_progress_creation_tracker.has_database(database_id)
    }

    pub fn has_creation_in_schema(&self, schema_id: u32) -> (r: bool)
        ensures
            r == self@.creating_in_schema(schema_id),
    {
        self.in_progress_creation_tracker.has_schema(schema_id)
    }

    pub fn schema_is_empty(&self, schema_id: u32) -> (r: bool)
        ensures
            r == self@.schema_empty(schema_id),
    {
        let f = |x: &Table| -> (b: bool)
            ensures
                b == table_in_schema(schema_id)(x@),
        {
            x.schema_id == schema_id
        };
        let tables: bool = self.tables.any(f, Ghost(table_in_schema(schema_id)));
        let f = |x: &Source| -> (b: bool)
            ensures
                b == source_in_schema(schema_id)(x@),
        {
            x.schema_id == schema_id
        };
        let sources: bool = self.sources.any(f, Ghost(source_in_schema(schema_id)));
        let f = |x: &Sink| -> (b: bool)
            ensures
                b == sink_in_schema(schema_id)(x@),
        {
            x.schema_id == schema_id
        };
        let sinks: bool = self.sinks.any(f, Ghost(sink_in_schema(schema_id)));
        let f = |x: &Subscription| -> (b: bool)
            ensures
                b == subscription_in_schema(schema_id)(x@),
        {
            x.schema_id == schema_id
        };
        let subscriptions: bool = self.subscriptions.any(f, Ghost(subscription_in_schema(schema_id)));
        let f = |x: &Index| -> (b: bool)
            ensures
                b == index_in_schema(schema_id)(x@),
        {
            x.schema_id == schema_id
        };
        let indexes: bool = self.indexes.any(f, Ghost(index_in_schema(schema_id)));
        let f = |x: &ViewInfo| -> (b: bool)
            ensures
                b == view_in_schema(schema_id)(x@),
        {
            x.schema_id == schema_id
        };
        let views: bool = self.views.any(f, Ghost(view_in_schema(schema_id)));
        !tables && !sources && !sinks && !subscriptions && !indexes && !views
    }

    pub fn get_object_owner(&self, object: &Object) -> (r: MetaResult<u32>)
        ensures
            match (r, self@.object_owner(*object)) {
                (Ok(a), Ok(b)) => a == b,
                (Err(a), Err(b)) => a@ == b,
                _ => false,
            },
    {
        match *object {
            Object::DatabaseId(id) => match self.databases.get(id) {
                Some(x) => Ok(x.owner),
                None => Err(MetaError::CatalogIdNotFound(CatalogKind::Database, id)),
            },
            Object::SchemaId(id) => match self.schemas.get(id) {
                Some(x) => Ok(x.owner),
                None => Err(MetaError::CatalogIdNotFound(CatalogKind::Schema, id)),
            },
            Object::TableId(id) => match self.tables.get(id) {
                Some(x) => Ok(x.owner),
                None => Err(MetaError::CatalogIdNotFound(CatalogKind::Table, id)),
            },
            Object::SourceId(id) => match self.sources.get(id) {
                Some(x) => Ok(x.owner),
                None => Err(MetaError::CatalogIdNotFound(CatalogKind::Source, id)),
            },
            Object::SinkId(id) => match self.sinks.get(id) {
                Some(x) => Ok(x.owner),
                None => Err(MetaError::CatalogIdNotFound(CatalogKind::Sink, id)),
            },
            Object::ViewId(id) => match self.views.get(id) {
                Some(x) => Ok(x.owner),
                None => Err(MetaError::CatalogIdNotFound(CatalogKind::View, id)),
            },
            Object::FunctionId(id) => match self.functions.get(id) {
                Some(x) => Ok(x.owner),
                None => Err(MetaError::CatalogIdNotFound(CatalogKind::Function, id)),
            },
            Object::SubscriptionId(id) => match self.subscriptions.get(id) {
                Some(x) => Ok(x.owner),
                None => Err(MetaError::CatalogIdNotFound(CatalogKind::Subscription, id)),
            },
        }
    }
}

impl UserManager {
    pub fn ensure_user_id(&self, id: u32) -> (r: MetaResult<()>)
        ensures
            refusal(r) == self@.ensure_user(id),
    {
        if self.user_info.contains_key(id) {
            Ok(())
        } else {
            Err(MetaError::CatalogIdNotFound(CatalogKind::User, id))
        }
    }

    pub fn has_user_name(&self, name: &str) -> (r: bool)
        ensures
            r == self@.has_name(name@),
    {
        let wanted: String = name.to_string();
        let f = |x: &UserInfo| -> (b: bool)
            ensures
                b == user_named(name@)(x@),
        {
            x.name == wanted
        };
        self.user_info.any(f, Ghost(user_named(name@)))
    }
}

} // verus!
