//! The state of the catalog.

use vstd::prelude::*;

use crate::catalog::key_set::KeySet;
use crate::catalog::types::{
    Connection, ConnectionModel, Database, DatabaseModel, Function, FunctionModel, Index,
    IndexModel, RelationKey, RelationKeyModel, Schema, SchemaModel, Secret, SecretModel, Sink,
    SinkModel, Source, SourceModel, Subscription, SubscriptionModel, Table, TableModel, UserInfo,
    UserInfoModel, ViewInfo, ViewInfoModel,
};
use crate::util::id_map::{Entry, IdMap};
use crate::util::id_set::IdSet;

verus! {

/// The objects of all databases, how often they are referred to, and what is being created.
/// `creating_table_finish_notifier` holds, for each job, who waits for its end.
#[derive(Debug, PartialEq, Eq)]
pub struct DatabaseManager {
    pub databases: IdMap<Database>,
    pub schemas: IdMap<Schema>,
    pub sources: IdMap<Source>,
    pub sinks: IdMap<Sink>,
    pub subscriptions: IdMap<Subscription>,
    pub indexes: IdMap<Index>,
    pub tables: IdMap<Table>,
    pub views: IdMap<ViewInfo>,
    pub functions: IdMap<Function>,
    pub connections: IdMap<Connection>,
    pub secrets: IdMap<Secret>,
    pub relation_ref_count: IdMap<usize>,
    pub connection_ref_count: IdMap<usize>,
    pub secret_ref_count: IdMap<usize>,
    pub in_progress_creation_tracker: KeySet,
    pub in_progress_creating_streaming_job: IdMap<RelationKey>,
    pub in_progress_creating_tables: IdMap<Table>,
    pub creating_table_finish_notifier: IdMap<Vec<u64>>,
}

/// The mathematical model of [`DatabaseManager`].
#[verifier::ext_equal]
pub struct DatabaseManagerModel {
    pub databases: Map<u32, DatabaseModel>,
    pub schemas: Map<u32, SchemaModel>,
    pub sources: Map<u32, SourceModel>,
    pub sinks: Map<u32, SinkModel>,
    pub subscriptions: Map<u32, SubscriptionModel>,
    pub indexes: Map<u32, IndexModel>,
    pub tables: Map<u32, TableModel>,
    pub views: Map<u32, ViewInfoModel>,
    pub functions: Map<u32, FunctionModel>,
    pub connections: Map<u32, ConnectionModel>,
    pub secrets: Map<u32, SecretModel>,
    pub relation_ref_count: Map<u32, usize>,
    pub connection_ref_count: Map<u32, usize>,
    pub secret_ref_count: Map<u32, usize>,
    pub in_progress_creation_tracker: Set<RelationKeyModel>,
    pub in_progress_creating_streaming_job: Map<u32, RelationKeyModel>,
    pub in_progress_creating_tables: Map<u32, TableModel>,
    pub creating_table_finish_notifier: Map<u32, Seq<u64>>,
}

impl View for DatabaseManager {
    type V = DatabaseManagerModel;

    open spec fn view(&self) -> DatabaseManagerModel {
        DatabaseManagerModel {
            databases: self.databases@,
            schemas: self.schemas@,
            sources: self.sources@,
            sinks: self.sinks@,
            subscriptions: self.subscriptions@,
            indexes: self.indexes@,
            tables: self.tables@,
            views: self.views@,
            functions: self.functions@,
            connections: self.connections@,
            secrets: self.secrets@,
            relation_ref_count: self.relation_ref_count@,
            connection_ref_count: self.connection_ref_count@,
            secret_ref_count: self.secret_ref_count@,
            in_progress_creation_tracker: self.in_progress_creation_tracker@,
            in_progress_creating_streaming_job: self.in_progress_creating_streaming_job@,
            in_progress_creating_tables: self.in_progress_creating_tables@,
            creating_table_finish_notifier: self.creating_table_finish_notifier@,
        }
    }
}

impl Entry for DatabaseManager {
    fn duplicate(&self) -> (r: Self) {
        DatabaseManager {
            databases: self.databases.duplicate(),
            schemas: self.schemas.duplicate(),
            sources: self.sources.duplicate(),
            sinks: self.sinks.duplicate(),
            subscriptions: self.subscriptions.duplicate(),
            indexes: self.indexes.duplicate(),
            tables: self.tables.duplicate(),
            views: self.views.duplicate(),
            functions: self.functions.duplicate(),
            connections: self.connections.duplicate(),
            secrets: self.secrets.duplicate(),
            relation_ref_count: self.relation_ref_count.duplicate(),
            connection_ref_count: self.connection_ref_count.duplicate(),
            secret_ref_count: self.secret_ref_count.duplicate(),
            in_progress_creation_tracker: self.in_progress_creation_tracker.duplicate(),
            in_progress_creating_streaming_job: self.in_progress_creating_streaming_job.duplicate(),
            in_progress_creating_tables: self.in_progress_creating_tables.duplicate(),
            creating_table_finish_notifier: self.creating_table_finish_notifier.duplicate(),
        }
    }
}

impl DatabaseManagerModel {
    /// All fields at their default.
    pub open spec fn blank() -> DatabaseManagerModel {
        DatabaseManagerModel {
            databases: Map::empty(),
            schemas: Map::empty(),
            sources: Map::empty(),
            sinks: Map::empty(),
            subscriptions: Map::empty(),
            indexes: Map::empty(),
            tables: Map::empty(),
            views: Map::empty(),
            functions: Map::empty(),
            connections: Map::empty(),
            secrets: Map::empty(),
            relation_ref_count: Map::empty(),
            connection_ref_count: Map::empty(),
            secret_ref_count: Map::empty(),
            in_progress_creation_tracker: Set::empty(),
            in_progress_creating_streaming_job: Map::empty(),
            in_progress_creating_tables: Map::empty(),
            creating_table_finish_notifier: Map::empty(),
        }
    }
}

impl Default for DatabaseManager {
    fn default() -> (r: Self)
        ensures
            r@ == DatabaseManagerModel::blank(),
    {
        let r = DatabaseManager {
            databases: IdMap::new(),
            schemas: IdMap::new(),
            sources: IdMap::new(),
            sinks: IdMap::new(),
            subscriptions: IdMap::new(),
            indexes: IdMap::new(),
            tables: IdMap::new(),
            views: IdMap::new(),
            functions: IdMap::new(),
            connections: IdMap::new(),
            secrets: IdMap::new(),
            relation_ref_count: IdMap::new(),
            connection_ref_count: IdMap::new(),
            secret_ref_count: IdMap::new(),
            in_progress_creation_tracker: KeySet::new(),
            in_progress_creating_streaming_job: IdMap::new(),
            in_progress_creating_tables: IdMap::new(),
            creating_table_finish_notifier: IdMap::new(),
        };
        assert(r@ =~= DatabaseManagerModel::blank());
        r
    }
}

/// The users, to whom each of them has granted privileges, and how many objects each of them owns.
#[derive(Debug, PartialEq, Eq)]
pub struct UserManager {
    pub user_info: IdMap<UserInfo>,
    pub user_grant_relation: IdMap<IdSet>,
    pub catalog_create_ref_count: IdMap<usize>,
}

/// The mathematical model of [`UserManager`].
#[verifier::ext_equal]
pub struct UserManagerModel {
    pub user_info: Map<u32, UserInfoModel>,
    pub user_grant_relation: Map<u32, Set<u32>>,
    pub catalog_create_ref_count: Map<u32, usize>,
}

impl View for UserManager {
    type V = UserManagerModel;

    open spec fn view(&self) -> UserManagerModel {
        UserManagerModel {
            user_info: self.user_info@,
            user_grant_relation: self.user_grant_relation@,
            catalog_create_ref_count: self.catalog_create_ref_count@,
        }
    }
}

impl Entry for UserManager {
    fn duplicate(&self) -> (r: Self) {
        UserManager {
            user_info: self.user_info.duplicate(),
            user_grant_relation: self.user_grant_relation.duplicate(),
            catalog_create_ref_count: self.catalog_create_ref_count.duplicate(),
        }
    }
}

impl UserManagerModel {
    /// All fields at their default.
    pub open spec fn blank() -> UserManagerModel {
        UserManagerModel {
            user_info: Map::empty(),
            user_grant_relation: Map::empty(),
            catalog_create_ref_count: Map::empty(),
        }
    }
}

impl Default for UserManager {
    fn default() -> (r: Self)
        ensures
            r@ == UserManagerModel::blank(),
    {
        let r = UserManager {
            user_info: IdMap::new(),
            user_grant_relation: IdMap::new(),
            catalog_create_ref_count: IdMap::new(),
        };
        assert(r@ =~= UserManagerModel::blank());
        r
    }
}

/// The catalog: objects and users.
#[derive(Debug, PartialEq, Eq)]
pub struct CatalogManagerCore {
    pub database: DatabaseManager,
    pub user: UserManager,
}

/// The mathematical model of [`CatalogManagerCore`].
#[verifier::ext_equal]
pub struct CatalogManagerCoreModel {
    pub database: DatabaseManagerModel,
    pub user: UserManagerModel,
}

impl View for CatalogManagerCore {
    type V = CatalogManagerCoreModel;

    open spec fn view(&self) -> CatalogManagerCoreModel {
        CatalogManagerCoreModel {
            database: self.database@,
            user: self.user@,
        }
    }
}

impl Entry for CatalogManagerCore {
    fn duplicate(&self) -> (r: Self) {
        CatalogManagerCore {
            database: self.database.duplicate(),
            user: self.user.duplicate(),
        }
    }
}

impl CatalogManagerCoreModel {
    /// All fields at their default.
    pub open spec fn blank() -> CatalogManagerCoreModel {
        CatalogManagerCoreModel {
            database: DatabaseManagerModel::blank(),
            user: UserManagerModel::blank(),
        }
    }
}

impl Default for CatalogManagerCore {
    fn default() -> (r: Self)
        ensures
            r@ == CatalogManagerCoreModel::blank(),
    {
        let r = CatalogManagerCore {
            database: DatabaseManager::default(),
            user: UserManager::default(),
        };
        assert(r@ =~= CatalogManagerCoreModel::blank());
        r
    }
}

} // verus!
