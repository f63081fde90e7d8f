//! Catalog objects: what the catalog holds of each database object, user and privilege.

use vstd::prelude::*;

use crate::util::id_map::{copy_all, duplicate_all, duplicate_opt, opt_view, views, Entry};

verus! {

pub type DatabaseId = u32;

pub type SchemaId = u32;

pub type TableId = u32;

pub type SourceId = u32;

pub type SinkId = u32;

pub type SubscriptionId = u32;

pub type RelationId = u32;

pub type IndexId = u32;

pub type ViewId = u32;

pub type FunctionId = u32;

pub type SecretId = u32;

pub type UserId = u32;

pub type ConnectionId = u32;

/// What a table catalog stands for.
#[derive(Debug, Clone, Copy, PartialEq, Eq, Structural)]
pub enum TableType {
    Unspecified,
    Table,
    MaterializedView,
    Index,
    Internal,
}

/// The state of a streaming job. `Unspecified` is a job that was finished before states were
/// recorded.
#[derive(Debug, Clone, Copy, PartialEq, Eq, Structural)]
pub enum StreamJobStatus {
    Unspecified,
    Creating,
    Created,
}

/// How a streaming job is created.
#[derive(Debug, Clone, Copy, PartialEq, Eq, Structural)]
pub enum CreateType {
    Unspecified,
    Background,
    Foreground,
}

/// The state of a subscription.
#[derive(Debug, Clone, Copy, PartialEq, Eq, Structural)]
pub enum SubscriptionState {
    Unspecified,
    Init,
    Created,
}

/// What kind of table a table job creates.
#[derive(Debug, Clone, Copy, PartialEq, Eq, Structural)]
pub enum TableJobType {
    Unspecified,
    General,
    SharedCdcSource,
}

/// A field of a user that a request updates.
#[derive(Debug, Clone, Copy, PartialEq, Eq, Structural)]
pub enum UpdateField {
    Unspecified,
    Super,
    Login,
    CreateDb,
    AuthInfo,
    Rename,
    CreateUser,
}

/// An action that a privilege allows.
#[derive(Debug, Clone, Copy, PartialEq, Eq, Structural)]
pub enum Action {
    Unspecified,
    Select,
    Insert,
    Update,
    Delete,
    Create,
    Connect,
    Usage,
    Execute,
}

/// The object that a privilege is about.
#[derive(Debug, Clone, Copy, PartialEq, Eq, Structural)]
pub enum Object {
    DatabaseId(u32),
    SchemaId(u32),
    TableId(u32),
    SourceId(u32),
    SinkId(u32),
    ViewId(u32),
    FunctionId(u32),
    SubscriptionId(u32),
}

/// An action together with who granted it, and whether its holder may grant it on.
#[derive(Debug, Clone, Copy, PartialEq, Eq, Structural)]
pub struct ActionWithGrantOption {
    pub action: Action,
    pub with_grant_option: bool,
    pub granted_by: u32,
}

/// A database.
#[derive(Debug, PartialEq, Eq)]
pub struct Database {
    pub id: u32,
    pub name: String,
    pub owner: u32,
}

/// The mathematical model of [`Database`].
#[verifier::ext_equal]
pub struct DatabaseModel {
    pub id: u32,
    pub name: Seq<char>,
    pub owner: u32,
}

impl View for Database {
    type V = DatabaseModel;

    open spec fn view(&self) -> DatabaseModel {
        DatabaseModel {
            id: self.id,
            name: self.name@,
            owner: self.owner,
        }
    }
}

impl Entry for Database {
    fn duplicate(&self) -> (r: Self) {
        Database {
            id: self.id,
            name: self.name.clone(),
            owner: self.owner,
        }
    }
}

impl DatabaseModel {
    /// All fields at their default.
    pub open spec fn blank() -> DatabaseModel {
        DatabaseModel {
            id: 0,
            name: Seq::empty(),
            owner: 0,
        }
    }
}

impl Default for Database {
    fn default() -> (r: Self)
        ensures
            r@ == DatabaseModel::blank(),
    {
        let r = Database {
            id: 0,
            name: String::new(),
            owner: 0,
        };
        assert(r@ =~= DatabaseModel::blank());
        r
    }
}

/// A schema of a database.
#[derive(Debug, PartialEq, Eq)]
pub struct Schema {
    pub id: u32,
    pub database_id: u32,
    pub name: String,
    pub owner: u32,
}

/// The mathematical model of [`Schema`].
#[verifier::ext_equal]
pub struct SchemaModel {
    pub id: u32,
    pub database_id: u32,
    pub name: Seq<char>,
    pub owner: u32,
}

impl View for Schema {
    type V = SchemaModel;

    open spec fn view(&self) -> SchemaModel {
        SchemaModel {
            id: self.id,
            database_id: self.database_id,
            name: self.name@,
            owner: self.owner,
        }
    }
}

impl Entry for Schema {
    fn duplicate(&self) -> (r: Self) {
        Schema {
            id: self.id,
            database_id: self.database_id,
            name: self.name.clone(),
            owner: self.owner,
        }
    }
}

impl SchemaModel {
    /// All fields at their default.
    pub open spec fn blank() -> SchemaModel {
        SchemaModel {
            id: 0,
            database_id: 0,
            name: Seq::empty(),
            owner: 0,
        }
    }
}

impl Default for Schema {
    fn default() -> (r: Self)
        ensures
            r@ == SchemaModel::blank(),
    {
        let r = Schema {
            id: 0,
            database_id: 0,
            name: String::new(),
            owner: 0,
        };
        assert(r@ =~= SchemaModel::blank());
        r
    }
}

/// What a column holds.
#[derive(Debug, PartialEq, Eq)]
pub struct ColumnDesc {
    pub column_id: i32,
    pub name: String,
    pub column_type: String,
    pub description: Option<String>,
}

/// The mathematical model of [`ColumnDesc`].
#[verifier::ext_equal]
pub struct ColumnDescModel {
    pub column_id: i32,
    pub name: Seq<char>,
    pub column_type: Seq<char>,
    pub description: Option<Seq<char>>,
}

impl View for ColumnDesc {
    type V = ColumnDescModel;

    open spec fn view(&self) -> ColumnDescModel {
        ColumnDescModel {
            column_id: self.column_id,
            name: self.name@,
            column_type: self.column_type@,
            description: opt_view(self.description),
        }
    }
}

impl Entry for ColumnDesc {
    fn duplicate(&self) -> (r: Self) {
        ColumnDesc {
            column_id: self.column_id,
            name: self.name.clone(),
            column_type: self.column_type.clone(),
            description: duplicate_opt(&self.description),
        }
    }
}

impl ColumnDescModel {
    /// All fields at their default.
    pub open spec fn blank() -> ColumnDescModel {
        ColumnDescModel {
            column_id: 0,
            name: Seq::empty(),
            column_type: Seq::empty(),
            description: None,
        }
    }
}

impl Default for ColumnDesc {
    fn default() -> (r: Self)
        ensures
            r@ == ColumnDescModel::blank(),
    {
        let r = ColumnDesc {
            column_id: 0,
            name: String::new(),
            column_type: String::new(),
            description: None,
        };
        assert(r@ =~= ColumnDescModel::blank());
        r
    }
}

/// A column of a table.
#[derive(Debug, PartialEq, Eq)]
pub struct ColumnCatalog {
    pub column_desc: Option<ColumnDesc>,
    pub is_hidden: bool,
}

/// The mathematical model of [`ColumnCatalog`].
#[verifier::ext_equal]
pub struct ColumnCatalogModel {
    pub column_desc: Option<ColumnDescModel>,
    pub is_hidden: bool,
}

impl View for ColumnCatalog {
    type V = ColumnCatalogModel;

    open spec fn view(&self) -> ColumnCatalogModel {
        ColumnCatalogModel {
            column_desc: opt_view(self.column_desc),
            is_hidden: self.is_hidden,
        }
    }
}

impl Entry for ColumnCatalog {
    fn duplicate(&self) -> (r: Self) {
        ColumnCatalog {
            column_desc: duplicate_opt(&self.column_desc),
            is_hidden: self.is_hidden,
        }
    }
}

impl ColumnCatalogModel {
    /// All fields at their default.
    pub open spec fn blank() -> ColumnCatalogModel {
        ColumnCatalogModel {
            column_desc: None,
            is_hidden: false,
        }
    }
}

impl Default for ColumnCatalog {
    fn default() -> (r: Self)
        ensures
            r@ == ColumnCatalogModel::blank(),
    {
        let r = ColumnCatalog {
            column_desc: None,
            is_hidden: false,
        };
        assert(r@ =~= ColumnCatalogModel::blank());
        r
    }
}

/// A table, a materialized view, the table of an index, or an internal table of a streaming job.
#[derive(Debug, PartialEq, Eq)]
pub struct Table {
    pub id: u32,
    pub schema_id: u32,
    pub database_id: u32,
    pub name: String,
    pub owner: u32,
    pub columns: Vec<ColumnCatalog>,
    pub dependent_relations: Vec<u32>,
    pub optional_associated_source_id: Option<u32>,
    pub table_type: TableType,
    pub definition: String,
    pub version: Option<u64>,
    pub stream_job_status: StreamJobStatus,
    pub create_type: CreateType,
    pub incoming_sinks: Vec<u32>,
    pub cdc_table_id: Option<String>,
    pub description: Option<String>,
    pub created_at_epoch: Option<u64>,
    pub created_at_cluster_version: Option<String>,
    pub retention_seconds: Option<u32>,
}

/// The mathematical model of [`Table`].
#[verifier::ext_equal]
pub struct TableModel {
    pub id: u32,
    pub schema_id: u32,
    pub database_id: u32,
    pub name: Seq<char>,
    pub owner: u32,
    pub columns: Seq<ColumnCatalogModel>,
    pub dependent_relations: Seq<u32>,
    pub optional_associated_source_id: Option<u32>,
    pub table_type: TableType,
    pub definition: Seq<char>,
    pub version: Option<u64>,
    pub stream_job_status: StreamJobStatus,
    pub create_type: CreateType,
    pub incoming_sinks: Seq<u32>,
    pub cdc_table_id: Option<Seq<char>>,
    pub description: Option<Seq<char>>,
    pub created_at_epoch: Option<u64>,
    pub created_at_cluster_version: Option<Seq<char>>,
    pub retention_seconds: Option<u32>,
}

impl View for Table {
    type V = TableModel;

    open spec fn view(&self) -> TableModel {
        TableModel {
            id: self.id,
            schema_id: self.schema_id,
            database_id: self.database_id,
            name: self.name@,
            owner: self.owner,
            columns: views(self.columns@),
            dependent_relations: self.dependent_relations@,
            optional_associated_source_id: self.optional_associated_source_id,
            table_type: self.table_type,
            definition: self.definition@,
            version: self.version,
            stream_job_status: self.stream_job_status,
            create_type: self.create_type,
            incoming_sinks: self.incoming_sinks@,
            cdc_table_id: opt_view(self.cdc_table_id),
            description: opt_view(self.description),
            created_at_epoch: self.created_at_epoch,
            created_at_cluster_version: opt_view(self.created_at_cluster_version),
            retention_seconds: self.retention_seconds,
        }
    }
}

impl Entry for Table {
    fn duplicate(&self) -> (r: Self) {
        Table {
            id: self.id,
            schema_id: self.schema_id,
            database_id: self.database_id,
            name: self.name.clone(),
            owner: self.owner,
            columns: duplicate_all(&self.columns),
            dependent_relations: copy_all(&self.dependent_relations),
            optional_associated_source_id: self.optional_associated_source_id,
            table_type: self.table_type,
            definition: self.definition.clone(),
            version: self.version,
            stream_job_status: self.stream_job_status,
            create_type: self.create_type,
            incoming_sinks: copy_all(&self.incoming_sinks),
            cdc_table_id: duplicate_opt(&self.cdc_table_id),
            description: duplicate_opt(&self.description),
            created_at_epoch: self.created_at_epoch,
            created_at_cluster_version: duplicate_opt(&self.created_at_cluster_version),
            retention_seconds: self.retention_seconds,
        }
    }
}

impl TableModel {
    /// All fields at their default.
    pub open spec fn blank() -> TableModel {
        TableModel {
            id: 0,
            schema_id: 0,
            database_id: 0,
            name: Seq::empty(),
            owner: 0,
            columns: Seq::empty(),
            dependent_relations: Seq::empty(),
            optional_associated_source_id: None,
            table_type: TableType::Unspecified,
            definition: Seq::empty(),
            version: None,
            stream_job_status: StreamJobStatus::Unspecified,
            create_type: CreateType::Unspecified,
            incoming_sinks: Seq::empty(),
            cdc_table_id: None,
            description: None,
            created_at_epoch: None,
            created_at_cluster_version: None,
            retention_seconds: None,
        }
    }
}

impl Default for Table {
    fn default() -> (r: Self)
        ensures
            r@ == TableModel::blank(),
    {
        let r = Table {
            id: 0,
            schema_id: 0,
            database_id: 0,
            name: String::new(),
            owner: 0,
            columns: Vec::new(),
            dependent_relations: Vec::new(),
            optional_associated_source_id: None,
            table_type: TableType::Unspecified,
            definition: String::new(),
            version: None,
            stream_job_status: StreamJobStatus::Unspecified,
            create_type: CreateType::Unspecified,
            incoming_sinks: Vec::new(),
            cdc_table_id: None,
            description: None,
            created_at_epoch: None,
            created_at_cluster_version: None,
            retention_seconds: None,
        };
        assert(r@ =~= TableModel::blank());
        r
    }
}

/// A key with its value.
#[derive(Debug, PartialEq, Eq)]
pub struct Property {
    pub key: String,
    pub value: String,
}

/// The mathematical model of [`Property`].
#[verifier::ext_equal]
pub struct PropertyModel {
    pub key: Seq<char>,
    pub value: Seq<char>,
}

impl View for Property {
    type V = PropertyModel;

    open spec fn view(&self) -> PropertyModel {
        PropertyModel {
            key: self.key@,
            value: self.value@,
        }
    }
}

impl Entry for Property {
    fn duplicate(&self) -> (r: Self) {
        Property {
            key: self.key.clone(),
            value: self.value.clone(),
        }
    }
}

impl PropertyModel {
    /// All fields at their default.
    pub open spec fn blank() -> PropertyModel {
        PropertyModel {
            key: Seq::empty(),
            value: Seq::empty(),
        }
    }
}

impl Default for Property {
    fn default() -> (r: Self)
        ensures
            r@ == PropertyModel::blank(),
    {
        let r = Property {
            key: String::new(),
            value: String::new(),
        };
        assert(r@ =~= PropertyModel::blank());
        r
    }
}

/// How the data of a source is encoded, and whether a streaming job runs it for all its readers.
#[derive(Debug, PartialEq, Eq)]
pub struct SourceInfo {
    pub is_shared: bool,
    pub format_encode_options: Vec<Property>,
}

/// The mathematical model of [`SourceInfo`].
#[verifier::ext_equal]
pub struct SourceInfoModel {
    pub is_shared: bool,
    pub format_encode_options: Seq<PropertyModel>,
}

impl View for SourceInfo {
    type V = SourceInfoModel;

    open spec fn view(&self) -> SourceInfoModel {
        SourceInfoModel {
            is_shared: self.is_shared,
            format_encode_options: views(self.format_encode_options@),
        }
    }
}

impl Entry for SourceInfo {
    fn duplicate(&self) -> (r: Self) {
        SourceInfo {
            is_shared: self.is_shared,
            format_encode_options: duplicate_all(&self.format_encode_options),
        }
    }
}

impl SourceInfoModel {
    /// All fields at their default.
    pub open spec fn blank() -> SourceInfoModel {
        SourceInfoModel {
            is_shared: false,
            format_encode_options: Seq::empty(),
        }
    }
}

impl Default for SourceInfo {
    fn default() -> (r: Self)
        ensures
            r@ == SourceInfoModel::blank(),
    {
        let r = SourceInfo {
            is_shared: false,
            format_encode_options: Vec::new(),
        };
        assert(r@ =~= SourceInfoModel::blank());
        r
    }
}

/// A source. `secret_ids` are the secrets that its properties refer to.
#[derive(Debug, PartialEq, Eq)]
pub struct Source {
    pub id: u32,
    pub schema_id: u32,
    pub database_id: u32,
    pub name: String,
    pub owner: u32,
    pub info: Option<SourceInfo>,
    pub with_properties: Vec<Property>,
    pub definition: String,
    pub connection_id: Option<u32>,
    pub secret_ids: Vec<u32>,
    pub optional_associated_table_id: Option<u32>,
    pub version: u64,
    pub rate_limit: Option<u32>,
    pub created_at_epoch: Option<u64>,
    pub created_at_cluster_version: Option<String>,
}

/// The mathematical model of [`Source`].
#[verifier::ext_equal]
pub struct SourceModel {
    pub id: u32,
    pub schema_id: u32,
    pub database_id: u32,
    pub name: Seq<char>,
    pub owner: u32,
    pub info: Option<SourceInfoModel>,
    pub with_properties: Seq<PropertyModel>,
    pub definition: Seq<char>,
    pub connection_id: Option<u32>,
    pub secret_ids: Seq<u32>,
    pub optional_associated_table_id: Option<u32>,
    pub version: u64,
    pub rate_limit: Option<u32>,
    pub created_at_epoch: Option<u64>,
    pub created_at_cluster_version: Option<Seq<char>>,
}

impl View for Source {
    type V = SourceModel;

    open spec fn view(&self) -> SourceModel {
        SourceModel {
            id: self.id,
            schema_id: self.schema_id,
            database_id: self.database_id,
            name: self.name@,
            owner: self.owner,
            info: opt_view(self.info),
            with_properties: views(self.with_properties@),
            definition: self.definition@,
            connection_id: self.connection_id,
            secret_ids: self.secret_ids@,
            optional_associated_table_id: self.optional_associated_table_id,
            version: self.version,
            rate_limit: self.rate_limit,
            created_at_epoch: self.created_at_epoch,
            created_at_cluster_version: opt_view(self.created_at_cluster_version),
        }
    }
}

impl Entry for Source {
    fn duplicate(&self) -> (r: Self) {
        Source {
            id: self.id,
            schema_id: self.schema_id,
            database_id: self.database_id,
            name: self.name.clone(),
            owner: self.owner,
            info: duplicate_opt(&self.info),
            with_properties: duplicate_all(&self.with_properties),
            definition: self.definition.clone(),
            connection_id: self.connection_id,
            secret_ids: copy_all(&self.secret_ids),
            optional_associated_table_id: self.optional_associated_table_id,
            version: self.version,
            rate_limit: self.rate_limit,
            created_at_epoch: self.created_at_epoch,
            created_at_cluster_version: duplicate_opt(&self.created_at_cluster_version),
        }
    }
}

impl SourceModel {
    /// All fields at their default.
    pub open spec fn blank() -> SourceModel {
        SourceModel {
            id: 0,
            schema_id: 0,
            database_id: 0,
            name: Seq::empty(),
            owner: 0,
            info: None,
            with_properties: Seq::empty(),
            definition: Seq::empty(),
            connection_id: None,
            secret_ids: Seq::empty(),
            optional_associated_table_id: None,
            version: 0,
            rate_limit: None,
            created_at_epoch: None,
            created_at_cluster_version: None,
        }
    }
}

impl Default for Source {
    fn default() -> (r: Self)
        ensures
            r@ == SourceModel::blank(),
    {
        let r = Source {
            id: 0,
            schema_id: 0,
            database_id: 0,
            name: String::new(),
            owner: 0,
            info: None,
            with_properties: Vec::new(),
            definition: String::new(),
            connection_id: None,
            secret_ids: Vec::new(),
            optional_associated_table_id: None,
            version: 0,
            rate_limit: None,
            created_at_epoch: None,
            created_at_cluster_version: None,
        };
        assert(r@ =~= SourceModel::blank());
        r
    }
}

/// A sink. `secret_ids` are the secrets that its properties refer to.
#[derive(Debug, PartialEq, Eq)]
pub struct Sink {
    pub id: u32,
    pub schema_id: u32,
    pub database_id: u32,
    pub name: String,
    pub owner: u32,
    pub dependent_relations: Vec<u32>,
    pub definition: String,
    pub connection_id: Option<u32>,
    pub secret_ids: Vec<u32>,
    pub target_table: Option<u32>,
    pub original_target_columns: Vec<ColumnCatalog>,
    pub stream_job_status: StreamJobStatus,
    pub created_at_epoch: Option<u64>,
    pub created_at_cluster_version: Option<String>,
}

/// The mathematical model of [`Sink`].
#[verifier::ext_equal]
pub struct SinkModel {
    pub id: u32,
    pub schema_id: u32,
    pub database_id: u32,
    pub name: Seq<char>,
    pub owner: u32,
    pub dependent_relations: Seq<u32>,
    pub definition: Seq<char>,
    pub connection_id: Option<u32>,
    pub secret_ids: Seq<u32>,
    pub target_table: Option<u32>,
    pub original_target_columns: Seq<ColumnCatalogModel>,
    pub stream_job_status: StreamJobStatus,
    pub created_at_epoch: Option<u64>,
    pub created_at_cluster_version: Option<Seq<char>>,
}

impl View for Sink {
    type V = SinkModel;

    open spec fn view(&self) -> SinkModel {
        SinkModel {
            id: self.id,
            schema_id: self.schema_id,
            database_id: self.database_id,
            name: self.name@,
            owner: self.owner,
            dependent_relations: self.dependent_relations@,
            definition: self.definition@,
            connection_id: self.connection_id,
            secret_ids: self.secret_ids@,
            target_table: self.target_table,
            original_target_columns: views(self.original_target_columns@),
            stream_job_status: self.stream_job_status,
            created_at_epoch: self.created_at_epoch,
            created_at_cluster_version: opt_view(self.created_at_cluster_version),
        }
    }
}

impl Entry for Sink {
    fn duplicate(&self) -> (r: Self) {
        Sink {
            id: self.id,
            schema_id: self.schema_id,
            database_id: self.database_id,
            name: self.name.clone(),
            owner: self.owner,
            dependent_relations: copy_all(&self.dependent_relations),
            definition: self.definition.clone(),
            connection_id: self.connection_id,
            secret_ids: copy_all(&self.secret_ids),
            target_table: self.target_table,
            original_target_columns: duplicate_all(&self.original_target_columns),
            stream_job_status: self.stream_job_status,
            created_at_epoch: self.created_at_epoch,
            created_at_cluster_version: duplicate_opt(&self.created_at_cluster_version),
        }
    }
}

impl SinkModel {
    /// All fields at their default.
    pub open spec fn blank() -> SinkModel {
        SinkModel {
            id: 0,
            schema_id: 0,
            database_id: 0,
            name: Seq::empty(),
            owner: 0,
            dependent_relations: Seq::empty(),
            definition: Seq::empty(),
            connection_id: None,
            secret_ids: Seq::empty(),
            target_table: None,
            original_target_columns: Seq::empty(),
            stream_job_status: StreamJobStatus::Unspecified,
            created_at_epoch: None,
            created_at_cluster_version: None,
        }
    }
}

impl Default for Sink {
    fn default() -> (r: Self)
        ensures
            r@ == SinkModel::blank(),
    {
        let r = Sink {
            id: 0,
            schema_id: 0,
            database_id: 0,
            name: String::new(),
            owner: 0,
            dependent_relations: Vec::new(),
            definition: String::new(),
            connection_id: None,
            secret_ids: Vec::new(),
            target_table: None,
            original_target_columns: Vec::new(),
            stream_job_status: StreamJobStatus::Unspecified,
            created_at_epoch: None,
            created_at_cluster_version: None,
        };
        assert(r@ =~= SinkModel::blank());
        r
    }
}

/// A subscription to the changes of a table.
#[derive(Debug, PartialEq, Eq)]
pub struct Subscription {
    pub id: u32,
    pub schema_id: u32,
    pub database_id: u32,
    pub name: String,
    pub owner: u32,
    pub definition: String,
    pub dependent_table_id: u32,
    pub retention_seconds: u64,
    pub subscription_state: SubscriptionState,
    pub created_at_epoch: Option<u64>,
    pub created_at_cluster_version: Option<String>,
}

/// The mathematical model of [`Subscription`].
#[verifier::ext_equal]
pub struct SubscriptionModel {
    pub id: u32,
    pub schema_id: u32,
    pub database_id: u32,
    pub name: Seq<char>,
    pub owner: u32,
    pub definition: Seq<char>,
    pub dependent_table_id: u32,
    pub retention_seconds: u64,
    pub subscription_state: SubscriptionState,
    pub created_at_epoch: Option<u64>,
    pub created_at_cluster_version: Option<Seq<char>>,
}

impl View for Subscription {
    type V = SubscriptionModel;

    open spec fn view(&self) -> SubscriptionModel {
        SubscriptionModel {
            id: self.id,
            schema_id: self.schema_id,
            database_id: self.database_id,
            name: self.name@,
            owner: self.owner,
            definition: self.definition@,
            dependent_table_id: self.dependent_table_id,
            retention_seconds: self.retention_seconds,
            subscription_state: self.subscription_state,
            created_at_epoch: self.created_at_epoch,
            created_at_cluster_version: opt_view(self.created_at_cluster_version),
        }
    }
}

impl Entry for Subscription {
    fn duplicate(&self) -> (r: Self) {
        Subscription {
            id: self.id,
            schema_id: self.schema_id,
            database_id: self.database_id,
            name: self.name.clone(),
            owner: self.owner,
            definition: self.definition.clone(),
            dependent_table_id: self.dependent_table_id,
            retention_seconds: self.retention_seconds,
            subscription_state: self.subscription_state,
            created_at_epoch: self.created_at_epoch,
            created_at_cluster_version: duplicate_opt(&self.created_at_cluster_version),
        }
    }
}

impl SubscriptionModel {
    /// All fields at their default.
    pub open spec fn blank() -> SubscriptionModel {
        SubscriptionModel {
            id: 0,
            schema_id: 0,
            database_id: 0,
            name: Seq::empty(),
            owner: 0,
            definition: Seq::empty(),
            dependent_table_id: 0,
            retention_seconds: 0,
            subscription_state: SubscriptionState::Unspecified,
            created_at_epoch: None,
            created_at_cluster_version: None,
        }
    }
}

impl Default for Subscription {
    fn default() -> (r: Self)
        ensures
            r@ == SubscriptionModel::blank(),
    {
        let r = Subscription {
            id: 0,
            schema_id: 0,
            database_id: 0,
            name: String::new(),
            owner: 0,
            definition: String::new(),
            dependent_table_id: 0,
            retention_seconds: 0,
            subscription_state: SubscriptionState::Unspecified,
            created_at_epoch: None,
            created_at_cluster_version: None,
        };
        assert(r@ =~= SubscriptionModel::blank());
        r
    }
}

/// An expression that an index orders by. `input_refs` are the columns it reads, in the order in
/// which it reads them.
#[derive(Debug, PartialEq, Eq)]
pub struct IndexItem {
    pub input_refs: Vec<u32>,
    pub expression: String,
}

/// The mathematical model of [`IndexItem`].
#[verifier::ext_equal]
pub struct IndexItemModel {
    pub input_refs: Seq<u32>,
    pub expression: Seq<char>,
}

impl View for IndexItem {
    type V = IndexItemModel;

    open spec fn view(&self) -> IndexItemModel {
        IndexItemModel {
            input_refs: self.input_refs@,
            expression: self.expression@,
        }
    }
}

impl Entry for IndexItem {
    fn duplicate(&self) -> (r: Self) {
        IndexItem {
            input_refs: copy_all(&self.input_refs),
            expression: self.expression.clone(),
        }
    }
}

impl IndexItemModel {
    /// All fields at their default.
    pub open spec fn blank() -> IndexItemModel {
        IndexItemModel {
            input_refs: Seq::empty(),
            expression: Seq::empty(),
        }
    }
}

impl Default for IndexItem {
    fn default() -> (r: Self)
        ensures
            r@ == IndexItemModel::blank(),
    {
        let r = IndexItem {
            input_refs: Vec::new(),
            expression: String::new(),
        };
        assert(r@ =~= IndexItemModel::blank());
        r
    }
}

/// An index on a table. Its rows stand in a table of their own.
#[derive(Debug, PartialEq, Eq)]
pub struct Index {
    pub id: u32,
    pub schema_id: u32,
    pub database_id: u32,
    pub name: String,
    pub owner: u32,
    pub index_table_id: u32,
    pub primary_table_id: u32,
    pub index_item: Vec<IndexItem>,
    pub stream_job_status: StreamJobStatus,
    pub created_at_epoch: Option<u64>,
    pub created_at_cluster_version: Option<String>,
}

/// The mathematical model of [`Index`].
#[verifier::ext_equal]
pub struct IndexModel {
    pub id: u32,
    pub schema_id: u32,
    pub database_id: u32,
    pub name: Seq<char>,
    pub owner: u32,
    pub index_table_id: u32,
    pub primary_table_id: u32,
    pub index_item: Seq<IndexItemModel>,
    pub stream_job_status: StreamJobStatus,
    pub created_at_epoch: Option<u64>,
    pub created_at_cluster_version: Option<Seq<char>>,
}

impl View for Index {
    type V = IndexModel;

    open spec fn view(&self) -> IndexModel {
        IndexModel {
            id: self.id,
            schema_id: self.schema_id,
            database_id: self.database_id,
            name: self.name@,
            owner: self.owner,
            index_table_id: self.index_table_id,
            primary_table_id: self.primary_table_id,
            index_item: views(self.index_item@),
            stream_job_status: self.stream_job_status,
            created_at_epoch: self.created_at_epoch,
            created_at_cluster_version: opt_view(self.created_at_cluster_version),
        }
    }
}

impl Entry for Index {
    fn duplicate(&self) -> (r: Self) {
        Index {
            id: self.id,
            schema_id: self.schema_id,
            database_id: self.database_id,
            name: self.name.clone(),
            owner: self.owner,
            index_table_id: self.index_table_id,
            primary_table_id: self.primary_table_id,
            index_item: duplicate_all(&self.index_item),
            stream_job_status: self.stream_job_status,
            created_at_epoch: self.created_at_epoch,
            created_at_cluster_version: duplicate_opt(&self.created_at_cluster_version),
        }
    }
}

impl IndexModel {
    /// All fields at their default.
    pub open spec fn blank() -> IndexModel {
        IndexModel {
            id: 0,
            schema_id: 0,
            database_id: 0,
            name: Seq::empty(),
            owner: 0,
            index_table_id: 0,
            primary_table_id: 0,
            index_item: Seq::empty(),
            stream_job_status: StreamJobStatus::Unspecified,
            created_at_epoch: None,
            created_at_cluster_version: None,
        }
    }
}

impl Default for Index {
    fn default() -> (r: Self)
        ensures
            r@ == IndexModel::blank(),
    {
        let r = Index {
            id: 0,
            schema_id: 0,
            database_id: 0,
            name: String::new(),
            owner: 0,
            index_table_id: 0,
            primary_table_id: 0,
            index_item: Vec::new(),
            stream_job_status: StreamJobStatus::Unspecified,
            created_at_epoch: None,
            created_at_cluster_version: None,
        };
        assert(r@ =~= IndexModel::blank());
        r
    }
}

/// A view: a named query.
#[derive(Debug, PartialEq, Eq)]
pub struct ViewInfo {
    pub id: u32,
    pub schema_id: u32,
    pub database_id: u32,
    pub name: String,
    pub owner: u32,
    pub dependent_relations: Vec<u32>,
    pub sql: String,
}

/// The mathematical model of [`ViewInfo`].
#[verifier::ext_equal]
pub struct ViewInfoModel {
    pub id: u32,
    pub schema_id: u32,
    pub database_id: u32,
    pub name: Seq<char>,
    pub owner: u32,
    pub dependent_relations: Seq<u32>,
    pub sql: Seq<char>,
}

impl View for ViewInfo {
    type V = ViewInfoModel;

    open spec fn view(&self) -> ViewInfoModel {
        ViewInfoModel {
            id: self.id,
            schema_id: self.schema_id,
            database_id: self.database_id,
            name: self.name@,
            owner: self.owner,
            dependent_relations: self.dependent_relations@,
            sql: self.sql@,
        }
    }
}

impl Entry for ViewInfo {
    fn duplicate(&self) -> (r: Self) {
        ViewInfo {
            id: self.id,
            schema_id: self.schema_id,
            database_id: self.database_id,
            name: self.name.clone(),
            owner: self.owner,
            dependent_relations: copy_all(&self.dependent_relations),
            sql: self.sql.clone(),
        }
    }
}

impl ViewInfoModel {
    /// All fields at their default.
    pub open spec fn blank() -> ViewInfoModel {
        ViewInfoModel {
            id: 0,
            schema_id: 0,
            database_id: 0,
            name: Seq::empty(),
            owner: 0,
            dependent_relations: Seq::empty(),
            sql: Seq::empty(),
        }
    }
}

impl Default for ViewInfo {
    fn default() -> (r: Self)
        ensures
            r@ == ViewInfoModel::blank(),
    {
        let r = ViewInfo {
            id: 0,
            schema_id: 0,
            database_id: 0,
            name: String::new(),
            owner: 0,
            dependent_relations: Vec::new(),
            sql: String::new(),
        };
        assert(r@ =~= ViewInfoModel::blank());
        r
    }
}

/// A user-defined function.
#[derive(Debug, PartialEq, Eq)]
pub struct Function {
    pub id: u32,
    pub schema_id: u32,
    pub database_id: u32,
    pub name: String,
    pub owner: u32,
    pub arg_types: Vec<String>,
}

/// The mathematical model of [`Function`].
#[verifier::ext_equal]
pub struct FunctionModel {
    pub id: u32,
    pub schema_id: u32,
    pub database_id: u32,
    pub name: Seq<char>,
    pub owner: u32,
    pub arg_types: Seq<Seq<char>>,
}

impl View for Function {
    type V = FunctionModel;

    open spec fn view(&self) -> FunctionModel {
        FunctionModel {
            id: self.id,
            schema_id: self.schema_id,
            database_id: self.database_id,
            name: self.name@,
            owner: self.owner,
            arg_types: views(self.arg_types@),
        }
    }
}

impl Entry for Function {
    fn duplicate(&self) -> (r: Self) {
        Function {
            id: self.id,
            schema_id: self.schema_id,
            database_id: self.database_id,
            name: self.name.clone(),
            owner: self.owner,
            arg_types: duplicate_all(&self.arg_types),
        }
    }
}

impl FunctionModel {
    /// All fields at their default.
    pub open spec fn blank() -> FunctionModel {
        FunctionModel {
            id: 0,
            schema_id: 0,
            database_id: 0,
            name: Seq::empty(),
            owner: 0,
            arg_types: Seq::empty(),
        }
    }
}

impl Default for Function {
    fn default() -> (r: Self)
        ensures
            r@ == FunctionModel::blank(),
    {
        let r = Function {
            id: 0,
            schema_id: 0,
            database_id: 0,
            name: String::new(),
            owner: 0,
            arg_types: Vec::new(),
        };
        assert(r@ =~= FunctionModel::blank());
        r
    }
}

/// A connection to an outside service.
#[derive(Debug, PartialEq, Eq)]
pub struct Connection {
    pub id: u32,
    pub schema_id: u32,
    pub database_id: u32,
    pub name: String,
    pub owner: u32,
}

/// The mathematical model of [`Connection`].
#[verifier::ext_equal]
pub struct ConnectionModel {
    pub id: u32,
    pub schema_id: u32,
    pub database_id: u32,
    pub name: Seq<char>,
    pub owner: u32,
}

impl View for Connection {
    type V = ConnectionModel;

    open spec fn view(&self) -> ConnectionModel {
        ConnectionModel {
            id: self.id,
            schema_id: self.schema_id,
            database_id: self.database_id,
            name: self.name@,
            owner: self.owner,
        }
    }
}

impl Entry for Connection {
    fn duplicate(&self) -> (r: Self) {
        Connection {
            id: self.id,
            schema_id: self.schema_id,
            database_id: self.database_id,
            name: self.name.clone(),
            owner: self.owner,
        }
    }
}

impl ConnectionModel {
    /// All fields at their default.
    pub open spec fn blank() -> ConnectionModel {
        ConnectionModel {
            id: 0,
            schema_id: 0,
            database_id: 0,
            name: Seq::empty(),
            owner: 0,
        }
    }
}

impl Default for Connection {
    fn default() -> (r: Self)
        ensures
            r@ == ConnectionModel::blank(),
    {
        let r = Connection {
            id: 0,
            schema_id: 0,
            database_id: 0,
            name: String::new(),
            owner: 0,
        };
        assert(r@ =~= ConnectionModel::blank());
        r
    }
}

/// A secret.
#[derive(Debug, PartialEq, Eq)]
pub struct Secret {
    pub id: u32,
    pub schema_id: u32,
    pub database_id: u32,
    pub name: String,
    pub owner: u32,
    pub value: Vec<u8>,
}

/// The mathematical model of [`Secret`].
#[verifier::ext_equal]
pub struct SecretModel {
    pub id: u32,
    pub schema_id: u32,
    pub database_id: u32,
    pub name: Seq<char>,
    pub owner: u32,
    pub value: Seq<u8>,
}

impl View for Secret {
    type V = SecretModel;

    open spec fn view(&self) -> SecretModel {
        SecretModel {
            id: self.id,
            schema_id: self.schema_id,
            database_id: self.database_id,
            name: self.name@,
            owner: self.owner,
            value: self.value@,
        }
    }
}

impl Entry for Secret {
    fn duplicate(&self) -> (r: Self) {
        Secret {
            id: self.id,
            schema_id: self.schema_id,
            database_id: self.database_id,
            name: self.name.clone(),
            owner: self.owner,
            value: copy_all(&self.value),
        }
    }
}

impl SecretModel {
    /// All fields at their default.
    pub open spec fn blank() -> SecretModel {
        SecretModel {
            id: 0,
            schema_id: 0,
            database_id: 0,
            name: Seq::empty(),
            owner: 0,
            value: Seq::empty(),
        }
    }
}

impl Default for Secret {
    fn default() -> (r: Self)
        ensures
            r@ == SecretModel::blank(),
    {
        let r = Secret {
            id: 0,
            schema_id: 0,
            database_id: 0,
            name: String::new(),
            owner: 0,
            value: Vec::new(),
        };
        assert(r@ =~= SecretModel::blank());
        r
    }
}

/// The actions that a user may perform on an object.
#[derive(Debug, PartialEq, Eq)]
pub struct GrantPrivilege {
    pub action_with_opts: Vec<ActionWithGrantOption>,
    pub object: Option<Object>,
}

/// The mathematical model of [`GrantPrivilege`].
#[verifier::ext_equal]
pub struct GrantPrivilegeModel {
    pub action_with_opts: Seq<ActionWithGrantOption>,
    pub object: Option<Object>,
}

impl View for GrantPrivilege {
    type V = GrantPrivilegeModel;

    open spec fn view(&self) -> GrantPrivilegeModel {
        GrantPrivilegeModel {
            action_with_opts: self.action_with_opts@,
            object: self.object,
        }
    }
}

impl Entry for GrantPrivilege {
    fn duplicate(&self) -> (r: Self) {
        GrantPrivilege {
            action_with_opts: copy_all(&self.action_with_opts),
            object: self.object,
        }
    }
}

impl GrantPrivilegeModel {
    /// All fields at their default.
    pub open spec fn blank() -> GrantPrivilegeModel {
        GrantPrivilegeModel {
            action_with_opts: Seq::empty(),
            object: None,
        }
    }
}

impl Default for GrantPrivilege {
    fn default() -> (r: Self)
        ensures
            r@ == GrantPrivilegeModel::blank(),
    {
        let r = GrantPrivilege {
            action_with_opts: Vec::new(),
            object: None,
        };
        assert(r@ =~= GrantPrivilegeModel::blank());
        r
    }
}

/// How a user authenticates.
#[derive(Debug, PartialEq, Eq)]
pub struct AuthInfo {
    pub encryption_type: i32,
    pub encrypted_value: Vec<u8>,
}

/// The mathematical model of [`AuthInfo`].
#[verifier::ext_equal]
pub struct AuthInfoModel {
    pub encryption_type: i32,
    pub encrypted_value: Seq<u8>,
}

impl View for AuthInfo {
    type V = AuthInfoModel;

    open spec fn view(&self) -> AuthInfoModel {
        AuthInfoModel {
            encryption_type: self.encryption_type,
            encrypted_value: self.encrypted_value@,
        }
    }
}

impl Entry for AuthInfo {
    fn duplicate(&self) -> (r: Self) {
        AuthInfo {
            encryption_type: self.encryption_type,
            encrypted_value: copy_all(&self.encrypted_value),
        }
    }
}

impl AuthInfoModel {
    /// All fields at their default.
    pub open spec fn blank() -> AuthInfoModel {
        AuthInfoModel {
            encryption_type: 0,
            encrypted_value: Seq::empty(),
        }
    }
}

impl Default for AuthInfo {
    fn default() -> (r: Self)
        ensures
            r@ == AuthInfoModel::blank(),
    {
        let r = AuthInfo {
            encryption_type: 0,
            encrypted_value: Vec::new(),
        };
        assert(r@ =~= AuthInfoModel::blank());
        r
    }
}

/// A user.
#[derive(Debug, PartialEq, Eq)]
pub struct UserInfo {
    pub id: u32,
    pub name: String,
    pub is_super: bool,
    pub can_create_db: bool,
    pub can_create_user: bool,
    pub can_login: bool,
    pub auth_info: Option<AuthInfo>,
    pub grant_privileges: Vec<GrantPrivilege>,
}

/// The mathematical model of [`UserInfo`].
#[verifier::ext_equal]
pub struct UserInfoModel {
    pub id: u32,
    pub name: Seq<char>,
    pub is_super: bool,
    pub can_create_db: bool,
    pub can_create_user: bool,
    pub can_login: bool,
    pub auth_info: Option<AuthInfoModel>,
    pub grant_privileges: Seq<GrantPrivilegeModel>,
}

impl View for UserInfo {
    type V = UserInfoModel;

    open spec fn view(&self) -> UserInfoModel {
        UserInfoModel {
            id: self.id,
            name: self.name@,
            is_super: self.is_super,
            can_create_db: self.can_create_db,
            can_create_user: self.can_create_user,
            can_login: self.can_login,
            auth_info: opt_view(self.auth_info),
            grant_privileges: views(self.grant_privileges@),
        }
    }
}

impl Entry for UserInfo {
    fn duplicate(&self) -> (r: Self) {
        UserInfo {
            id: self.id,
            name: self.name.clone(),
            is_super: self.is_super,
            can_create_db: self.can_create_db,
            can_create_user: self.can_create_user,
            can_login: self.can_login,
            auth_info: duplicate_opt(&self.auth_info),
            grant_privileges: duplicate_all(&self.grant_privileges),
        }
    }
}

impl UserInfoModel {
    /// All fields at their default.
    pub open spec fn blank() -> UserInfoModel {
        UserInfoModel {
            id: 0,
            name: Seq::empty(),
            is_super: false,
            can_create_db: false,
            can_create_user: false,
            can_login: false,
            auth_info: None,
            grant_privileges: Seq::empty(),
        }
    }
}

impl Default for UserInfo {
    fn default() -> (r: Self)
        ensures
            r@ == UserInfoModel::blank(),
    {
        let r = UserInfo {
            id: 0,
            name: String::new(),
            is_super: false,
            can_create_db: false,
            can_create_user: false,
            can_login: false,
            auth_info: None,
            grant_privileges: Vec::new(),
        };
        assert(r@ =~= UserInfoModel::blank());
        r
    }
}

/// The name of a relation and where it stands. No two relations of a schema share a name.
#[derive(Debug, PartialEq, Eq)]
pub struct RelationKey {
    pub database_id: u32,
    pub schema_id: u32,
    pub name: String,
}

/// The mathematical model of [`RelationKey`].
#[verifier::ext_equal]
pub struct RelationKeyModel {
    pub database_id: u32,
    pub schema_id: u32,
    pub name: Seq<char>,
}

impl View for RelationKey {
    type V = RelationKeyModel;

    open spec fn view(&self) -> RelationKeyModel {
        RelationKeyModel {
            database_id: self.database_id,
            schema_id: self.schema_id,
            name: self.name@,
        }
    }
}

impl Entry for RelationKey {
    fn duplicate(&self) -> (r: Self) {
        RelationKey {
            database_id: self.database_id,
            schema_id: self.schema_id,
            name: self.name.clone(),
        }
    }
}

impl RelationKeyModel {
    /// All fields at their default.
    pub open spec fn blank() -> RelationKeyModel {
        RelationKeyModel {
            database_id: 0,
            schema_id: 0,
            name: Seq::empty(),
        }
    }
}

impl Default for RelationKey {
    fn default() -> (r: Self)
        ensures
            r@ == RelationKeyModel::blank(),
    {
        let r = RelationKey {
            database_id: 0,
            schema_id: 0,
            name: String::new(),
        };
        assert(r@ =~= RelationKeyModel::blank());
        r
    }
}

/// A comment on a table, or on the column at `column_index`.
#[derive(Debug, PartialEq, Eq)]
pub struct Comment {
    pub database_id: u32,
    pub schema_id: u32,
    pub table_id: u32,
    pub column_index: Option<u32>,
    pub description: Option<String>,
}

/// The mathematical model of [`Comment`].
#[verifier::ext_equal]
pub struct CommentModel {
    pub database_id: u32,
    pub schema_id: u32,
    pub table_id: u32,
    pub column_index: Option<u32>,
    pub description: Option<Seq<char>>,
}

impl View for Comment {
    type V = CommentModel;

    open spec fn view(&self) -> CommentModel {
        CommentModel {
            database_id: self.database_id,
            schema_id: self.schema_id,
            table_id: self.table_id,
            column_index: self.column_index,
            description: opt_view(self.description),
        }
    }
}

impl Entry for Comment {
    fn duplicate(&self) -> (r: Self) {
        Comment {
            database_id: self.database_id,
            schema_id: self.schema_id,
            table_id: self.table_id,
            column_index: self.column_index,
            description: duplicate_opt(&self.description),
        }
    }
}

impl CommentModel {
    /// All fields at their default.
    pub open spec fn blank() -> CommentModel {
        CommentModel {
            database_id: 0,
            schema_id: 0,
            table_id: 0,
            column_index: None,
            description: None,
        }
    }
}

impl Default for Comment {
    fn default() -> (r: Self)
        ensures
            r@ == CommentModel::blank(),
    {
        let r = Comment {
            database_id: 0,
            schema_id: 0,
            table_id: 0,
            column_index: None,
            description: None,
        };
        assert(r@ =~= CommentModel::blank());
        r
    }
}

} // verus!
