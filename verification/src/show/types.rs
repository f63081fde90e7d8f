//! What the SHOW statements read.

use vstd::prelude::*;

use crate::show::column::{ColumnCatalog, ColumnCatalogModel};
use crate::util::id_map::{duplicate_all, duplicate_opt, opt_view, views, Entry, IdMap};
use crate::util::lists::List;

verus! {

/// What a table of the catalog is.
#[derive(Debug, Clone, Copy, PartialEq, Eq, Structural)]
pub enum TableKind {
    Table,
    MaterializedView,
    Index,
    Internal,
}

/// A table as the frontend knows it.
#[derive(Debug, PartialEq, Eq)]
pub struct TableCatalog {
    pub id: u32,
    pub name: String,
    pub kind: TableKind,
    pub created: bool,
    pub create_sql: String,
}

/// The mathematical model of [`TableCatalog`].
#[verifier::ext_equal]
pub struct TableCatalogModel {
    pub id: u32,
    pub name: Seq<char>,
    pub kind: TableKind,
    pub created: bool,
    pub create_sql: Seq<char>,
}

impl View for TableCatalog {
    type V = TableCatalogModel;

    open spec fn view(&self) -> TableCatalogModel {
        TableCatalogModel {
            id: self.id,
            name: self.name@,
            kind: self.kind,
            created: self.created,
            create_sql: self.create_sql@,
        }
    }
}

impl Entry for TableCatalog {
    fn duplicate(&self) -> (r: Self) {
        TableCatalog {
            id: self.id,
            name: self.name.clone(),
            kind: self.kind,
            created: self.created,
            create_sql: self.create_sql.clone(),
        }
    }
}

/// A source as the frontend knows it.
#[derive(Debug, PartialEq, Eq)]
pub struct SourceCatalog {
    pub id: u32,
    pub name: String,
    pub associated_table_id: Option<u32>,
    pub create_sql: String,
}

/// The mathematical model of [`SourceCatalog`].
#[verifier::ext_equal]
pub struct SourceCatalogModel {
    pub id: u32,
    pub name: Seq<char>,
    pub associated_table_id: Option<u32>,
    pub create_sql: Seq<char>,
}

impl View for SourceCatalog {
    type V = SourceCatalogModel;

    open spec fn view(&self) -> SourceCatalogModel {
        SourceCatalogModel {
            id: self.id,
            name: self.name@,
            associated_table_id: self.associated_table_id,
            create_sql: self.create_sql@,
        }
    }
}

impl Entry for SourceCatalog {
    fn duplicate(&self) -> (r: Self) {
        SourceCatalog {
            id: self.id,
            name: self.name.clone(),
            associated_table_id: self.associated_table_id,
            create_sql: self.create_sql.clone(),
        }
    }
}

/// A sink, a view or a subscription as the frontend knows it.
#[derive(Debug, PartialEq, Eq)]
pub struct NamedCatalog {
    pub id: u32,
    pub name: String,
    pub create_sql: String,
}

/// The mathematical model of [`NamedCatalog`].
#[verifier::ext_equal]
pub struct NamedCatalogModel {
    pub id: u32,
    pub name: Seq<char>,
    pub create_sql: Seq<char>,
}

impl View for NamedCatalog {
    type V = NamedCatalogModel;

    open spec fn view(&self) -> NamedCatalogModel {
        NamedCatalogModel {
            id: self.id,
            name: self.name@,
            create_sql: self.create_sql@,
        }
    }
}

impl Entry for NamedCatalog {
    fn duplicate(&self) -> (r: Self) {
        NamedCatalog {
            id: self.id,
            name: self.name.clone(),
            create_sql: self.create_sql.clone(),
        }
    }
}

/// A secret as the frontend knows it.
#[derive(Debug, PartialEq, Eq)]
pub struct SecretCatalog {
    pub id: u32,
    pub name: String,
}

/// The mathematical model of [`SecretCatalog`].
#[verifier::ext_equal]
pub struct SecretCatalogModel {
    pub id: u32,
    pub name: Seq<char>,
}

impl View for SecretCatalog {
    type V = SecretCatalogModel;

    open spec fn view(&self) -> SecretCatalogModel {
        SecretCatalogModel {
            id: self.id,
            name: self.name@,
        }
    }
}

impl Entry for SecretCatalog {
    fn duplicate(&self) -> (r: Self) {
        SecretCatalog {
            id: self.id,
            name: self.name.clone(),
        }
    }
}

/// A function as the frontend knows it, with its types in words.
#[derive(Debug, PartialEq, Eq)]
pub struct FunctionCatalog {
    pub name: String,
    pub arg_types: Vec<String>,
    pub return_type: String,
    pub language: String,
    pub link: Option<String>,
}

/// The mathematical model of [`FunctionCatalog`].
#[verifier::ext_equal]
pub struct FunctionCatalogModel {
    pub name: Seq<char>,
    pub arg_types: Seq<Seq<char>>,
    pub return_type: Seq<char>,
    pub language: Seq<char>,
    pub link: Option<Seq<char>>,
}

impl View for FunctionCatalog {
    type V = FunctionCatalogModel;

    open spec fn view(&self) -> FunctionCatalogModel {
        FunctionCatalogModel {
            name: self.name@,
            arg_types: views(self.arg_types@),
            return_type: self.return_type@,
            language: self.language@,
            link: opt_view(self.link),
        }
    }
}

impl Entry for FunctionCatalog {
    fn duplicate(&self) -> (r: Self) {
        FunctionCatalog {
            name: self.name.clone(),
            arg_types: duplicate_all(&self.arg_types),
            return_type: self.return_type.clone(),
            language: self.language.clone(),
            link: duplicate_opt(&self.link),
        }
    }
}

/// A private link.
#[derive(Debug, PartialEq, Eq)]
pub struct PrivateLinkService {
    pub provider: String,
    pub service_name: String,
    pub endpoint_id: String,
    pub dns_zones: Vec<String>,
}

/// The mathematical model of [`PrivateLinkService`].
#[verifier::ext_equal]
pub struct PrivateLinkServiceModel {
    pub provider: Seq<char>,
    pub service_name: Seq<char>,
    pub endpoint_id: Seq<char>,
    pub dns_zones: Seq<Seq<char>>,
}

impl View for PrivateLinkService {
    type V = PrivateLinkServiceModel;

    open spec fn view(&self) -> PrivateLinkServiceModel {
        PrivateLinkServiceModel {
            provider: self.provider@,
            service_name: self.service_name@,
            endpoint_id: self.endpoint_id@,
            dns_zones: views(self.dns_zones@),
        }
    }
}

impl Entry for PrivateLinkService {
    fn duplicate(&self) -> (r: Self) {
        PrivateLinkService {
            provider: self.provider.clone(),
            service_name: self.service_name.clone(),
            endpoint_id: self.endpoint_id.clone(),
            dns_zones: duplicate_all(&self.dns_zones),
        }
    }
}

/// A connection as the frontend knows it.
#[derive(Debug, PartialEq, Eq)]
pub struct ConnectionCatalog {
    pub id: u32,
    pub name: String,
    pub info: PrivateLinkService,
}

/// The mathematical model of [`ConnectionCatalog`].
#[verifier::ext_equal]
pub struct ConnectionCatalogModel {
    pub id: u32,
    pub name: Seq<char>,
    pub info: PrivateLinkServiceModel,
}

impl View for ConnectionCatalog {
    type V = ConnectionCatalogModel;

    open spec fn view(&self) -> ConnectionCatalogModel {
        ConnectionCatalogModel {
            id: self.id,
            name: self.name@,
            info: self.info@,
        }
    }
}

impl Entry for ConnectionCatalog {
    fn duplicate(&self) -> (r: Self) {
        ConnectionCatalog {
            id: self.id,
            name: self.name.clone(),
            info: self.info.duplicate(),
        }
    }
}

/// An index as the frontend shows it.
#[derive(Debug, PartialEq, Eq)]
pub struct IndexCatalog {
    pub name: String,
    pub primary_table: String,
    pub index_columns_with_ordering: Vec<String>,
    pub included_columns: Vec<String>,
    pub distributed_by_columns: Vec<String>,
}

/// The mathematical model of [`IndexCatalog`].
#[verifier::ext_equal]
pub struct IndexCatalogModel {
    pub name: Seq<char>,
    pub primary_table: Seq<char>,
    pub index_columns_with_ordering: Seq<Seq<char>>,
    pub included_columns: Seq<Seq<char>>,
    pub distributed_by_columns: Seq<Seq<char>>,
}

impl View for IndexCatalog {
    type V = IndexCatalogModel;

    open spec fn view(&self) -> IndexCatalogModel {
        IndexCatalogModel {
            name: self.name@,
            primary_table: self.primary_table@,
            index_columns_with_ordering: views(self.index_columns_with_ordering@),
            included_columns: views(self.included_columns@),
            distributed_by_columns: views(self.distributed_by_columns@),
        }
    }
}

impl Entry for IndexCatalog {
    fn duplicate(&self) -> (r: Self) {
        IndexCatalog {
            name: self.name.clone(),
            primary_table: self.primary_table.clone(),
            index_columns_with_ordering: duplicate_all(&self.index_columns_with_ordering),
            included_columns: duplicate_all(&self.included_columns),
            distributed_by_columns: duplicate_all(&self.distributed_by_columns),
        }
    }
}

/// A schema as the frontend knows it.
#[derive(Debug, PartialEq, Eq)]
pub struct SchemaCatalog {
    pub name: String,
    pub tables: IdMap<TableCatalog>,
    pub sources: IdMap<SourceCatalog>,
    pub sinks: IdMap<NamedCatalog>,
    pub views: IdMap<NamedCatalog>,
    pub subscriptions: IdMap<NamedCatalog>,
    pub secrets: IdMap<SecretCatalog>,
    pub functions: IdMap<FunctionCatalog>,
    pub connections: IdMap<ConnectionCatalog>,
    pub connection_sources: IdMap<List<u32>>,
    pub connection_sinks: IdMap<List<u32>>,
}

/// The mathematical model of [`SchemaCatalog`].
#[verifier::ext_equal]
pub struct SchemaCatalogModel {
    pub name: Seq<char>,
    pub tables: Map<u32, TableCatalogModel>,
    pub sources: Map<u32, SourceCatalogModel>,
    pub sinks: Map<u32, NamedCatalogModel>,
    pub views: Map<u32, NamedCatalogModel>,
    pub subscriptions: Map<u32, NamedCatalogModel>,
    pub secrets: Map<u32, SecretCatalogModel>,
    pub functions: Map<u32, FunctionCatalogModel>,
    pub connections: Map<u32, ConnectionCatalogModel>,
    pub connection_sources: Map<u32, Seq<u32>>,
    pub connection_sinks: Map<u32, Seq<u32>>,
}

impl View for SchemaCatalog {
    type V = SchemaCatalogModel;

    open spec fn view(&self) -> SchemaCatalogModel {
        SchemaCatalogModel {
            name: self.name@,
            tables: self.tables@,
            sources: self.sources@,
            sinks: self.sinks@,
            views: self.views@,
            subscriptions: self.subscriptions@,
            secrets: self.secrets@,
            functions: self.functions@,
            connections: self.connections@,
            connection_sources: self.connection_sources@,
            connection_sinks: self.connection_sinks@,
        }
    }
}

impl Entry for SchemaCatalog {
    fn duplicate(&self) -> (r: Self) {
        SchemaCatalog {
            name: self.name.clone(),
            tables: self.tables.duplicate(),
            sources: self.sources.duplicate(),
            sinks: self.sinks.duplicate(),
            views: self.views.duplicate(),
            subscriptions: self.subscriptions.duplicate(),
            secrets: self.secrets.duplicate(),
            functions: self.functions.duplicate(),
            connections: self.connections.duplicate(),
            connection_sources: self.connection_sources.duplicate(),
            connection_sinks: self.connection_sinks.duplicate(),
        }
    }
}

/// A database as the frontend knows it.
#[derive(Debug, PartialEq, Eq)]
pub struct DatabaseCatalog {
    pub name: String,
    pub schemas: IdMap<SchemaCatalog>,
}

/// The mathematical model of [`DatabaseCatalog`].
#[verifier::ext_equal]
pub struct DatabaseCatalogModel {
    pub name: Seq<char>,
    pub schemas: Map<u32, SchemaCatalogModel>,
}

impl View for DatabaseCatalog {
    type V = DatabaseCatalogModel;

    open spec fn view(&self) -> DatabaseCatalogModel {
        DatabaseCatalogModel {
            name: self.name@,
            schemas: self.schemas@,
        }
    }
}

impl Entry for DatabaseCatalog {
    fn duplicate(&self) -> (r: Self) {
        DatabaseCatalog {
            name: self.name.clone(),
            schemas: self.schemas.duplicate(),
        }
    }
}

/// The session that a statement runs in.
#[derive(Debug, PartialEq, Eq)]
pub struct ShowSession {
    pub database: String,
    pub user_name: String,
    pub search_path: Vec<String>,
    pub temporary_sources: Vec<String>,
}

/// The mathematical model of [`ShowSession`].
#[verifier::ext_equal]
pub struct ShowSessionModel {
    pub database: Seq<char>,
    pub user_name: Seq<char>,
    pub search_path: Seq<Seq<char>>,
    pub temporary_sources: Seq<Seq<char>>,
}

impl View for ShowSession {
    type V = ShowSessionModel;

    open spec fn view(&self) -> ShowSessionModel {
        ShowSessionModel {
            database: self.database@,
            user_name: self.user_name@,
            search_path: views(self.search_path@),
            temporary_sources: views(self.temporary_sources@),
        }
    }
}

impl Entry for ShowSession {
    fn duplicate(&self) -> (r: Self) {
        ShowSession {
            database: self.database.clone(),
            user_name: self.user_name.clone(),
            search_path: duplicate_all(&self.search_path),
            temporary_sources: duplicate_all(&self.temporary_sources),
        }
    }
}

/// What a name was found to stand for.
#[derive(Debug, PartialEq, Eq)]
pub enum Relation {
    Source(Vec<ColumnCatalog>),
    BaseTable(Vec<ColumnCatalog>, Vec<IndexCatalog>),
    SystemTable(Vec<ColumnCatalog>),
    Other,
}

/// The mathematical model of [`Relation`].
#[verifier::ext_equal]
pub enum RelationModel {
    Source(Seq<ColumnCatalogModel>),
    BaseTable(Seq<ColumnCatalogModel>, Seq<IndexCatalogModel>),
    SystemTable(Seq<ColumnCatalogModel>),
    Other,
}

impl View for Relation {
    type V = RelationModel;

    open spec fn view(&self) -> RelationModel {
        match *self {
            Relation::Source(x) => RelationModel::Source(views(x@)),
            Relation::BaseTable(x0, x1) => RelationModel::BaseTable(views(x0@), views(x1@)),
            Relation::SystemTable(x) => RelationModel::SystemTable(views(x@)),
            Relation::Other => RelationModel::Other,
        }
    }
}

impl Entry for Relation {
    fn duplicate(&self) -> (r: Self) {
        match self {
            Relation::Source(x) => Relation::Source(duplicate_all(x)),
            Relation::BaseTable(x0, x1) => Relation::BaseTable(duplicate_all(x0), duplicate_all(x1)),
            Relation::SystemTable(x) => Relation::SystemTable(duplicate_all(x)),
            Relation::Other => Relation::Other,
        }
    }
}

/// What a worker is used for.
#[derive(Debug, PartialEq, Eq)]
pub struct WorkerProperty {
    pub is_streaming: bool,
    pub is_serving: bool,
    pub is_unschedulable: bool,
}

/// The mathematical model of [`WorkerProperty`].
#[verifier::ext_equal]
pub struct WorkerPropertyModel {
    pub is_streaming: bool,
    pub is_serving: bool,
    pub is_unschedulable: bool,
}

impl View for WorkerProperty {
    type V = WorkerPropertyModel;

    open spec fn view(&self) -> WorkerPropertyModel {
        WorkerPropertyModel {
            is_streaming: self.is_streaming,
            is_serving: self.is_serving,
            is_unschedulable: self.is_unschedulable,
        }
    }
}

impl Entry for WorkerProperty {
    fn duplicate(&self) -> (r: Self) {
        WorkerProperty {
            is_streaming: self.is_streaming,
            is_serving: self.is_serving,
            is_unschedulable: self.is_unschedulable,
        }
    }
}

/// A node of the cluster, with its type and its state in words.
#[derive(Debug, PartialEq, Eq)]
pub struct WorkerNode {
    pub id: u32,
    pub host: String,
    pub port: u32,
    pub worker_type: String,
    pub state: String,
    pub parallelism: u32,
    pub property: Option<WorkerProperty>,
    pub started_at: Option<u64>,
}

/// The mathematical model of [`WorkerNode`].
#[verifier::ext_equal]
pub struct WorkerNodeModel {
    pub id: u32,
    pub host: Seq<char>,
    pub port: u32,
    pub worker_type: Seq<char>,
    pub state: Seq<char>,
    pub parallelism: u32,
    pub property: Option<WorkerPropertyModel>,
    pub started_at: Option<u64>,
}

impl View for WorkerNode {
    type V = WorkerNodeModel;

    open spec fn view(&self) -> WorkerNodeModel {
        WorkerNodeModel {
            id: self.id,
            host: self.host@,
            port: self.port,
            worker_type: self.worker_type@,
            state: self.state@,
            parallelism: self.parallelism,
            property: opt_view(self.property),
            started_at: self.started_at,
        }
    }
}

impl Entry for WorkerNode {
    fn duplicate(&self) -> (r: Self) {
        WorkerNode {
            id: self.id,
            host: self.host.clone(),
            port: self.port,
            worker_type: self.worker_type.clone(),
            state: self.state.clone(),
            parallelism: self.parallelism,
            property: duplicate_opt(&self.property),
            started_at: self.started_at,
        }
    }
}

/// How far a statement has come.
#[derive(Debug, PartialEq, Eq)]
pub struct DdlProgress {
    pub id: u64,
    pub statement: String,
    pub progress: String,
}

/// The mathematical model of [`DdlProgress`].
#[verifier::ext_equal]
pub struct DdlProgressModel {
    pub id: u64,
    pub statement: Seq<char>,
    pub progress: Seq<char>,
}

impl View for DdlProgress {
    type V = DdlProgressModel;

    open spec fn view(&self) -> DdlProgressModel {
        DdlProgressModel {
            id: self.id,
            statement: self.statement@,
            progress: self.progress@,
        }
    }
}

impl Entry for DdlProgress {
    fn duplicate(&self) -> (r: Self) {
        DdlProgress {
            id: self.id,
            statement: self.statement.clone(),
            progress: self.progress.clone(),
        }
    }
}

/// A session and the statement that it runs.
#[derive(Debug, PartialEq, Eq)]
pub struct SessionInfo {
    pub process_id: u32,
    pub user_name: String,
    pub peer_addr: String,
    pub database: String,
    pub elapsed_millis: Option<u64>,
    /// The statement as it is shown: a long one comes cut short.
    pub running_sql: Option<String>,
}

/// The mathematical model of [`SessionInfo`].
#[verifier::ext_equal]
pub struct SessionInfoModel {
    pub process_id: u32,
    pub user_name: Seq<char>,
    pub peer_addr: Seq<char>,
    pub database: Seq<char>,
    pub elapsed_millis: Option<u64>,
    pub running_sql: Option<Seq<char>>,
}

impl View for SessionInfo {
    type V = SessionInfoModel;

    open spec fn view(&self) -> SessionInfoModel {
        SessionInfoModel {
            process_id: self.process_id,
            user_name: self.user_name@,
            peer_addr: self.peer_addr@,
            database: self.database@,
            elapsed_millis: self.elapsed_millis,
            running_sql: opt_view(self.running_sql),
        }
    }
}

impl Entry for SessionInfo {
    fn duplicate(&self) -> (r: Self) {
        SessionInfo {
            process_id: self.process_id,
            user_name: self.user_name.clone(),
            peer_addr: self.peer_addr.clone(),
            database: self.database.clone(),
            elapsed_millis: self.elapsed_millis,
            running_sql: duplicate_opt(&self.running_sql),
        }
    }
}

/// A cursor as it is shown.
#[derive(Debug, PartialEq, Eq)]
pub struct CursorRow {
    pub cells: Vec<String>,
}

/// The mathematical model of [`CursorRow`].
#[verifier::ext_equal]
pub struct CursorRowModel {
    pub cells: Seq<Seq<char>>,
}

impl View for CursorRow {
    type V = CursorRowModel;

    open spec fn view(&self) -> CursorRowModel {
        CursorRowModel {
            cells: views(self.cells@),
        }
    }
}

impl Entry for CursorRow {
    fn duplicate(&self) -> (r: Self) {
        CursorRow {
            cells: duplicate_all(&self.cells),
        }
    }
}

/// Why a SHOW statement is refused.
#[derive(Debug, PartialEq, Eq)]
pub enum ShowError {
    NotFound(String, String),
    NotImplemented(String),
    Unbound(String),
}

/// The mathematical model of [`ShowError`].
#[verifier::ext_equal]
pub enum ShowErrorModel {
    NotFound(Seq<char>, Seq<char>),
    NotImplemented(Seq<char>),
    Unbound(Seq<char>),
}

impl View for ShowError {
    type V = ShowErrorModel;

    open spec fn view(&self) -> ShowErrorModel {
        match *self {
            ShowError::NotFound(x0, x1) => ShowErrorModel::NotFound(x0@, x1@),
            ShowError::NotImplemented(x) => ShowErrorModel::NotImplemented(x@),
            ShowError::Unbound(x) => ShowErrorModel::Unbound(x@),
        }
    }
}

impl Entry for ShowError {
    fn duplicate(&self) -> (r: Self) {
        match self {
            ShowError::NotFound(x0, x1) => ShowError::NotFound(x0.clone(), x1.clone()),
            ShowError::NotImplemented(x) => ShowError::NotImplemented(x.clone()),
            ShowError::Unbound(x) => ShowError::Unbound(x.clone()),
        }
    }
}

pub type ShowResult<T> = Result<T, ShowError>;

/// What is to be shown.
#[derive(Debug, PartialEq, Eq)]
pub enum ShowObject {
    Table(Option<String>),
    InternalTable(Option<String>),
    Database,
    Schema,
    View(Option<String>),
    MaterializedView(Option<String>),
    Source(Option<String>),
    Sink(Option<String>),
    Subscription(Option<String>),
    Secret(Option<String>),
    Columns(String),
    Indexes(String),
    Connection(Option<String>),
    Function(Option<String>),
    Cluster,
    Jobs,
    ProcessList,
    Cursor,
    SubscriptionCursor,
}

/// The mathematical model of [`ShowObject`].
#[verifier::ext_equal]
pub enum ShowObjectModel {
    Table(Option<Seq<char>>),
    InternalTable(Option<Seq<char>>),
    Database,
    Schema,
    View(Option<Seq<char>>),
    MaterializedView(Option<Seq<char>>),
    Source(Option<Seq<char>>),
    Sink(Option<Seq<char>>),
    Subscription(Option<Seq<char>>),
    Secret(Option<Seq<char>>),
    Columns(Seq<char>),
    Indexes(Seq<char>),
    Connection(Option<Seq<char>>),
    Function(Option<Seq<char>>),
    Cluster,
    Jobs,
    ProcessList,
    Cursor,
    SubscriptionCursor,
}

impl View for ShowObject {
    type V = ShowObjectModel;

    open spec fn view(&self) -> ShowObjectModel {
        match *self {
            ShowObject::Table(x) => ShowObjectModel::Table(opt_view(x)),
            ShowObject::InternalTable(x) => ShowObjectModel::InternalTable(opt_view(x)),
            ShowObject::Database => ShowObjectModel::Database,
            ShowObject::Schema => ShowObjectModel::Schema,
            ShowObject::View(x) => ShowObjectModel::View(opt_view(x)),
            ShowObject::MaterializedView(x) => ShowObjectModel::MaterializedView(opt_view(x)),
            ShowObject::Source(x) => ShowObjectModel::Source(opt_view(x)),
            ShowObject::Sink(x) => ShowObjectModel::Sink(opt_view(x)),
            ShowObject::Subscription(x) => ShowObjectModel::Subscription(opt_view(x)),
            ShowObject::Secret(x) => ShowObjectModel::Secret(opt_view(x)),
            ShowObject::Columns(x) => ShowObjectModel::Columns(x@),
            ShowObject::Indexes(x) => ShowObjectModel::Indexes(x@),
            ShowObject::Connection(x) => ShowObjectModel::Connection(opt_view(x)),
            ShowObject::Function(x) => ShowObjectModel::Function(opt_view(x)),
            ShowObject::Cluster => ShowObjectModel::Cluster,
            ShowObject::Jobs => ShowObjectModel::Jobs,
            ShowObject::ProcessList => ShowObjectModel::ProcessList,
            ShowObject::Cursor => ShowObjectModel::Cursor,
            ShowObject::SubscriptionCursor => ShowObjectModel::SubscriptionCursor,
        }
    }
}

impl Entry for ShowObject {
    fn duplicate(&self) -> (r: Self) {
        match self {
            ShowObject::Table(x) => ShowObject::Table(duplicate_opt(x)),
            ShowObject::InternalTable(x) => ShowObject::InternalTable(duplicate_opt(x)),
            ShowObject::Database => ShowObject::Database,
            ShowObject::Schema => ShowObject::Schema,
            ShowObject::View(x) => ShowObject::View(duplicate_opt(x)),
            ShowObject::MaterializedView(x) => ShowObject::MaterializedView(duplicate_opt(x)),
            ShowObject::Source(x) => ShowObject::Source(duplicate_opt(x)),
            ShowObject::Sink(x) => ShowObject::Sink(duplicate_opt(x)),
            ShowObject::Subscription(x) => ShowObject::Subscription(duplicate_opt(x)),
            ShowObject::Secret(x) => ShowObject::Secret(duplicate_opt(x)),
            ShowObject::Columns(x) => ShowObject::Columns(x.clone()),
            ShowObject::Indexes(x) => ShowObject::Indexes(x.clone()),
            ShowObject::Connection(x) => ShowObject::Connection(duplicate_opt(x)),
            ShowObject::Function(x) => ShowObject::Function(duplicate_opt(x)),
            ShowObject::Cluster => ShowObject::Cluster,
            ShowObject::Jobs => ShowObject::Jobs,
            ShowObject::ProcessList => ShowObject::ProcessList,
            ShowObject::Cursor => ShowObject::Cursor,
            ShowObject::SubscriptionCursor => ShowObject::SubscriptionCursor,
        }
    }
}

/// Which of the names are to be shown.
#[derive(Debug, PartialEq, Eq)]
pub enum ShowStatementFilter {
    Like(String),
    ILike(String),
    Where,
}

/// The mathematical model of [`ShowStatementFilter`].
#[verifier::ext_equal]
pub enum ShowStatementFilterModel {
    Like(Seq<char>),
    ILike(Seq<char>),
    Where,
}

impl View for ShowStatementFilter {
    type V = ShowStatementFilterModel;

    open spec fn view(&self) -> ShowStatementFilterModel {
        match *self {
            ShowStatementFilter::Like(x) => ShowStatementFilterModel::Like(x@),
            ShowStatementFilter::ILike(x) => ShowStatementFilterModel::ILike(x@),
            ShowStatementFilter::Where => ShowStatementFilterModel::Where,
        }
    }
}

impl Entry for ShowStatementFilter {
    fn duplicate(&self) -> (r: Self) {
        match self {
            ShowStatementFilter::Like(x) => ShowStatementFilter::Like(x.clone()),
            ShowStatementFilter::ILike(x) => ShowStatementFilter::ILike(x.clone()),
            ShowStatementFilter::Where => ShowStatementFilter::Where,
        }
    }
}

/// What kind of object a statement is to be shown for.
#[derive(Debug, Clone, Copy, PartialEq, Eq, Structural)]
pub enum ShowCreateType {
    MaterializedView,
    View,
    Table,
    Sink,
    Source,
    Index,
    Function,
    Subscription,
}

} // verus!
