//! Why a request on the catalog is refused.

use vstd::prelude::*;
use vstd::string::*;

use crate::util::id_map::Entry;
use crate::util::text::{append_decimal, decimal};

verus! {

/// What kind of object a message is about.
#[derive(Debug, Clone, Copy, PartialEq, Eq, Structural)]
pub enum CatalogKind {
    Database,
    Schema,
    Table,
    Source,
    Sink,
    Subscription,
    Index,
    View,
    Function,
    Connection,
    Secret,
    User,
    Column,
    Relation,
    IndexTable,
    MaterializedView,
    ActorId,
}

/// The class of an error.
#[derive(Debug, Clone, Copy, PartialEq, Eq, Structural)]
pub enum MetaErrorKind {
    CatalogIdNotFound,
    Duplicated,
    PermissionDenied,
    InvalidParameter,
    Cancelled,
    FragmentNotFound,
    Unspecified,
}

/// An error of the catalog.
#[derive(Debug, PartialEq, Eq)]
pub enum MetaError {
    CatalogIdNotFound(CatalogKind, u32),
    JobGone(CatalogKind, String),
    CatalogDuplicated(CatalogKind, String),
    RelationCreating(u32),
    DatabaseBusy,
    SchemaBusy,
    SchemaNotEmpty,
    ObjectReferenced(CatalogKind, String, usize),
    RelationReferenced(CatalogKind, String, usize),
    SecretNotFound,
    RelationMissing(CatalogKind),
    TableSinksInDependency(usize),
    FragmentNotFound(u32),
    TableBeingCreated,
    CreatingProcedure(CatalogKind),
    AlreadyCreating(CatalogKind),
    TableOrSourceCreating,
    AlteringProcedure(CatalogKind),
    DependentRelationsNotEmpty,
    ConnectionMissing(u32),
    RecoveryDroppedTable,
    NotCreating(u32),
    JobCancelled(u32),
    SourceVersionStale,
    TableVersionStale,
    TableToAlterMissing,
    TableVersionMissing,
    ColumnDescMissing(u32, u32),
    UserExists(String),
    UserMissing(u32),
    DropDefaultUser(u32),
    UserHasObjects(String),
    UserHasGrants(u32),
    GrantToSuperUser(u32),
    GrantWithoutOption(u32),
    GrantorLacksPrivilege(u32),
    RevokeWithoutPermission(String),
    RevokerLacksPrivilege(String),
    RevokeFromSuperUser(u32),
    RevokeRestricted(String),
    SourceMissing(u32),
    NodesEmpty,
    ActorStatusMissing(u32, u32),
    FragmentMismatch(u32, u32, u32),
    JobMissing(u32),
    MviewFragmentMissing(u32),
    FragmentMissing(u32),
    BackfillUpstreams(usize, u32),
}

/// The mathematical model of [`MetaError`].
#[verifier::ext_equal]
pub enum MetaErrorModel {
    CatalogIdNotFound(CatalogKind, u32),
    JobGone(CatalogKind, Seq<char>),
    CatalogDuplicated(CatalogKind, Seq<char>),
    RelationCreating(u32),
    DatabaseBusy,
    SchemaBusy,
    SchemaNotEmpty,
    ObjectReferenced(CatalogKind, Seq<char>, usize),
    RelationReferenced(CatalogKind, Seq<char>, usize),
    SecretNotFound,
    RelationMissing(CatalogKind),
    TableSinksInDependency(usize),
    FragmentNotFound(u32),
    TableBeingCreated,
    CreatingProcedure(CatalogKind),
    AlreadyCreating(CatalogKind),
    TableOrSourceCreating,
    AlteringProcedure(CatalogKind),
    DependentRelationsNotEmpty,
    ConnectionMissing(u32),
    RecoveryDroppedTable,
    NotCreating(u32),
    JobCancelled(u32),
    SourceVersionStale,
    TableVersionStale,
    TableToAlterMissing,
    TableVersionMissing,
    ColumnDescMissing(u32, u32),
    UserExists(Seq<char>),
    UserMissing(u32),
    DropDefaultUser(u32),
    UserHasObjects(Seq<char>),
    UserHasGrants(u32),
    GrantToSuperUser(u32),
    GrantWithoutOption(u32),
    GrantorLacksPrivilege(u32),
    RevokeWithoutPermission(Seq<char>),
    RevokerLacksPrivilege(Seq<char>),
    RevokeFromSuperUser(u32),
    RevokeRestricted(Seq<char>),
    SourceMissing(u32),
    NodesEmpty,
    ActorStatusMissing(u32, u32),
    FragmentMismatch(u32, u32, u32),
    JobMissing(u32),
    MviewFragmentMissing(u32),
    FragmentMissing(u32),
    BackfillUpstreams(usize, u32),
}

impl View for MetaError {
    type V = MetaErrorModel;

    open spec fn view(&self) -> MetaErrorModel {
        match *self {
            MetaError::CatalogIdNotFound(x0, x1) => MetaErrorModel::CatalogIdNotFound(x0, x1),
            MetaError::JobGone(x0, x1) => MetaErrorModel::JobGone(x0, x1@),
            MetaError::CatalogDuplicated(x0, x1) => MetaErrorModel::CatalogDuplicated(x0, x1@),
            MetaError::RelationCreating(x) => MetaErrorModel::RelationCreating(x),
            MetaError::DatabaseBusy => MetaErrorModel::DatabaseBusy,
            MetaError::SchemaBusy => MetaErrorModel::SchemaBusy,
            MetaError::SchemaNotEmpty => MetaErrorModel::SchemaNotEmpty,
            MetaError::ObjectReferenced(x0, x1, x2) => MetaErrorModel::ObjectReferenced(x0, x1@, x2),
            MetaError::RelationReferenced(x0, x1, x2) => MetaErrorModel::RelationReferenced(x0, x1@, x2),
            MetaError::SecretNotFound => MetaErrorModel::SecretNotFound,
            MetaError::RelationMissing(x) => MetaErrorModel::RelationMissing(x),
            MetaError::TableSinksInDependency(x) => MetaErrorModel::TableSinksInDependency(x),
            MetaError::FragmentNotFound(x) => MetaErrorModel::FragmentNotFound(x),
            MetaError::TableBeingCreated => MetaErrorModel::TableBeingCreated,
            MetaError::CreatingProcedure(x) => MetaErrorModel::CreatingProcedure(x),
            MetaError::AlreadyCreating(x) => MetaErrorModel::AlreadyCreating(x),
            MetaError::TableOrSourceCreating => MetaErrorModel::TableOrSourceCreating,
            MetaError::AlteringProcedure(x) => MetaErrorModel::AlteringProcedure(x),
            MetaError::DependentRelationsNotEmpty => MetaErrorModel::DependentRelationsNotEmpty,
            MetaError::ConnectionMissing(x) => MetaErrorModel::ConnectionMissing(x),
            MetaError::RecoveryDroppedTable => MetaErrorModel::RecoveryDroppedTable,
            MetaError::NotCreating(x) => MetaErrorModel::NotCreating(x),
            MetaError::JobCancelled(x) => MetaErrorModel::JobCancelled(x),
            MetaError::SourceVersionStale => MetaErrorModel::SourceVersionStale,
            MetaError::TableVersionStale => MetaErrorModel::TableVersionStale,
            MetaError::TableToAlterMissing => MetaErrorModel::TableToAlterMissing,
            MetaError::TableVersionMissing => MetaErrorModel::TableVersionMissing,
            MetaError::ColumnDescMissing(x0, x1) => MetaErrorModel::ColumnDescMissing(x0, x1),
            MetaError::UserExists(x) => MetaErrorModel::UserExists(x@),
            MetaError::UserMissing(x) => MetaErrorModel::UserMissing(x),
            MetaError::DropDefaultUser(x) => MetaErrorModel::DropDefaultUser(x),
            MetaError::UserHasObjects(x) => MetaErrorModel::UserHasObjects(x@),
            MetaError::UserHasGrants(x) => MetaErrorModel::UserHasGrants(x),
            MetaError::GrantToSuperUser(x) => MetaErrorModel::GrantToSuperUser(x),
            MetaError::GrantWithoutOption(x) => MetaErrorModel::GrantWithoutOption(x),
            MetaError::GrantorLacksPrivilege(x) => MetaErrorModel::GrantorLacksPrivilege(x),
            MetaError::RevokeWithoutPermission(x) => MetaErrorModel::RevokeWithoutPermission(x@),
            MetaError::RevokerLacksPrivilege(x) => MetaErrorModel::RevokerLacksPrivilege(x@),
            MetaError::RevokeFromSuperUser(x) => MetaErrorModel::RevokeFromSuperUser(x),
            MetaError::RevokeRestricted(x) => MetaErrorModel::RevokeRestricted(x@),
            MetaError::SourceMissing(x) => MetaErrorModel::SourceMissing(x),
            MetaError::NodesEmpty => MetaErrorModel::NodesEmpty,
            MetaError::ActorStatusMissing(x0, x1) => MetaErrorModel::ActorStatusMissing(x0, x1),
            MetaError::FragmentMismatch(x0, x1, x2) => MetaErrorModel::FragmentMismatch(x0, x1, x2),
            MetaError::JobMissing(x) => MetaErrorModel::JobMissing(x),
            MetaError::MviewFragmentMissing(x) => MetaErrorModel::MviewFragmentMissing(x),
            MetaError::FragmentMissing(x) => MetaErrorModel::FragmentMissing(x),
            MetaError::BackfillUpstreams(x0, x1) => MetaErrorModel::BackfillUpstreams(x0, x1),
        }
    }
}

impl Entry for MetaError {
    fn duplicate(&self) -> (r: Self) {
        match self {
            MetaError::CatalogIdNotFound(x0, x1) => MetaError::CatalogIdNotFound(*x0, *x1),
            MetaError::JobGone(x0, x1) => MetaError::JobGone(*x0, x1.clone()),
            MetaError::CatalogDuplicated(x0, x1) => MetaError::CatalogDuplicated(*x0, x1.clone()),
            MetaError::RelationCreating(x) => MetaError::RelationCreating(*x),
            MetaError::DatabaseBusy => MetaError::DatabaseBusy,
            MetaError::SchemaBusy => MetaError::SchemaBusy,
            MetaError::SchemaNotEmpty => MetaError::SchemaNotEmpty,
            MetaError::ObjectReferenced(x0, x1, x2) => MetaError::ObjectReferenced(*x0, x1.clone(), *x2),
            MetaError::RelationReferenced(x0, x1, x2) => MetaError::RelationReferenced(*x0, x1.clone(), *x2),
            MetaError::SecretNotFound => MetaError::SecretNotFound,
            MetaError::RelationMissing(x) => MetaError::RelationMissing(*x),
            MetaError::TableSinksInDependency(x) => MetaError::TableSinksInDependency(*x),
            MetaError::FragmentNotFound(x) => MetaError::FragmentNotFound(*x),
            MetaError::TableBeingCreated => MetaError::TableBeingCreated,
            MetaError::CreatingProcedure(x) => MetaError::CreatingProcedure(*x),
            MetaError::AlreadyCreating(x) => MetaError::AlreadyCreating(*x),
            MetaError::TableOrSourceCreating => MetaError::TableOrSourceCreating,
            MetaError::AlteringProcedure(x) => MetaError::AlteringProcedure(*x),
            MetaError::DependentRelationsNotEmpty => MetaError::DependentRelationsNotEmpty,
            MetaError::ConnectionMissing(x) => MetaError::ConnectionMissing(*x),
            MetaError::RecoveryDroppedTable => MetaError::RecoveryDroppedTable,
            MetaError::NotCreating(x) => MetaError::NotCreating(*x),
            MetaError::JobCancelled(x) => MetaError::JobCancelled(*x),
            MetaError::SourceVersionStale => MetaError::SourceVersionStale,
            MetaError::TableVersionStale => MetaError::TableVersionStale,
            MetaError::TableToAlterMissing => MetaError::TableToAlterMissing,
            MetaError::TableVersionMissing => MetaError::TableVersionMissing,
            MetaError::ColumnDescMissing(x0, x1) => MetaError::ColumnDescMissing(*x0, *x1),
            MetaError::UserExists(x) => MetaError::UserExists(x.clone()),
            MetaError::UserMissing(x) => MetaError::UserMissing(*x),
            MetaError::DropDefaultUser(x) => MetaError::DropDefaultUser(*x),
            MetaError::UserHasObjects(x) => MetaError::UserHasObjects(x.clone()),
            MetaError::UserHasGrants(x) => MetaError::UserHasGrants(*x),
            MetaError::GrantToSuperUser(x) => MetaError::GrantToSuperUser(*x),
            MetaError::GrantWithoutOption(x) => MetaError::GrantWithoutOption(*x),
            MetaError::GrantorLacksPrivilege(x) => MetaError::GrantorLacksPrivilege(*x),
            MetaError::RevokeWithoutPermission(x) => MetaError::RevokeWithoutPermission(x.clone()),
            MetaError::RevokerLacksPrivilege(x) => MetaError::RevokerLacksPrivilege(x.clone()),
            MetaError::RevokeFromSuperUser(x) => MetaError::RevokeFromSuperUser(*x),
            MetaError::RevokeRestricted(x) => MetaError::RevokeRestricted(x.clone()),
            MetaError::SourceMissing(x) => MetaError::SourceMissing(*x),
            MetaError::NodesEmpty => MetaError::NodesEmpty,
            MetaError::ActorStatusMissing(x0, x1) => MetaError::ActorStatusMissing(*x0, *x1),
            MetaError::FragmentMismatch(x0, x1, x2) => MetaError::FragmentMismatch(*x0, *x1, *x2),
            MetaError::JobMissing(x) => MetaError::JobMissing(*x),
            MetaError::MviewFragmentMissing(x) => MetaError::MviewFragmentMissing(*x),
            MetaError::FragmentMissing(x) => MetaError::FragmentMissing(*x),
            MetaError::BackfillUpstreams(x0, x1) => MetaError::BackfillUpstreams(*x0, *x1),
        }
    }
}

pub type MetaResult<T> = Result<T, MetaError>;

impl CatalogKind {
    /// The word for this kind.
    pub open spec fn word(self) -> Seq<char> {
        match self {
            CatalogKind::Database => "database"@,
            CatalogKind::Schema => "schema"@,
            CatalogKind::Table => "table"@,
            CatalogKind::Source => "source"@,
            CatalogKind::Sink => "sink"@,
            CatalogKind::Subscription => "subscription"@,
            CatalogKind::Index => "index"@,
            CatalogKind::View => "view"@,
            CatalogKind::Function => "function"@,
            CatalogKind::Connection => "connection"@,
            CatalogKind::Secret => "secret"@,
            CatalogKind::User => "user"@,
            CatalogKind::Column => "column"@,
            CatalogKind::Relation => "table, view or source"@,
            CatalogKind::IndexTable => "index table"@,
            CatalogKind::MaterializedView => "materialized view"@,
            CatalogKind::ActorId => "actor_id"@,
        }
    }

    pub fn text(self) -> (r: &'static str)
        ensures
            r@ == self.word(),
    {
        match self {
            CatalogKind::Database => "database",
            CatalogKind::Schema => "schema",
            CatalogKind::Table => "table",
            CatalogKind::Source => "source",
            CatalogKind::Sink => "sink",
            CatalogKind::Subscription => "subscription",
            CatalogKind::Index => "index",
            CatalogKind::View => "view",
            CatalogKind::Function => "function",
            CatalogKind::Connection => "connection",
            CatalogKind::Secret => "secret",
            CatalogKind::User => "user",
            CatalogKind::Column => "column",
            CatalogKind::Relation => "table, view or source",
            CatalogKind::IndexTable => "index table",
            CatalogKind::MaterializedView => "materialized view",
            CatalogKind::ActorId => "actor_id",
        }
    }
}

impl MetaErrorModel {
    /// The class of the error.
    pub open spec fn kind(self) -> MetaErrorKind {
        match self {
            MetaErrorModel::CatalogIdNotFound(..) => MetaErrorKind::CatalogIdNotFound,
            MetaErrorModel::JobGone(..) => MetaErrorKind::CatalogIdNotFound,
            MetaErrorModel::CatalogDuplicated(..) => MetaErrorKind::Duplicated,
            MetaErrorModel::RelationCreating(..) => MetaErrorKind::Unspecified,
            MetaErrorModel::DatabaseBusy => MetaErrorKind::PermissionDenied,
            MetaErrorModel::SchemaBusy => MetaErrorKind::PermissionDenied,
            MetaErrorModel::SchemaNotEmpty => MetaErrorKind::PermissionDenied,
            MetaErrorModel::ObjectReferenced(..) => MetaErrorKind::PermissionDenied,
            MetaErrorModel::RelationReferenced(..) => MetaErrorKind::PermissionDenied,
            MetaErrorModel::SecretNotFound => MetaErrorKind::Unspecified,
            MetaErrorModel::RelationMissing(..) => MetaErrorKind::Unspecified,
            MetaErrorModel::TableSinksInDependency(..) => MetaErrorKind::Unspecified,
            MetaErrorModel::FragmentNotFound(..) => MetaErrorKind::FragmentNotFound,
            MetaErrorModel::TableBeingCreated => MetaErrorKind::Unspecified,
            MetaErrorModel::CreatingProcedure(..) => MetaErrorKind::Unspecified,
            MetaErrorModel::AlreadyCreating(..) => MetaErrorKind::Unspecified,
            MetaErrorModel::TableOrSourceCreating => MetaErrorKind::Unspecified,
            MetaErrorModel::AlteringProcedure(..) => MetaErrorKind::Unspecified,
            MetaErrorModel::DependentRelationsNotEmpty => MetaErrorKind::Unspecified,
            MetaErrorModel::ConnectionMissing(..) => MetaErrorKind::Unspecified,
            MetaErrorModel::RecoveryDroppedTable => MetaErrorKind::Unspecified,
            MetaErrorModel::NotCreating(..) => MetaErrorKind::InvalidParameter,
            MetaErrorModel::JobCancelled(..) => MetaErrorKind::Cancelled,
            MetaErrorModel::SourceVersionStale => MetaErrorKind::Unspecified,
            MetaErrorModel::TableVersionStale => MetaErrorKind::Unspecified,
            MetaErrorModel::TableToAlterMissing => MetaErrorKind::Unspecified,
            MetaErrorModel::TableVersionMissing => MetaErrorKind::Unspecified,
            MetaErrorModel::ColumnDescMissing(..) => MetaErrorKind::Unspecified,
            MetaErrorModel::UserExists(..) => MetaErrorKind::PermissionDenied,
            MetaErrorModel::UserMissing(..) => MetaErrorKind::Unspecified,
            MetaErrorModel::DropDefaultUser(..) => MetaErrorKind::PermissionDenied,
            MetaErrorModel::UserHasObjects(..) => MetaErrorKind::PermissionDenied,
            MetaErrorModel::UserHasGrants(..) => MetaErrorKind::PermissionDenied,
            MetaErrorModel::GrantToSuperUser(..) => MetaErrorKind::PermissionDenied,
            MetaErrorModel::GrantWithoutOption(..) => MetaErrorKind::PermissionDenied,
            MetaErrorModel::GrantorLacksPrivilege(..) => MetaErrorKind::PermissionDenied,
            MetaErrorModel::RevokeWithoutPermission(..) => MetaErrorKind::PermissionDenied,
            MetaErrorModel::RevokerLacksPrivilege(..) => MetaErrorKind::PermissionDenied,
            MetaErrorModel::RevokeFromSuperUser(..) => MetaErrorKind::PermissionDenied,
            MetaErrorModel::RevokeRestricted(..) => MetaErrorKind::PermissionDenied,
            MetaErrorModel::SourceMissing(..) => MetaErrorKind::Unspecified,
            MetaErrorModel::NodesEmpty => MetaErrorKind::Unspecified,
            MetaErrorModel::ActorStatusMissing(..) => MetaErrorKind::Unspecified,
            MetaErrorModel::FragmentMismatch(..) => MetaErrorKind::Unspecified,
            MetaErrorModel::JobMissing(..) => MetaErrorKind::Unspecified,
            MetaErrorModel::MviewFragmentMissing(..) => MetaErrorKind::Unspecified,
            MetaErrorModel::FragmentMissing(..) => MetaErrorKind::Unspecified,
            MetaErrorModel::BackfillUpstreams(..) => MetaErrorKind::Unspecified,
        }
    }

    /// The words of the error.
    pub open spec fn message(self) -> Seq<char> {
        match self {
            MetaErrorModel::CatalogIdNotFound(x0, x1) => x0.word() + " id not found: "@ + decimal(x1 as nat),
            MetaErrorModel::JobGone(x0, x1) => x0.word() + " id not found: "@ + x1 + " may have been dropped/cancelled"@,
            MetaErrorModel::CatalogDuplicated(x0, x1) => x0.word() + " with name "@ + x1 + " exists"@,
            MetaErrorModel::RelationCreating(x0) => "table is in creating procedure, table id: "@ + decimal(x0 as nat),
            MetaErrorModel::DatabaseBusy => "Some relations are creating in the target database, try again later"@,
            MetaErrorModel::SchemaBusy => "Some relations are creating in the target schema, try again later"@,
            MetaErrorModel::SchemaNotEmpty => "The schema is not empty, try dropping them first"@,
            MetaErrorModel::ObjectReferenced(x0, x1, x2) => "Fail to delete "@ + x0.word() + " "@ + x1 + " because "@ + decimal(x2 as nat) + " other relation(s) depend on it"@,
            MetaErrorModel::RelationReferenced(x0, x1, x2) => "Fail to delete "@ + x0.word() + " `"@ + x1 + "` because "@ + decimal(x2 as nat) + " other relation(s) depend on it"@,
            MetaErrorModel::SecretNotFound => "secret not found"@,
            MetaErrorModel::RelationMissing(x0) => x0.word() + " doesn't exist"@,
            MetaErrorModel::TableSinksInDependency(x0) => "Found "@ + decimal(x0 as nat) + " sink(s) into table in dependency, please drop them manually"@,
            MetaErrorModel::FragmentNotFound(x0) => "Fragment id not found: "@ + decimal(x0 as nat),
            MetaErrorModel::TableBeingCreated => "The table is being created"@,
            MetaErrorModel::CreatingProcedure(x0) => x0.word() + " is in creating procedure"@,
            MetaErrorModel::AlreadyCreating(x0) => x0.word() + " already in creating procedure"@,
            MetaErrorModel::TableOrSourceCreating => "table or source is in creating procedure"@,
            MetaErrorModel::AlteringProcedure(x0) => x0.word() + " is in altering procedure"@,
            MetaErrorModel::DependentRelationsNotEmpty => "ensure failed: table.dependent_relations.is_empty()"@,
            MetaErrorModel::ConnectionMissing(x0) => "connection "@ + decimal(x0 as nat) + " not found."@,
            MetaErrorModel::RecoveryDroppedTable => "failed to create table during recovery"@,
            MetaErrorModel::NotCreating(x0) => "table is not in creating state id="@ + decimal(x0 as nat),
            MetaErrorModel::JobCancelled(x0) => "materialized view "@ + decimal(x0 as nat) + " has been cancelled"@,
            MetaErrorModel::SourceVersionStale => "source version is stale"@,
            MetaErrorModel::TableVersionStale => "table version is stale"@,
            MetaErrorModel::TableToAlterMissing => "table to alter must exist"@,
            MetaErrorModel::TableVersionMissing => "table version not found"@,
            MetaErrorModel::ColumnDescMissing(x0, x1) => "column desc at index "@ + decimal(x0 as nat) + " for table id "@ + decimal(x1 as nat) + " not found"@,
            MetaErrorModel::UserExists(x0) => "User "@ + x0 + " already exists"@,
            MetaErrorModel::UserMissing(x0) => "User "@ + decimal(x0 as nat) + " not found"@,
            MetaErrorModel::DropDefaultUser(x0) => "Cannot drop default super user "@ + decimal(x0 as nat),
            MetaErrorModel::UserHasObjects(x0) => "User "@ + x0 + " cannot be dropped because some objects depend on it"@,
            MetaErrorModel::UserHasGrants(x0) => "Cannot drop user "@ + decimal(x0 as nat) + " with privileges granted to others"@,
            MetaErrorModel::GrantToSuperUser(x0) => "Cannot grant privilege to super user "@ + decimal(x0 as nat),
            MetaErrorModel::GrantWithoutOption(x0) => "Cannot grant privilege without grant permission for user "@ + decimal(x0 as nat),
            MetaErrorModel::GrantorLacksPrivilege(x0) => "Grantor "@ + decimal(x0 as nat) + " does not have one of the privileges"@,
            MetaErrorModel::RevokeWithoutPermission(x0) => "Cannot revoke privilege without permission for user "@ + x0,
            MetaErrorModel::RevokerLacksPrivilege(x0) => "User "@ + x0 + " does not have one of the privileges"@,
            MetaErrorModel::RevokeFromSuperUser(x0) => "Cannot revoke privilege from supper user "@ + decimal(x0 as nat),
            MetaErrorModel::RevokeRestricted(x0) => "Cannot revoke privilege from user "@ + x0 + " for restrict"@,
            MetaErrorModel::SourceMissing(x0) => "source "@ + decimal(x0 as nat) + " not found"@,
            MetaErrorModel::NodesEmpty => "nodes is empty"@,
            MetaErrorModel::ActorStatusMissing(x0, x1) => "actor "@ + decimal(x0 as nat) + " in fragment "@ + decimal(x1 as nat) + " has no actor_status"@,
            MetaErrorModel::FragmentMismatch(x0, x1, x2) => "fragment id "@ + decimal(x0 as nat) + " from actor "@ + decimal(x1 as nat) + " is different from fragment "@ + decimal(x2 as nat),
            MetaErrorModel::JobMissing(x0) => "job "@ + decimal(x0 as nat) + " not found in database"@,
            MetaErrorModel::MviewFragmentMissing(x0) => "No mview fragment found for job "@ + decimal(x0 as nat),
            MetaErrorModel::FragmentMissing(x0) => "No fragment found for fragment id "@ + decimal(x0 as nat),
            MetaErrorModel::BackfillUpstreams(x0, x1) => "SourceBackfill should have only one upstream fragment, found "@ + decimal(x0 as nat) + " for fragment "@ + decimal(x1 as nat),
        }
    }
}

impl MetaError {
    /// The class of the error.
    pub fn kind(&self) -> (r: MetaErrorKind)
        ensures
            r == self@.kind(),
    {
        match self {
            MetaError::CatalogIdNotFound(..) => MetaErrorKind::CatalogIdNotFound,
            MetaError::JobGone(..) => MetaErrorKind::CatalogIdNotFound,
            MetaError::CatalogDuplicated(..) => MetaErrorKind::Duplicated,
            MetaError::RelationCreating(..) => MetaErrorKind::Unspecified,
            MetaError::DatabaseBusy => MetaErrorKind::PermissionDenied,
            MetaError::SchemaBusy => MetaErrorKind::PermissionDenied,
            MetaError::SchemaNotEmpty => MetaErrorKind::PermissionDenied,
            MetaError::ObjectReferenced(..) => MetaErrorKind::PermissionDenied,
            MetaError::RelationReferenced(..) => MetaErrorKind::PermissionDenied,
            MetaError::SecretNotFound => MetaErrorKind::Unspecified,
            MetaError::RelationMissing(..) => MetaErrorKind::Unspecified,
            MetaError::TableSinksInDependency(..) => MetaErrorKind::Unspecified,
            MetaError::FragmentNotFound(..) => MetaErrorKind::FragmentNotFound,
            MetaError::TableBeingCreated => MetaErrorKind::Unspecified,
            MetaError::CreatingProcedure(..) => MetaErrorKind::Unspecified,
            MetaError::AlreadyCreating(..) => MetaErrorKind::Unspecified,
            MetaError::TableOrSourceCreating => MetaErrorKind::Unspecified,
            MetaError::AlteringProcedure(..) => MetaErrorKind::Unspecified,
            MetaError::DependentRelationsNotEmpty => MetaErrorKind::Unspecified,
            MetaError::ConnectionMissing(..) => MetaErrorKind::Unspecified,
            MetaError::RecoveryDroppedTable => MetaErrorKind::Unspecified,
            MetaError::NotCreating(..) => MetaErrorKind::InvalidParameter,
            MetaError::JobCancelled(..) => MetaErrorKind::Cancelled,
            MetaError::SourceVersionStale => MetaErrorKind::Unspecified,
            MetaError::TableVersionStale => MetaErrorKind::Unspecified,
            MetaError::TableToAlterMissing => MetaErrorKind::Unspecified,
            MetaError::TableVersionMissing => MetaErrorKind::Unspecified,
            MetaError::ColumnDescMissing(..) => MetaErrorKind::Unspecified,
            MetaError::UserExists(..) => MetaErrorKind::PermissionDenied,
            MetaError::UserMissing(..) => MetaErrorKind::Unspecified,
            MetaError::DropDefaultUser(..) => MetaErrorKind::PermissionDenied,
            MetaError::UserHasObjects(..) => MetaErrorKind::PermissionDenied,
            MetaError::UserHasGrants(..) => MetaErrorKind::PermissionDenied,
            MetaError::GrantToSuperUser(..) => MetaErrorKind::PermissionDenied,
            MetaError::GrantWithoutOption(..) => MetaErrorKind::PermissionDenied,
            MetaError::GrantorLacksPrivilege(..) => MetaErrorKind::PermissionDenied,
            MetaError::RevokeWithoutPermission(..) => MetaErrorKind::PermissionDenied,
            MetaError::RevokerLacksPrivilege(..) => MetaErrorKind::PermissionDenied,
            MetaError::RevokeFromSuperUser(..) => MetaErrorKind::PermissionDenied,
            MetaError::RevokeRestricted(..) => MetaErrorKind::PermissionDenied,
            MetaError::SourceMissing(..) => MetaErrorKind::Unspecified,
            MetaError::NodesEmpty => MetaErrorKind::Unspecified,
            MetaError::ActorStatusMissing(..) => MetaErrorKind::Unspecified,
            MetaError::FragmentMismatch(..) => MetaErrorKind::Unspecified,
            MetaError::JobMissing(..) => MetaErrorKind::Unspecified,
            MetaError::MviewFragmentMissing(..) => MetaErrorKind::Unspecified,
            MetaError::FragmentMissing(..) => MetaErrorKind::Unspecified,
            MetaError::BackfillUpstreams(..) => MetaErrorKind::Unspecified,
        }
    }

    /// The words of the error.
    pub fn message(&self) -> (r: String)
        ensures
            r@ == self@.message(),
    {
        let mut s = String::new();
        match self {
            MetaError::CatalogIdNotFound(x0, x1) => {
                s.append(x0.text());
                s.append(" id not found: ");
                append_decimal(&mut s, *x1 as u64);
            },
            MetaError::JobGone(x0, x1) => {
                s.append(x0.text());
                s.append(" id not found: ");
                s.append(x1.as_str());
                s.append(" may have been dropped/cancelled");
            },
            MetaError::CatalogDuplicated(x0, x1) => {
                s.append(x0.text());
                s.append(" with name ");
                s.append(x1.as_str());
                s.append(" exists");
            },
            MetaError::RelationCreating(x0) => {
                s.append("table is in creating procedure, table id: ");
                append_decimal(&mut s, *x0 as u64);
            },
            MetaError::DatabaseBusy => {
                s.append("Some relations are creating in the target database, try again later");
            },
            MetaError::SchemaBusy => {
                s.append("Some relations are creating in the target schema, try again later");
            },
            MetaError::SchemaNotEmpty => {
                s.append("The schema is not empty, try dropping them first");
            },
            MetaError::ObjectReferenced(x0, x1, x2) => {
                s.append("Fail to delete ");
                s.append(x0.text());
                s.append(" ");
                s.append(x1.as_str());
                s.append(" because ");
                append_decimal(&mut s, *x2 as u64);
                s.append(" other relation(s) depend on it");
            },
            MetaError::RelationReferenced(x0, x1, x2) => {
                s.append("Fail to delete ");
                s.append(x0.text());
                s.append(" `");
                s.append(x1.as_str());
                s.append("` because ");
                append_decimal(&mut s, *x2 as u64);
                s.append(" other relation(s) depend on it");
            },
            MetaError::SecretNotFound => {
                s.append("secret not found");
            },
            MetaError::RelationMissing(x0) => {
                s.append(x0.text());
                s.append(" doesn't exist");
            },
            MetaError::TableSinksInDependency(x0) => {
                s.append("Found ");
                append_decimal(&mut s, *x0 as u64);
                s.append(" sink(s) into table in dependency, please drop them manually");
            },
            MetaError::FragmentNotFound(x0) => {
                s.append("Fragment id not found: ");
                append_decimal(&mut s, *x0 as u64);
            },
            MetaError::TableBeingCreated => {
                s.append("The table is being created");
            },
            MetaError::CreatingProcedure(x0) => {
                s.append(x0.text());
                s.append(" is in creating procedure");
            },
            MetaError::AlreadyCreating(x0) => {
                s.append(x0.text());
                s.append(" already in creating procedure");
            },
            MetaError::TableOrSourceCreating => {
                s.append("table or source is in creating procedure");
            },
            MetaError::AlteringProcedure(x0) => {
                s.append(x0.text());
                s.append(" is in altering procedure");
            },
            MetaError::DependentRelationsNotEmpty => {
                s.append("ensure failed: table.dependent_relations.is_empty()");
            },
            MetaError::ConnectionMissing(x0) => {
                s.append("connection ");
                append_decimal(&mut s, *x0 as u64);
                s.append(" not found.");
            },
            MetaError::RecoveryDroppedTable => {
                s.append("failed to create table during recovery");
            },
            MetaError::NotCreating(x0) => {
                s.append("table is not in creating state id=");
                append_decimal(&mut s, *x0 as u64);
            },
            MetaError::JobCancelled(x0) => {
                s.append("materialized view ");
                append_decimal(&mut s, *x0 as u64);
                s.append(" has been cancelled");
            },
            MetaError::SourceVersionStale => {
                s.append("source version is stale");
            },
            MetaError::TableVersionStale => {
                s.append("table version is stale");
            },
            MetaError::TableToAlterMissing => {
                s.append("table to alter must exist");
            },
            MetaError::TableVersionMissing => {
                s.append("table version not found");
            },
            MetaError::ColumnDescMissing(x0, x1) => {
                s.append("column desc at index ");
                append_decimal(&mut s, *x0 as u64);
                s.append(" for table id ");
                append_decimal(&mut s, *x1 as u64);
                s.append(" not found");
            },
            MetaError::UserExists(x0) => {
                s.append("User ");
                s.append(x0.as_str());
                s.append(" already exists");
            },
            MetaError::UserMissing(x0) => {
                s.append("User ");
                append_decimal(&mut s, *x0 as u64);
                s.append(" not found");
            },
            MetaError::DropDefaultUser(x0) => {
                s.append("Cannot drop default super user ");
                append_decimal(&mut s, *x0 as u64);
            },
            MetaError::UserHasObjects(x0) => {
                s.append("User ");
                s.append(x0.as_str());
                s.append(" cannot be dropped because some objects depend on it");
            },
            MetaError::UserHasGrants(x0) => {
                s.append("Cannot drop user ");
                append_decimal(&mut s, *x0 as u64);
                s.append(" with privileges granted to others");
            },
            MetaError::GrantToSuperUser(x0) => {
                s.append("Cannot grant privilege to super user ");
                append_decimal(&mut s, *x0 as u64);
            },
            MetaError::GrantWithoutOption(x0) => {
                s.append("Cannot grant privilege without grant permission for user ");
                append_decimal(&mut s, *x0 as u64);
            },
            MetaError::GrantorLacksPrivilege(x0) => {
                s.append("Grantor ");
                append_decimal(&mut s, *x0 as u64);
                s.append(" does not have one of the privileges");
            },
            MetaError::RevokeWithoutPermission(x0) => {
                s.append("Cannot revoke privilege without permission for user ");
                s.append(x0.as_str());
            },
            MetaError::RevokerLacksPrivilege(x0) => {
                s.append("User ");
                s.append(x0.as_str());
                s.append(" does not have one of the privileges");
            },
            MetaError::RevokeFromSuperUser(x0) => {
                s.append("Cannot revoke privilege from supper user ");
                append_decimal(&mut s, *x0 as u64);
            },
            MetaError::RevokeRestricted(x0) => {
                s.append("Cannot revoke privilege from user ");
                s.append(x0.as_str());
                s.append(" for restrict");
            },
            MetaError::SourceMissing(x0) => {
                s.append("source ");
                append_decimal(&mut s, *x0 as u64);
                s.append(" not found");
            },
            MetaError::NodesEmpty => {
                s.append("nodes is empty");
            },
            MetaError::ActorStatusMissing(x0, x1) => {
                s.append("actor ");
                append_decimal(&mut s, *x0 as u64);
                s.append(" in fragment ");
                append_decimal(&mut s, *x1 as u64);
                s.append(" has no actor_status");
            },
            MetaError::FragmentMismatch(x0, x1, x2) => {
                s.append("fragment id ");
                append_decimal(&mut s, *x0 as u64);
                s.append(" from actor ");
                append_decimal(&mut s, *x1 as u64);
                s.append(" is different from fragment ");
                append_decimal(&mut s, *x2 as u64);
            },
            MetaError::JobMissing(x0) => {
                s.append("job ");
                append_decimal(&mut s, *x0 as u64);
                s.append(" not found in database");
            },
            MetaError::MviewFragmentMissing(x0) => {
                s.append("No mview fragment found for job ");
                append_decimal(&mut s, *x0 as u64);
            },
            MetaError::FragmentMissing(x0) => {
                s.append("No fragment found for fragment id ");
                append_decimal(&mut s, *x0 as u64);
            },
            MetaError::BackfillUpstreams(x0, x1) => {
                s.append("SourceBackfill should have only one upstream fragment, found ");
                append_decimal(&mut s, *x0 as u64);
                s.append(" for fragment ");
                append_decimal(&mut s, *x1 as u64);
            },
        }
        assert(s@ =~= self@.message());
        s
    }
}

} // verus!
