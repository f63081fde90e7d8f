//! Messages about changes of the catalog, and the jobs that change it.

use vstd::prelude::*;

use crate::catalog::types::{
    Connection, ConnectionModel, Database, DatabaseModel, Function, FunctionModel, Index,
    IndexModel, Schema, SchemaModel, Secret, SecretModel, Sink, SinkModel, Source, SourceModel,
    Subscription, SubscriptionModel, Table, TableJobType, TableModel, UserInfo, UserInfoModel,
    ViewInfo, ViewInfoModel,
};
use crate::util::id_map::{duplicate_all, duplicate_opt, opt_view, views, Entry};

verus! {

/// What happened to an object.
#[derive(Debug, Clone, Copy, PartialEq, Eq, Structural)]
pub enum Operation {
    Add,
    Delete,
    Update,
}

/// Who a message is for.
#[derive(Debug, Clone, Copy, PartialEq, Eq, Structural)]
pub enum Audience {
    Frontend,
    HummockAndCompactor,
    Compute,
}

/// A relation.
#[derive(Debug, PartialEq, Eq)]
pub enum RelationInfo {
    Table(Table),
    Source(Source),
    Sink(Sink),
    Subscription(Subscription),
    Index(Index),
    View(ViewInfo),
}

/// The mathematical model of [`RelationInfo`].
#[verifier::ext_equal]
pub enum RelationInfoModel {
    Table(TableModel),
    Source(SourceModel),
    Sink(SinkModel),
    Subscription(SubscriptionModel),
    Index(IndexModel),
    View(ViewInfoModel),
}

impl View for RelationInfo {
    type V = RelationInfoModel;

    open spec fn view(&self) -> RelationInfoModel {
        match *self {
            RelationInfo::Table(x) => RelationInfoModel::Table(x@),
            RelationInfo::Source(x) => RelationInfoModel::Source(x@),
            RelationInfo::Sink(x) => RelationInfoModel::Sink(x@),
            RelationInfo::Subscription(x) => RelationInfoModel::Subscription(x@),
            RelationInfo::Index(x) => RelationInfoModel::Index(x@),
            RelationInfo::View(x) => RelationInfoModel::View(x@),
        }
    }
}

impl Entry for RelationInfo {
    fn duplicate(&self) -> (r: Self) {
        match self {
            RelationInfo::Table(x) => RelationInfo::Table(x.duplicate()),
            RelationInfo::Source(x) => RelationInfo::Source(x.duplicate()),
            RelationInfo::Sink(x) => RelationInfo::Sink(x.duplicate()),
            RelationInfo::Subscription(x) => RelationInfo::Subscription(x.duplicate()),
            RelationInfo::Index(x) => RelationInfo::Index(x.duplicate()),
            RelationInfo::View(x) => RelationInfo::View(x.duplicate()),
        }
    }
}

/// What a message is about.
#[derive(Debug, PartialEq, Eq)]
pub enum Info {
    Database(Database),
    Schema(Schema),
    Function(Function),
    Connection(Connection),
    Secret(Secret),
    User(UserInfo),
    RelationGroup(Vec<RelationInfo>),
}

/// The mathematical model of [`Info`].
#[verifier::ext_equal]
pub enum InfoModel {
    Database(DatabaseModel),
    Schema(SchemaModel),
    Function(FunctionModel),
    Connection(ConnectionModel),
    Secret(SecretModel),
    User(UserInfoModel),
    RelationGroup(Seq<RelationInfoModel>),
}

impl View for Info {
    type V = InfoModel;

    open spec fn view(&self) -> InfoModel {
        match *self {
            Info::Database(x) => InfoModel::Database(x@),
            Info::Schema(x) => InfoModel::Schema(x@),
            Info::Function(x) => InfoModel::Function(x@),
            Info::Connection(x) => InfoModel::Connection(x@),
            Info::Secret(x) => InfoModel::Secret(x@),
            Info::User(x) => InfoModel::User(x@),
            Info::RelationGroup(x) => InfoModel::RelationGroup(views(x@)),
        }
    }
}

impl Entry for Info {
    fn duplicate(&self) -> (r: Self) {
        match self {
            Info::Database(x) => Info::Database(x.duplicate()),
            Info::Schema(x) => Info::Schema(x.duplicate()),
            Info::Function(x) => Info::Function(x.duplicate()),
            Info::Connection(x) => Info::Connection(x.duplicate()),
            Info::Secret(x) => Info::Secret(x.duplicate()),
            Info::User(x) => Info::User(x.duplicate()),
            Info::RelationGroup(x) => Info::RelationGroup(duplicate_all(x)),
        }
    }
}

/// A message to be sent.
#[derive(Debug, PartialEq, Eq)]
pub struct Notification {
    pub audience: Audience,
    pub operation: Operation,
    pub info: Info,
}

/// The mathematical model of [`Notification`].
#[verifier::ext_equal]
pub struct NotificationModel {
    pub audience: Audience,
    pub operation: Operation,
    pub info: InfoModel,
}

impl View for Notification {
    type V = NotificationModel;

    open spec fn view(&self) -> NotificationModel {
        NotificationModel {
            audience: self.audience,
            operation: self.operation,
            info: self.info@,
        }
    }
}

impl Entry for Notification {
    fn duplicate(&self) -> (r: Self) {
        Notification {
            audience: self.audience,
            operation: self.operation,
            info: self.info.duplicate(),
        }
    }
}

/// The table that a sink writes into, with the source that the table is associated with.
#[derive(Debug, PartialEq, Eq)]
pub struct TargetTable {
    pub table: Table,
    pub source: Option<Source>,
}

/// The mathematical model of [`TargetTable`].
#[verifier::ext_equal]
pub struct TargetTableModel {
    pub table: TableModel,
    pub source: Option<SourceModel>,
}

impl View for TargetTable {
    type V = TargetTableModel;

    open spec fn view(&self) -> TargetTableModel {
        TargetTableModel {
            table: self.table@,
            source: opt_view(self.source),
        }
    }
}

impl Entry for TargetTable {
    fn duplicate(&self) -> (r: Self) {
        TargetTable {
            table: self.table.duplicate(),
            source: duplicate_opt(&self.source),
        }
    }
}

/// A streaming job that is being created.
#[derive(Debug, PartialEq, Eq)]
pub enum StreamingJob {
    MaterializedView(Table),
    Sink(Sink, Option<TargetTable>),
    Table(Option<Source>, Table, TableJobType),
    Index(Index, Table),
    Source(Source),
}

/// The mathematical model of [`StreamingJob`].
#[verifier::ext_equal]
pub enum StreamingJobModel {
    MaterializedView(TableModel),
    Sink(SinkModel, Option<TargetTableModel>),
    Table(Option<SourceModel>, TableModel, TableJobType),
    Index(IndexModel, TableModel),
    Source(SourceModel),
}

impl View for StreamingJob {
    type V = StreamingJobModel;

    open spec fn view(&self) -> StreamingJobModel {
        match *self {
            StreamingJob::MaterializedView(x) => StreamingJobModel::MaterializedView(x@),
            StreamingJob::Sink(x0, x1) => StreamingJobModel::Sink(x0@, opt_view(x1)),
            StreamingJob::Table(x0, x1, x2) => StreamingJobModel::Table(opt_view(x0), x1@, x2),
            StreamingJob::Index(x0, x1) => StreamingJobModel::Index(x0@, x1@),
            StreamingJob::Source(x) => StreamingJobModel::Source(x@),
        }
    }
}

impl Entry for StreamingJob {
    fn duplicate(&self) -> (r: Self) {
        match self {
            StreamingJob::MaterializedView(x) => StreamingJob::MaterializedView(x.duplicate()),
            StreamingJob::Sink(x0, x1) => StreamingJob::Sink(x0.duplicate(), duplicate_opt(x1)),
            StreamingJob::Table(x0, x1, x2) => StreamingJob::Table(duplicate_opt(x0), x1.duplicate(), *x2),
            StreamingJob::Index(x0, x1) => StreamingJob::Index(x0.duplicate(), x1.duplicate()),
            StreamingJob::Source(x) => StreamingJob::Source(x.duplicate()),
        }
    }
}

} // verus!
