//! The rows that SHOW statements answer with.

use vstd::prelude::*;

use crate::show::types::{CursorRow, CursorRowModel};
use crate::util::id_map::{duplicate_all, duplicate_opt, opt_view, views, Entry};

verus! {

/// A name.
#[derive(Debug, PartialEq, Eq)]
pub struct ShowObjectRow {
    pub name: String,
}

/// The mathematical model of [`ShowObjectRow`].
#[verifier::ext_equal]
pub struct ShowObjectRowModel {
    pub name: Seq<char>,
}

impl View for ShowObjectRow {
    type V = ShowObjectRowModel;

    open spec fn view(&self) -> ShowObjectRowModel {
        ShowObjectRowModel {
            name: self.name@,
        }
    }
}

impl Entry for ShowObjectRow {
    fn duplicate(&self) -> (r: Self) {
        ShowObjectRow {
            name: self.name.clone(),
        }
    }
}

/// A column.
#[derive(Debug, PartialEq, Eq)]
pub struct ShowColumnRow {
    pub name: String,
    pub type_text: String,
    pub is_hidden: Option<String>,
    pub description: Option<String>,
}

/// The mathematical model of [`ShowColumnRow`].
#[verifier::ext_equal]
pub struct ShowColumnRowModel {
    pub name: Seq<char>,
    pub type_text: Seq<char>,
    pub is_hidden: Option<Seq<char>>,
    pub description: Option<Seq<char>>,
}

impl View for ShowColumnRow {
    type V = ShowColumnRowModel;

    open spec fn view(&self) -> ShowColumnRowModel {
        ShowColumnRowModel {
            name: self.name@,
            type_text: self.type_text@,
            is_hidden: opt_view(self.is_hidden),
            description: opt_view(self.description),
        }
    }
}

impl Entry for ShowColumnRow {
    fn duplicate(&self) -> (r: Self) {
        ShowColumnRow {
            name: self.name.clone(),
            type_text: self.type_text.clone(),
            is_hidden: duplicate_opt(&self.is_hidden),
            description: duplicate_opt(&self.description),
        }
    }
}

/// A connection.
#[derive(Debug, PartialEq, Eq)]
pub struct ShowConnectionRow {
    pub name: String,
    pub type_text: String,
    pub properties: String,
}

/// The mathematical model of [`ShowConnectionRow`].
#[verifier::ext_equal]
pub struct ShowConnectionRowModel {
    pub name: Seq<char>,
    pub type_text: Seq<char>,
    pub properties: Seq<char>,
}

impl View for ShowConnectionRow {
    type V = ShowConnectionRowModel;

    open spec fn view(&self) -> ShowConnectionRowModel {
        ShowConnectionRowModel {
            name: self.name@,
            type_text: self.type_text@,
            properties: self.properties@,
        }
    }
}

impl Entry for ShowConnectionRow {
    fn duplicate(&self) -> (r: Self) {
        ShowConnectionRow {
            name: self.name.clone(),
            type_text: self.type_text.clone(),
            properties: self.properties.clone(),
        }
    }
}

/// A function.
#[derive(Debug, PartialEq, Eq)]
pub struct ShowFunctionRow {
    pub name: String,
    pub arguments: String,
    pub return_type: String,
    pub language: String,
    pub link: Option<String>,
}

/// The mathematical model of [`ShowFunctionRow`].
#[verifier::ext_equal]
pub struct ShowFunctionRowModel {
    pub name: Seq<char>,
    pub arguments: Seq<char>,
    pub return_type: Seq<char>,
    pub language: Seq<char>,
    pub link: Option<Seq<char>>,
}

impl View for ShowFunctionRow {
    type V = ShowFunctionRowModel;

    open spec fn view(&self) -> ShowFunctionRowModel {
        ShowFunctionRowModel {
            name: self.name@,
            arguments: self.arguments@,
            return_type: self.return_type@,
            language: self.language@,
            link: opt_view(self.link),
        }
    }
}

impl Entry for ShowFunctionRow {
    fn duplicate(&self) -> (r: Self) {
        ShowFunctionRow {
            name: self.name.clone(),
            arguments: self.arguments.clone(),
            return_type: self.return_type.clone(),
            language: self.language.clone(),
            link: duplicate_opt(&self.link),
        }
    }
}

/// An index.
#[derive(Debug, PartialEq, Eq)]
pub struct ShowIndexRow {
    pub name: String,
    pub on: String,
    pub key: String,
    pub included: String,
    pub distributed_by: String,
}

/// The mathematical model of [`ShowIndexRow`].
#[verifier::ext_equal]
pub struct ShowIndexRowModel {
    pub name: Seq<char>,
    pub on: Seq<char>,
    pub key: Seq<char>,
    pub included: Seq<char>,
    pub distributed_by: Seq<char>,
}

impl View for ShowIndexRow {
    type V = ShowIndexRowModel;

    open spec fn view(&self) -> ShowIndexRowModel {
        ShowIndexRowModel {
            name: self.name@,
            on: self.on@,
            key: self.key@,
            included: self.included@,
            distributed_by: self.distributed_by@,
        }
    }
}

impl Entry for ShowIndexRow {
    fn duplicate(&self) -> (r: Self) {
        ShowIndexRow {
            name: self.name.clone(),
            on: self.on.clone(),
            key: self.key.clone(),
            included: self.included.clone(),
            distributed_by: self.distributed_by.clone(),
        }
    }
}

/// A node of the cluster.
#[derive(Debug, PartialEq, Eq)]
pub struct ShowClusterRow {
    pub id: u32,
    pub addr: String,
    pub type_text: String,
    pub state: String,
    pub parallelism: u32,
    pub is_streaming: Option<bool>,
    pub is_serving: Option<bool>,
    pub is_unschedulable: Option<bool>,
    pub started_at: Option<u64>,
}

/// The mathematical model of [`ShowClusterRow`].
#[verifier::ext_equal]
pub struct ShowClusterRowModel {
    pub id: u32,
    pub addr: Seq<char>,
    pub type_text: Seq<char>,
    pub state: Seq<char>,
    pub parallelism: u32,
    pub is_streaming: Option<bool>,
    pub is_serving: Option<bool>,
    pub is_unschedulable: Option<bool>,
    pub started_at: Option<u64>,
}

impl View for ShowClusterRow {
    type V = ShowClusterRowModel;

    open spec fn view(&self) -> ShowClusterRowModel {
        ShowClusterRowModel {
            id: self.id,
            addr: self.addr@,
            type_text: self.type_text@,
            state: self.state@,
            parallelism: self.parallelism,
            is_streaming: self.is_streaming,
            is_serving: self.is_serving,
            is_unschedulable: self.is_unschedulable,
            started_at: self.started_at,
        }
    }
}

impl Entry for ShowClusterRow {
    fn duplicate(&self) -> (r: Self) {
        ShowClusterRow {
            id: self.id,
            addr: self.addr.clone(),
            type_text: self.type_text.clone(),
            state: self.state.clone(),
            parallelism: self.parallelism,
            is_streaming: self.is_streaming,
            is_serving: self.is_serving,
            is_unschedulable: self.is_unschedulable,
            started_at: self.started_at,
        }
    }
}

/// A statement that changes the catalog.
#[derive(Debug, PartialEq, Eq)]
pub struct ShowJobRow {
    pub id: u64,
    pub statement: String,
    pub progress: String,
}

/// The mathematical model of [`ShowJobRow`].
#[verifier::ext_equal]
pub struct ShowJobRowModel {
    pub id: u64,
    pub statement: Seq<char>,
    pub progress: Seq<char>,
}

impl View for ShowJobRow {
    type V = ShowJobRowModel;

    open spec fn view(&self) -> ShowJobRowModel {
        ShowJobRowModel {
            id: self.id,
            statement: self.statement@,
            progress: self.progress@,
        }
    }
}

impl Entry for ShowJobRow {
    fn duplicate(&self) -> (r: Self) {
        ShowJobRow {
            id: self.id,
            statement: self.statement.clone(),
            progress: self.progress.clone(),
        }
    }
}

/// A session.
#[derive(Debug, PartialEq, Eq)]
pub struct ShowProcessListRow {
    pub id: String,
    pub user: String,
    pub host: String,
    pub database: String,
    pub time: Option<String>,
    pub info: Option<String>,
}

/// The mathematical model of [`ShowProcessListRow`].
#[verifier::ext_equal]
pub struct ShowProcessListRowModel {
    pub id: Seq<char>,
    pub user: Seq<char>,
    pub host: Seq<char>,
    pub database: Seq<char>,
    pub time: Option<Seq<char>>,
    pub info: Option<Seq<char>>,
}

impl View for ShowProcessListRow {
    type V = ShowProcessListRowModel;

    open spec fn view(&self) -> ShowProcessListRowModel {
        ShowProcessListRowModel {
            id: self.id@,
            user: self.user@,
            host: self.host@,
            database: self.database@,
            time: opt_view(self.time),
            info: opt_view(self.info),
        }
    }
}

impl Entry for ShowProcessListRow {
    fn duplicate(&self) -> (r: Self) {
        ShowProcessListRow {
            id: self.id.clone(),
            user: self.user.clone(),
            host: self.host.clone(),
            database: self.database.clone(),
            time: duplicate_opt(&self.time),
            info: duplicate_opt(&self.info),
        }
    }
}

/// An object and the statement that creates it.
#[derive(Debug, PartialEq, Eq)]
pub struct ShowCreateObjectRow {
    pub name: String,
    pub create_sql: String,
}

/// The mathematical model of [`ShowCreateObjectRow`].
#[verifier::ext_equal]
pub struct ShowCreateObjectRowModel {
    pub name: Seq<char>,
    pub create_sql: Seq<char>,
}

impl View for ShowCreateObjectRow {
    type V = ShowCreateObjectRowModel;

    open spec fn view(&self) -> ShowCreateObjectRowModel {
        ShowCreateObjectRowModel {
            name: self.name@,
            create_sql: self.create_sql@,
        }
    }
}

impl Entry for ShowCreateObjectRow {
    fn duplicate(&self) -> (r: Self) {
        ShowCreateObjectRow {
            name: self.name.clone(),
            create_sql: self.create_sql.clone(),
        }
    }
}

/// The answer to a SHOW statement.
#[derive(Debug, PartialEq, Eq)]
pub enum ShowRows {
    Names(Vec<String>),
    Columns(Vec<ShowColumnRow>),
    Indexes(Vec<ShowIndexRow>),
    Connections(Vec<ShowConnectionRow>),
    Functions(Vec<ShowFunctionRow>),
    Cluster(Vec<ShowClusterRow>),
    Jobs(Vec<ShowJobRow>),
    Processes(Vec<ShowProcessListRow>),
    Cursors(Vec<CursorRow>),
}

/// The mathematical model of [`ShowRows`].
#[verifier::ext_equal]
pub enum ShowRowsModel {
    Names(Seq<Seq<char>>),
    Columns(Seq<ShowColumnRowModel>),
    Indexes(Seq<ShowIndexRowModel>),
    Connections(Seq<ShowConnectionRowModel>),
    Functions(Seq<ShowFunctionRowModel>),
    Cluster(Seq<ShowClusterRowModel>),
    Jobs(Seq<ShowJobRowModel>),
    Processes(Seq<ShowProcessListRowModel>),
    Cursors(Seq<CursorRowModel>),
}

impl View for ShowRows {
    type V = ShowRowsModel;

    open spec fn view(&self) -> ShowRowsModel {
        match *self {
            ShowRows::Names(x) => ShowRowsModel::Names(views(x@)),
            ShowRows::Columns(x) => ShowRowsModel::Columns(views(x@)),
            ShowRows::Indexes(x) => ShowRowsModel::Indexes(views(x@)),
            ShowRows::Connections(x) => ShowRowsModel::Connections(views(x@)),
            ShowRows::Functions(x) => ShowRowsModel::Functions(views(x@)),
            ShowRows::Cluster(x) => ShowRowsModel::Cluster(views(x@)),
            ShowRows::Jobs(x) => ShowRowsModel::Jobs(views(x@)),
            ShowRows::Processes(x) => ShowRowsModel::Processes(views(x@)),
            ShowRows::Cursors(x) => ShowRowsModel::Cursors(views(x@)),
        }
    }
}

impl Entry for ShowRows {
    fn duplicate(&self) -> (r: Self) {
        match self {
            ShowRows::Names(x) => ShowRows::Names(duplicate_all(x)),
            ShowRows::Columns(x) => ShowRows::Columns(duplicate_all(x)),
            ShowRows::Indexes(x) => ShowRows::Indexes(duplicate_all(x)),
            ShowRows::Connections(x) => ShowRows::Connections(duplicate_all(x)),
            ShowRows::Functions(x) => ShowRows::Functions(duplicate_all(x)),
            ShowRows::Cluster(x) => ShowRows::Cluster(duplicate_all(x)),
            ShowRows::Jobs(x) => ShowRows::Jobs(duplicate_all(x)),
            ShowRows::Processes(x) => ShowRows::Processes(duplicate_all(x)),
            ShowRows::Cursors(x) => ShowRows::Cursors(duplicate_all(x)),
        }
    }
}

/// The type of a cell.
#[derive(Debug, Clone, Copy, PartialEq, Eq, Structural)]
pub enum FieldKind {
    Varchar,
    Int,
    BigInt,
    Boolean,
    Timestamptz,
}

/// The head of a column of the answer.
#[derive(Debug, PartialEq, Eq)]
pub struct FieldDesc {
    pub name: String,
    pub kind: FieldKind,
}

/// The mathematical model of [`FieldDesc`].
#[verifier::ext_equal]
pub struct FieldDescModel {
    pub name: Seq<char>,
    pub kind: FieldKind,
}

impl View for FieldDesc {
    type V = FieldDescModel;

    open spec fn view(&self) -> FieldDescModel {
        FieldDescModel {
            name: self.name@,
            kind: self.kind,
        }
    }
}

impl Entry for FieldDesc {
    fn duplicate(&self) -> (r: Self) {
        FieldDesc {
            name: self.name.clone(),
            kind: self.kind,
        }
    }
}

} // verus!
