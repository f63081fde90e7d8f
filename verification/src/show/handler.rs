//! The SHOW statements.

use vstd::prelude::*;
use vstd::string::*;

use itertools::Itertools;

use crate::show::column::{
    column_rows, desc_of_field, ColumnCatalog, ColumnCatalogModel, ColumnDesc, Field, FieldModel,
};
use crate::show::rows::{
    ShowClusterRow, ShowClusterRowModel, ShowColumnRow, ShowConnectionRow, ShowConnectionRowModel,
    ShowFunctionRow, ShowFunctionRowModel, ShowIndexRow, ShowIndexRowModel, ShowJobRow,
    ShowJobRowModel, ShowObjectRow, ShowObjectRowModel, ShowProcessListRow, ShowProcessListRowModel,
    ShowRows, ShowRowsModel,
};
use crate::show::types::{
    ConnectionCatalog, ConnectionCatalogModel, CursorRow, CursorRowModel, DatabaseCatalog,
    DatabaseCatalogModel, DdlProgress, DdlProgressModel, FunctionCatalog, FunctionCatalogModel,
    IndexCatalog, IndexCatalogModel, NamedCatalog, NamedCatalogModel, PrivateLinkService,
    PrivateLinkServiceModel, Relation, RelationModel, SchemaCatalog, SchemaCatalogModel,
    SecretCatalog, SecretCatalogModel, SessionInfo, SessionInfoModel, ShowError, ShowErrorModel,
    ShowObject, ShowObjectModel, ShowResult, ShowSession, ShowSessionModel, ShowStatementFilter,
    ShowStatementFilterModel, SourceCatalog, SourceCatalogModel, TableCatalog, TableCatalogModel,
    TableKind, WorkerNode, WorkerNodeModel,
};
use crate::util::id_map::{
    duplicate_all, duplicate_opt, opt_view, values_at, values_where, views, Entry, IdMap,
};
use crate::util::ids::listing;
use crate::util::lists::{
    append_all, gather, image, lemma_gather_push, map_all, List,
};
use crate::util::outside::{join, joined, json_of, json_text};
use crate::util::text::{append_decimal, decimal, decimal_text, join3};

verus! {

impl ShowErrorModel {
    pub open spec fn not_found(what: Seq<char>, name: Seq<char>) -> ShowErrorModel {
        ShowErrorModel::NotFound(what, name)
    }

    /// The words of the error.
    pub open spec fn message(self) -> Seq<char> {
        match self {
            ShowErrorModel::NotFound(what, name) => what + " not found: "@ + name,
            ShowErrorModel::NotImplemented(what) => what,
            ShowErrorModel::Unbound(why) => why,
        }
    }
}

impl ShowError {
    fn not_found(what: &str, name: &String) -> (r: ShowError)
        ensures
            r@ == ShowErrorModel::not_found(what@, name@),
    {
        ShowError::NotFound(String::from_str(what), name.clone())
    }

    /// The words of the error.
    pub fn message(&self) -> (r: String)
        ensures
            r@ == self@.message(),
    {
        match self {
            ShowError::NotFound(what, name) => join3(what.as_str(), " not found: ", name.as_str()),
            ShowError::NotImplemented(what) => what.clone(),
            ShowError::Unbound(why) => why.clone(),
        }
    }
}

// ---------------------------------------------------------------------------
// What a statement reads.
// ---------------------------------------------------------------------------

/// What a SHOW statement reads: the session, the catalog, what the name in the statement was
/// found to stand for as a relation, as a sink and as a view, and what the cluster told.
#[derive(Debug, PartialEq, Eq)]
pub struct ShowContext {
    pub session: ShowSession,
    pub databases: IdMap<DatabaseCatalog>,
    pub relation: ShowResult<Relation>,
    pub sink: ShowResult<List<ColumnCatalog>>,
    pub view: ShowResult<Vec<Field>>,
    pub workers: Vec<WorkerNode>,
    pub jobs: Vec<DdlProgress>,
    pub sessions: Vec<SessionInfo>,
    pub cursors: Vec<CursorRow>,
}

/// The mathematical model of [`ShowContext`].
#[verifier::ext_equal]
pub struct ShowContextModel {
    pub session: ShowSessionModel,
    pub databases: Map<u32, DatabaseCatalogModel>,
    pub relation: Result<RelationModel, ShowErrorModel>,
    pub sink: Result<Seq<ColumnCatalogModel>, ShowErrorModel>,
    pub view: Result<Seq<FieldModel>, ShowErrorModel>,
    pub workers: Seq<WorkerNodeModel>,
    pub jobs: Seq<DdlProgressModel>,
    pub sessions: Seq<SessionInfoModel>,
    pub cursors: Seq<CursorRowModel>,
}

/// The view of a result.
pub open spec fn result_view<T: View>(r: ShowResult<T>) -> Result<T::V, ShowErrorModel> {
    match r {
        Ok(t) => Ok(t@),
        Err(e) => Err(e@),
    }
}

impl View for ShowContext {
    type V = ShowContextModel;

    open spec fn view(&self) -> ShowContextModel {
        ShowContextModel {
            session: self.session@,
            databases: self.databases@,
            relation: result_view(self.relation),
            sink: result_view(self.sink),
            view: match self.view {
                Ok(fields) => Ok(views(fields@)),
                Err(e) => Err(e@),
            },
            workers: views(self.workers@),
            jobs: views(self.jobs@),
            sessions: views(self.sessions@),
            cursors: views(self.cursors@),
        }
    }
}

// ---------------------------------------------------------------------------
// Columns and indexes of what a name stands for.
// ---------------------------------------------------------------------------

/// The columns of a relation, where it is a source or a table.
pub open spec fn columns_of_relation(
    relation: Result<RelationModel, ShowErrorModel>,
    name: Seq<char>,
) -> Result<Seq<ColumnCatalogModel>, ShowErrorModel> {
    match relation {
        Err(e) => Err(e),
        Ok(RelationModel::Source(columns)) => Ok(columns),
        Ok(RelationModel::BaseTable(columns, _)) => Ok(columns),
        Ok(RelationModel::SystemTable(columns)) => Ok(columns),
        Ok(RelationModel::Other) => Err(ShowErrorModel::not_found("table or source"@, name)),
    }
}

/// The indexes of a relation, where it is a table.
pub open spec fn indexes_of_relation(
    relation: Result<RelationModel, ShowErrorModel>,
    name: Seq<char>,
) -> Result<Seq<IndexCatalogModel>, ShowErrorModel> {
    match relation {
        Err(e) => Err(e),
        Ok(RelationModel::BaseTable(_, indexes)) => Ok(indexes),
        Ok(_) => Err(ShowErrorModel::not_found("table or source"@, name)),
    }
}

/// The columns of a view: its fields, numbered from 0, none of them hidden.
pub open spec fn columns_of_view(fields: Seq<FieldModel>) -> Seq<ColumnCatalogModel> {
    Seq::new(
        fields.len(),
        |i: int|
            ColumnCatalogModel {
                column_desc: desc_of_field(fields[i], i as u32),
                is_hidden: false,
            },
    )
}

pub fn get_columns_from_table(relation: &ShowResult<Relation>, table_name: &String) -> (r:
    ShowResult<Vec<ColumnCatalog>>)
    ensures
        match columns_of_relation(result_view(*relation), table_name@) {
            Ok(columns) => r is Ok && views(r->Ok_0@) == columns,
            Err(e) => r is Err && r->Err_0@ == e,
        },
{
    match relation {
        Err(e) => Err(e.duplicate()),
        Ok(relation) => match relation {
            Relation::Source(columns) => Ok(duplicate_all(columns)),
            Relation::BaseTable(columns, _) => Ok(duplicate_all(columns)),
            Relation::SystemTable(columns) => Ok(duplicate_all(columns)),
            Relation::Other => Err(ShowError::not_found("table or source", table_name)),
        },
    }
}

pub fn get_columns_from_sink(sink: &ShowResult<List<ColumnCatalog>>) -> (r: ShowResult<
    Vec<ColumnCatalog>,
>)
    ensures
        match result_view(*sink) {
            Ok(columns) => r is Ok && views(r->Ok_0@) == columns,
            Err(e) => r is Err && r->Err_0@ == e,
        },
{
    match sink {
        Ok(columns) => Ok(duplicate_all(&columns.items)),
        Err(e) => Err(e.duplicate()),
    }
}

pub fn get_columns_from_view(view: &ShowResult<Vec<Field>>) -> (r: ShowResult<Vec<ColumnCatalog>>)
    requires
        view is Ok ==> view->Ok_0@.len() <= u32::MAX,
    ensures
        match *view {
            Ok(fields) => r is Ok && views(r->Ok_0@) == columns_of_view(views(fields@)),
            Err(e) => r is Err && r->Err_0@ == e@,
        },
{
    match view {
        Err(e) => Err(e.duplicate()),
        Ok(fields) => {
            let ghost q = views(fields@);
            let mut columns: Vec<ColumnCatalog> = Vec::new();
            let mut i: usize = 0;
            while i < fields.len()
                invariant
                    i <= fields.len(),
                    fields@.len() <= u32::MAX,
                    q == views(fields@),
                    columns@.len() == i,
                    forall|k: int| 0 <= k < i ==> (#[trigger] columns@[k])@ == columns_of_view(q)[k],
                decreases fields.len() - i,
            {
                let column = ColumnCatalog {
                    column_desc: ColumnDesc::from_field_with_column_id(&fields[i], i as u32),
                    is_hidden: false,
                };
                assert(column@ == columns_of_view(q)[i as int]);
                columns.push(column);
                i = i + 1;
            }
            assert(views(columns@) =~= columns_of_view(q));
            Ok(columns)
        },
    }
}

pub fn get_indexes_from_table(relation: &ShowResult<Relation>, table_name: &String) -> (r:
    ShowResult<Vec<IndexCatalog>>)
    ensures
        match indexes_of_relation(result_view(*relation), table_name@) {
            Ok(indexes) => r is Ok && views(r->Ok_0@) == indexes,
            Err(e) => r is Err && r->Err_0@ == e,
        },
{
    match relation {
        Err(e) => Err(e.duplicate()),
        Ok(relation) => match relation {
            Relation::BaseTable(_, indexes) => Ok(duplicate_all(indexes)),
            _ => Err(ShowError::not_found("table or source", table_name)),
        },
    }
}

// ---------------------------------------------------------------------------
// Schemas.
// ---------------------------------------------------------------------------

/// The first of `q`, if there is one.
pub open spec fn first_of<A>(q: Seq<A>) -> Option<A> {
    if q.len() > 0 {
        Some(q[0])
    } else {
        None
    }
}

fn take_first<T: Entry>(v: Vec<T>) -> (r: Option<T>)
    ensures
        opt_view(r) == first_of(views(v@)),
{
    if v.len() > 0 {
        assert(views(v@)[0] == v@[0]@);
        Some(v[0].duplicate())
    } else {
        None
    }
}

impl ShowContextModel {
    /// The database of the session.
    pub open spec fn database(self) -> Result<DatabaseCatalogModel, ShowErrorModel> {
        let name = self.session.database;
        match first_of(values_where(self.databases, |d: DatabaseCatalogModel| d.name == name)) {
            Some(d) => Ok(d),
            None => Err(ShowErrorModel::not_found("database"@, name)),
        }
    }

    /// The schema `name` of the database of the session.
    pub open spec fn schema(self, name: Seq<char>) -> Result<SchemaCatalogModel, ShowErrorModel> {
        match self.database() {
            Err(e) => Err(e),
            Ok(d) => match first_of(
                values_where(d.schemas, |s: SchemaCatalogModel| s.name == name),
            ) {
                Some(s) => Ok(s),
                None => Err(ShowErrorModel::not_found("schema"@, name)),
            },
        }
    }
}

/// The schema that a statement names, or the one called `public`.
pub open spec fn schema_name(schema: Option<Seq<char>>) -> Seq<char> {
    match schema {
        Some(name) => name,
        None => "public"@,
    }
}

/// The schemas in which tables are looked for: the one that the statement names, or those of the
/// search path, in which `"$user"` stands for the name of the user.
pub open spec fn searched(session: ShowSessionModel, schema: Option<Seq<char>>) -> Seq<Seq<char>> {
    match schema {
        Some(name) => seq![name],
        None => image(
            session.search_path,
            |s: Seq<char>|
                if s == "\"$user\""@ {
                    session.user_name
                } else {
                    s
                },
        ),
    }
}

pub(crate) fn schema_or_default(schema: &Option<String>) -> (r: String)
    ensures
        r@ == schema_name(opt_view(*schema)),
{
    match schema {
        Some(name) => name.clone(),
        None => String::from_str("public"),
    }
}

fn schema_or_search_path(session: &ShowSession, schema: &Option<String>) -> (r: Vec<String>)
    ensures
        views(r@) == searched(session@, opt_view(*schema)),
{
    match schema {
        Some(name) => {
            let mut r: Vec<String> = Vec::new();
            r.push(name.clone());
            assert(views(r@) =~= searched(session@, opt_view(*schema)));
            r
        },
        None => {
            let mut r: Vec<String> = Vec::new();
            let ghost q = searched(session@, opt_view(*schema));
            let user = String::from_str("\"$user\"");
            let mut i: usize = 0;
            while i < session.search_path.len()
                invariant
                    i <= session.search_path.len(),
                    user@ == "\"$user\""@,
                    q == searched(session@, None),
                    r@.len() == i,
                    forall|k: int| 0 <= k < i ==> (#[trigger] r@[k])@ == q[k],
                decreases session.search_path.len() - i,
            {
                if session.search_path[i] == user {
                    r.push(session.user_name.clone());
                } else {
                    r.push(session.search_path[i].clone());
                }
                i = i + 1;
            }
            assert(views(r@) =~= q);
            r
        },
    }
}

impl ShowContext {
    pub(crate) fn get_database(&self) -> (r: ShowResult<DatabaseCatalog>)
        ensures
            match self@.database() {
                Ok(d) => r is Ok && r->Ok_0@ == d,
                Err(e) => r is Err && r->Err_0@ == e,
            },
    {
        let name = &self.session.database;
        let f = |x: &DatabaseCatalog| -> (b: bool)
            ensures
                b == (x@.name == name@),
        {
            x.name == *name
        };
        let found = self.databases.values_where(
            f,
            Ghost(|d: DatabaseCatalogModel| d.name == name@),
        );
        match take_first(found) {
            Some(d) => Ok(d),
            None => Err(ShowError::not_found("database", name)),
        }
    }

    pub(crate) fn get_schema_by_name(&self, name: &String) -> (r: ShowResult<SchemaCatalog>)
        ensures
            match self@.schema(name@) {
                Ok(s) => r is Ok && r->Ok_0@ == s,
                Err(e) => r is Err && r->Err_0@ == e,
            },
    {
        match self.get_database() {
            Err(e) => Err(e),
            Ok(d) => {
                let f = |x: &SchemaCatalog| -> (b: bool)
                    ensures
                        b == (x@.name == name@),
                {
                    x.name == *name
                };
                let found = d.schemas.values_where(
                    f,
                    Ghost(|s: SchemaCatalogModel| s.name == name@),
                );
                match take_first(found) {
                    Some(s) => Ok(s),
                    None => Err(ShowError::not_found("schema", name)),
                }
            },
        }
    }
}

// ---------------------------------------------------------------------------
// Names.
// ---------------------------------------------------------------------------

impl SchemaCatalogModel {
    /// The names of the tables that satisfy `p`.
    pub open spec fn tables_where(self, p: spec_fn(TableCatalogModel) -> bool) -> Seq<Seq<char>> {
        image(values_where(self.tables, p), |t: TableCatalogModel| t.name)
    }
}

/// The table is of this kind.
pub open spec fn of_kind(kind: TableKind) -> spec_fn(TableCatalogModel) -> bool {
    |t: TableCatalogModel| t.kind == kind
}

/// The table is a finished materialized view.
pub open spec fn created_mview() -> spec_fn(TableCatalogModel) -> bool {
    |t: TableCatalogModel| t.kind == TableKind::MaterializedView && t.created
}

/// The names of what `m` holds.
pub open spec fn names_in(m: Map<u32, NamedCatalogModel>) -> Seq<Seq<char>> {
    image(values_at(m, listing(m.dom())), |x: NamedCatalogModel| x.name)
}

/// The names of the tables of a schema, or none where there is no such schema.
pub open spec fn tables_if_found(c: ShowContextModel, schema: Seq<char>) -> Seq<Seq<char>> {
    match c.schema(schema) {
        Ok(s) => s.tables_where(of_kind(TableKind::Table)),
        Err(_) => Seq::empty(),
    }
}

fn table_names(tables: Vec<TableCatalog>) -> (r: Vec<String>)
    ensures
        views(r@) == image(views(tables@), |t: TableCatalogModel| t.name),
{
    let f = |x: &TableCatalog| -> (y: String)
        ensures
            y@ == x@.name,
    {
        x.name.clone()
    };
    map_all(&tables, f, Ghost(|t: TableCatalogModel| t.name))
}

impl SchemaCatalog {
    fn tables_of_kind(&self, kind: TableKind) -> (r: Vec<String>)
        ensures
            views(r@) == self@.tables_where(of_kind(kind)),
    {
        let f = |x: &TableCatalog| -> (b: bool)
            ensures
                b == (x@.kind == kind),
        {
            x.kind == kind
        };
        table_names(self.tables.values_where(f, Ghost(of_kind(kind))))
    }

    fn created_mviews(&self) -> (r: Vec<String>)
        ensures
            views(r@) == self@.tables_where(created_mview()),
    {
        let f = |x: &TableCatalog| -> (b: bool)
            ensures
                b == (x@.kind == TableKind::MaterializedView && x@.created),
        {
            x.kind == TableKind::MaterializedView && x.created
        };
        table_names(self.tables.values_where(f, Ghost(created_mview())))
    }
}

fn names_of(m: &IdMap<NamedCatalog>) -> (r: Vec<String>)
    ensures
        views(r@) == names_in(m@),
{
    let f = |x: &NamedCatalog| -> (y: String)
        ensures
            y@ == x@.name,
    {
        x.name.clone()
    };
    map_all(&m.values(), f, Ghost(|x: NamedCatalogModel| x.name))
}

impl ShowContext {
    fn searched_tables(&self, schema: &Option<String>) -> (r: Vec<String>)
        ensures
            views(r@) == gather(
                searched(self@.session, opt_view(*schema)),
                |s: Seq<char>| tables_if_found(self@, s),
            ),
    {
        let schemas = schema_or_search_path(&self.session, schema);
        let ghost q = views(schemas@);
        let ghost p = |s: Seq<char>| tables_if_found(self@, s);
        let mut r: Vec<String> = Vec::new();
        let mut i: usize = 0;
        proof {
            assert(q.take(0) =~= Seq::empty());
            assert(views(r@) =~= Seq::empty());
        }
        while i < schemas.len()
            invariant
                i <= schemas.len(),
                q == views(schemas@),
                p == (|s: Seq<char>| tables_if_found(self@, s)),
                views(r@) == gather(q.take(i as int), p),
            decreases schemas.len() - i,
        {
            proof {
                assert(q[i as int] == schemas@[i as int]@);
                assert(q.take(i + 1) =~= q.take(i as int).push(q[i as int]));
                lemma_gather_push(q.take(i as int), q[i as int], p);
            }
            match self.get_schema_by_name(&schemas[i]) {
                Ok(s) => {
                    append_all(&mut r, s.tables_of_kind(TableKind::Table));
                },
                Err(_) => {
                    assert(gather(q.take(i as int), p) + Seq::empty() =~= gather(
                        q.take(i as int),
                        p,
                    ));
                },
            }
            i = i + 1;
        }
        assert(q.take(i as int) =~= q);
        r
    }
}

// ---------------------------------------------------------------------------
// Rows.
// ---------------------------------------------------------------------------

/// The row of an index.
pub open spec fn index_row(i: IndexCatalogModel) -> ShowIndexRowModel {
    ShowIndexRowModel {
        name: i.name,
        on: i.primary_table,
        key: joined(i.index_columns_with_ordering, ", "@),
        included: joined(i.included_columns, ", "@),
        distributed_by: joined(i.distributed_by_columns, ", "@),
    }
}

impl ShowIndexRow {
    pub fn from(index: &IndexCatalog) -> (r: ShowIndexRow)
        ensures
            r@ == index_row(index@),
    {
        ShowIndexRow {
            name: index.name.clone(),
            on: index.primary_table.clone(),
            key: join(&index.index_columns_with_ordering, ", "),
            included: join(&index.included_columns, ", "),
            distributed_by: join(&index.distributed_by_columns, ", "),
        }
    }
}

/// The identifiers at `id`, or none.
pub open spec fn ids_at(m: Map<u32, Seq<u32>>, id: u32) -> Seq<u32> {
    if m.contains_key(id) {
        m[id]
    } else {
        Seq::empty()
    }
}

/// The names of the sources at `ids` that there are.
pub open spec fn source_names(m: Map<u32, SourceCatalogModel>, ids: Seq<u32>) -> Seq<Seq<char>> {
    gather(
        ids,
        |id: u32|
            if m.contains_key(id) {
                seq![m[id].name]
            } else {
                Seq::empty()
            },
    )
}

/// The names of the sinks at `ids` that there are.
pub open spec fn sink_names(m: Map<u32, NamedCatalogModel>, ids: Seq<u32>) -> Seq<Seq<char>> {
    gather(
        ids,
        |id: u32|
            if m.contains_key(id) {
                seq![m[id].name]
            } else {
                Seq::empty()
            },
    )
}

/// The properties of a private link, one on each line, from the JSON texts of its zones and of
/// the names of its sources and sinks.
pub open spec fn link_properties(
    i: PrivateLinkServiceModel,
    zones: Seq<char>,
    sources: Seq<char>,
    sinks: Seq<char>,
) -> Seq<char> {
    "provider: "@ + i.provider + "\nservice_name: "@ + i.service_name + "\nendpoint_id: "@
        + i.endpoint_id + "\navailability_zones: "@ + zones + "\nsources: "@ + sources
        + "\nsinks: "@ + sinks
}

/// The row of a connection.
pub open spec fn connection_row(s: SchemaCatalogModel, c: ConnectionCatalogModel) -> ShowConnectionRowModel {
    ShowConnectionRowModel {
        name: c.name,
        type_text: "privatelink"@,
        properties: link_properties(
            c.info,
            json_of(c.info.dns_zones),
            json_of(source_names(s.sources, ids_at(s.connection_sources, c.id))),
            json_of(sink_names(s.sinks, ids_at(s.connection_sinks, c.id))),
        ),
    }
}

fn ids_or_none(m: &IdMap<List<u32>>, id: u32) -> (r: List<u32>)
    ensures
        r@ == ids_at(m@, id),
{
    match m.get(id) {
        Some(list) => list.duplicate(),
        None => List::empty(),
    }
}

fn list_source_names(m: &IdMap<SourceCatalog>, ids: List<u32>) -> (r: Vec<String>)
    ensures
        views(r@) == source_names(m@, ids@),
{
    let ghost q = ids@;
    let ghost p = |id: u32|
        if m@.contains_key(id) {
            seq![m@[id].name]
        } else {
            Seq::empty()
        };
    let mut r: Vec<String> = Vec::new();
    let mut i: usize = 0;
    proof {
        assert(q.take(0) =~= Seq::empty());
        assert(views(r@) =~= Seq::empty());
    }
    while i < ids.items.len()
        invariant
            i <= ids.items.len(),
            q == ids@,
            p == (|id: u32|
                if m@.contains_key(id) {
                    seq![m@[id].name]
                } else {
                    Seq::empty()
                }),
            views(r@) == gather(q.take(i as int), p),
        decreases ids.items.len() - i,
    {
        let id: u32 = ids.items[i];
        let ghost before = r@;
        proof {
            assert(q[i as int] == id);
            assert(q.take(i + 1) =~= q.take(i as int).push(id));
            lemma_gather_push(q.take(i as int), id, p);
        }
        match m.get(id) {
            Some(source) => {
                r.push(source.name.clone());
                assert(views(r@) =~= views(before) + seq![m@[id].name]);
            },
            None => {
                assert(views(r@) =~= views(before) + Seq::empty());
            },
        }
        i = i + 1;
    }
    assert(q.take(i as int) =~= q);
    r
}

fn list_sink_names(m: &IdMap<NamedCatalog>, ids: List<u32>) -> (r: Vec<String>)
    ensures
        views(r@) == sink_names(m@, ids@),
{
    let ghost q = ids@;
    let ghost p = |id: u32|
        if m@.contains_key(id) {
            seq![m@[id].name]
        } else {
            Seq::empty()
        };
    let mut r: Vec<String> = Vec::new();
    let mut i: usize = 0;
    proof {
        assert(q.take(0) =~= Seq::empty());
        assert(views(r@) =~= Seq::empty());
    }
    while i < ids.items.len()
        invariant
            i <= ids.items.len(),
            q == ids@,
            p == (|id: u32|
                if m@.contains_key(id) {
                    seq![m@[id].name]
                } else {
                    Seq::empty()
                }),
            views(r@) == gather(q.take(i as int), p),
        decreases ids.items.len() - i,
    {
        let id: u32 = ids.items[i];
        let ghost before = r@;
        proof {
            assert(q[i as int] == id);
            assert(q.take(i + 1) =~= q.take(i as int).push(id));
            lemma_gather_push(q.take(i as int), id, p);
        }
        match m.get(id) {
            Some(sink) => {
                r.push(sink.name.clone());
                assert(views(r@) =~= views(before) + seq![m@[id].name]);
            },
            None => {
                assert(views(r@) =~= views(before) + Seq::empty());
            },
        }
        i = i + 1;
    }
    assert(q.take(i as int) =~= q);
    r
}

/// The properties of a private link, one on each line, from the JSON texts of its zones and of
/// the names of its sources and sinks.
pub fn show_private_link(
    info: &PrivateLinkService,
    zones: &str,
    sources: &str,
    sinks: &str,
) -> (r: String)
    ensures
        r@ == link_properties(info@, zones@, sources@, sinks@),
{
    let mut s = String::new();
    s.append("provider: ");
    s.append(info.provider.as_str());
    s.append("\nservice_name: ");
    s.append(info.service_name.as_str());
    s.append("\nendpoint_id: ");
    s.append(info.endpoint_id.as_str());
    s.append("\navailability_zones: ");
    s.append(zones);
    s.append("\nsources: ");
    s.append(sources);
    s.append("\nsinks: ");
    s.append(sinks);
    assert(s@ =~= link_properties(info@, zones@, sources@, sinks@));
    s
}

impl SchemaCatalog {
    fn show_connection(&self, connection: &ConnectionCatalog) -> (r: ShowConnectionRow)
        ensures
            r@ == connection_row(self@, connection@),
    {
        let sources = list_source_names(
            &self.sources,
            ids_or_none(&self.connection_sources, connection.id),
        );
        let sinks = list_sink_names(
            &self.sinks,
            ids_or_none(&self.connection_sinks, connection.id),
        );
        let zones = json_text(&connection.info.dns_zones);
        let sources = json_text(&sources);
        let sinks = json_text(&sinks);
        ShowConnectionRow {
            name: connection.name.clone(),
            type_text: String::from_str("privatelink"),
            properties: show_private_link(
                &connection.info,
                zones.as_str(),
                sources.as_str(),
                sinks.as_str(),
            ),
        }
    }
}

/// The row of a function.
pub open spec fn function_row(f: FunctionCatalogModel) -> ShowFunctionRowModel {
    ShowFunctionRowModel {
        name: f.name,
        arguments: joined(f.arg_types, ", "@),
        return_type: f.return_type,
        language: f.language,
        link: f.link,
    }
}

/// The row of a node of the cluster.
pub open spec fn cluster_row(w: WorkerNodeModel) -> ShowClusterRowModel {
    ShowClusterRowModel {
        id: w.id,
        addr: w.host + ":"@ + decimal(w.port as nat),
        type_text: w.worker_type,
        state: w.state,
        parallelism: w.parallelism,
        is_streaming: match w.property {
            Some(p) => Some(p.is_streaming),
            None => None,
        },
        is_serving: match w.property {
            Some(p) => Some(p.is_serving),
            None => None,
        },
        is_unschedulable: match w.property {
            Some(p) => Some(p.is_unschedulable),
            None => None,
        },
        started_at: w.started_at,
    }
}

fn show_worker(w: &WorkerNode) -> (r: ShowClusterRow)
    ensures
        r@ == cluster_row(w@),
{
    let mut addr = w.host.clone();
    addr.append(":");
    append_decimal(&mut addr, w.port as u64);
    let (is_streaming, is_serving, is_unschedulable) = match &w.property {
        Some(p) => (Some(p.is_streaming), Some(p.is_serving), Some(p.is_unschedulable)),
        None => (None, None, None),
    };
    ShowClusterRow {
        id: w.id,
        addr,
        type_text: w.worker_type.clone(),
        state: w.state.clone(),
        parallelism: w.parallelism,
        is_streaming,
        is_serving,
        is_unschedulable,
        started_at: w.started_at,
    }
}

/// `s` holds the elements of `q` ordered by their identifiers; those with the same identifier
/// keep their order.
pub open spec fn sorted_by_id(q: Seq<WorkerNodeModel>, s: Seq<WorkerNodeModel>) -> bool {
    &&& forall|i: int, j: int| 0 <= i <= j < s.len() ==> (#[trigger] s[i]).id <= (#[trigger] s[j]).id
    &&& forall|id: u32| #[trigger] with_id(s, id) == with_id(q, id)
}

/// The elements of `q` with this identifier.
pub open spec fn with_id(q: Seq<WorkerNodeModel>, id: u32) -> Seq<WorkerNodeModel> {
    q.filter(|w: WorkerNodeModel| w.id == id)
}

/// Two lists that are ordered by the identifiers, and hold the same elements of each identifier in
/// the same order, are the same.
proof fn lemma_same_order(a: Seq<WorkerNodeModel>, b: Seq<WorkerNodeModel>)
    requires
        forall|i: int, j: int| 0 <= i <= j < a.len() ==> (#[trigger] a[i]).id <= (#[trigger] a[j]).id,
        forall|i: int, j: int| 0 <= i <= j < b.len() ==> (#[trigger] b[i]).id <= (#[trigger] b[j]).id,
        forall|id: u32| #[trigger] with_id(a, id) == with_id(b, id),
    ensures
        a == b,
    decreases a.len(),
{
    reveal(Seq::filter);
    if a.len() == 0 || b.len() == 0 {
        if a.len() > 0 {
            assert(with_id(a, a.last().id).len() > 0);
            assert(with_id(b, a.last().id).len() == 0);
        }
        if b.len() > 0 {
            assert(with_id(b, b.last().id).len() > 0);
            assert(with_id(a, b.last().id).len() == 0);
        }
        assert(a =~= b);
    } else {
        let x = a.last();
        let y = b.last();
        assert(with_id(a, x.id) == with_id(a.drop_last(), x.id).push(x));
        assert(with_id(b, y.id) == with_id(b.drop_last(), y.id).push(y));
        lemma_has_id(b, x.id);
        lemma_has_id(a, y.id);
        assert(x.id == y.id);
        assert(with_id(a, x.id).last() == x);
        assert(with_id(b, x.id).last() == y);
        assert forall|id: u32| #[trigger]
            with_id(a.drop_last(), id) == with_id(b.drop_last(), id) by {
            assert(with_id(a, id) == with_id(b, id));
            if id == x.id {
                assert(with_id(a, id).drop_last() =~= with_id(a.drop_last(), id));
                assert(with_id(b, id).drop_last() =~= with_id(b.drop_last(), id));
            }
        }
        lemma_same_order(a.drop_last(), b.drop_last());
        assert(a =~= a.drop_last().push(x));
        assert(b =~= b.drop_last().push(y));
    }
}

/// Where there are elements with an identifier, one of them stands in the list.
proof fn lemma_has_id(q: Seq<WorkerNodeModel>, id: u32)
    ensures
        with_id(q, id).len() > 0 ==> exists|i: int| 0 <= i < q.len() && (#[trigger] q[i]).id == id,
    decreases q.len(),
{
    reveal(Seq::filter);
    if q.len() > 0 {
        lemma_has_id(q.drop_last(), id);
        if with_id(q, id).len() > 0 {
            if q.last().id == id {
                assert(q[q.len() - 1].id == id);
            } else {
                let i = choose|i: int|
                    0 <= i < q.drop_last().len() && (#[trigger] q.drop_last()[i]).id == id;
                assert(q[i].id == id);
            }
        }
    }
}

/// The nodes have one order by their identifiers: what is shown of a cluster is fixed.
pub proof fn law_cluster_order_is_fixed(
    q: Seq<WorkerNodeModel>,
    a: Seq<WorkerNodeModel>,
    b: Seq<WorkerNodeModel>,
)
    requires
        sorted_by_id(q, a),
        sorted_by_id(q, b),
    ensures
        a == b,
{
    assert forall|id: u32| #[trigger] with_id(a, id) == with_id(b, id) by {
        assert(with_id(a, id) == with_id(q, id));
        assert(with_id(b, id) == with_id(q, id));
    }
    lemma_same_order(a, b);
}

/// Calls `itertools::Itertools::sorted_by_key` with the identifier as the key: it sorts by it and
/// keeps the order of those that share one.
#[verifier::external_body]
fn sort_by_id(workers: Vec<WorkerNode>) -> (r: Vec<WorkerNode>)
    ensures
        sorted_by_id(views(workers@), views(r@)),
{
    workers.into_iter().sorted_by_key(|w| w.id).collect()
}

/// The row of a statement that changes the catalog.
pub open spec fn job_row(j: DdlProgressModel) -> ShowJobRowModel {
    ShowJobRowModel { id: j.id, statement: j.statement, progress: j.progress }
}

/// The row of a session.
pub open spec fn process_row(s: SessionInfoModel) -> ShowProcessListRowModel {
    ShowProcessListRowModel {
        id: decimal(s.process_id as nat),
        user: s.user_name,
        host: s.peer_addr,
        database: s.database,
        time: match s.elapsed_millis {
            Some(millis) => Some(decimal(millis as nat) + "ms"@),
            None => None,
        },
        info: s.running_sql,
    }
}

fn show_session(s: &SessionInfo) -> (r: ShowProcessListRow)
    ensures
        r@ == process_row(s@),
{
    let time = match s.elapsed_millis {
        Some(millis) => {
            let mut t = decimal_text(millis);
            t.append("ms");
            Some(t)
        },
        None => None,
    };
    ShowProcessListRow {
        id: decimal_text(s.process_id as u64),
        user: s.user_name.clone(),
        host: s.peer_addr.clone(),
        database: s.database.clone(),
        time,
        info: duplicate_opt(&s.running_sql),
    }
}

// ---------------------------------------------------------------------------
// The statements.
// ---------------------------------------------------------------------------

/// The columns of what a name stands for: a table or a source, a sink, or a view.
pub open spec fn columns_found(c: ShowContextModel, name: Seq<char>) -> Result<
    Seq<ColumnCatalogModel>,
    ShowErrorModel,
> {
    match columns_of_relation(c.relation, name) {
        Ok(columns) => Ok(columns),
        Err(_) => match c.sink {
            Ok(columns) => Ok(columns),
            Err(_) => match c.view {
                Ok(fields) => Ok(columns_of_view(fields)),
                Err(_) => Err(ShowErrorModel::not_found("table, source, sink or view"@, name)),
            },
        },
    }
}

/// Names out of the schema that a statement names.
pub open spec fn names_from(
    c: ShowContextModel,
    schema: Option<Seq<char>>,
    p: spec_fn(SchemaCatalogModel) -> Seq<Seq<char>>,
) -> Result<ShowRowsModel, ShowErrorModel> {
    match c.schema(schema_name(schema)) {
        Ok(s) => Ok(ShowRowsModel::Names(p(s))),
        Err(e) => Err(e),
    }
}

/// The answer to a SHOW statement that has no filter. The nodes of the cluster are shown in the
/// order of `sorted`.
pub open spec fn answer(
    c: ShowContextModel,
    command: ShowObjectModel,
    sorted: Seq<WorkerNodeModel>,
) -> Result<ShowRowsModel, ShowErrorModel> {
    match command {
        ShowObjectModel::Table(schema) => Ok(
            ShowRowsModel::Names(
                gather(searched(c.session, schema), |s: Seq<char>| tables_if_found(c, s)),
            ),
        ),
        ShowObjectModel::InternalTable(schema) => names_from(
            c,
            schema,
            |s: SchemaCatalogModel| s.tables_where(of_kind(TableKind::Internal)),
        ),
        ShowObjectModel::Database => Ok(
            ShowRowsModel::Names(
                image(
                    values_at(c.databases, listing(c.databases.dom())),
                    |d: DatabaseCatalogModel| d.name,
                ),
            ),
        ),
        ShowObjectModel::Schema => match c.database() {
            Ok(d) => Ok(
                ShowRowsModel::Names(
                    image(
                        values_at(d.schemas, listing(d.schemas.dom())),
                        |s: SchemaCatalogModel| s.name,
                    ),
                ),
            ),
            Err(e) => Err(e),
        },
        ShowObjectModel::View(schema) => names_from(
            c,
            schema,
            |s: SchemaCatalogModel| names_in(s.views),
        ),
        ShowObjectModel::MaterializedView(schema) => names_from(
            c,
            schema,
            |s: SchemaCatalogModel| s.tables_where(created_mview()),
        ),
        ShowObjectModel::Source(schema) => names_from(
            c,
            schema,
            |s: SchemaCatalogModel|
                image(
                    values_at(s.sources, listing(s.sources.dom())),
                    |x: SourceCatalogModel| x.name,
                ) + c.session.temporary_sources,
        ),
        ShowObjectModel::Sink(schema) => names_from(
            c,
            schema,
            |s: SchemaCatalogModel| names_in(s.sinks),
        ),
        ShowObjectModel::Subscription(schema) => names_from(
            c,
            schema,
            |s: SchemaCatalogModel| names_in(s.subscriptions),
        ),
        ShowObjectModel::Secret(schema) => names_from(
            c,
            schema,
            |s: SchemaCatalogModel|
                image(
                    values_at(s.secrets, listing(s.secrets.dom())),
                    |x: SecretCatalogModel| x.name,
                ),
        ),
        ShowObjectModel::Columns(table) => match columns_found(c, table) {
            Ok(columns) => Ok(
                ShowRowsModel::Columns(
                    gather(columns, |x: ColumnCatalogModel| column_rows(x)),
                ),
            ),
            Err(e) => Err(e),
        },
        ShowObjectModel::Indexes(table) => match indexes_of_relation(c.relation, table) {
            Ok(indexes) => Ok(
                ShowRowsModel::Indexes(image(indexes, |i: IndexCatalogModel| index_row(i))),
            ),
            Err(e) => Err(e),
        },
        ShowObjectModel::Connection(schema) => match c.schema(schema_name(schema)) {
            Ok(s) => Ok(
                ShowRowsModel::Connections(
                    image(
                        values_at(s.connections, listing(s.connections.dom())),
                        |x: ConnectionCatalogModel| connection_row(s, x),
                    ),
                ),
            ),
            Err(e) => Err(e),
        },
        ShowObjectModel::Function(schema) => match c.schema(schema_name(schema)) {
            Ok(s) => Ok(
                ShowRowsModel::Functions(
                    image(
                        values_at(s.functions, listing(s.functions.dom())),
                        |x: FunctionCatalogModel| function_row(x),
                    ),
                ),
            ),
            Err(e) => Err(e),
        },
        ShowObjectModel::Cluster => Ok(
            ShowRowsModel::Cluster(image(sorted, |w: WorkerNodeModel| cluster_row(w))),
        ),
        ShowObjectModel::Jobs => Ok(
            ShowRowsModel::Jobs(image(c.jobs, |j: DdlProgressModel| job_row(j))),
        ),
        ShowObjectModel::ProcessList => Ok(
            ShowRowsModel::Processes(image(c.sessions, |s: SessionInfoModel| process_row(s))),
        ),
        ShowObjectModel::Cursor => Ok(ShowRowsModel::Cursors(c.cursors)),
        ShowObjectModel::SubscriptionCursor => Ok(ShowRowsModel::Cursors(c.cursors)),
    }
}

impl ShowContext {
    fn show_columns(&self, table: &String) -> (r: ShowResult<ShowRows>)
        requires
            self.view is Ok ==> self.view->Ok_0@.len() <= u32::MAX,
        ensures
            match answer(self@, ShowObjectModel::Columns(table@), Seq::empty()) {
                Ok(rows) => r is Ok && r->Ok_0@ == rows,
                Err(e) => r is Err && r->Err_0@ == e,
            },
    {
        let columns = match get_columns_from_table(&self.relation, table) {
            Ok(columns) => columns,
            Err(_) => match get_columns_from_sink(&self.sink) {
                Ok(columns) => columns,
                Err(_) => match get_columns_from_view(&self.view) {
                    Ok(columns) => columns,
                    Err(_) => {
                        return Err(ShowError::not_found("table, source, sink or view", table));
                    },
                },
            },
        };
        let ghost q = views(columns@);
        let ghost p = |x: ColumnCatalogModel| column_rows(x);
        let mut rows: Vec<ShowColumnRow> = Vec::new();
        let mut i: usize = 0;
        proof {
            assert(q.take(0) =~= Seq::empty());
            assert(views(rows@) =~= Seq::empty());
        }
        while i < columns.len()
            invariant
                i <= columns.len(),
                q == views(columns@),
                p == (|x: ColumnCatalogModel| column_rows(x)),
                views(rows@) == gather(q.take(i as int), p),
            decreases columns.len() - i,
        {
            proof {
                assert(q[i as int] == columns@[i as int]@);
                assert(q.take(i + 1) =~= q.take(i as int).push(q[i as int]));
                lemma_gather_push(q.take(i as int), q[i as int], p);
            }
            append_all(&mut rows, ShowColumnRow::from_catalog(columns[i].duplicate()));
            i = i + 1;
        }
        assert(q.take(i as int) =~= q);
        Ok(ShowRows::Columns(rows))
    }

    fn show_connections(&self, schema: &Option<String>) -> (r: ShowResult<ShowRows>)
        ensures
            match answer(self@, ShowObjectModel::Connection(opt_view(*schema)), Seq::empty()) {
                Ok(rows) => r is Ok && r->Ok_0@ == rows,
                Err(e) => r is Err && r->Err_0@ == e,
            },
    {
        match self.get_schema_by_name(&schema_or_default(schema)) {
            Err(e) => Err(e),
            Ok(s) => {
                let f = |x: &ConnectionCatalog| -> (y: ShowConnectionRow)
                    ensures
                        y@ == connection_row(s@, x@),
                {
                    s.show_connection(x)
                };
                let rows = map_all(
                    &s.connections.values(),
                    f,
                    Ghost(|x: ConnectionCatalogModel| connection_row(s@, x)),
                );
                Ok(ShowRows::Connections(rows))
            },
        }
    }

    fn show_functions(&self, schema: &Option<String>) -> (r: ShowResult<ShowRows>)
        ensures
            match answer(self@, ShowObjectModel::Function(opt_view(*schema)), Seq::empty()) {
                Ok(rows) => r is Ok && r->Ok_0@ == rows,
                Err(e) => r is Err && r->Err_0@ == e,
            },
    {
        match self.get_schema_by_name(&schema_or_default(schema)) {
            Err(e) => Err(e),
            Ok(s) => {
                let f = |x: &FunctionCatalog| -> (y: ShowFunctionRow)
                    ensures
                        y@ == function_row(x@),
                {
                    ShowFunctionRow {
                        name: x.name.clone(),
                        arguments: join(&x.arg_types, ", "),
                        return_type: x.return_type.clone(),
                        language: x.language.clone(),
                        link: duplicate_opt(&x.link),
                    }
                };
                let rows = map_all(
                    &s.functions.values(),
                    f,
                    Ghost(|x: FunctionCatalogModel| function_row(x)),
                );
                Ok(ShowRows::Functions(rows))
            },
        }
    }

    fn show_sources(&self, schema: &Option<String>) -> (r: ShowResult<ShowRows>)
        ensures
            match answer(self@, ShowObjectModel::Source(opt_view(*schema)), Seq::empty()) {
                Ok(rows) => r is Ok && r->Ok_0@ == rows,
                Err(e) => r is Err && r->Err_0@ == e,
            },
    {
        match self.get_schema_by_name(&schema_or_default(schema)) {
            Err(e) => Err(e),
            Ok(s) => {
                let f = |x: &SourceCatalog| -> (y: String)
                    ensures
                        y@ == x@.name,
                {
                    x.name.clone()
                };
                let mut names = map_all(
                    &s.sources.values(),
                    f,
                    Ghost(|x: SourceCatalogModel| x.name),
                );
                append_all(&mut names, duplicate_all(&self.session.temporary_sources));
                Ok(ShowRows::Names(names))
            },
        }
    }

    /// Names out of the schema that a statement names.
    fn show_names(&self, command: &ShowObject, schema: &Option<String>) -> (r: ShowResult<ShowRows>)
        requires
            command@ == ShowObjectModel::InternalTable(opt_view(*schema)) || command@
                == ShowObjectModel::View(opt_view(*schema)) || command@
                == ShowObjectModel::MaterializedView(opt_view(*schema)) || command@
                == ShowObjectModel::Sink(opt_view(*schema)) || command@
                == ShowObjectModel::Subscription(opt_view(*schema)) || command@
                == ShowObjectModel::Secret(opt_view(*schema)),
        ensures
            match answer(self@, command@, Seq::empty()) {
                Ok(rows) => r is Ok && r->Ok_0@ == rows,
                Err(e) => r is Err && r->Err_0@ == e,
            },
    {
        let s = match self.get_schema_by_name(&schema_or_default(schema)) {
            Err(e) => {
                return Err(e);
            },
            Ok(s) => s,
        };
        let names = match command {
            ShowObject::InternalTable(_) => s.tables_of_kind(TableKind::Internal),
            ShowObject::View(_) => names_of(&s.views),
            ShowObject::MaterializedView(_) => s.created_mviews(),
            ShowObject::Sink(_) => names_of(&s.sinks),
            ShowObject::Subscription(_) => names_of(&s.subscriptions),
            _ => {
                let f = |x: &SecretCatalog| -> (y: String)
                    ensures
                        y@ == x@.name,
                {
                    x.name.clone()
                };
                map_all(&s.secrets.values(), f, Ghost(|x: SecretCatalogModel| x.name))
            },
        };
        Ok(ShowRows::Names(names))
    }
}

/// Answers a SHOW statement. A filter with a condition is refused; of the other filters only the
/// names that match are to be kept, which [`keep_matching`] does once they were held against the
/// pattern.
pub fn handle_show_object(
    ctx: &ShowContext,
    command: ShowObject,
    filter: &Option<ShowStatementFilter>,
) -> (r: ShowResult<ShowRows>)
    requires
        ctx.view is Ok ==> ctx.view->Ok_0@.len() <= u32::MAX,
    ensures
        match opt_view(*filter) {
            Some(ShowStatementFilterModel::Where) => r is Err && r->Err_0@
                == ShowErrorModel::NotImplemented("WHERE clause in SHOW statement"@),
            _ => exists|sorted: Seq<WorkerNodeModel>| #[trigger]
                sorted_by_id(ctx@.workers, sorted) && match answer(ctx@, command@, sorted) {
                    Ok(rows) => r is Ok && r->Ok_0@ == rows,
                    Err(e) => r is Err && r->Err_0@ == e,
                },
        },
{
    match filter {
        Some(ShowStatementFilter::Where) => {
            return Err(
                ShowError::NotImplemented(String::from_str("WHERE clause in SHOW statement")),
            );
        },
        _ => {},
    }
    let workers = sort_by_id(duplicate_all(&ctx.workers));
    assert(sorted_by_id(ctx@.workers, views(workers@)));
    match &command {
        ShowObject::Table(schema) => Ok(ShowRows::Names(ctx.searched_tables(schema))),
        ShowObject::InternalTable(schema) => ctx.show_names(&command, schema),
        ShowObject::Database => {
            let f = |x: &DatabaseCatalog| -> (y: String)
                ensures
                    y@ == x@.name,
            {
                x.name.clone()
            };
            Ok(
                ShowRows::Names(
                    map_all(
                        &ctx.databases.values(),
                        f,
                        Ghost(|d: DatabaseCatalogModel| d.name),
                    ),
                ),
            )
        },
        ShowObject::Schema => match ctx.get_database() {
            Err(e) => Err(e),
            Ok(d) => {
                let f = |x: &SchemaCatalog| -> (y: String)
                    ensures
                        y@ == x@.name,
                {
                    x.name.clone()
                };
                Ok(
                    ShowRows::Names(
                        map_all(&d.schemas.values(), f, Ghost(|s: SchemaCatalogModel| s.name)),
                    ),
                )
            },
        },
        ShowObject::View(schema) => ctx.show_names(&command, schema),
        ShowObject::MaterializedView(schema) => ctx.show_names(&command, schema),
        ShowObject::Source(schema) => ctx.show_sources(schema),
        ShowObject::Sink(schema) => ctx.show_names(&command, schema),
        ShowObject::Subscription(schema) => ctx.show_names(&command, schema),
        ShowObject::Secret(schema) => ctx.show_names(&command, schema),
        ShowObject::Columns(table) => ctx.show_columns(table),
        ShowObject::Indexes(table) => match get_indexes_from_table(&ctx.relation, table) {
            Err(e) => Err(e),
            Ok(indexes) => {
                let f = |x: &IndexCatalog| -> (y: ShowIndexRow)
                    ensures
                        y@ == index_row(x@),
                {
                    ShowIndexRow::from(x)
                };
                Ok(
                    ShowRows::Indexes(
                        map_all(&indexes, f, Ghost(|i: IndexCatalogModel| index_row(i))),
                    ),
                )
            },
        },
        ShowObject::Connection(schema) => ctx.show_connections(schema),
        ShowObject::Function(schema) => ctx.show_functions(schema),
        ShowObject::Cluster => {
            let f = |x: &WorkerNode| -> (y: ShowClusterRow)
                ensures
                    y@ == cluster_row(x@),
            {
                show_worker(x)
            };
            Ok(
                ShowRows::Cluster(
                    map_all(&workers, f, Ghost(|w: WorkerNodeModel| cluster_row(w))),
                ),
            )
        },
        ShowObject::Jobs => {
            let f = |x: &DdlProgress| -> (y: ShowJobRow)
                ensures
                    y@ == job_row(x@),
            {
                ShowJobRow {
                    id: x.id,
                    statement: x.statement.clone(),
                    progress: x.progress.clone(),
                }
            };
            Ok(ShowRows::Jobs(map_all(&ctx.jobs, f, Ghost(|j: DdlProgressModel| job_row(j)))))
        },
        ShowObject::ProcessList => {
            let f = |x: &SessionInfo| -> (y: ShowProcessListRow)
                ensures
                    y@ == process_row(x@),
            {
                show_session(x)
            };
            Ok(
                ShowRows::Processes(
                    map_all(&ctx.sessions, f, Ghost(|s: SessionInfoModel| process_row(s))),
                ),
            )
        },
        ShowObject::Cursor => Ok(ShowRows::Cursors(duplicate_all(&ctx.cursors))),
        ShowObject::SubscriptionCursor => Ok(ShowRows::Cursors(duplicate_all(&ctx.cursors))),
    }
}

/// The names at which `verdicts` is true, as rows.
pub open spec fn matching(names: Seq<Seq<char>>, verdicts: Seq<bool>) -> Seq<ShowObjectRowModel>
    decreases names.len(),
{
    if names.len() == 0 {
        Seq::empty()
    } else {
        let before = matching(names.drop_last(), verdicts);
        if verdicts[names.len() - 1] {
            before.push(ShowObjectRowModel { name: names.last() })
        } else {
            before
        }
    }
}

/// The names that match the pattern, as rows: of each name `verdicts` tells whether it does.
/// Without a pattern all names are kept.
pub fn keep_matching(names: Vec<String>, verdicts: &Option<Vec<bool>>) -> (r: Vec<ShowObjectRow>)
    requires
        verdicts is Some ==> verdicts->0@.len() == names@.len(),
    ensures
        views(r@) == match verdicts {
            Some(v) => matching(views(names@), v@),
            None => image(views(names@), |name: Seq<char>| ShowObjectRowModel { name }),
        },
{
    let ghost q = views(names@);
    match verdicts {
        None => {
            let f = |x: &String| -> (y: ShowObjectRow)
                ensures
                    y@ == (ShowObjectRowModel { name: x@ }),
            {
                ShowObjectRow { name: x.clone() }
            };
            map_all(&names, f, Ghost(|name: Seq<char>| ShowObjectRowModel { name }))
        },
        Some(v) => {
            let mut r: Vec<ShowObjectRow> = Vec::new();
            let mut i: usize = 0;
            proof {
                assert(q.take(0) =~= Seq::empty());
                assert(views(r@) =~= Seq::empty());
            }
            while i < names.len()
                invariant
                    i <= names.len(),
                    q == views(names@),
                    v@.len() == names@.len(),
                    views(r@) == matching(q.take(i as int), v@),
                decreases names.len() - i,
            {
                let ghost before = r@;
                proof {
                    assert(q.take(i + 1).drop_last() =~= q.take(i as int));
                    assert(q.take(i + 1).last() == names@[i as int]@);
                }
                if v[i] {
                    r.push(ShowObjectRow { name: names[i].clone() });
                    assert(views(r@) =~= views(before).push(
                        ShowObjectRowModel { name: names@[i as int]@ },
                    ));
                }
                i = i + 1;
            }
            assert(q.take(i as int) =~= q);
            r
        },
    }
}

} // verus!
