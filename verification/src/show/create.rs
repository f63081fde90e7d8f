//! The SHOW CREATE statements, and the heads of all answers.

use vstd::prelude::*;
use vstd::string::*;

use crate::show::handler::{first_of, schema_name, schema_or_default, ShowContext, ShowContextModel};
use crate::show::rows::{
    FieldDesc, FieldDescModel, FieldKind, ShowCreateObjectRow, ShowCreateObjectRowModel,
};
use crate::show::types::{
    NamedCatalog, NamedCatalogModel, SchemaCatalog, SchemaCatalogModel, ShowCreateType, ShowError,
    ShowErrorModel, ShowObject, ShowObjectModel, ShowResult, SourceCatalog, SourceCatalogModel,
    TableCatalog, TableCatalogModel, TableKind,
};
use crate::util::id_map::{opt_view, values_where, views, IdMap};
use crate::util::text::join3;

verus! {

/// Which rows an answer has.
#[derive(Debug, Clone, Copy, PartialEq, Eq, Structural)]
pub enum RowKind {
    Object,
    Column,
    Connection,
    Function,
    Index,
    Cluster,
    Job,
    ProcessList,
    CreateObject,
}

/// The heads of the columns of an answer.
pub open spec fn heads(kind: RowKind) -> Seq<FieldDescModel> {
    match kind {
        RowKind::Object => seq![
            FieldDescModel { name: "Name"@, kind: FieldKind::Varchar },
        ],
        RowKind::Column => seq![
            FieldDescModel { name: "Name"@, kind: FieldKind::Varchar },
            FieldDescModel { name: "Type"@, kind: FieldKind::Varchar },
            FieldDescModel { name: "Is Hidden"@, kind: FieldKind::Varchar },
            FieldDescModel { name: "Description"@, kind: FieldKind::Varchar },
        ],
        RowKind::Connection => seq![
            FieldDescModel { name: "Name"@, kind: FieldKind::Varchar },
            FieldDescModel { name: "Type"@, kind: FieldKind::Varchar },
            FieldDescModel { name: "Properties"@, kind: FieldKind::Varchar },
        ],
        RowKind::Function => seq![
            FieldDescModel { name: "Name"@, kind: FieldKind::Varchar },
            FieldDescModel { name: "Arguments"@, kind: FieldKind::Varchar },
            FieldDescModel { name: "Return Type"@, kind: FieldKind::Varchar },
            FieldDescModel { name: "Language"@, kind: FieldKind::Varchar },
            FieldDescModel { name: "Link"@, kind: FieldKind::Varchar },
        ],
        RowKind::Index => seq![
            FieldDescModel { name: "Name"@, kind: FieldKind::Varchar },
            FieldDescModel { name: "On"@, kind: FieldKind::Varchar },
            FieldDescModel { name: "Key"@, kind: FieldKind::Varchar },
            FieldDescModel { name: "Include"@, kind: FieldKind::Varchar },
            FieldDescModel { name: "Distributed By"@, kind: FieldKind::Varchar },
        ],
        RowKind::Cluster => seq![
            FieldDescModel { name: "Id"@, kind: FieldKind::Int },
            FieldDescModel { name: "Addr"@, kind: FieldKind::Varchar },
            FieldDescModel { name: "Type"@, kind: FieldKind::Varchar },
            FieldDescModel { name: "State"@, kind: FieldKind::Varchar },
            FieldDescModel { name: "Parallelism"@, kind: FieldKind::Int },
            FieldDescModel { name: "Is Streaming"@, kind: FieldKind::Boolean },
            FieldDescModel { name: "Is Serving"@, kind: FieldKind::Boolean },
            FieldDescModel { name: "Is Unschedulable"@, kind: FieldKind::Boolean },
            FieldDescModel { name: "Started At"@, kind: FieldKind::Timestamptz },
        ],
        RowKind::Job => seq![
            FieldDescModel { name: "Id"@, kind: FieldKind::BigInt },
            FieldDescModel { name: "Statement"@, kind: FieldKind::Varchar },
            FieldDescModel { name: "Progress"@, kind: FieldKind::Varchar },
        ],
        RowKind::ProcessList => seq![
            FieldDescModel { name: "Id"@, kind: FieldKind::Varchar },
            FieldDescModel { name: "User"@, kind: FieldKind::Varchar },
            FieldDescModel { name: "Host"@, kind: FieldKind::Varchar },
            FieldDescModel { name: "Database"@, kind: FieldKind::Varchar },
            FieldDescModel { name: "Time"@, kind: FieldKind::Varchar },
            FieldDescModel { name: "Info"@, kind: FieldKind::Varchar },
        ],
        RowKind::CreateObject => seq![
            FieldDescModel { name: "Name"@, kind: FieldKind::Varchar },
            FieldDescModel { name: "Create Sql"@, kind: FieldKind::Varchar },
        ],
    }
}

fn put_head(r: &mut Vec<FieldDesc>, name: &str, kind: FieldKind)
    ensures
        views(final(r)@) == views(old(r)@).push(FieldDescModel { name: name@, kind }),
{
    r.push(FieldDesc { name: String::from_str(name), kind });
    assert(views(r@) =~= views(old(r)@).push(FieldDescModel { name: name@, kind }));
}

/// The heads of the columns of an answer.
pub fn heads_of(kind: RowKind) -> (r: Vec<FieldDesc>)
    ensures
        views(r@) == heads(kind),
{
    let mut r: Vec<FieldDesc> = Vec::new();
    assert(views(r@) =~= Seq::empty());
    match kind {
        RowKind::Object => {
            put_head(&mut r, "Name", FieldKind::Varchar);
        },
        RowKind::Column => {
            put_head(&mut r, "Name", FieldKind::Varchar);
            put_head(&mut r, "Type", FieldKind::Varchar);
            put_head(&mut r, "Is Hidden", FieldKind::Varchar);
            put_head(&mut r, "Description", FieldKind::Varchar);
        },
        RowKind::Connection => {
            put_head(&mut r, "Name", FieldKind::Varchar);
            put_head(&mut r, "Type", FieldKind::Varchar);
            put_head(&mut r, "Properties", FieldKind::Varchar);
        },
        RowKind::Function => {
            put_head(&mut r, "Name", FieldKind::Varchar);
            put_head(&mut r, "Arguments", FieldKind::Varchar);
            put_head(&mut r, "Return Type", FieldKind::Varchar);
            put_head(&mut r, "Language", FieldKind::Varchar);
            put_head(&mut r, "Link", FieldKind::Varchar);
        },
        RowKind::Index => {
            put_head(&mut r, "Name", FieldKind::Varchar);
            put_head(&mut r, "On", FieldKind::Varchar);
            put_head(&mut r, "Key", FieldKind::Varchar);
            put_head(&mut r, "Include", FieldKind::Varchar);
            put_head(&mut r, "Distributed By", FieldKind::Varchar);
        },
        RowKind::Cluster => {
            put_head(&mut r, "Id", FieldKind::Int);
            put_head(&mut r, "Addr", FieldKind::Varchar);
            put_head(&mut r, "Type", FieldKind::Varchar);
            put_head(&mut r, "State", FieldKind::Varchar);
            put_head(&mut r, "Parallelism", FieldKind::Int);
            put_head(&mut r, "Is Streaming", FieldKind::Boolean);
            put_head(&mut r, "Is Serving", FieldKind::Boolean);
            put_head(&mut r, "Is Unschedulable", FieldKind::Boolean);
            put_head(&mut r, "Started At", FieldKind::Timestamptz);
        },
        RowKind::Job => {
            put_head(&mut r, "Id", FieldKind::BigInt);
            put_head(&mut r, "Statement", FieldKind::Varchar);
            put_head(&mut r, "Progress", FieldKind::Varchar);
        },
        RowKind::ProcessList => {
            put_head(&mut r, "Id", FieldKind::Varchar);
            put_head(&mut r, "User", FieldKind::Varchar);
            put_head(&mut r, "Host", FieldKind::Varchar);
            put_head(&mut r, "Database", FieldKind::Varchar);
            put_head(&mut r, "Time", FieldKind::Varchar);
            put_head(&mut r, "Info", FieldKind::Varchar);
        },
        RowKind::CreateObject => {
            put_head(&mut r, "Name", FieldKind::Varchar);
            put_head(&mut r, "Create Sql", FieldKind::Varchar);
        },
    }
    assert(views(r@) =~= heads(kind));
    r
}

/// Which rows the answer to a SHOW statement has.
pub open spec fn row_kind(objects: ShowObjectModel) -> RowKind {
    match objects {
        ShowObjectModel::Columns(_) => RowKind::Column,
        ShowObjectModel::Connection(_) => RowKind::Connection,
        ShowObjectModel::Function(_) => RowKind::Function,
        ShowObjectModel::Indexes(_) => RowKind::Index,
        ShowObjectModel::Cluster => RowKind::Cluster,
        ShowObjectModel::Jobs => RowKind::Job,
        ShowObjectModel::ProcessList => RowKind::ProcessList,
        _ => RowKind::Object,
    }
}

/// Infer the row description for different show objects.
pub fn infer_show_object(objects: &ShowObject) -> (r: Vec<FieldDesc>)
    ensures
        views(r@) == heads(row_kind(objects@)),
{
    heads_of(
        match objects {
            ShowObject::Columns(_) => RowKind::Column,
            ShowObject::Connection(_) => RowKind::Connection,
            ShowObject::Function(_) => RowKind::Function,
            ShowObject::Indexes(_) => RowKind::Index,
            ShowObject::Cluster => RowKind::Cluster,
            ShowObject::Jobs => RowKind::Job,
            ShowObject::ProcessList => RowKind::ProcessList,
            _ => RowKind::Object,
        },
    )
}

pub fn infer_show_create_object() -> (r: Vec<FieldDesc>)
    ensures
        views(r@) == heads(RowKind::CreateObject),
{
    heads_of(RowKind::CreateObject)
}

// ---------------------------------------------------------------------------
// SHOW CREATE.
// ---------------------------------------------------------------------------

/// The statement that creates the finished table `name`, where it is of this kind.
pub open spec fn table_sql(s: SchemaCatalogModel, name: Seq<char>, kind: TableKind) -> Option<Seq<char>> {
    match first_of(values_where(s.tables, |t: TableCatalogModel| t.name == name)) {
        Some(t) => if t.created && t.kind == kind {
            Some(t.create_sql)
        } else {
            None
        },
        None => None,
    }
}

/// The statement that creates the source `name`, where it does not belong to a table.
pub open spec fn source_sql(s: SchemaCatalogModel, name: Seq<char>) -> Option<Seq<char>> {
    match first_of(values_where(s.sources, |x: SourceCatalogModel| x.name == name)) {
        Some(x) => if x.associated_table_id is None {
            Some(x.create_sql)
        } else {
            None
        },
        None => None,
    }
}

/// The statement that creates the object `name`.
pub open spec fn named_sql(m: Map<u32, NamedCatalogModel>, name: Seq<char>) -> Option<Seq<char>> {
    match first_of(values_where(m, |x: NamedCatalogModel| x.name == name)) {
        Some(x) => Some(x.create_sql),
        None => None,
    }
}

/// The word for the kind of an object.
pub open spec fn kind_word(kind: ShowCreateType) -> Seq<char> {
    match kind {
        ShowCreateType::MaterializedView => "materialized view"@,
        ShowCreateType::View => "view"@,
        ShowCreateType::Table => "table"@,
        ShowCreateType::Sink => "sink"@,
        ShowCreateType::Source => "source"@,
        ShowCreateType::Index => "index"@,
        ShowCreateType::Function => "function"@,
        ShowCreateType::Subscription => "subscription"@,
    }
}

/// The statement that creates the object `name` of a schema.
pub open spec fn sql_of(s: SchemaCatalogModel, kind: ShowCreateType, name: Seq<char>) -> Option<Seq<char>> {
    match kind {
        ShowCreateType::MaterializedView => table_sql(s, name, TableKind::MaterializedView),
        ShowCreateType::View => named_sql(s.views, name),
        ShowCreateType::Table => table_sql(s, name, TableKind::Table),
        ShowCreateType::Sink => named_sql(s.sinks, name),
        ShowCreateType::Source => source_sql(s, name),
        ShowCreateType::Index => table_sql(s, name, TableKind::Index),
        ShowCreateType::Function => None,
        ShowCreateType::Subscription => named_sql(s.subscriptions, name),
    }
}

/// The answer to a SHOW CREATE statement on `full_name`, which stands for `object` in `schema`.
pub open spec fn create_answer(
    c: ShowContextModel,
    kind: ShowCreateType,
    full_name: Seq<char>,
    schema: Option<Seq<char>>,
    object: Seq<char>,
) -> Result<ShowCreateObjectRowModel, ShowErrorModel> {
    let schema = schema_name(schema);
    match c.schema(schema) {
        Err(e) => Err(e),
        Ok(s) => if kind == ShowCreateType::Function {
            Err(ShowErrorModel::NotImplemented("show create on: FUNCTION"@))
        } else {
            match sql_of(s, kind, object) {
                Some(create_sql) => Ok(
                    ShowCreateObjectRowModel { name: schema + "."@ + object, create_sql },
                ),
                None => Err(ShowErrorModel::NotFound(kind_word(kind), full_name)),
            }
        },
    }
}

fn word_of(kind: ShowCreateType) -> (r: &'static str)
    ensures
        r@ == kind_word(kind),
{
    match kind {
        ShowCreateType::MaterializedView => "materialized view",
        ShowCreateType::View => "view",
        ShowCreateType::Table => "table",
        ShowCreateType::Sink => "sink",
        ShowCreateType::Source => "source",
        ShowCreateType::Index => "index",
        ShowCreateType::Function => "function",
        ShowCreateType::Subscription => "subscription",
    }
}

fn find_table(s: &SchemaCatalog, name: &String, kind: TableKind) -> (r: Option<String>)
    ensures
        opt_view(r) == table_sql(s@, name@, kind),
{
    let f = |x: &TableCatalog| -> (b: bool)
        ensures
            b == (x@.name == name@),
    {
        x.name == *name
    };
    let found = s.tables.values_where(f, Ghost(|t: TableCatalogModel| t.name == name@));
    if found.len() > 0 {
        assert(views(found@)[0] == found@[0]@);
        if found[0].created && found[0].kind == kind {
            return Some(found[0].create_sql.clone());
        }
    }
    None
}

fn find_source(s: &SchemaCatalog, name: &String) -> (r: Option<String>)
    ensures
        opt_view(r) == source_sql(s@, name@),
{
    let f = |x: &SourceCatalog| -> (b: bool)
        ensures
            b == (x@.name == name@),
    {
        x.name == *name
    };
    let found = s.sources.values_where(f, Ghost(|x: SourceCatalogModel| x.name == name@));
    if found.len() > 0 {
        assert(views(found@)[0] == found@[0]@);
        if found[0].associated_table_id.is_none() {
            return Some(found[0].create_sql.clone());
        }
    }
    None
}

fn find_named(m: &IdMap<NamedCatalog>, name: &String) -> (r: Option<String>)
    ensures
        opt_view(r) == named_sql(m@, name@),
{
    let f = |x: &NamedCatalog| -> (b: bool)
        ensures
            b == (x@.name == name@),
    {
        x.name == *name
    };
    let found = m.values_where(f, Ghost(|x: NamedCatalogModel| x.name == name@));
    if found.len() > 0 {
        assert(views(found@)[0] == found@[0]@);
        return Some(found[0].create_sql.clone());
    }
    None
}

/// Shows the statement that creates an object. `name` is the name in the statement, which was
/// found to stand for `object_name` in the schema `schema_name`.
pub fn handle_show_create_object(
    ctx: &ShowContext,
    show_create_type: ShowCreateType,
    name: &String,
    schema_name: &Option<String>,
    object_name: &String,
) -> (r: ShowResult<ShowCreateObjectRow>)
    ensures
        match create_answer(
            ctx@,
            show_create_type,
            name@,
            opt_view(*schema_name),
            object_name@,
        ) {
            Ok(row) => r is Ok && r->Ok_0@ == row,
            Err(e) => r is Err && r->Err_0@ == e,
        },
{
    let schema_name = schema_or_default(schema_name);
    let schema = match ctx.get_schema_by_name(&schema_name) {
        Ok(schema) => schema,
        Err(e) => {
            return Err(e);
        },
    };
    let sql = match show_create_type {
        ShowCreateType::MaterializedView => find_table(
            &schema,
            object_name,
            TableKind::MaterializedView,
        ),
        ShowCreateType::View => find_named(&schema.views, object_name),
        ShowCreateType::Table => find_table(&schema, object_name, TableKind::Table),
        ShowCreateType::Sink => find_named(&schema.sinks, object_name),
        ShowCreateType::Source => find_source(&schema, object_name),
        ShowCreateType::Index => find_table(&schema, object_name, TableKind::Index),
        ShowCreateType::Function => {
            return Err(ShowError::NotImplemented(String::from_str("show create on: FUNCTION")));
        },
        ShowCreateType::Subscription => find_named(&schema.subscriptions, object_name),
    };
    match sql {
        Some(create_sql) => Ok(
            ShowCreateObjectRow {
                name: join3(schema_name.as_str(), ".", object_name.as_str()),
                create_sql,
            },
        ),
        None => Err(
            ShowError::NotFound(String::from_str(word_of(show_create_type)), name.clone()),
        ),
    }
}

} // verus!
