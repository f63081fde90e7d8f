//! What the rows of the answers hold: every object that is asked for has its row, no other has one,
//! and each row has what it shows in the field of that name.

use vstd::prelude::*;

use crate::show::column::{
    column_rows, desc_of_field, flattened, flattened_all, ColumnCatalogModel, ColumnDescModel,
    FieldModel,
};
use crate::show::create::{
    create_answer, heads, named_sql, row_kind, source_sql, table_sql, RowKind,
};
use crate::show::handler::{
    answer, columns_found, created_mview, first_of, matching, of_kind, schema_name, searched,
    sink_names, sorted_by_id, source_names, tables_if_found, with_id, ShowContextModel,
};
use crate::show::rows::{ShowColumnRowModel, ShowObjectRowModel, ShowRowsModel};
use crate::show::types::{
    DatabaseCatalogModel, NamedCatalogModel, RelationModel, SchemaCatalogModel, SecretCatalogModel,
    ShowCreateType, ShowErrorModel, ShowObjectModel, SourceCatalogModel, TableCatalogModel,
    TableKind, WorkerNodeModel,
};
use crate::util::id_map::{ids_where, lemma_ids_where, values_at, values_where};
use crate::util::ids::{lemma_listing_exists, listing};
use crate::util::lists::{image, lemma_gather_contains};
use crate::util::outside::{joined, json_of};
use crate::util::text::{decimal, lemma_mentions, mentions};

verus! {

// ---------------------------------------------------------------------------
// Rows that show what is handed in, one for one.
// ---------------------------------------------------------------------------

/// There are as many rows of jobs as jobs, and each row has the identifier, the statement and the
/// progress of its job, each in the field of its own name.
pub proof fn law_rows_of_jobs(c: ShowContextModel, sorted: Seq<WorkerNodeModel>)
    ensures
        ({
            let r = answer(c, ShowObjectModel::Jobs, sorted);
            &&& r is Ok
            &&& r->Ok_0 is Jobs
            &&& r->Ok_0->Jobs_0.len() == c.jobs.len()
            &&& forall|i: int|
                0 <= i < c.jobs.len() ==> {
                    let row = #[trigger] r->Ok_0->Jobs_0[i];
                    &&& row.id == c.jobs[i].id
                    &&& row.statement == c.jobs[i].statement
                    &&& row.progress == c.jobs[i].progress
                }
        }),
{
}

/// There are as many rows of processes as sessions, and each row has what is known of its session,
/// each in the field of its own name. The time is shown in milliseconds, where a statement runs.
pub proof fn law_rows_of_processes(c: ShowContextModel, sorted: Seq<WorkerNodeModel>)
    ensures
        ({
            let r = answer(c, ShowObjectModel::ProcessList, sorted);
            &&& r is Ok
            &&& r->Ok_0 is Processes
            &&& r->Ok_0->Processes_0.len() == c.sessions.len()
            &&& forall|i: int|
                0 <= i < c.sessions.len() ==> {
                    let row = #[trigger] r->Ok_0->Processes_0[i];
                    let s = c.sessions[i];
                    &&& row.id == decimal(s.process_id as nat)
                    &&& row.user == s.user_name
                    &&& row.host == s.peer_addr
                    &&& row.database == s.database
                    &&& row.time is Some <==> s.elapsed_millis is Some
                    &&& s.elapsed_millis is Some ==> row.time->0 == decimal(
                        s.elapsed_millis->0 as nat,
                    ) + "ms"@
                    &&& row.info == s.running_sql
                }
        }),
{
}

/// There are as many rows of a cluster as nodes, in the order of their identifiers, and each row has
/// what is known of its node, each in the field of its own name.
pub proof fn law_rows_of_cluster(c: ShowContextModel, sorted: Seq<WorkerNodeModel>)
    requires
        sorted_by_id(c.workers, sorted),
    ensures
        ({
            let r = answer(c, ShowObjectModel::Cluster, sorted);
            &&& r is Ok
            &&& r->Ok_0 is Cluster
            &&& r->Ok_0->Cluster_0.len() == sorted.len()
            &&& forall|i: int, j: int|
                0 <= i <= j < sorted.len() ==> (#[trigger] r->Ok_0->Cluster_0[i]).id <= (
                #[trigger] r->Ok_0->Cluster_0[j]).id
            &&& forall|i: int|
                0 <= i < sorted.len() ==> {
                    let row = #[trigger] r->Ok_0->Cluster_0[i];
                    let w = sorted[i];
                    &&& row.id == w.id
                    &&& row.addr == w.host + ":"@ + decimal(w.port as nat)
                    &&& row.type_text == w.worker_type
                    &&& row.state == w.state
                    &&& row.parallelism == w.parallelism
                    &&& row.started_at == w.started_at
                    &&& w.property is None ==> row.is_streaming is None && row.is_serving is None
                        && row.is_unschedulable is None
                    &&& w.property is Some ==> row.is_streaming == Some(w.property->0.is_streaming)
                        && row.is_serving == Some(w.property->0.is_serving) && row.is_unschedulable
                        == Some(w.property->0.is_unschedulable)
                }
        }),
{
    let rows = answer(c, ShowObjectModel::Cluster, sorted)->Ok_0->Cluster_0;
    assert forall|i: int, j: int| 0 <= i <= j < sorted.len() implies (#[trigger] rows[i]).id <= (
    #[trigger] rows[j]).id by {
        assert(rows[i].id == sorted[i].id);
        assert(rows[j].id == sorted[j].id);
    }
}

/// Every node of a cluster is shown, and nothing else is.
pub proof fn law_cluster_is_whole(q: Seq<WorkerNodeModel>, sorted: Seq<WorkerNodeModel>, w: WorkerNodeModel)
    requires
        sorted_by_id(q, sorted),
    ensures
        sorted.contains(w) <==> q.contains(w),
{
    broadcast use vstd::seq_lib::group_filter_ensures;

    let p = |x: WorkerNodeModel| x.id == w.id;
    assert(with_id(sorted, w.id) == with_id(q, w.id));
    assert(sorted.filter(p) == with_id(sorted, w.id));
    assert(q.filter(p) == with_id(q, w.id));
    if sorted.contains(w) {
        let k = choose|k: int| 0 <= k < sorted.len() && sorted[k] == w;
        assert(sorted.filter(p).contains(sorted[k]));
        q.lemma_filter_contains_rev(p, w);
    }
    if q.contains(w) {
        let k = choose|k: int| 0 <= k < q.len() && q[k] == w;
        assert(q.filter(p).contains(q[k]));
        sorted.lemma_filter_contains_rev(p, w);
    }
}

/// The cursors are shown as they are handed in.
pub proof fn law_rows_of_cursors(c: ShowContextModel, sorted: Seq<WorkerNodeModel>)
    ensures
        answer(c, ShowObjectModel::Cursor, sorted) == Ok::<ShowRowsModel, ShowErrorModel>(
            ShowRowsModel::Cursors(c.cursors),
        ),
        answer(c, ShowObjectModel::SubscriptionCursor, sorted) == Ok::<
            ShowRowsModel,
            ShowErrorModel,
        >(ShowRowsModel::Cursors(c.cursors)),
{
}

/// The indexes of a table are shown in their order, each with its name, its table, its key, the
/// columns that it holds besides and those that it is distributed by; what is no table is not found.
pub proof fn law_rows_of_indexes(c: ShowContextModel, name: Seq<char>, sorted: Seq<WorkerNodeModel>)
    ensures
        ({
            let r = answer(c, ShowObjectModel::Indexes(name), sorted);
            match c.relation {
                Ok(RelationModel::BaseTable(_, indexes)) => {
                    &&& r is Ok
                    &&& r->Ok_0 is Indexes
                    &&& r->Ok_0->Indexes_0.len() == indexes.len()
                    &&& forall|i: int|
                        0 <= i < indexes.len() ==> {
                            let row = #[trigger] r->Ok_0->Indexes_0[i];
                            &&& row.name == indexes[i].name
                            &&& row.on == indexes[i].primary_table
                            &&& row.key == joined(indexes[i].index_columns_with_ordering, ", "@)
                            &&& row.included == joined(indexes[i].included_columns, ", "@)
                            &&& row.distributed_by == joined(
                                indexes[i].distributed_by_columns,
                                ", "@,
                            )
                        }
                },
                Ok(_) => r == Err::<ShowRowsModel, ShowErrorModel>(
                    ShowErrorModel::NotFound("table or source"@, name),
                ),
                Err(e) => r == Err::<ShowRowsModel, ShowErrorModel>(e),
            }
        }),
{
}

// ---------------------------------------------------------------------------
// Columns.
// ---------------------------------------------------------------------------

/// The columns of a table, a source or a system table are those of the relation; where the name is
/// none of these they are those of the sink, and where it is none either those of the view. A name
/// that is nothing of this is not found.
pub proof fn law_columns_come_from_the_first_found(c: ShowContextModel, name: Seq<char>)
    ensures
        ({
            let r = columns_found(c, name);
            &&& c.relation is Ok && c.relation->Ok_0 is Source ==> r == Ok::<
                Seq<ColumnCatalogModel>,
                ShowErrorModel,
            >(c.relation->Ok_0->Source_0)
            &&& c.relation is Ok && c.relation->Ok_0 is BaseTable ==> r == Ok::<
                Seq<ColumnCatalogModel>,
                ShowErrorModel,
            >(c.relation->Ok_0->BaseTable_0)
            &&& c.relation is Ok && c.relation->Ok_0 is SystemTable ==> r == Ok::<
                Seq<ColumnCatalogModel>,
                ShowErrorModel,
            >(c.relation->Ok_0->SystemTable_0)
            &&& (c.relation is Err || c.relation->Ok_0 is Other) ==> {
                &&& c.sink is Ok ==> r == Ok::<Seq<ColumnCatalogModel>, ShowErrorModel>(c.sink->Ok_0)
                &&& c.sink is Err && c.view is Ok ==> {
                    &&& r is Ok
                    &&& r->Ok_0.len() == c.view->Ok_0.len()
                    &&& forall|i: int|
                        0 <= i < c.view->Ok_0.len() ==> {
                            let x = #[trigger] r->Ok_0[i];
                            &&& x.column_desc.name == c.view->Ok_0[i].name
                            &&& x.column_desc.data_type == c.view->Ok_0[i].data_type
                            &&& x.column_desc.type_text == c.view->Ok_0[i].type_text
                            &&& x.column_desc.description is None
                            &&& !x.is_hidden
                            &&& i <= u32::MAX ==> x.column_desc.column_id == i
                        }
                }
                &&& c.sink is Err && c.view is Err ==> r == Err::<
                    Seq<ColumnCatalogModel>,
                    ShowErrorModel,
                >(ShowErrorModel::NotFound("table, source, sink or view"@, name))
            }
        }),
{
}

/// The rows of a column: the first is the column itself under its own name, and each shows whether it
/// is hidden as the column is; a column of a plain type has no other row.
pub proof fn law_rows_of_a_column(c: ColumnCatalogModel)
    ensures
        ({
            let rows = column_rows(c);
            let d = c.column_desc;
            &&& rows.len() >= 1
            &&& rows[0].name == d.name
            &&& rows[0].description == d.description
            &&& d.data_type is Named ==> rows[0].type_text == d.data_type->Named_0
            &&& d.data_type is Struct ==> rows[0].type_text == d.type_text
            &&& d.field_descs.len() == 0 ==> rows.len() == 1
            &&& forall|i: int|
                0 <= i < rows.len() ==> (#[trigger] rows[i]).is_hidden == Some(
                    if c.is_hidden {
                        "true"@
                    } else {
                        "false"@
                    },
                )
        }),
{
    let f = flattened(c.column_desc.name, c.column_desc);
    assert(f[0].name == c.column_desc.name);
}

/// A column of a structure is shown as itself, and behind it come the rows of its fields in their
/// order, each under the name of the column, a dot and its own name.
pub proof fn law_fields_follow_their_column(name: Seq<char>, d: ColumnDescModel, i: int)
    requires
        0 <= i < d.field_descs.len(),
    ensures
        flattened(name, d)[0] == (ColumnDescModel { name, ..d }),
        exists|a: Seq<ColumnDescModel>, b: Seq<ColumnDescModel>|
            flattened(name, d) == seq![ColumnDescModel { name, ..d }] + #[trigger] (a + flattened(
                name + "."@ + d.field_descs[i].name,
                d.field_descs[i],
            ) + b) && a == flattened_all(name, d.field_descs.take(i)),
{
    lemma_fields_in_order(name, d.field_descs, i);
    let part = flattened(name + "."@ + d.field_descs[i].name, d.field_descs[i]);
    let (a, b) = choose|a: Seq<ColumnDescModel>, b: Seq<ColumnDescModel>|
        flattened_all(name, d.field_descs) == #[trigger] (a + part + b) && a == flattened_all(
            name,
            d.field_descs.take(i),
        );
    assert(flattened(name, d) == seq![ColumnDescModel { name, ..d }] + (a + part + b));
}

proof fn lemma_fields_in_order(name: Seq<char>, q: Seq<ColumnDescModel>, i: int)
    requires
        0 <= i < q.len(),
    ensures
        exists|a: Seq<ColumnDescModel>, b: Seq<ColumnDescModel>|
            flattened_all(name, q) == #[trigger] (a + flattened(name + "."@ + q[i].name, q[i]) + b) && a
                == flattened_all(name, q.take(i)),
    decreases q.len(),
{
    let part = flattened(name + "."@ + q[i].name, q[i]);
    if i == q.len() - 1 {
        let a = flattened_all(name, q.drop_last());
        assert(q.take(i) =~= q.drop_last());
        assert(flattened_all(name, q) =~= a + part + Seq::<ColumnDescModel>::empty());
    } else {
        let d = q.drop_last();
        lemma_fields_in_order(name, d, i);
        assert(d[i] == q[i]);
        assert(d.take(i) =~= q.take(i));
        let (a, b) = choose|a: Seq<ColumnDescModel>, b: Seq<ColumnDescModel>|
            flattened_all(name, d) == #[trigger] (a + part + b) && a == flattened_all(
                name,
                d.take(i),
            );
        let more = flattened(name + "."@ + q.last().name, q.last());
        assert(flattened_all(name, q) =~= a + part + (b + more));
    }
}

/// The rows of a relation are those of its columns, and no other.
pub proof fn law_rows_of_columns(
    c: ShowContextModel,
    name: Seq<char>,
    sorted: Seq<WorkerNodeModel>,
    row: ShowColumnRowModel,
)
    ensures
        match columns_found(c, name) {
            Ok(columns) => {
                let r = answer(c, ShowObjectModel::Columns(name), sorted);
                &&& r is Ok
                &&& r->Ok_0 is Columns
                &&& r->Ok_0->Columns_0.contains(row) <==> exists|i: int|
                    0 <= i < columns.len() && column_rows(#[trigger] columns[i]).contains(row)
            },
            Err(e) => answer(c, ShowObjectModel::Columns(name), sorted) == Err::<
                ShowRowsModel,
                ShowErrorModel,
            >(e),
        },
{
    if columns_found(c, name) is Ok {
        let columns = columns_found(c, name)->Ok_0;
        let p = |x: ColumnCatalogModel| column_rows(x);
        lemma_gather_contains(columns, p, row);
        let rows = answer(c, ShowObjectModel::Columns(name), sorted)->Ok_0->Columns_0;
        if rows.contains(row) {
            let i = choose|i: int| 0 <= i < columns.len() && p(#[trigger] columns[i]).contains(row);
            assert(column_rows(columns[i]).contains(row));
        }
        if exists|i: int| 0 <= i < columns.len() && column_rows(#[trigger] columns[i]).contains(row) {
            let i = choose|i: int| 0 <= i < columns.len() && column_rows(#[trigger] columns[i]).contains(row);
            assert(p(columns[i]).contains(row));
        }
    }
}

/// A column of a view is what the field is: its name and its type, without a description, and its
/// fields likewise.
pub proof fn law_column_of_a_field(f: FieldModel, id: u32)
    ensures
        ({
            let d = desc_of_field(f, id);
            &&& d.column_id == id
            &&& d.name == f.name
            &&& d.data_type == f.data_type
            &&& d.type_text == f.type_text
            &&& d.description is None
            &&& d.field_descs.len() == f.sub_fields.len()
            &&& forall|i: int|
                0 <= i < f.sub_fields.len() ==> #[trigger] d.field_descs[i] == desc_of_field(
                    f.sub_fields[i],
                    0,
                )
        }),
{
    lemma_descs(f.sub_fields);
}

proof fn lemma_descs(q: Seq<FieldModel>)
    ensures
        crate::show::column::descs_of_fields(q).len() == q.len(),
        forall|i: int|
            0 <= i < q.len() ==> #[trigger] crate::show::column::descs_of_fields(q)[i]
                == desc_of_field(q[i], 0),
    decreases q.len(),
{
    if q.len() > 0 {
        lemma_descs(q.drop_last());
    }
}

// ---------------------------------------------------------------------------
// Names.
// ---------------------------------------------------------------------------

/// The first of those that are looked for.
proof fn lemma_first_where<V>(m: Map<u32, V>, p: spec_fn(V) -> bool)
    requires
        m.dom().finite(),
    ensures
        match first_of(values_where(m, p)) {
            Some(v) => p(v) && exists|id: u32| #[trigger]
                m.contains_key(id) && m[id] == v && forall|x: u32| #[trigger]
                m.contains_key(x) && p(m[x]) ==> id <= x,
            None => forall|id: u32| #[trigger] m.contains_key(id) ==> !p(m[id]),
        },
{
    lemma_ids_where(m, p);
    let ids = ids_where(m, p);
    if ids.len() > 0 {
        assert(ids.contains(ids[0]));
        assert forall|x: u32| #[trigger] m.contains_key(x) && p(m[x]) implies ids[0] <= x by {
            assert(ids.contains(x));
            let k = choose|k: int| 0 <= k < ids.len() && ids[k] == x;
            assert(k == 0 || ids[0] < ids[k]);
        }
        assert(m.contains_key(ids[0]) && m[ids[0]] == values_where(m, p)[0]);
    } else {
        assert forall|id: u32| #[trigger] m.contains_key(id) implies !p(m[id]) by {
            assert(!ids.contains(id));
        }
    }
}

/// A schema is looked for in the database of the session: it is found exactly where that database is
/// there and has a schema of that name.
pub proof fn law_schema_is_of_the_session(c: ShowContextModel, name: Seq<char>)
    requires
        c.databases.dom().finite(),
        forall|d: u32| #[trigger]
            c.databases.contains_key(d) ==> c.databases[d].schemas.dom().finite(),
    ensures
        match c.database() {
            Ok(d) => d.name == c.session.database && exists|id: u32| #[trigger]
                c.databases.contains_key(id) && c.databases[id] == d,
            Err(e) => e == ShowErrorModel::NotFound("database"@, c.session.database) && forall|id: u32|
             #[trigger]
                c.databases.contains_key(id) ==> c.databases[id].name != c.session.database,
        },
        match c.schema(name) {
            Ok(s) => c.database() is Ok && s.name == name && exists|id: u32| #[trigger]
                c.database()->Ok_0.schemas.contains_key(id) && c.database()->Ok_0.schemas[id] == s,
            Err(e) => if c.database() is Err {
                e == c.database()->Err_0
            } else {
                e == ShowErrorModel::NotFound("schema"@, name) && forall|id: u32| #[trigger]
                    c.database()->Ok_0.schemas.contains_key(id)
                        ==> c.database()->Ok_0.schemas[id].name != name
            },
        },
{
    let wanted = c.session.database;
    let p = |d: DatabaseCatalogModel| d.name == wanted;
    lemma_first_where(c.databases, p);
    if c.database() is Ok {
        let d = c.database()->Ok_0;
        let id = choose|id: u32| #[trigger] c.databases.contains_key(id) && c.databases[id] == d;
        assert(d.schemas.dom().finite());
        lemma_first_where(d.schemas, |s: SchemaCatalogModel| s.name == name);
    } else {
        assert forall|id: u32| #[trigger] c.databases.contains_key(id) implies c.databases[id].name
            != c.session.database by {
            assert(!p(c.databases[id]));
        }
    }
}

/// Where no schema is named, it is the public one.
pub proof fn law_default_schema_is_public(schema: Option<Seq<char>>)
    ensures
        schema is None ==> schema_name(schema) == "public"@,
        schema is Some ==> schema_name(schema) == schema->0,
{
}

/// The name of an object is shown exactly where some object that is looked for has it.
proof fn lemma_names_where<V>(
    m: Map<u32, V>,
    p: spec_fn(V) -> bool,
    f: spec_fn(V) -> Seq<char>,
    name: Seq<char>,
)
    requires
        m.dom().finite(),
    ensures
        image(values_where(m, p), f).contains(name) <==> exists|id: u32| #[trigger]
            m.contains_key(id) && p(m[id]) && f(m[id]) == name,
        image(values_where(m, p), f).len() == ids_where(m, p).len(),
{
    lemma_ids_where(m, p);
    let ids = ids_where(m, p);
    let q = image(values_where(m, p), f);
    if q.contains(name) {
        let k = choose|k: int| 0 <= k < q.len() && q[k] == name;
        assert(ids.contains(ids[k]));
        assert(m.contains_key(ids[k]) && p(m[ids[k]]) && f(m[ids[k]]) == name);
    }
    if exists|id: u32| #[trigger] m.contains_key(id) && p(m[id]) && f(m[id]) == name {
        let id = choose|id: u32| #[trigger] m.contains_key(id) && p(m[id]) && f(m[id]) == name;
        assert(ids.contains(id));
        let k = choose|k: int| 0 <= k < ids.len() && ids[k] == id;
        assert(q[k] == name);
    }
}

/// The name of an object of the map is shown, and no other.
proof fn lemma_names_listed<V>(m: Map<u32, V>, f: spec_fn(V) -> Seq<char>, name: Seq<char>)
    requires
        m.dom().finite(),
    ensures
        image(values_at(m, listing(m.dom())), f).contains(name) <==> exists|id: u32| #[trigger]
            m.contains_key(id) && f(m[id]) == name,
        image(values_at(m, listing(m.dom())), f).len() == listing(m.dom()).len(),
{
    lemma_listing_exists(m.dom());
    let ids = listing(m.dom());
    let q = image(values_at(m, ids), f);
    if q.contains(name) {
        let k = choose|k: int| 0 <= k < q.len() && q[k] == name;
        assert(ids.contains(ids[k]));
        assert(m.contains_key(ids[k]) && f(m[ids[k]]) == name);
    }
    if exists|id: u32| #[trigger] m.contains_key(id) && f(m[id]) == name {
        let id = choose|id: u32| #[trigger] m.contains_key(id) && f(m[id]) == name;
        assert(ids.contains(id));
        let k = choose|k: int| 0 <= k < ids.len() && ids[k] == id;
        assert(q[k] == name);
    }
}

/// Every map of the schema is finite.
pub open spec fn finite_schema(s: SchemaCatalogModel) -> bool {
    &&& s.tables.dom().finite()
    &&& s.sources.dom().finite()
    &&& s.sinks.dom().finite()
    &&& s.views.dom().finite()
    &&& s.subscriptions.dom().finite()
    &&& s.secrets.dom().finite()
    &&& s.functions.dom().finite()
    &&& s.connections.dom().finite()
}

/// The names that the answer shows.
pub open spec fn shows(
    c: ShowContextModel,
    command: ShowObjectModel,
    sorted: Seq<WorkerNodeModel>,
    name: Seq<char>,
) -> bool {
    let r = answer(c, command, sorted);
    r is Ok && r->Ok_0 is Names && r->Ok_0->Names_0.contains(name)
}

/// The names of one kind of object in a schema are shown exactly where an object of that kind has
/// them: internal tables, views, materialized views that are created, sources (the temporary ones of
/// the session too), sinks, subscriptions and secrets.
pub proof fn law_names_in_a_schema(
    c: ShowContextModel,
    schema: Option<Seq<char>>,
    sorted: Seq<WorkerNodeModel>,
    name: Seq<char>,
)
    requires
        c.schema(schema_name(schema)) is Ok,
        finite_schema(c.schema(schema_name(schema))->Ok_0),
    ensures
        ({
            let s = c.schema(schema_name(schema))->Ok_0;
            &&& shows(c, ShowObjectModel::InternalTable(schema), sorted, name) <==> exists|id: u32|
             #[trigger]
                s.tables.contains_key(id) && s.tables[id].kind == TableKind::Internal
                    && s.tables[id].name == name
            &&& shows(c, ShowObjectModel::MaterializedView(schema), sorted, name) <==> exists|id: u32|
             #[trigger]
                s.tables.contains_key(id) && s.tables[id].kind == TableKind::MaterializedView
                    && s.tables[id].created && s.tables[id].name == name
            &&& shows(c, ShowObjectModel::View(schema), sorted, name) <==> exists|id: u32| #[trigger]
                s.views.contains_key(id) && s.views[id].name == name
            &&& shows(c, ShowObjectModel::Sink(schema), sorted, name) <==> exists|id: u32| #[trigger]
                s.sinks.contains_key(id) && s.sinks[id].name == name
            &&& shows(c, ShowObjectModel::Subscription(schema), sorted, name) <==> exists|id: u32|
             #[trigger]
                s.subscriptions.contains_key(id) && s.subscriptions[id].name == name
            &&& shows(c, ShowObjectModel::Secret(schema), sorted, name) <==> exists|id: u32| #[trigger]
                s.secrets.contains_key(id) && s.secrets[id].name == name
            &&& shows(c, ShowObjectModel::Source(schema), sorted, name) <==> (exists|id: u32|
             #[trigger]
                s.sources.contains_key(id) && s.sources[id].name == name)
                || c.session.temporary_sources.contains(name)
        }),
{
    let s = c.schema(schema_name(schema))->Ok_0;
    let named = |x: NamedCatalogModel| x.name;
    lemma_names_where(
        s.tables,
        of_kind(TableKind::Internal),
        |t: TableCatalogModel| t.name,
        name,
    );
    lemma_names_where(s.tables, created_mview(), |t: TableCatalogModel| t.name, name);
    lemma_names_listed(s.views, |x: NamedCatalogModel| x.name, name);
    lemma_names_listed(s.sinks, |x: NamedCatalogModel| x.name, name);
    lemma_names_listed(s.subscriptions, |x: NamedCatalogModel| x.name, name);
    lemma_names_listed(s.secrets, |x: SecretCatalogModel| x.name, name);
    lemma_names_listed(s.sources, |x: SourceCatalogModel| x.name, name);
    assert(shows(c, ShowObjectModel::InternalTable(schema), sorted, name) <==> s.tables_where(
        of_kind(TableKind::Internal),
    ).contains(name));
    assert(shows(c, ShowObjectModel::MaterializedView(schema), sorted, name) <==> s.tables_where(
        created_mview(),
    ).contains(name));
    let a = image(values_at(s.sources, listing(s.sources.dom())), |x: SourceCatalogModel| x.name);
    let b = c.session.temporary_sources;
    assert((a + b).contains(name) <==> a.contains(name) || b.contains(name)) by {
        if a.contains(name) {
            let k = choose|k: int| 0 <= k < a.len() && a[k] == name;
            assert((a + b)[k] == name);
        }
        if b.contains(name) {
            let k = choose|k: int| 0 <= k < b.len() && b[k] == name;
            assert((a + b)[a.len() + k] == name);
        }
    }
}

/// A schema that is not found is said so, whatever names are asked for.
pub proof fn law_names_of_an_unknown_schema(
    c: ShowContextModel,
    schema: Option<Seq<char>>,
    sorted: Seq<WorkerNodeModel>,
)
    requires
        c.schema(schema_name(schema)) is Err,
    ensures
        ({
            let e = Err::<ShowRowsModel, ShowErrorModel>(c.schema(schema_name(schema))->Err_0);
            &&& answer(c, ShowObjectModel::InternalTable(schema), sorted) == e
            &&& answer(c, ShowObjectModel::MaterializedView(schema), sorted) == e
            &&& answer(c, ShowObjectModel::View(schema), sorted) == e
            &&& answer(c, ShowObjectModel::Sink(schema), sorted) == e
            &&& answer(c, ShowObjectModel::Subscription(schema), sorted) == e
            &&& answer(c, ShowObjectModel::Secret(schema), sorted) == e
            &&& answer(c, ShowObjectModel::Source(schema), sorted) == e
            &&& answer(c, ShowObjectModel::Connection(schema), sorted) == e
            &&& answer(c, ShowObjectModel::Function(schema), sorted) == e
        }),
{
}

/// The names of all databases are shown, and those of the schemas of the database of the session.
pub proof fn law_names_of_databases_and_schemas(
    c: ShowContextModel,
    sorted: Seq<WorkerNodeModel>,
    name: Seq<char>,
)
    requires
        c.databases.dom().finite(),
        c.database() is Ok ==> c.database()->Ok_0.schemas.dom().finite(),
    ensures
        shows(c, ShowObjectModel::Database, sorted, name) <==> exists|id: u32| #[trigger]
            c.databases.contains_key(id) && c.databases[id].name == name,
        match c.database() {
            Ok(d) => shows(c, ShowObjectModel::Schema, sorted, name) <==> exists|id: u32| #[trigger]
                d.schemas.contains_key(id) && d.schemas[id].name == name,
            Err(e) => answer(c, ShowObjectModel::Schema, sorted) == Err::<
                ShowRowsModel,
                ShowErrorModel,
            >(e),
        },
{
    lemma_names_listed(c.databases, |d: DatabaseCatalogModel| d.name, name);
    if c.database() is Ok {
        lemma_names_listed(
            c.database()->Ok_0.schemas,
            |s: SchemaCatalogModel| s.name,
            name,
        );
    }
}

/// The tables of the named schema are shown, and where none is named those of every schema of the
/// search path, in which the user stands for the schema of their own name; a schema that is not found
/// has none.
pub proof fn law_names_of_tables(
    c: ShowContextModel,
    schema: Option<Seq<char>>,
    sorted: Seq<WorkerNodeModel>,
    name: Seq<char>,
)
    requires
        forall|s: Seq<char>| (#[trigger] c.schema(s)) is Ok ==> finite_schema(c.schema(s)->Ok_0),
    ensures
        schema is Some ==> searched(c.session, schema) == seq![schema->0],
        schema is None ==> searched(c.session, schema).len() == c.session.search_path.len(),
        forall|i: int|
            schema is None && 0 <= i < c.session.search_path.len() ==> #[trigger] searched(
                c.session,
                schema,
            )[i] == if c.session.search_path[i] == "\"$user\""@ {
                c.session.user_name
            } else {
                c.session.search_path[i]
            },
        shows(c, ShowObjectModel::Table(schema), sorted, name) <==> exists|i: int, id: u32|
            #![trigger searched(c.session, schema)[i], c.schema(searched(c.session, schema)[i])->Ok_0.tables.contains_key(id)]
            0 <= i < searched(c.session, schema).len() && c.schema(
                searched(c.session, schema)[i],
            ) is Ok && c.schema(searched(c.session, schema)[i])->Ok_0.tables.contains_key(id)
                && c.schema(searched(c.session, schema)[i])->Ok_0.tables[id].kind == TableKind::Table
                && c.schema(searched(c.session, schema)[i])->Ok_0.tables[id].name == name,
{
    let q = searched(c.session, schema);
    let p = |s: Seq<char>| tables_if_found(c, s);
    lemma_gather_contains(q, p, name);
    if shows(c, ShowObjectModel::Table(schema), sorted, name) {
        let i = choose|i: int| 0 <= i < q.len() && p(#[trigger] q[i]).contains(name);
        let s = c.schema(q[i])->Ok_0;
        assert(c.schema(q[i]) is Ok);
        lemma_names_where(s.tables, of_kind(TableKind::Table), |t: TableCatalogModel| t.name, name);
        let id = choose|id: u32| #[trigger]
            s.tables.contains_key(id) && of_kind(TableKind::Table)(s.tables[id]) && s.tables[id].name
                == name;
        assert(c.schema(q[i])->Ok_0.tables.contains_key(id));
    }
    if exists|i: int, id: u32|
        #![trigger q[i], c.schema(q[i])->Ok_0.tables.contains_key(id)]
        0 <= i < q.len() && c.schema(q[i]) is Ok && c.schema(q[i])->Ok_0.tables.contains_key(id)
            && c.schema(q[i])->Ok_0.tables[id].kind == TableKind::Table && c.schema(
            q[i],
        )->Ok_0.tables[id].name == name {
        let (i, id) = choose|i: int, id: u32|
            #![trigger q[i], c.schema(q[i])->Ok_0.tables.contains_key(id)]
            0 <= i < q.len() && c.schema(q[i]) is Ok && c.schema(q[i])->Ok_0.tables.contains_key(id)
                && c.schema(q[i])->Ok_0.tables[id].kind == TableKind::Table && c.schema(
                q[i],
            )->Ok_0.tables[id].name == name;
        let s = c.schema(q[i])->Ok_0;
        lemma_names_where(s.tables, of_kind(TableKind::Table), |t: TableCatalogModel| t.name, name);
        assert(s.tables.contains_key(id) && of_kind(TableKind::Table)(s.tables[id]));
        assert(p(q[i]).contains(name));
    }
}

/// The functions of a schema are shown in the order of their identifiers, each with its name, the
/// types of its arguments, the type that it returns, its language and its link.
pub proof fn law_rows_of_functions(
    c: ShowContextModel,
    schema: Option<Seq<char>>,
    sorted: Seq<WorkerNodeModel>,
)
    requires
        c.schema(schema_name(schema)) is Ok,
    ensures
        ({
            let s = c.schema(schema_name(schema))->Ok_0;
            let ids = listing(s.functions.dom());
            let r = answer(c, ShowObjectModel::Function(schema), sorted);
            &&& r is Ok
            &&& r->Ok_0 is Functions
            &&& r->Ok_0->Functions_0.len() == ids.len()
            &&& forall|i: int|
                0 <= i < ids.len() ==> {
                    let row = #[trigger] r->Ok_0->Functions_0[i];
                    let f = s.functions[ids[i]];
                    &&& row.name == f.name
                    &&& row.arguments == joined(f.arg_types, ", "@)
                    &&& row.return_type == f.return_type
                    &&& row.language == f.language
                    &&& row.link == f.link
                }
        }),
{
}

/// The connections of a schema are shown in the order of their identifiers, each with its name, its
/// type and a line for each of its properties: the provider, the service, the endpoint, the zones, and
/// the sources and the sinks that use it.
pub proof fn law_rows_of_connections(
    c: ShowContextModel,
    schema: Option<Seq<char>>,
    sorted: Seq<WorkerNodeModel>,
)
    requires
        c.schema(schema_name(schema)) is Ok,
    ensures
        ({
            let s = c.schema(schema_name(schema))->Ok_0;
            let ids = listing(s.connections.dom());
            let r = answer(c, ShowObjectModel::Connection(schema), sorted);
            &&& r is Ok
            &&& r->Ok_0 is Connections
            &&& r->Ok_0->Connections_0.len() == ids.len()
            &&& forall|i: int|
                0 <= i < ids.len() ==> {
                    let row = #[trigger] r->Ok_0->Connections_0[i];
                    let x = s.connections[ids[i]];
                    let sources = if s.connection_sources.contains_key(x.id) {
                        s.connection_sources[x.id]
                    } else {
                        Seq::empty()
                    };
                    let sinks = if s.connection_sinks.contains_key(x.id) {
                        s.connection_sinks[x.id]
                    } else {
                        Seq::empty()
                    };
                    &&& row.name == x.name
                    &&& row.type_text == "privatelink"@
                    &&& row.properties == "provider: "@ + x.info.provider + "\nservice_name: "@
                        + x.info.service_name + "\nendpoint_id: "@ + x.info.endpoint_id
                        + "\navailability_zones: "@ + json_of(x.info.dns_zones) + "\nsources: "@
                        + json_of(source_names(s.sources, sources)) + "\nsinks: "@ + json_of(
                        sink_names(s.sinks, sinks),
                    )
                }
        }),
{
}

/// The sources and the sinks of a connection are named in their order, those that are not known are
/// left out, and no other is named.
pub proof fn law_names_of_connected(
    sources: Map<u32, SourceCatalogModel>,
    sinks: Map<u32, NamedCatalogModel>,
    ids: Seq<u32>,
    name: Seq<char>,
)
    ensures
        source_names(sources, ids).contains(name) <==> exists|i: int|
            0 <= i < ids.len() && sources.contains_key(#[trigger] ids[i]) && sources[ids[i]].name == name,
        sink_names(sinks, ids).contains(name) <==> exists|i: int|
            0 <= i < ids.len() && sinks.contains_key(#[trigger] ids[i]) && sinks[ids[i]].name == name,
{
    let p = |id: u32|
        if sources.contains_key(id) {
            seq![sources[id].name]
        } else {
            Seq::empty()
        };
    let g = |id: u32|
        if sinks.contains_key(id) {
            seq![sinks[id].name]
        } else {
            Seq::empty()
        };
    lemma_gather_contains(ids, p, name);
    lemma_gather_contains(ids, g, name);
    assert forall|id: u32| #[trigger] p(id).contains(name) <==> sources.contains_key(id)
        && sources[id].name == name by {
        if sources.contains_key(id) {
            assert(p(id)[0] == sources[id].name);
        }
    }
    assert forall|id: u32| #[trigger] g(id).contains(name) <==> sinks.contains_key(id)
        && sinks[id].name == name by {
        if sinks.contains_key(id) {
            assert(g(id)[0] == sinks[id].name);
        }
    }
    if source_names(sources, ids).contains(name) {
        let i = choose|i: int| 0 <= i < ids.len() && p(#[trigger] ids[i]).contains(name);
        assert(sources.contains_key(ids[i]));
    }
    if exists|i: int|
        0 <= i < ids.len() && sources.contains_key(#[trigger] ids[i]) && sources[ids[i]].name == name {
        let i = choose|i: int|
            0 <= i < ids.len() && sources.contains_key(#[trigger] ids[i]) && sources[ids[i]].name
                == name;
        assert(p(ids[i]).contains(name));
    }
    if sink_names(sinks, ids).contains(name) {
        let i = choose|i: int| 0 <= i < ids.len() && g(#[trigger] ids[i]).contains(name);
        assert(sinks.contains_key(ids[i]));
    }
    if exists|i: int|
        0 <= i < ids.len() && sinks.contains_key(#[trigger] ids[i]) && sinks[ids[i]].name == name {
        let i = choose|i: int|
            0 <= i < ids.len() && sinks.contains_key(#[trigger] ids[i]) && sinks[ids[i]].name == name;
        assert(g(ids[i]).contains(name));
    }
}

/// A name is kept exactly where the filter takes it.
pub proof fn law_filter_keeps_what_it_takes(names: Seq<Seq<char>>, verdicts: Seq<bool>, name: Seq<char>)
    requires
        verdicts.len() == names.len(),
    ensures
        matching(names, verdicts).contains(ShowObjectRowModel { name }) <==> exists|i: int|
            0 <= i < names.len() && #[trigger] names[i] == name && verdicts[i],
        matching(names, verdicts).len() <= names.len(),
        (forall|i: int| 0 <= i < names.len() ==> #[trigger] verdicts[i]) ==> matching(
            names,
            verdicts,
        ).len() == names.len(),
    decreases names.len(),
{
    lemma_matching(names, verdicts, name);
}

proof fn lemma_matching(names: Seq<Seq<char>>, verdicts: Seq<bool>, name: Seq<char>)
    requires
        verdicts.len() >= names.len(),
    ensures
        matching(names, verdicts).contains(ShowObjectRowModel { name }) <==> exists|i: int|
            0 <= i < names.len() && #[trigger] names[i] == name && verdicts[i],
        matching(names, verdicts).len() <= names.len(),
        (forall|i: int| 0 <= i < names.len() ==> #[trigger] verdicts[i]) ==> matching(
            names,
            verdicts,
        ).len() == names.len(),
    decreases names.len(),
{
    if names.len() > 0 {
        let d = names.drop_last();
        let n = names.len() - 1;
        lemma_matching(d, verdicts, name);
        let before = matching(d, verdicts);
        let row = ShowObjectRowModel { name };
        let last = ShowObjectRowModel { name: names.last() };
        assert forall|i: int| 0 <= i < d.len() implies #[trigger] d[i] == names[i] by {}
        assert(names[n] == names.last());
        if before.contains(row) {
            let i = choose|i: int| 0 <= i < d.len() && #[trigger] d[i] == name && verdicts[i];
            assert(names[i] == name);
            let k = choose|k: int| 0 <= k < before.len() && before[k] == row;
            assert(before.push(last)[k] == row);
        }
        if verdicts[n] && names.last() == name {
            assert(before.push(last)[before.len() as int] == row);
        }
        if matching(names, verdicts).contains(row) && verdicts[n] {
            let k = choose|k: int|
                0 <= k < matching(names, verdicts).len() && matching(names, verdicts)[k] == row;
            if k < before.len() {
                assert(before[k] == row);
            }
        }
        if exists|i: int| 0 <= i < names.len() && #[trigger] names[i] == name && verdicts[i] {
            let i = choose|i: int| 0 <= i < names.len() && #[trigger] names[i] == name && verdicts[i];
            if i < d.len() {
                assert(d[i] == name);
            }
        }
    }
}

// ---------------------------------------------------------------------------
// Statements of creation.
// ---------------------------------------------------------------------------

/// The statement of a table, of a materialized view or of an index is shown where the first table of
/// that name is created and of that kind; it is its own.
pub proof fn law_statement_of_a_table(s: SchemaCatalogModel, name: Seq<char>, kind: TableKind)
    requires
        s.tables.dom().finite(),
    ensures
        match table_sql(s, name, kind) {
            Some(sql) => exists|id: u32| #[trigger]
                s.tables.contains_key(id) && s.tables[id].name == name && s.tables[id].kind == kind
                    && s.tables[id].created && s.tables[id].create_sql == sql,
            None => (forall|id: u32| #[trigger]
                s.tables.contains_key(id) ==> s.tables[id].name != name) || exists|id: u32| #[trigger]
                s.tables.contains_key(id) && s.tables[id].name == name && (s.tables[id].kind != kind
                    || !s.tables[id].created),
        },
{
    let p = |t: TableCatalogModel| t.name == name;
    lemma_first_where(s.tables, p);
    if first_of(values_where(s.tables, p)) is None {
        assert forall|id: u32| #[trigger] s.tables.contains_key(id) implies s.tables[id].name != name by {
            assert(!p(s.tables[id]));
        }
    } else {
        let t = first_of(values_where(s.tables, p))->0;
        let id = choose|id: u32| #[trigger] s.tables.contains_key(id) && s.tables[id] == t && forall|x: u32|
         #[trigger]
            s.tables.contains_key(x) && p(s.tables[x]) ==> id <= x;
        assert(s.tables.contains_key(id) && s.tables[id].name == name);
    }
}

/// The statement of a source is shown where it stands for itself and not for a table; it is its own.
pub proof fn law_statement_of_a_source(s: SchemaCatalogModel, name: Seq<char>)
    requires
        s.sources.dom().finite(),
    ensures
        match source_sql(s, name) {
            Some(sql) => exists|id: u32| #[trigger]
                s.sources.contains_key(id) && s.sources[id].name == name
                    && s.sources[id].associated_table_id is None && s.sources[id].create_sql == sql,
            None => (forall|id: u32| #[trigger]
                s.sources.contains_key(id) ==> s.sources[id].name != name) || exists|id: u32|
             #[trigger]
                s.sources.contains_key(id) && s.sources[id].name == name
                    && s.sources[id].associated_table_id is Some,
        },
{
    let p = |t: SourceCatalogModel| t.name == name;
    lemma_first_where(s.sources, p);
    if first_of(values_where(s.sources, p)) is None {
        assert forall|id: u32| #[trigger] s.sources.contains_key(id) implies s.sources[id].name
            != name by {
            assert(!p(s.sources[id]));
        }
    } else {
        let t = first_of(values_where(s.sources, p))->0;
        let id = choose|id: u32| #[trigger]
            s.sources.contains_key(id) && s.sources[id] == t && forall|x: u32| #[trigger]
            s.sources.contains_key(x) && p(s.sources[x]) ==> id <= x;
        assert(s.sources.contains_key(id) && s.sources[id].name == name);
    }
}

/// The statement of a view, a sink or a subscription is shown where there is one of that name; it is
/// its own.
pub proof fn law_statement_of_a_named_object(m: Map<u32, NamedCatalogModel>, name: Seq<char>)
    requires
        m.dom().finite(),
    ensures
        match named_sql(m, name) {
            Some(sql) => exists|id: u32| #[trigger]
                m.contains_key(id) && m[id].name == name && m[id].create_sql == sql,
            None => forall|id: u32| #[trigger] m.contains_key(id) ==> m[id].name != name,
        },
{
    let p = |t: NamedCatalogModel| t.name == name;
    lemma_first_where(m, p);
    if first_of(values_where(m, p)) is None {
        assert forall|id: u32| #[trigger] m.contains_key(id) implies m[id].name != name by {
            assert(!p(m[id]));
        }
    } else {
        let t = first_of(values_where(m, p))->0;
        let id = choose|id: u32| #[trigger] m.contains_key(id) && m[id] == t && forall|x: u32| #[trigger]
            m.contains_key(x) && p(m[x]) ==> id <= x;
        assert(m.contains_key(id) && m[id].name == name);
    }
}

/// The row of a statement has the name of the schema, a dot and the name of the object, and the
/// statement of the object of the kind that is asked for; functions have none.
pub proof fn law_row_of_a_statement(
    c: ShowContextModel,
    kind: ShowCreateType,
    full_name: Seq<char>,
    schema: Option<Seq<char>>,
    object: Seq<char>,
)
    requires
        c.schema(schema_name(schema)) is Ok,
    ensures
        ({
            let s = c.schema(schema_name(schema))->Ok_0;
            let sql = match kind {
                ShowCreateType::MaterializedView => table_sql(s, object, TableKind::MaterializedView),
                ShowCreateType::View => named_sql(s.views, object),
                ShowCreateType::Table => table_sql(s, object, TableKind::Table),
                ShowCreateType::Sink => named_sql(s.sinks, object),
                ShowCreateType::Source => source_sql(s, object),
                ShowCreateType::Index => table_sql(s, object, TableKind::Index),
                ShowCreateType::Function => None,
                ShowCreateType::Subscription => named_sql(s.subscriptions, object),
            };
            let r = create_answer(c, kind, full_name, schema, object);
            &&& r is Ok <==> sql is Some
            &&& sql is Some ==> r->Ok_0.name == schema_name(schema) + "."@ + object
                && r->Ok_0.create_sql == sql->0
            &&& sql is None && kind != ShowCreateType::Function ==> r->Err_0 is NotFound
                && r->Err_0->NotFound_1 == full_name
            &&& kind == ShowCreateType::Function ==> r->Err_0 is NotImplemented
        }),
{
}

/// The rows of an answer are of the kind of which the heads are shown.
pub proof fn law_heads_fit_the_rows(
    c: ShowContextModel,
    command: ShowObjectModel,
    sorted: Seq<WorkerNodeModel>,
)
    ensures
        match answer(c, command, sorted) {
            Ok(rows) => {
                let kind = row_kind(command);
                &&& rows is Columns <==> kind == RowKind::Column
                &&& rows is Connections <==> kind == RowKind::Connection
                &&& rows is Functions <==> kind == RowKind::Function
                &&& rows is Indexes <==> kind == RowKind::Index
                &&& rows is Cluster <==> kind == RowKind::Cluster
                &&& rows is Jobs <==> kind == RowKind::Job
                &&& rows is Processes <==> kind == RowKind::ProcessList
                &&& (rows is Names || rows is Cursors) <==> kind == RowKind::Object
            },
            Err(_) => true,
        },
        heads(RowKind::Object).len() == 1,
        heads(RowKind::Column).len() == 4,
        heads(RowKind::Connection).len() == 3,
        heads(RowKind::Function).len() == 5,
        heads(RowKind::Index).len() == 5,
        heads(RowKind::Cluster).len() == 9,
        heads(RowKind::Job).len() == 3,
        heads(RowKind::ProcessList).len() == 6,
        heads(RowKind::CreateObject).len() == 2,
{
}

/// What is not found is named in the words of the error, with its kind.
pub proof fn law_what_is_not_found_is_named(what: Seq<char>, name: Seq<char>)
    ensures
        mentions(ShowErrorModel::not_found(what, name).message(), name),
        mentions(ShowErrorModel::not_found(what, name).message(), what),
{
    lemma_mentions(what + " not found: "@, name, Seq::empty());
    lemma_mentions(Seq::empty(), what, " not found: "@ + name);
    assert(what + " not found: "@ + name =~= what + (" not found: "@ + name));
}

} // verus!
