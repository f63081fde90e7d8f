use std::collections::HashMap;

use streaming_meta::show::column::{ColumnCatalog, ColumnDesc, DataType, Field};
use streaming_meta::show::create::{
    handle_show_create_object, infer_show_create_object, infer_show_object,
};
use streaming_meta::show::handler::{
    get_columns_from_sink, get_columns_from_view, handle_show_object, keep_matching,
    show_private_link, ShowContext,
};
use streaming_meta::show::rows::{FieldKind, ShowColumnRow, ShowObjectRow, ShowRows};
use streaming_meta::show::types::{
    ConnectionCatalog, CursorRow, DatabaseCatalog, DdlProgress, FunctionCatalog, IndexCatalog,
    NamedCatalog, PrivateLinkService, Relation, SchemaCatalog, SecretCatalog, SessionInfo,
    ShowCreateType, ShowError, ShowObject, ShowSession, ShowStatementFilter, SourceCatalog,
    TableCatalog, TableKind, WorkerNode, WorkerProperty,
};
use streaming_meta::util::id_map::{Entry, IdMap};
use streaming_meta::util::lists::List;

fn s(x: &str) -> String {
    x.to_string()
}

fn id_map<T: Entry>(pairs: Vec<(u32, T)>) -> IdMap<T> {
    let mut m = IdMap::new();
    for (k, v) in pairs {
        m.insert(k, v);
    }
    m
}

fn table(id: u32, name: &str, kind: TableKind, created: bool) -> (u32, TableCatalog) {
    (id, TableCatalog { id, name: s(name), kind, created, create_sql: format!("CREATE {}", name) })
}

fn source(id: u32, name: &str, associated_table_id: Option<u32>) -> (u32, SourceCatalog) {
    (id, SourceCatalog { id, name: s(name), associated_table_id, create_sql: format!("CREATE {}", name) })
}

fn named(id: u32, name: &str) -> (u32, NamedCatalog) {
    (id, NamedCatalog { id, name: s(name), create_sql: format!("CREATE {}", name) })
}

fn schema(name: &str) -> SchemaCatalog {
    SchemaCatalog {
        name: s(name),
        tables: id_map(vec![
            table(1, "t", TableKind::Table, true),
            table(2, "mv", TableKind::MaterializedView, true),
            table(3, "mv_creating", TableKind::MaterializedView, false),
            table(4, "idx", TableKind::Index, true),
            table(5, "__internal", TableKind::Internal, true),
        ]),
        sources: id_map(vec![source(6, "t1", None), source(12, "hidden", Some(1))]),
        sinks: id_map(vec![named(7, "sink")]),
        views: id_map(vec![named(8, "v")]),
        subscriptions: id_map(vec![named(9, "sub")]),
        secrets: id_map(vec![(10, SecretCatalog { id: 10, name: s("secret") })]),
        functions: id_map(vec![(
            11,
            FunctionCatalog {
                name: s("f"),
                arg_types: vec![s("integer"), s("bigint")],
                return_type: s("real"),
                language: s("python"),
                link: Some(s("http://localhost")),
            },
        )]),
        connections: id_map(vec![(20, ConnectionCatalog { id: 20, name: s("link"), info: private_link() })]),
        connection_sources: id_map(vec![(20, List { items: vec![6, 99] })]),
        connection_sinks: IdMap::new(),
    }
}

fn private_link() -> PrivateLinkService {
    PrivateLinkService {
        provider: s("AWS"),
        service_name: s("svc"),
        endpoint_id: s("vpce"),
        dns_zones: vec![s("use1-az4"), s("a\"b")],
    }
}

fn unbound<T>() -> Result<T, ShowError> {
    Err(ShowError::Unbound(s("no such relation")))
}

fn context() -> ShowContext {
    ShowContext {
        session: ShowSession {
            database: s("dev"),
            user_name: s("root"),
            search_path: vec![s("\"$user\""), s("public")],
            temporary_sources: vec![],
        },
        databases: id_map(vec![(1, DatabaseCatalog { name: s("dev"), schemas: id_map(vec![(2, schema("public"))]) })]),
        relation: unbound(),
        sink: unbound(),
        view: unbound(),
        workers: vec![],
        jobs: vec![],
        sessions: vec![],
        cursors: vec![],
    }
}

fn show_names(object: ShowObject) -> Vec<String> {
    match handle_show_object(&context(), object, &None).unwrap() {
        ShowRows::Names(names) => names,
        other => panic!("unexpected rows {:?}", other),
    }
}

#[test]
fn test_show_source() {
    let mut ctx = context();
    let mut public = schema("public");
    public.sources = id_map(vec![source(6, "t1", None)]);
    ctx.databases = id_map(vec![(1, DatabaseCatalog { name: s("dev"), schemas: id_map(vec![(2, public)]) })]);
    let names = match handle_show_object(&ctx, ShowObject::Source(None), &None).unwrap() {
        ShowRows::Names(names) => names,
        other => panic!("unexpected rows {:?}", other),
    };
    let mut rows: Vec<String> = keep_matching(names, &None)
        .iter()
        .map(|row| format!("Row([Some(b{:?})])", row.name))
        .collect();
    rows.sort();
    assert_eq!(rows, vec!["Row([Some(b\"t1\")])".to_string(),]);
}

fn column(name: &str, data_type: DataType, field_descs: Vec<ColumnDesc>, type_text: &str) -> ColumnDesc {
    ColumnDesc { column_id: 0, name: s(name), data_type, field_descs, type_text: s(type_text), description: None }
}

fn plain(name: &str, data_type: &str) -> ColumnDesc {
    column(name, DataType::Named(s(data_type)), vec![], "")
}

fn visible(column_desc: ColumnDesc) -> ColumnCatalog {
    ColumnCatalog { column_desc, is_hidden: false }
}

fn test_record() -> Vec<ColumnCatalog> {
    let city = column(
        "city",
        DataType::Struct,
        vec![plain("address", "character varying"), plain("zipcode", "character varying")],
        "test.City",
    );
    let country = column(
        "country",
        DataType::Struct,
        vec![plain("address", "character varying"), city, plain("zipcode", "character varying")],
        "test.Country",
    );
    vec![
        visible(plain("id", "integer")),
        visible(country),
        visible(plain("zipcode", "bigint")),
        visible(plain("rate", "real")),
        ColumnCatalog { column_desc: plain("_rw_kafka_timestamp", "timestamp with time zone"), is_hidden: true },
        ColumnCatalog { column_desc: plain("_row_id", "serial"), is_hidden: true },
    ]
}

#[test]
fn test_show_column() {
    let mut ctx = context();
    ctx.relation = Ok(Relation::Source(test_record()));
    let rows = match handle_show_object(&ctx, ShowObject::Columns(s("t")), &None).unwrap() {
        ShowRows::Columns(rows) => rows,
        other => panic!("unexpected rows {:?}", other),
    };
    let mut columns = HashMap::new();
    for row in &rows {
        columns.insert(row.name.clone(), row.type_text.clone());
    }

    let mut expected_columns: HashMap<String, String> = HashMap::new();
    for (name, type_text) in [
        ("id", "integer"),
        ("country.zipcode", "character varying"),
        ("zipcode", "bigint"),
        ("country.city.address", "character varying"),
        ("country.address", "character varying"),
        ("country.city", "test.City"),
        ("country.city.zipcode", "character varying"),
        ("rate", "real"),
        ("country", "test.Country"),
        ("_rw_kafka_timestamp", "timestamp with time zone"),
        ("_row_id", "serial"),
    ] {
        expected_columns.insert(name.into(), type_text.into());
    }

    assert_eq!(columns, expected_columns);
    assert_eq!(rows.len(), 11);
    assert_eq!(rows[0].is_hidden, Some(s("false")));
    assert_eq!(rows[10].is_hidden, Some(s("true")));
}

#[test]
fn columns_come_from_sinks_and_views_too() {
    let mut ctx = context();
    ctx.sink = Ok(List { items: vec![visible(plain("a", "integer"))] });
    match handle_show_object(&ctx, ShowObject::Columns(s("x")), &None).unwrap() {
        ShowRows::Columns(rows) => assert_eq!(rows[0].name, "a"),
        other => panic!("unexpected rows {:?}", other),
    }
    assert_eq!(get_columns_from_sink(&ctx.sink).unwrap().len(), 1);

    let mut ctx = context();
    let inner = Field { name: s("y"), data_type: DataType::Named(s("bigint")), sub_fields: vec![], type_text: s("") };
    let outer = Field { name: s("x"), data_type: DataType::Struct, sub_fields: vec![inner], type_text: s("struct<y bigint>") };
    ctx.view = Ok(vec![outer]);
    match handle_show_object(&ctx, ShowObject::Columns(s("x")), &None).unwrap() {
        ShowRows::Columns(rows) => {
            assert_eq!(rows.iter().map(|r| r.name.as_str()).collect::<Vec<_>>(), vec!["x", "x.y"]);
            assert_eq!(rows[0].type_text, "struct<y bigint>");
        }
        other => panic!("unexpected rows {:?}", other),
    }
    let columns = get_columns_from_view(&ctx.view).unwrap();
    assert_eq!(columns[0].column_desc.column_id, 0);
    assert_eq!(columns[0].is_hidden, false);
}

#[test]
fn rows_of_a_nested_column() {
    let rows = ShowColumnRow::from_catalog(ColumnCatalog {
        column_desc: column("c", DataType::Struct, vec![plain("d", "date")], "point"),
        is_hidden: true,
    });
    assert_eq!(rows.len(), 2);
    assert_eq!((rows[0].name.as_str(), rows[0].type_text.as_str()), ("c", "point"));
    assert_eq!((rows[1].name.as_str(), rows[1].type_text.as_str()), ("c.d", "date"));
    assert_eq!(rows[1].is_hidden, Some(s("true")));
}

#[test]
fn names_of_each_kind() {
    assert_eq!(show_names(ShowObject::Table(None)), vec!["t"]);
    assert_eq!(show_names(ShowObject::Table(Some(s("public")))), vec!["t"]);
    assert_eq!(show_names(ShowObject::Table(Some(s("nowhere")))), Vec::<String>::new());
    assert_eq!(show_names(ShowObject::InternalTable(None)), vec!["__internal"]);
    assert_eq!(show_names(ShowObject::MaterializedView(None)), vec!["mv"]);
    assert_eq!(show_names(ShowObject::View(None)), vec!["v"]);
    assert_eq!(show_names(ShowObject::Sink(None)), vec!["sink"]);
    assert_eq!(show_names(ShowObject::Subscription(None)), vec!["sub"]);
    assert_eq!(show_names(ShowObject::Secret(None)), vec!["secret"]);
    assert_eq!(show_names(ShowObject::Database), vec!["dev"]);
    assert_eq!(show_names(ShowObject::Schema), vec!["public"]);
}

#[test]
fn errors_of_show() {
    let e = handle_show_object(&context(), ShowObject::View(Some(s("nowhere"))), &None).err().unwrap();
    assert_eq!(e, ShowError::NotFound(s("schema"), s("nowhere")));
    assert_eq!(e.message(), "schema not found: nowhere");

    let e = handle_show_object(&context(), ShowObject::Database, &Some(ShowStatementFilter::Where)).err().unwrap();
    assert_eq!(e, ShowError::NotImplemented(s("WHERE clause in SHOW statement")));

    let mut ctx = context();
    ctx.relation = Ok(Relation::Other);
    let e = handle_show_object(&ctx, ShowObject::Indexes(s("x")), &None).err().unwrap();
    assert_eq!(e, ShowError::NotFound(s("table or source"), s("x")));

    ctx.session.database = s("gone");
    let e = handle_show_object(&ctx, ShowObject::Schema, &None).err().unwrap();
    assert_eq!(e, ShowError::NotFound(s("database"), s("gone")));
}

#[test]
fn a_pattern_keeps_some_names() {
    let names = vec![s("a"), s("b"), s("c")];
    let rows = keep_matching(names, &Some(vec![true, false, true]));
    assert_eq!(rows, vec![ShowObjectRow { name: s("a") }, ShowObjectRow { name: s("c") }]);
}

#[test]
fn index_and_function_rows_join_their_parts() {
    let mut ctx = context();
    let index = IndexCatalog {
        name: s("idx"),
        primary_table: s("t"),
        index_columns_with_ordering: vec![s("a ASC"), s("b DESC")],
        included_columns: vec![],
        distributed_by_columns: vec![s("a")],
    };
    ctx.relation = Ok(Relation::BaseTable(vec![], vec![index]));
    match handle_show_object(&ctx, ShowObject::Indexes(s("t")), &None).unwrap() {
        ShowRows::Indexes(rows) => {
            assert_eq!(rows[0].on, "t");
            assert_eq!(rows[0].key, "a ASC, b DESC");
            assert_eq!(rows[0].included, "");
            assert_eq!(rows[0].distributed_by, "a");
        }
        other => panic!("unexpected rows {:?}", other),
    }
    match handle_show_object(&ctx, ShowObject::Function(None), &None).unwrap() {
        ShowRows::Functions(rows) => assert_eq!(rows[0].arguments, "integer, bigint"),
        other => panic!("unexpected rows {:?}", other),
    }
}

#[test]
fn connection_rows() {
    assert_eq!(
        show_private_link(&private_link(), "[1]", "[2]", "[3]"),
        "provider: AWS\nservice_name: svc\nendpoint_id: vpce\navailability_zones: [1]\nsources: [2]\nsinks: [3]"
    );
    match handle_show_object(&context(), ShowObject::Connection(None), &None).unwrap() {
        ShowRows::Connections(rows) => {
            assert_eq!(rows[0].type_text, "privatelink");
            assert_eq!(
                rows[0].properties,
                "provider: AWS\nservice_name: svc\nendpoint_id: vpce\navailability_zones: [\"use1-az4\",\"a\\\"b\"]\nsources: [\"t1\"]\nsinks: []"
            );
        }
        other => panic!("unexpected rows {:?}", other),
    }
}

fn worker(id: u32, state: &str, property: Option<WorkerProperty>) -> WorkerNode {
    WorkerNode {
        id,
        host: s("127.0.0.1"),
        port: 5688,
        worker_type: s("COMPUTE_NODE"),
        state: s(state),
        parallelism: 8,
        property,
        started_at: Some(100),
    }
}

#[test]
fn cluster_is_sorted_by_id() {
    let mut ctx = context();
    let property = WorkerProperty { is_streaming: true, is_serving: false, is_unschedulable: false };
    ctx.workers = vec![worker(3, "RUNNING", Some(property)), worker(1, "STARTING", None), worker(3, "later", None)];
    match handle_show_object(&ctx, ShowObject::Cluster, &None).unwrap() {
        ShowRows::Cluster(rows) => {
            assert_eq!(rows.iter().map(|r| r.id).collect::<Vec<_>>(), vec![1, 3, 3]);
            assert_eq!(rows.iter().map(|r| r.state.as_str()).collect::<Vec<_>>(), vec!["STARTING", "RUNNING", "later"]);
            assert_eq!(rows[1].addr, "127.0.0.1:5688");
            assert_eq!(rows[1].is_streaming, Some(true));
            assert_eq!(rows[0].is_streaming, None);
        }
        other => panic!("unexpected rows {:?}", other),
    }
}

#[test]
fn jobs_sessions_and_cursors() {
    let mut ctx = context();
    ctx.jobs = vec![DdlProgress { id: 4, statement: s("CREATE"), progress: s("10%") }];
    ctx.sessions = vec![SessionInfo {
        process_id: 7,
        user_name: s("root"),
        peer_addr: s("local"),
        database: s("dev"),
        elapsed_millis: Some(12),
        running_sql: Some(s("SELECT 1")),
    }];
    ctx.cursors = vec![CursorRow { cells: vec![s("c1"), s("sub")] }];
    match handle_show_object(&ctx, ShowObject::Jobs, &None).unwrap() {
        ShowRows::Jobs(rows) => assert_eq!(rows[0].id, 4),
        other => panic!("unexpected rows {:?}", other),
    }
    match handle_show_object(&ctx, ShowObject::ProcessList, &None).unwrap() {
        ShowRows::Processes(rows) => {
            assert_eq!(rows[0].id, "7");
            assert_eq!(rows[0].time, Some(s("12ms")));
            assert_eq!(rows[0].info, Some(s("SELECT 1")));
        }
        other => panic!("unexpected rows {:?}", other),
    }
    match handle_show_object(&ctx, ShowObject::Cursor, &None).unwrap() {
        ShowRows::Cursors(rows) => assert_eq!(rows[0].cells[1], "sub"),
        other => panic!("unexpected rows {:?}", other),
    }
}

#[test]
fn running_statements_are_shown_as_they_come() {
    let session = |running_sql| SessionInfo {
        process_id: 7,
        user_name: s("root"),
        peer_addr: s("local"),
        database: s("dev"),
        elapsed_millis: None,
        running_sql,
    };
    let mut ctx = context();
    let long = "\u{e4}".repeat(2000);
    ctx.sessions = vec![session(Some(long.clone())), session(None)];
    match handle_show_object(&ctx, ShowObject::ProcessList, &None).unwrap() {
        ShowRows::Processes(rows) => {
            assert_eq!(rows[0].info, Some(long));
            assert_eq!((rows[1].info.clone(), rows[1].time.clone()), (None, None));
        }
        other => panic!("unexpected rows {:?}", other),
    }
}

#[test]
fn heads_of_answers() {
    let heads = infer_show_object(&ShowObject::Cluster);
    assert_eq!(heads.len(), 9);
    assert_eq!((heads[0].name.as_str(), heads[0].kind), ("Id", FieldKind::Int));
    assert_eq!((heads[8].name.as_str(), heads[8].kind), ("Started At", FieldKind::Timestamptz));
    assert_eq!(infer_show_object(&ShowObject::Database).len(), 1);
    let create = infer_show_create_object();
    assert_eq!(create.iter().map(|h| h.name.as_str()).collect::<Vec<_>>(), vec!["Name", "Create Sql"]);
}

#[test]
fn create_statements_are_shown() {
    let ctx = context();
    let show = |kind, name: &str| handle_show_create_object(&ctx, kind, &s(name), &None, &s(name));
    let row = show(ShowCreateType::Table, "t").unwrap();
    assert_eq!((row.name.as_str(), row.create_sql.as_str()), ("public.t", "CREATE t"));
    assert_eq!(show(ShowCreateType::MaterializedView, "mv").unwrap().create_sql, "CREATE mv");
    assert_eq!(show(ShowCreateType::Index, "idx").unwrap().create_sql, "CREATE idx");
    assert_eq!(show(ShowCreateType::View, "v").unwrap().create_sql, "CREATE v");
    assert_eq!(show(ShowCreateType::Sink, "sink").unwrap().create_sql, "CREATE sink");
    assert_eq!(show(ShowCreateType::Subscription, "sub").unwrap().create_sql, "CREATE sub");
    assert_eq!(show(ShowCreateType::Source, "t1").unwrap().create_sql, "CREATE t1");
    // a source that belongs to a table, and a view that is still being created
    assert_eq!(show(ShowCreateType::Source, "hidden").err().unwrap(), ShowError::NotFound(s("source"), s("hidden")));
    assert!(matches!(show(ShowCreateType::MaterializedView, "mv_creating"), Err(ShowError::NotFound(..))));
    assert_eq!(
        show(ShowCreateType::Function, "f").err().unwrap(),
        ShowError::NotImplemented(s("show create on: FUNCTION"))
    );
}
