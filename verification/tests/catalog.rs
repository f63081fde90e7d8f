use streaming_meta::catalog::drop::{DropMode, JobFragments, RelationIdEnum};
use streaming_meta::catalog::error::{CatalogKind, MetaError, MetaErrorKind};
use streaming_meta::catalog::finishing::ColIndexMapping;
use streaming_meta::catalog::manager::CatalogManager;
use streaming_meta::catalog::notify::{Audience, Info, Operation, RelationInfo, StreamingJob, TargetTable};
use streaming_meta::catalog::owner::OwnedObject;
use streaming_meta::catalog::rename::Rewrites;
use streaming_meta::catalog::set_schema::MovableObject;
use streaming_meta::catalog::state::CatalogManagerCore;
use streaming_meta::catalog::types::{
    Action, ActionWithGrantOption, ColumnCatalog, Comment, Connection, CreateType, Database, Function, GrantPrivilege, Index,
    IndexItem, Object,
    Property, Schema, Secret, Sink, Source, SourceInfo, StreamJobStatus, Subscription, SubscriptionState, Table,
    TableJobType, TableType, UpdateField, UserInfo, ViewInfo,
};
use streaming_meta::util::id_map::{Entry, IdMap};

const DB: u32 = 1;
const SCHEMA: u32 = 2;
const OTHER_SCHEMA: u32 = 3;
const ROOT: u32 = 1;
const ALICE: u32 = 10;
const BOB: u32 = 11;
const CAROL: u32 = 12;

fn s(x: &str) -> String {
    x.to_string()
}

fn user(id: u32, name: &str, is_super: bool) -> UserInfo {
    UserInfo { id, name: s(name), is_super, ..UserInfo::default() }
}

fn catalog() -> CatalogManager {
    let mut m = CatalogManager { core: CatalogManagerCore::default() };
    let db = &mut m.core.database;
    db.databases.insert(DB, Database { id: DB, name: s("dev"), owner: ROOT });
    db.schemas.insert(SCHEMA, Schema { id: SCHEMA, database_id: DB, name: s("public"), owner: ROOT });
    db.schemas.insert(OTHER_SCHEMA, Schema { id: OTHER_SCHEMA, database_id: DB, name: s("other"), owner: ROOT });
    for (id, name, is_super) in [(ROOT, "root", true), (ALICE, "alice", false), (BOB, "bob", false), (CAROL, "carol", false)] {
        m.core.user.user_info.insert(id, user(id, name, is_super));
    }
    m.core.user.catalog_create_ref_count.insert(ROOT, 3);
    m
}

fn table(id: u32, name: &str, dependent_relations: Vec<u32>) -> Table {
    Table {
        id,
        schema_id: SCHEMA,
        database_id: DB,
        name: s(name),
        owner: ALICE,
        dependent_relations,
        table_type: TableType::Table,
        stream_job_status: StreamJobStatus::Creating,
        create_type: CreateType::Foreground,
        ..Table::default()
    }
}

fn source(id: u32, name: &str) -> Source {
    Source { id, schema_id: SCHEMA, database_id: DB, name: s(name), owner: ALICE, ..Source::default() }
}

fn sink(id: u32, name: &str, dependent_relations: Vec<u32>) -> Sink {
    Sink { id, schema_id: SCHEMA, database_id: DB, name: s(name), owner: ALICE, dependent_relations, ..Sink::default() }
}

fn view(id: u32, name: &str, dependent_relations: Vec<u32>) -> ViewInfo {
    ViewInfo { id, schema_id: SCHEMA, database_id: DB, name: s(name), owner: ALICE, dependent_relations, sql: s("") }
}

fn index(id: u32, name: &str, index_table_id: u32, primary_table_id: u32) -> Index {
    Index { id, schema_id: SCHEMA, database_id: DB, name: s(name), owner: ALICE, index_table_id, primary_table_id, ..Index::default() }
}

fn subscription(id: u32, name: &str, dependent_table_id: u32) -> Subscription {
    Subscription { id, schema_id: SCHEMA, database_id: DB, name: s(name), owner: ALICE, dependent_table_id, ..Subscription::default() }
}

fn create_table(m: &mut CatalogManager, t: Table) {
    m.start_create_table_procedure(&t).unwrap();
    m.finish_create_table_procedure(vec![], t);
}

/// Tables 100 and 101, where 101 reads 100.
fn with_tables() -> CatalogManager {
    let mut m = catalog();
    create_table(&mut m, table(100, "t", vec![]));
    create_table(&mut m, table(101, "mv", vec![100]));
    m
}

fn fragments(ids: &[u32]) -> IdMap<JobFragments> {
    let mut m = IdMap::new();
    for id in ids {
        m.insert(*id, JobFragments { internal_table_ids: vec![], is_initial: false });
    }
    m
}

fn owned(m: &CatalogManager, user: u32) -> usize {
    m.core.user.catalog_create_ref_count.get(user).copied().unwrap_or(0)
}

fn refs(m: &CatalogManager, id: u32) -> usize {
    m.core.database.relation_ref_count.get(id).copied().unwrap_or(0)
}

// ---------------------------------------------------------------------------
// Creating.
// ---------------------------------------------------------------------------

#[test]
fn a_table_is_created() {
    let mut m = with_tables();
    assert_eq!((owned(&m, ALICE), refs(&m, 100)), (2, 1));
    assert_eq!(m.core.database.tables.get(101).unwrap().stream_job_status, StreamJobStatus::Created);
    assert!(!m.core.database.has_in_progress_creation(&table(101, "mv", vec![]).key()));

    let same_name = m.start_create_table_procedure(&table(102, "mv", vec![])).err().unwrap();
    assert_eq!(same_name, MetaError::CatalogDuplicated(CatalogKind::Table, s("mv")));
    assert_eq!(same_name.kind(), MetaErrorKind::Duplicated);
    let no_upstream = m.start_create_table_procedure(&table(102, "x", vec![999])).err().unwrap();
    assert_eq!(no_upstream, MetaError::CatalogIdNotFound(CatalogKind::Relation, 999));
    let mut elsewhere = table(102, "x", vec![]);
    elsewhere.schema_id = 77;
    assert_eq!(m.start_create_table_procedure(&elsewhere).err().unwrap(), MetaError::CatalogIdNotFound(CatalogKind::Schema, 77));
    let mut unowned = table(102, "x", vec![]);
    unowned.owner = 66;
    assert_eq!(m.start_create_table_procedure(&unowned).err().unwrap(), MetaError::CatalogIdNotFound(CatalogKind::User, 66));
}

#[test]
fn a_name_is_created_once_at_a_time() {
    let mut m = with_tables();
    m.start_create_table_procedure(&table(102, "x", vec![])).unwrap();
    assert_eq!(m.start_create_table_procedure(&table(103, "x", vec![])).err().unwrap(), MetaError::TableBeingCreated);
    assert_eq!(m.start_create_source_procedure(&source(103, "x")).err().unwrap(), MetaError::CreatingProcedure(CatalogKind::Source));
    assert_eq!(m.start_create_sink_procedure(&sink(103, "x", vec![])).err().unwrap(), MetaError::AlreadyCreating(CatalogKind::Sink));
}

#[test]
fn cancelling_leaves_no_trace() {
    let start = with_tables();
    let mut m = CatalogManager { core: start.core.duplicate() };

    let t = table(102, "x", vec![100, 101]);
    m.start_create_table_procedure(&t).unwrap();
    assert_ne!(m, start);
    m.cancel_create_table_procedure(&t);
    assert_eq!(m, start);

    let src = source(103, "src");
    m.start_create_source_procedure(&src).unwrap();
    m.cancel_create_source_procedure(&src);
    assert_eq!(m, start);

    let t = table(104, "y", vec![]);
    m.start_create_table_procedure_with_source(&src, &t).unwrap();
    assert_eq!(owned(&m, ALICE), 4);
    m.cancel_create_table_procedure_with_source(&src, &t);
    assert_eq!(m, start);

    let (i, it) = (index(105, "idx", 106, 100), table(106, "idx", vec![100]));
    m.start_create_index_procedure(&i, &it).unwrap();
    m.cancel_create_index_procedure(&i, &it);
    assert_eq!(m, start);

    let k = sink(107, "k", vec![101]);
    m.start_create_sink_procedure(&k).unwrap();
    m.cancel_create_sink_procedure(&k, &None);
    assert_eq!(m, start);

    let mv = table(108, "mv2", vec![100]);
    let internal = vec![table(109, "__internal_mv2", vec![])];
    let told = m.start_create_materialized_view_procedure(&mv, &internal).unwrap();
    assert_eq!((told[0].audience, told[0].operation), (Audience::Frontend, Operation::Add));
    m.core.register_finish_notifier(108, 5);
    let cancelled = m.cancel_create_materialized_view_procedure(108, &vec![109]).unwrap().unwrap();
    assert_eq!(cancelled.notifiers, vec![5]);
    assert_eq!(m, start);
    assert!(m.cancel_create_materialized_view_procedure(999, &vec![]).unwrap().is_none());
    assert_eq!(m.cancel_create_materialized_view_procedure(101, &vec![]).err().unwrap(), MetaError::NotCreating(101));
}

#[test]
fn a_missing_connection_leaves_the_mark() {
    let mut m = catalog();
    let mut src = source(103, "src");
    src.connection_id = Some(50);
    assert_eq!(m.start_create_source_procedure(&src).err().unwrap(), MetaError::ConnectionMissing(50));
    assert!(m.core.database.has_in_progress_creation(&src.key()));
    assert_eq!(owned(&m, ALICE), 1);

    let mut m = catalog();
    let t = table(104, "y", vec![1]);
    let e = m.start_create_table_procedure_with_source(&source(103, "src"), &t).err().unwrap();
    assert_eq!(e, MetaError::DependentRelationsNotEmpty);
    assert!(m.core.database.has_in_progress_creation(&t.key()));
}

#[test]
fn streaming_jobs_start_and_finish() {
    let mut m = with_tables();
    let job = StreamingJob::Sink(sink(107, "k", vec![101]), None);
    m.start_create_stream_job_procedure(&job, &vec![]).unwrap();
    assert_eq!(m.core.streaming_job_is_finished(&job), Ok(false));
    let (messages, id) = m
        .finish_stream_job(StreamingJob::Sink(sink(107, "k", vec![101]), None), vec![], 9, s("v1"))
        .unwrap();
    assert_eq!(id, 107);
    assert_eq!(messages.len(), 1);
    let made = m.core.database.sinks.get(107).unwrap();
    assert_eq!(made.created_at_epoch, Some(9));
    assert_eq!(made.created_at_cluster_version, Some(s("v1")));
    assert_eq!(m.core.streaming_job_is_finished(&job), Ok(true));

    let gone = StreamingJob::Sink(sink(300, "gone", vec![]), None);
    assert_eq!(m.core.streaming_job_is_finished(&gone), Err(MetaError::JobGone(CatalogKind::Sink, s("gone"))));
}

#[test]
fn replacing_a_table_with_a_job() {
    let mut m = with_tables();
    let mut new = m.core.database.tables.get(100).unwrap().duplicate();
    let mut stored = new.duplicate();
    stored.version = Some(1);
    m.core.database.tables.insert(100, stored);
    new.version = Some(1);
    let stale = StreamingJob::Table(None, new.duplicate(), TableJobType::General);
    assert_eq!(m.start_replace_table_procedure(&stale).err().unwrap(), MetaError::TableVersionStale);
    new.version = Some(2);
    let job = StreamingJob::Table(None, new.duplicate(), TableJobType::General);
    let before = m.core.duplicate();
    m.start_replace_table_procedure(&job).unwrap();
    assert_eq!(m.start_replace_table_procedure(&job).err().unwrap(), MetaError::AlteringProcedure(CatalogKind::Table));
    m.cancel_replace_table_procedure(&job);
    assert_eq!(m.core, before);
    m.start_replace_table_procedure(&job).unwrap();
    m.finish_replace_table_procedure(&None, &new, None, None, None, vec![]);
    assert_eq!(m.core.database.tables.get(100).unwrap().version, Some(2));
}

#[test]
fn a_subscription_is_created() {
    let mut m = with_tables();
    let sub = Subscription { subscription_state: SubscriptionState::Init, ..subscription(130, "sub", 101) };
    m.start_create_subscription_procedure(&sub).unwrap();
    assert_eq!((refs(&m, 101), owned(&m, ALICE)), (1, 3));
    m.finish_create_subscription_procedure(130, 9, s("v1")).unwrap();
    let made = m.core.database.subscriptions.get(130).unwrap();
    assert_eq!(made.subscription_state, SubscriptionState::Created);
    assert_eq!((made.created_at_epoch, made.created_at_cluster_version.as_deref()), (Some(9), Some("v1")));
    assert_eq!(m.notify_create_subscription(130).unwrap().len(), 1);
    assert_eq!(m.get_subscription_by_id(130).unwrap().name, "sub");
    let gone = MetaError::CatalogIdNotFound(CatalogKind::Subscription, 9);
    assert_eq!(m.finish_create_subscription_procedure(9, 9, s("")).err().unwrap(), gone);
    assert_eq!(m.notify_create_subscription(9).err().unwrap(), gone);
    assert!(m.get_subscription_by_id(9).is_err());
    assert_eq!(m.start_create_subscription_procedure(&sub).err().unwrap(), MetaError::CatalogDuplicated(CatalogKind::Subscription, s("sub")));
}

#[test]
fn tables_are_marked() {
    let mut m = catalog();
    let told = m.mark_creating_tables(&vec![table(120, "a", vec![]), table(121, "b", vec![])]);
    assert_eq!(told.len(), 2);
    assert!(m.core.database.in_progress_creating_tables.contains_key(120));
    let told = m.unmark_creating_tables(&vec![120, 121], true);
    assert_eq!(told.len(), 2);
    assert!(m.unmark_creating_tables(&vec![120], false).is_empty());
    assert_eq!(m, catalog());
    assert!(m.assert_tables_deleted(&vec![120]));
}

#[test]
fn waiting_for_jobs() {
    let mut core = CatalogManagerCore::default();
    core.register_finish_notifier(1, 5);
    core.register_finish_notifier(1, 6);
    core.register_finish_notifier(2, 7);
    assert_eq!(core.notify_finish(1, 99), vec![(5, 99), (6, 99)]);
    assert_eq!(core.notify_finish(1, 99), vec![]);
    core.database.in_progress_creating_streaming_job.insert(8, table(8, "x", vec![]).key());
    let told = core.notify_finish_failed(&MetaError::JobCancelled(3));
    assert_eq!(told, vec![(7, MetaError::JobCancelled(3))]);
    assert_eq!(core, CatalogManagerCore::default());
}

// ---------------------------------------------------------------------------
// Dropping.
// ---------------------------------------------------------------------------

#[test]
fn drops_take_dependents_along() {
    let mut m = with_tables();
    m.create_view(&view(110, "v", vec![101])).unwrap();
    let e = m.drop_relation(RelationIdEnum::Table(100), &fragments(&[100, 101]), DropMode::Restrict).err().unwrap();
    assert_eq!(e, MetaError::RelationReferenced(CatalogKind::Table, s("t"), 1));
    assert_eq!(e.kind(), MetaErrorKind::PermissionDenied);

    let before = m.core.duplicate();
    let (messages, jobs) = m.drop_relation(RelationIdEnum::Table(100), &fragments(&[100, 101]), DropMode::Cascade).unwrap();
    assert_eq!(jobs, vec![100, 101]);
    assert_eq!(messages.len(), 1);
    match &messages[0].info {
        Info::RelationGroup(relations) => assert_eq!(relations.len(), 3),
        other => panic!("unexpected message {:?}", other),
    }
    assert_eq!(m, catalog());

    // without the fragments nothing happens
    m.core = before;
    let e = m.drop_relation(RelationIdEnum::Table(100), &fragments(&[100]), DropMode::Cascade).err().unwrap();
    assert_eq!(e, MetaError::FragmentNotFound(101));
    assert!(m.core.database.tables.contains_key(100));
}

#[test]
fn indexes_go_with_their_table() {
    let mut m = with_tables();
    let (i, it) = (index(105, "idx", 106, 100), table(106, "idx", vec![100]));
    m.start_create_index_procedure(&i, &it).unwrap();
    m.finish_create_index_procedure(vec![], i, it);
    // the view on the table keeps it from being dropped, the index alone would not
    let e = m.drop_relation(RelationIdEnum::Table(100), &fragments(&[100, 101, 106]), DropMode::Restrict).err().unwrap();
    assert_eq!(e, MetaError::RelationReferenced(CatalogKind::Table, s("t"), 2));
    m.drop_relation(RelationIdEnum::Table(101), &fragments(&[101]), DropMode::Restrict).unwrap();
    let (_, jobs) = m.drop_relation(RelationIdEnum::Table(100), &fragments(&[100, 106]), DropMode::Restrict).unwrap();
    assert_eq!(jobs, vec![100, 106]);
    assert_eq!(m, catalog());
}

#[test]
fn missing_relations_cannot_be_dropped() {
    let mut m = catalog();
    let mut drop = |r| m.drop_relation(r, &fragments(&[]), DropMode::Restrict).err().unwrap();
    assert_eq!(drop(RelationIdEnum::Table(9)), MetaError::RelationMissing(CatalogKind::Table));
    assert_eq!(drop(RelationIdEnum::Index(9)), MetaError::RelationMissing(CatalogKind::Index));
    assert_eq!(drop(RelationIdEnum::Sink(9)), MetaError::RelationMissing(CatalogKind::Sink));
    assert_eq!(drop(RelationIdEnum::Subscription(9)), MetaError::RelationMissing(CatalogKind::Subscription));
}

#[test]
fn sinks_into_other_tables_stop_a_drop() {
    let mut m = with_tables();
    let mut k = sink(107, "k", vec![101]);
    k.target_table = Some(100);
    m.start_create_sink_procedure(&k).unwrap();
    m.finish_create_sink_procedure(vec![], k);
    let e = m.drop_relation(RelationIdEnum::Table(101), &fragments(&[101, 107]), DropMode::Cascade).err().unwrap();
    assert_eq!(e, MetaError::TableSinksInDependency(1));
}

#[test]
fn privileges_go_with_the_relation() {
    let mut m = with_tables();
    m.core.user.user_info.insert(BOB, UserInfo { grant_privileges: vec![grant(Object::TableId(101), &[(Action::Select, false)], ALICE)], ..user(BOB, "bob", false) });
    let (messages, _) = m.drop_relation(RelationIdEnum::Table(101), &fragments(&[101]), DropMode::Restrict).unwrap();
    assert_eq!(messages.len(), 2);
    assert!(matches!(&messages[0].info, Info::User(u) if u.id == BOB && u.grant_privileges.is_empty()));
    assert!(matches!(&messages[1].info, Info::RelationGroup(r) if matches!(r[0], RelationInfo::Table(_))));
}

#[test]
fn databases_come_and_go() {
    let mut m = catalog();
    let start = m.core.duplicate();
    let db = Database { id: 50, name: s("db"), owner: ALICE };
    let messages = m.create_database(&db, &vec![51, 52, 53, 54]).unwrap();
    assert_eq!(messages.len(), 5);
    assert_eq!(owned(&m, ALICE), 5);
    assert_eq!(m.core.database.schemas.get(51).unwrap().name, "public");
    assert_eq!(m.create_database(&db, &vec![61, 62, 63, 64]).err().unwrap(), MetaError::CatalogDuplicated(CatalogKind::Database, s("db")));
    let dropped = m.drop_database(50).unwrap();
    assert!(dropped.streaming_job_ids.is_empty());
    assert_eq!(m.core, start);
    m.create_database(&db, &vec![51, 52, 53, 54]).unwrap();
    create_table(&mut m, Table { schema_id: 51, database_id: 50, ..table(100, "t", vec![]) });
    create_table(&mut m, Table { schema_id: 51, database_id: 50, ..table(101, "__internal_t_1", vec![]) });
    let dropped = m.drop_database(50).unwrap();
    assert_eq!(dropped.streaming_job_ids, vec![100]);
    assert!(m.core.database.tables.ids().is_empty());
    m.core = start.duplicate();
    assert!(m.drop_database(50).is_err());
    m.start_create_table_procedure(&table(102, "x", vec![])).unwrap();
    assert_eq!(m.drop_database(DB).err().unwrap(), MetaError::DatabaseBusy);
}

#[test]
fn objects_come_and_go() {
    let mut m = catalog();
    let start = m.core.duplicate();

    let schema = Schema { id: 60, database_id: DB, name: s("sch"), owner: ALICE };
    m.create_schema(&schema).unwrap();
    assert_eq!(m.create_schema(&schema).err().unwrap(), MetaError::CatalogDuplicated(CatalogKind::Schema, s("sch")));
    m.drop_schema(60).unwrap();
    assert_eq!(m.core, start);
    create_table(&mut m, table(100, "t", vec![]));
    assert_eq!(m.drop_schema(SCHEMA).err().unwrap(), MetaError::SchemaNotEmpty);
    m.start_create_table_procedure(&table(102, "x", vec![])).unwrap();
    assert_eq!(m.drop_schema(SCHEMA).err().unwrap(), MetaError::SchemaBusy);
    m.core = start.duplicate();

    let f = Function { id: 61, schema_id: SCHEMA, database_id: DB, name: s("f"), owner: ALICE, arg_types: vec![s("int")] };
    m.create_function(&f).unwrap();
    assert!(m.create_function(&f).is_err());
    m.drop_function(61).unwrap();
    assert_eq!(m.core, start);

    let c = || Connection { id: 62, schema_id: SCHEMA, database_id: DB, name: s("c"), owner: ALICE };
    m.create_connection(c()).unwrap();
    let mut src = source(103, "src");
    src.connection_id = Some(62);
    m.start_create_source_procedure(&src).unwrap();
    assert_eq!(m.drop_connection(62).err().unwrap(), MetaError::ObjectReferenced(CatalogKind::Connection, s("c"), 1));
    m.cancel_create_source_procedure(&src);
    m.drop_connection(62).unwrap();
    assert_eq!(m.core, start);

    let secret = Secret { id: 63, schema_id: SCHEMA, database_id: DB, name: s("sec"), owner: ALICE, value: vec![1] };
    let messages = m.create_secret(secret, vec![2]).unwrap();
    assert_eq!((messages[0].audience, messages[1].audience), (Audience::Compute, Audience::Frontend));
    assert!(matches!(&messages[0].info, Info::Secret(x) if x.value == vec![2]));
    assert_eq!(m.core.database.secrets.get(63).unwrap().value, vec![1]);
    m.drop_secret(63).unwrap();
    assert_eq!(m.core, start);
    assert_eq!(m.drop_secret(63).err().unwrap(), MetaError::SecretNotFound);

    m.create_view(&view(110, "v", vec![])).unwrap();
    m.drop_relation(RelationIdEnum::View(110), &fragments(&[]), DropMode::Restrict).unwrap();
    assert_eq!(m.core, start);
}

// ---------------------------------------------------------------------------
// Changing.
// ---------------------------------------------------------------------------

#[test]
fn renaming() {
    let mut m = with_tables();
    let mut rewrites = Rewrites::default();
    rewrites.tables.insert(101, s("SELECT * FROM u"));
    let messages = m.alter_table_name(100, "u", s("CREATE TABLE u"), &rewrites).unwrap();
    assert!(!messages.is_empty());
    assert_eq!(m.core.database.tables.get(100).unwrap().name, "u");
    assert_eq!(m.core.database.tables.get(100).unwrap().definition, "CREATE TABLE u");
    assert_eq!(m.core.database.tables.get(101).unwrap().definition, "SELECT * FROM u");
    assert!(m.alter_table_name(100, "mv", s(""), &rewrites).is_err());
    assert_eq!(m.alter_table_name(9, "x", s(""), &rewrites).err().unwrap(), MetaError::CatalogIdNotFound(CatalogKind::Table, 9));
    m.alter_schema_name(SCHEMA, "private").unwrap();
    assert_eq!(m.core.database.schemas.get(SCHEMA).unwrap().name, "private");
    m.alter_database_name(DB, "prod").unwrap();
    assert_eq!(m.core.database.databases.get(DB).unwrap().name, "prod");
}

#[test]
fn renaming_other_relations() {
    let mut m = with_tables();
    m.create_view(&view(110, "v", vec![100])).unwrap();
    m.core.database.sources.insert(103, source(103, "src"));
    m.core.database.sinks.insert(107, sink(107, "k", vec![101]));
    m.core.database.subscriptions.insert(130, subscription(130, "sub", 101));
    m.core.database.indexes.insert(105, index(105, "idx", 106, 100));
    m.core.database.tables.insert(106, table(106, "idx", vec![]));

    m.alter_view_name(110, "w", &Rewrites::default()).unwrap();
    assert_eq!(m.core.database.views.get(110).unwrap().name, "w");
    assert_eq!(m.alter_view_name(9, "w2", &Rewrites::default()).err().unwrap(), MetaError::CatalogIdNotFound(CatalogKind::View, 9));
    m.alter_source_name(103, "src2", s("CREATE SOURCE src2"), &Rewrites::default()).unwrap();
    assert_eq!(m.core.database.sources.get(103).unwrap().definition, "CREATE SOURCE src2");
    m.alter_sink_name(107, "k2", s("CREATE SINK k2")).unwrap();
    assert_eq!(m.core.database.sinks.get(107).unwrap().name, "k2");
    m.alter_subscription_name(130, "sub2", s("CREATE SUBSCRIPTION sub2")).unwrap();
    assert_eq!(m.core.database.subscriptions.get(130).unwrap().name, "sub2");
    let messages = m.alter_index_name(105, "idx2", s("CREATE INDEX idx2")).unwrap();
    assert_eq!(m.core.database.indexes.get(105).unwrap().name, "idx2");
    assert_eq!(m.core.database.tables.get(106).unwrap().name, "idx2");
    assert!(!messages.is_empty());
    // the name of another relation is taken
    assert_eq!(m.alter_sink_name(107, "mv", s("")).err().unwrap(), MetaError::CatalogDuplicated(CatalogKind::Table, s("mv")));
}

#[test]
fn changing_sources() {
    let mut m = catalog();
    m.core.database.sources.insert(103, Source { version: 4, ..source(103, "src") });
    let newer = Source { version: 5, ..source(103, "src") };
    let messages = m.alter_source_column(newer.duplicate()).unwrap();
    assert_eq!(messages.len(), 1);
    assert_eq!(m.core.database.sources.get(103).unwrap().version, 5);
    assert!(m.alter_source_column(newer).is_err());
    assert_eq!(m.alter_source_column(source(9, "x")).err().unwrap(), MetaError::CatalogIdNotFound(CatalogKind::Source, 9));
    m.update_source_rate_limit_by_source_id(103, Some(7)).unwrap();
    assert_eq!(m.core.database.sources.get(103).unwrap().rate_limit, Some(7));
    assert!(m.update_source_rate_limit_by_source_id(9, None).is_err());
}

#[test]
fn changing_owners() {
    let mut m = with_tables();
    let messages = m.alter_owner(&fragments(&[100, 101]), OwnedObject::TableId(100), BOB).unwrap();
    assert_eq!(messages.len(), 1);
    assert_eq!((owned(&m, ALICE), owned(&m, BOB)), (1, 1));
    assert_eq!(m.core.database.tables.get(100).unwrap().owner, BOB);
    let messages = m.alter_owner(&fragments(&[100]), OwnedObject::TableId(100), BOB).unwrap();
    assert!(messages.is_empty());
    let e = m.alter_owner(&fragments(&[100]), OwnedObject::TableId(9), BOB).err().unwrap();
    assert_eq!(e, MetaError::CatalogIdNotFound(CatalogKind::Table, 9));
    assert_eq!(m.alter_owner(&fragments(&[]), OwnedObject::TableId(100), ALICE).err().unwrap(), MetaError::FragmentNotFound(100));
}

#[test]
fn moving_to_another_schema() {
    let mut m = with_tables();
    m.alter_set_schema(&fragments(&[100]), MovableObject::TableId(100), OTHER_SCHEMA).unwrap();
    assert_eq!(m.core.database.tables.get(100).unwrap().schema_id, OTHER_SCHEMA);
    let e = m.alter_set_schema(&fragments(&[100]), MovableObject::TableId(100), 77).err().unwrap();
    assert_eq!(e, MetaError::CatalogIdNotFound(CatalogKind::Schema, 77));
}

#[test]
fn giving_back_restores_a_table() {
    let mut m = with_tables();
    let (i, it) = (index(105, "idx", 106, 100), table(106, "idx", vec![100]));
    m.start_create_index_procedure(&i, &it).unwrap();
    m.finish_create_index_procedure(vec![], i, it);
    let start = m.core.duplicate();
    let jobs = fragments(&[100, 101, 106]);

    m.alter_owner(&jobs, OwnedObject::TableId(100), BOB).unwrap();
    assert_eq!((owned(&m, ALICE), owned(&m, BOB)), (1, 3));
    m.alter_owner(&jobs, OwnedObject::TableId(100), ALICE).unwrap();
    assert_eq!(m.core, start);

    let messages = m.alter_set_schema(&jobs, MovableObject::TableId(100), OTHER_SCHEMA).unwrap();
    assert!(matches!(&messages[0].info, Info::RelationGroup(r) if r.len() == 3));
    assert_eq!(m.core.database.indexes.get(105).unwrap().schema_id, OTHER_SCHEMA);
    assert_eq!(m.core.database.tables.get(106).unwrap().schema_id, OTHER_SCHEMA);
    m.alter_set_schema(&jobs, MovableObject::TableId(100), SCHEMA).unwrap();
    assert_eq!(m.core, start);
}

#[test]
fn comments() {
    let mut m = with_tables();
    let comment = |table_id, column_index| Comment { database_id: DB, schema_id: SCHEMA, table_id, column_index, description: Some(s("hello")) };
    m.comment_on(comment(100, None)).unwrap();
    assert_eq!(m.core.database.tables.get(100).unwrap().description, Some(s("hello")));
    assert!(m.comment_on(comment(100, Some(3))).is_err());
    assert!(m.comment_on(comment(9, None)).is_err());
}

// ---------------------------------------------------------------------------
// Users and privileges.
// ---------------------------------------------------------------------------

fn grant(object: Object, actions: &[(Action, bool)], granted_by: u32) -> GrantPrivilege {
    GrantPrivilege {
        action_with_opts: actions
            .iter()
            .map(|(action, with_grant_option)| ActionWithGrantOption { action: *action, with_grant_option: *with_grant_option, granted_by })
            .collect(),
        object: Some(object),
    }
}

fn privileges(m: &CatalogManager, id: u32) -> &Vec<GrantPrivilege> {
    &m.core.user.user_info.get(id).unwrap().grant_privileges
}

#[test]
fn users_come_and_go() {
    let mut m = CatalogManager { core: CatalogManagerCore::default() };
    m.init_user();
    assert_eq!(m.list_users().iter().map(|u| u.name.as_str()).collect::<Vec<_>>(), vec!["root", "postgres"]);
    let start = m.core.duplicate();
    m.create_user(&user(10, "alice", false)).unwrap();
    assert_eq!(m.create_user(&user(11, "alice", false)).err().unwrap(), MetaError::UserExists(s("alice")));
    let update = UserInfo { id: 10, name: s("al"), is_super: true, can_login: true, ..UserInfo::default() };
    m.update_user(&update, &vec![UpdateField::Rename, UpdateField::Login]).unwrap();
    let now = m.get_user(10).unwrap();
    assert_eq!((now.name.as_str(), now.is_super, now.can_login), ("al", false, true));
    m.drop_user(10).unwrap();
    assert_eq!(m.core, start);
    assert_eq!(m.drop_user(10).err().unwrap(), MetaError::UserMissing(10));
    assert_eq!(m.drop_user(1).err().unwrap(), MetaError::DropDefaultUser(1));

    let mut m = with_tables();
    assert_eq!(m.drop_user(ALICE).err().unwrap(), MetaError::UserHasObjects(s("alice")));
}

#[test]
fn merging_privileges() {
    let mut origin = grant(Object::TableId(1), &[(Action::Select, false), (Action::Insert, true)], ALICE);
    let new = grant(Object::TableId(1), &[(Action::Select, true), (Action::Delete, false)], BOB);
    CatalogManager::merge_privilege(&mut origin, &new);
    let held: Vec<(Action, bool, u32)> =
        origin.action_with_opts.iter().map(|a| (a.action, a.with_grant_option, a.granted_by)).collect();
    assert_eq!(held, vec![(Action::Select, true, ALICE), (Action::Insert, true, ALICE), (Action::Delete, false, BOB)]);
    assert!(CatalogManager::check_privilege(&origin, &new, false));
    assert!(!CatalogManager::check_privilege(&origin, &new, true));
}

#[test]
fn granting_and_revoking_along_the_grants() {
    let mut m = with_tables();
    let t = Object::TableId(100);
    // the owner grants to bob with the option, who grants on to carol
    m.grant_privilege(&vec![BOB], &vec![grant(t, &[(Action::Select, true)], ALICE)], ALICE).unwrap();
    m.grant_privilege(&vec![CAROL], &vec![grant(t, &[(Action::Select, false)], BOB)], BOB).unwrap();
    let e = m.grant_privilege(&vec![BOB], &vec![grant(t, &[(Action::Select, false)], CAROL)], CAROL).err().unwrap();
    assert_eq!(e, MetaError::GrantWithoutOption(CAROL));
    let e = m.grant_privilege(&vec![BOB], &vec![grant(Object::TableId(101), &[(Action::Select, false)], CAROL)], CAROL).err().unwrap();
    assert_eq!(e, MetaError::GrantorLacksPrivilege(CAROL));
    let e = m.grant_privilege(&vec![ROOT], &vec![grant(t, &[(Action::Select, false)], ALICE)], ALICE).err().unwrap();
    assert_eq!(e, MetaError::GrantToSuperUser(ROOT));
    assert_eq!(m.drop_user(BOB).err().unwrap(), MetaError::UserHasGrants(BOB));

    let select = vec![grant(t, &[(Action::Select, false)], ALICE)];
    // without cascade carol may not lose what bob granted
    let before = m.core.duplicate();
    let e = m.revoke_privilege(&vec![BOB], &select, ALICE, ALICE, false, false).err().unwrap();
    assert_eq!(e, MetaError::RevokeRestricted(s("carol")));
    assert_eq!(m.core, before);
    let messages = m.revoke_privilege(&vec![BOB], &select, ALICE, ALICE, false, true).unwrap();
    assert_eq!(messages.len(), 2);
    assert!(privileges(&m, BOB).is_empty());
    assert!(privileges(&m, CAROL).is_empty());
    assert_eq!(m.core.user.user_grant_relation.len(), 0);
}

#[test]
fn revoking_the_option_only() {
    let mut m = with_tables();
    let t = Object::TableId(100);
    m.grant_privilege(&vec![BOB], &vec![grant(t, &[(Action::Select, true)], ALICE)], ALICE).unwrap();
    m.revoke_privilege(&vec![BOB], &vec![grant(t, &[(Action::Select, false)], ALICE)], ALICE, ALICE, true, true).unwrap();
    assert_eq!(privileges(&m, BOB)[0].action_with_opts[0].with_grant_option, false);
    let e = m.revoke_privilege(&vec![BOB], &vec![grant(t, &[(Action::Select, false)], CAROL)], CAROL, CAROL, false, true).err().unwrap();
    assert_eq!(e, MetaError::RevokerLacksPrivilege(s("carol")));
    let e = m.revoke_privilege(&vec![ROOT], &vec![grant(t, &[(Action::Select, false)], ALICE)], ALICE, ALICE, false, true).err().unwrap();
    assert_eq!(e, MetaError::RevokeFromSuperUser(ROOT));
}

// ---------------------------------------------------------------------------
// Recovery and start.
// ---------------------------------------------------------------------------

#[test]
fn dirty_tables_are_cleaned() {
    let mut m = with_tables();
    let start = m.core.duplicate();
    let mut foreground = table(120, "fg", vec![100]);
    foreground.table_type = TableType::MaterializedView;
    m.start_create_materialized_view_procedure(&foreground, &vec![]).unwrap();
    let (messages, cleared) = m.clean_dirty_tables(&fragments(&[100, 101, 120]));
    assert_eq!(m.core, start);
    assert_eq!(messages.len(), 1);
    assert_eq!((cleared[0].id, cleared[0].name.as_str(), cleared[0].error.as_str()), (120, "fg", "clear during recovery"));
    let (_, cleared) = m.clean_dirty_tables(&fragments(&[100, 101, 120]));
    assert!(cleared.is_empty());
    assert_eq!(m.core, start);
}

#[test]
fn unfinished_subscriptions_are_cleaned() {
    let mut m = with_tables();
    let start = m.core.duplicate();
    let mut sub = subscription(130, "sub", 101);
    sub.subscription_state = SubscriptionState::Init;
    m.start_create_subscription_procedure(&sub).unwrap();
    assert!(m.core.database.subscriptions.contains_key(130));
    m.clean_dirty_subscription();
    assert!(!m.core.database.subscriptions.contains_key(130));
    assert_eq!(m.core.database.relation_ref_count, start.database.relation_ref_count);
    assert_eq!(m.core.user, start.user);
}

#[test]
fn old_catalogs_are_updated() {
    let mut m = with_tables();
    let mut src = source(103, "src");
    src.info = Some(SourceInfo { is_shared: false, format_encode_options: vec![] });
    src.with_properties = vec![
        Property { key: s("connector"), value: s("kafka") },
        Property { key: s("schema.registry"), value: s("http://r") },
    ];
    m.core.database.sources.insert(103, src);
    assert_eq!(m.legacy_sources(), vec![103]);
    m.source_backward_compat_check(&vec![vec![false, true]]);
    let options = &m.core.database.sources.get(103).unwrap().info.as_ref().unwrap().format_encode_options;
    assert_eq!(options, &vec![Property { key: s("schema.registry"), value: s("http://r") }]);
}

#[test]
fn a_new_catalog_is_filled() {
    let mut m = CatalogManager { core: CatalogManagerCore::default() };
    let messages = m.init(7, &vec![8, 9, 10, 11], &vec![]).unwrap();
    assert_eq!(messages.len(), 5);
    assert_eq!(m.core.database.databases.get(7).unwrap().name, "dev");
    assert_eq!(owned(&m, ROOT), 5);
    // what is there is left as it is
    let before = m.core.duplicate();
    assert!(m.init(17, &vec![18, 19, 20, 21], &vec![]).unwrap().is_empty());
    assert_eq!(m.core, before);
}

// ---------------------------------------------------------------------------
// Listing.
// ---------------------------------------------------------------------------

#[test]
fn listings() {
    let mut m = with_tables();
    let mut src = source(103, "src");
    src.with_properties = vec![Property { key: s("connector"), value: s("KAFKA") }];
    m.core.database.sources.insert(103, src);
    let mut with_source = m.core.database.tables.get(100).unwrap().duplicate();
    with_source.optional_associated_source_id = Some(103);
    with_source.retention_seconds = Some(60);
    with_source.cdc_table_id = Some(s("103.public.t"));
    m.core.database.tables.insert(100, with_source);
    let mut sub = subscription(130, "sub", 101);
    sub.retention_seconds = 7;
    m.start_create_subscription_procedure(&sub).unwrap();

    let jobs = m.list_stream_job_for_telemetry();
    assert_eq!(jobs[0].connector, Some(s("kafka")));
    assert_eq!(jobs[1].connector, None);
    assert_eq!(m.get_all_table_options(), vec![(100, Some(60)), (101, None)]);
    assert_eq!(m.get_table_by_cdc_table_id(&s("103.public.t"))[0].id, 100);
    assert_eq!(m.get_mv_depended_subscriptions().get(101).unwrap().get(130), Some(&7));
    assert_eq!(m.list_stream_job_ids().ids(), vec![100, 101, 103, 130]);
    assert_eq!(m.table_count(), 2);
    assert_eq!((m.source_count(), m.sink_count(), m.subscription_count()), (1, 0, 1));
    assert_eq!(m.list_source_ids(SCHEMA), vec![103]);
    assert!(m.table_is_created(101));
    assert!(!m.table_is_created(999));
    assert_eq!(m.find_creating_streaming_job_ids(&vec![subscription(130, "sub", 101).key(), table(9, "none", vec![]).key()]), vec![130]);
    assert_eq!(m.get_tables(&vec![101, 999]).len(), 1);
    let deps = m.list_object_dependencies();
    assert!(deps.iter().any(|d| d.object_id == 101 && d.referenced_object_id == 100));
    assert_eq!(m.get_table_name_and_type_mapping()[0].table_type, "TABLE");
}

#[test]
fn plain_listings() {
    let mut m = with_tables();
    m.create_connection(Connection { id: 62, schema_id: SCHEMA, database_id: DB, name: s("c"), owner: ALICE }).unwrap();
    m.create_view(&view(110, "v", vec![])).unwrap();
    m.create_function(&Function { id: 61, schema_id: SCHEMA, database_id: DB, name: s("f"), owner: ALICE, arg_types: vec![] }).unwrap();
    let mut internal = table(109, "__internal", vec![]);
    internal.table_type = TableType::Internal;
    internal.stream_job_status = StreamJobStatus::Created;
    m.core.database.tables.insert(109, internal);
    let mut creating = table(120, "bg", vec![]);
    creating.table_type = TableType::MaterializedView;
    creating.create_type = CreateType::Background;
    m.core.database.tables.insert(120, creating);
    m.core.database.sinks.insert(107, sink(107, "k", vec![101]));

    assert_eq!(m.list_connections().len(), 1);
    assert_eq!(m.get_connection_by_id(62).unwrap().name, "c");
    assert_eq!(m.get_connection_by_id(9).err().unwrap(), MetaError::CatalogIdNotFound(CatalogKind::Connection, 9));
    assert_eq!(m.list_databases().len(), 1);
    assert_eq!(m.list_schemas().iter().map(|x| x.id).collect::<Vec<_>>(), vec![SCHEMA, OTHER_SCHEMA]);
    assert_eq!(m.list_tables().iter().map(|x| x.id).collect::<Vec<_>>(), vec![100, 101, 109, 120]);
    assert_eq!(m.list_tables_by_type(TableType::Internal)[0].id, 109);
    assert_eq!(m.list_views()[0].id, 110);
    assert_eq!(m.list_view_ids(SCHEMA), vec![110]);
    assert_eq!(m.list_view_ids(OTHER_SCHEMA), Vec::<u32>::new());
    assert_eq!(m.list_creating_background_mvs()[0].id, 120);
    assert_eq!(m.list_persisted_creating_tables()[0].id, 120);
    assert_eq!(m.get_created_table_ids(), vec![100, 101, 109]);
    assert_eq!(m.list_dml_table_ids(SCHEMA), vec![100, 101]);
    assert_eq!(m.list_readonly_table_ids(SCHEMA), vec![109, 120]);
    assert_eq!((m.index_count(), m.function_count(), m.materialized_view_count()), (0, 1, 1));
    assert_eq!(m.get_sinks(&vec![107, 9]).len(), 1);
    assert_eq!((m.list_sources().len(), m.list_sinks().len(), m.list_subscriptions().len()), (0, 1, 0));
    assert!(m.get_versioned_table_schemas(&vec![100]).ids().is_empty());
}

#[test]
fn words_of_errors() {
    let text = |e: MetaError| e.message();
    assert_eq!(text(MetaError::CatalogIdNotFound(CatalogKind::Table, 7)), "table id not found: 7");
    assert_eq!(text(MetaError::CatalogDuplicated(CatalogKind::Schema, s("x"))), "schema with name x exists");
    assert_eq!(text(MetaError::UserExists(s("u"))), "User u already exists");
}

// ---------------------------------------------------------------------------
// Whether requests can be made.
// ---------------------------------------------------------------------------

fn unnamed(actions: &[(Action, bool)], granted_by: u32) -> GrantPrivilege {
    GrantPrivilege { object: None, ..grant(Object::TableId(0), actions, granted_by) }
}

#[test]
fn what_drops_presume() {
    let mut m = with_tables();
    let jobs = fragments(&[100, 101]);
    assert!(m.can_drop(RelationIdEnum::Table(101), &jobs, DropMode::Restrict));
    assert!(m.can_drop(RelationIdEnum::Table(9), &jobs, DropMode::Restrict));
    assert!(m.can_drop_database(DB) && m.can_drop_database(9));

    // an owner who is not charged with what they own
    m.core.user.catalog_create_ref_count.remove(ALICE);
    assert!(!m.can_drop(RelationIdEnum::Table(101), &jobs, DropMode::Restrict));
    assert!(!m.can_drop(RelationIdEnum::Table(100), &jobs, DropMode::Cascade));
    assert!(!m.can_drop_database(DB));
    // what is refused anyway can be asked for
    assert!(m.can_drop(RelationIdEnum::Table(100), &jobs, DropMode::Restrict));
    assert!(m.drop_relation(RelationIdEnum::Table(100), &jobs, DropMode::Restrict).is_err());
    assert!(m.can_drop(RelationIdEnum::Table(101), &fragments(&[]), DropMode::Restrict));

    // references that are not counted
    let mut m = with_tables();
    m.core.database.relation_ref_count.remove(100);
    assert!(!m.can_drop(RelationIdEnum::Table(101), &jobs, DropMode::Restrict));

    // privileges that name no object
    let mut m = with_tables();
    let holder = UserInfo { grant_privileges: vec![unnamed(&[(Action::Select, false)], ROOT)], ..user(BOB, "bob", false) };
    m.core.user.user_info.insert(BOB, holder);
    assert!(!m.can_drop(RelationIdEnum::Table(101), &jobs, DropMode::Restrict));
    assert!(!m.can_drop_schema(OTHER_SCHEMA) && m.can_drop_schema(SCHEMA));

    // an index without its table, and one with two internal tables
    let mut m = with_tables();
    m.core.database.indexes.insert(105, index(105, "idx", 106, 100));
    assert!(!m.can_drop(RelationIdEnum::Table(100), &jobs, DropMode::Cascade));
    m.core.database.tables.insert(106, table(106, "idx", vec![100]));
    m.core.database.relation_ref_count.insert(100, 2);
    m.core.user.catalog_create_ref_count.insert(ALICE, 4);
    let mut jobs = fragments(&[100, 101, 106]);
    assert!(m.can_drop(RelationIdEnum::Table(100), &jobs, DropMode::Cascade));
    jobs.insert(106, JobFragments { internal_table_ids: vec![107, 108], is_initial: false });
    assert!(!m.can_drop(RelationIdEnum::Table(100), &jobs, DropMode::Cascade));
    assert!(!m.can_drop(RelationIdEnum::Index(105), &jobs, DropMode::Restrict));
}

#[test]
fn what_dropping_objects_presumes() {
    let mut m = catalog();
    let connection = Connection { id: 62, schema_id: SCHEMA, database_id: DB, name: s("c"), owner: ALICE };
    m.create_connection(connection).unwrap();
    let secret = Secret { id: 63, schema_id: SCHEMA, database_id: DB, name: s("sec"), owner: ALICE, value: vec![] };
    m.create_secret(secret, vec![]).unwrap();
    m.create_function(&Function { id: 61, schema_id: SCHEMA, database_id: DB, name: s("f"), owner: ALICE, arg_types: vec![] }).unwrap();
    assert!(m.can_drop_connection(62) && m.can_drop_secret(63) && m.can_drop_function(61));
    assert!(m.core.user.owns(ALICE, 3) && !m.core.user.owns(ALICE, 4));
    m.core.user.catalog_create_ref_count.remove(ALICE);
    assert!(!m.can_drop_connection(62) && !m.can_drop_secret(63) && !m.can_drop_function(61));
    m.core.database.connection_ref_count.insert(62, 1);
    m.core.database.secret_ref_count.insert(63, 1);
    assert!(m.can_drop_connection(62) && m.can_drop_secret(63));
    assert!(m.can_drop_connection(9) && m.can_drop_secret(9) && m.can_drop_function(9) && m.can_drop_schema(9));
}

#[test]
fn what_creations_presume() {
    let mut m = with_tables();
    let (t, src, k) = (table(102, "x", vec![100]), source(103, "src"), sink(107, "k", vec![101]));
    let (i, it) = (index(105, "idx", 106, 100), table(106, "idx", vec![100]));
    assert!(m.can_start_table(&t) && m.can_start_source(&src) && m.can_start_sink(&k) && m.can_start_index(&i, &it));
    assert!(m.can_start_table_with_source(&src, &table(104, "y", vec![])));
    assert!(!m.can_cancel_table(&t) && !m.can_cancel_source(&src) && !m.can_cancel_sink(&k, &None));
    m.start_create_table_procedure(&t).unwrap();
    m.start_create_source_procedure(&src).unwrap();
    m.start_create_sink_procedure(&k).unwrap();
    m.start_create_index_procedure(&i, &it).unwrap();
    assert!(m.can_cancel_table(&t) && m.can_cancel_source(&src) && m.can_cancel_sink(&k, &None) && m.can_cancel_index(&i, &it));
    m.finish_create_table_procedure(vec![], table(102, "x", vec![100]));
    assert!(!m.can_cancel_table(&t));

    // two owners, or a table that reads something else
    let mut m = with_tables();
    assert!(!m.can_start_index(&i, &Table { owner: BOB, ..table(106, "idx", vec![100]) }));
    assert!(!m.can_start_index(&i, &table(106, "idx", vec![101])));
    assert!(m.can_start_index(&index(105, "idx", 106, 9), &table(106, "idx", vec![101])));
    assert!(!m.can_start_table_with_source(&src, &Table { owner: BOB, ..table(104, "y", vec![]) }));
    // a count that is used up
    m.core.database.relation_ref_count.insert(100, usize::MAX);
    assert!(!m.can_start_table(&t) && m.can_start_table(&table(102, "x", vec![101])));
    m.core.user.catalog_create_ref_count.insert(ALICE, usize::MAX);
    assert!(!m.can_start_table(&table(102, "x", vec![101])) && !m.core.user.can_own(ALICE, 1));
    assert!(!m.can_start_subscription(&subscription(130, "sub", 101)));

    let mut m = with_tables();
    let mv = table(108, "mv2", vec![100]);
    assert!(m.can_start_job(&StreamingJob::MaterializedView(mv.duplicate())));
    assert!(!m.can_start_materialized_view(&table(101, "mv2", vec![])));
    assert!(m.can_start_materialized_view(&table(101, "mv", vec![])));
    m.start_create_materialized_view_procedure(&mv, &vec![table(109, "__internal_mv2", vec![])]).unwrap();
    assert!(m.can_cancel_materialized_view(108, &vec![109]));
    assert!(!m.can_cancel_materialized_view(108, &vec![109, 109]));
    assert!(!m.can_cancel_materialized_view(108, &vec![110]));
    assert!(m.can_cancel_materialized_view(101, &vec![110]) && m.can_cancel_materialized_view(9, &vec![110]));
}

#[test]
fn what_finishing_presumes() {
    let mut m = with_tables();
    let v = s("v1");
    let job = StreamingJob::Sink(sink(107, "k", vec![101]), None);
    assert!(!m.can_finish_job(&job, &vec![], 9, &v));
    m.start_create_stream_job_procedure(&job, &vec![]).unwrap();
    assert!(m.can_finish_job(&job, &vec![], 9, &v));

    // a sink into a table, which has to be replaced along with it
    let stored = m.core.database.tables.get(100).unwrap().duplicate();
    m.core.database.tables.insert(100, Table { version: Some(1), ..stored.duplicate() });
    let new = Table { version: Some(2), ..stored };
    let target = || TargetTable { table: new.duplicate(), source: None };
    let into = StreamingJob::Sink(sink(107, "k", vec![101]), Some(target()));
    assert!(!m.can_finish_job(&into, &vec![], 9, &v));
    assert!(!m.can_cancel_sink(&sink(107, "k", vec![101]), &Some(target())));
    assert!(m.can_start_replace(&new, TableJobType::General));
    assert!(!m.can_start_replace(&Table { dependent_relations: vec![1], ..new.duplicate() }, TableJobType::General));
    m.start_replace_table_procedure(&StreamingJob::Table(None, new.duplicate(), TableJobType::General)).unwrap();
    assert!(m.can_finish_job(&into, &vec![], 9, &v));
    assert!(m.can_cancel_sink(&sink(107, "k", vec![101]), &Some(target())));
    m.finish_stream_job(into.duplicate(), vec![], 9, v.clone()).unwrap();
    assert_eq!(m.core.database.tables.get(100).unwrap().incoming_sinks, vec![107]);
    assert!(!m.can_finish_job(&into, &vec![], 9, &v));

    let mv = StreamingJob::MaterializedView(table(108, "mv2", vec![100]));
    assert!(m.can_finish_job(&mv, &vec![], 9, &v));
    assert_eq!(m.finish_stream_job(mv.duplicate(), vec![], 9, v.clone()).err().unwrap(), MetaError::RecoveryDroppedTable);
    let background = Table { create_type: CreateType::Background, ..table(108, "mv2", vec![100]) };
    assert!(!m.can_finish_job(&StreamingJob::MaterializedView(background), &vec![], 9, &v));

    let sub = Subscription { subscription_state: SubscriptionState::Init, ..subscription(130, "sub", 101) };
    assert!(m.can_finish_subscription(130));
    m.start_create_subscription_procedure(&sub).unwrap();
    assert!(m.can_finish_subscription(130));
    m.finish_create_subscription_procedure(130, 9, v).unwrap();
    assert!(!m.can_finish_subscription(130));
}

#[test]
fn what_replacing_presumes_of_indexes() {
    let mut m = with_tables();
    let stored = Table { version: Some(1), ..m.core.database.tables.get(100).unwrap().duplicate() };
    let new = Table { version: Some(2), ..stored.duplicate() };
    m.core.database.tables.insert(100, stored);
    let item = IndexItem { input_refs: vec![0, 2], ..IndexItem::default() };
    m.core.database.indexes.insert(105, Index { index_item: vec![item], ..index(105, "idx", 106, 100) });
    m.start_replace_table_procedure(&StreamingJob::Table(None, new.duplicate(), TableJobType::General)).unwrap();
    let mapping = |map| Some(ColIndexMapping { map });
    assert!(m.can_finish_replace(&None, &new, &None, &vec![]));
    assert!(m.can_finish_replace(&None, &new, &mapping(vec![Some(1), None, Some(0)]), &vec![]));
    assert!(!m.can_finish_replace(&None, &new, &mapping(vec![Some(1), Some(2), None]), &vec![]));
    assert!(!m.can_finish_replace(&None, &new, &mapping(vec![Some(1)]), &vec![]));
    assert!(!m.can_finish_replace(&None, &new, &None, &vec![107]));
    m.finish_replace_table_procedure(&None, &new, mapping(vec![Some(1), None, Some(0)]), None, None, vec![]);
    assert_eq!(m.core.database.indexes.get(105).unwrap().index_item[0].input_refs, vec![1, 0]);
    assert!(!m.can_finish_replace(&None, &new, &None, &vec![]));
}

#[test]
fn what_changes_presume() {
    let mut m = with_tables();
    let jobs = fragments(&[100, 101]);
    assert!(m.can_alter_owner(&jobs, OwnedObject::TableId(100), BOB));
    assert!(m.can_set_schema(&jobs, MovableObject::TableId(100), OTHER_SCHEMA));
    // an internal table that is not there
    let mut broken = fragments(&[101]);
    broken.insert(100, JobFragments { internal_table_ids: vec![190], is_initial: false });
    assert!(!m.can_alter_owner(&broken, OwnedObject::TableId(100), BOB));
    assert!(!m.can_set_schema(&broken, MovableObject::TableId(100), OTHER_SCHEMA));
    assert!(m.can_alter_owner(&broken, OwnedObject::TableId(100), ALICE));
    assert!(m.can_set_schema(&broken, MovableObject::TableId(100), SCHEMA));
    assert!(m.can_set_schema(&broken, MovableObject::TableId(100), 77));
    // a new owner of a database has to be known
    assert!(m.can_alter_owner(&jobs, OwnedObject::DatabaseId(DB), BOB));
    assert!(!m.can_alter_owner(&jobs, OwnedObject::DatabaseId(DB), 66));
    m.core.user.catalog_create_ref_count.remove(ALICE);
    assert!(!m.can_alter_owner(&jobs, OwnedObject::TableId(100), BOB));

    let mut m = with_tables();
    m.core.database.sinks.insert(107, Sink { target_table: Some(100), ..sink(107, "k", vec![101]) });
    let mentions = m.core.database.mentions_of(100);
    assert_eq!((mentions.tables, mentions.sinks), (vec![101], vec![107]));
    assert!(mentions.views.is_empty() && mentions.subscriptions.is_empty());
    let mut rewrites = Rewrites::default();
    assert!(!m.can_rename_table(100, "u", &rewrites));
    assert!(m.can_rename_table(100, "mv", &rewrites) && m.can_rename_table(9, "u", &rewrites));
    rewrites.tables.insert(101, s("SELECT * FROM u"));
    rewrites.sinks.insert(107, s("CREATE SINK k INTO u"));
    assert!(m.can_rename_table(100, "u", &rewrites));
    m.alter_table_name(100, "u", s(""), &rewrites).unwrap();
    m.core.database.indexes.insert(105, index(105, "idx", 106, 100));
    assert!(!m.can_rename_index(105, "idx2") && m.can_rename_index(105, "mv"));

    let update = UserInfo { id: BOB, name: s("alice"), ..UserInfo::default() };
    assert!(m.can_update_user(&update, &vec![UpdateField::Login]));
    assert!(!m.can_update_user(&update, &vec![UpdateField::Unspecified]));
    assert!(m.can_update_user(&update, &vec![UpdateField::Rename, UpdateField::Unspecified]));
    assert!(!m.can_update_user(&UserInfo { id: 66, ..UserInfo::default() }, &vec![]));
}

#[test]
fn privileges_name_their_objects_up_to_a_refusal() {
    let mut m = with_tables();
    let t = Object::TableId(100);
    let select: &[(Action, bool)] = &[(Action::Select, false)];
    let own_then_none = vec![grant(t, select, ALICE), unnamed(select, ALICE)];
    assert!(!m.can_grant(&vec![BOB], &own_then_none, ALICE));
    // nobody to grant to, a first user that is unknown or super, and a grantor that is
    assert!(m.can_grant(&vec![], &own_then_none, ALICE));
    assert!(m.grant_privilege(&vec![], &own_then_none, ALICE).unwrap().is_empty());
    assert!(m.can_grant(&vec![66, BOB], &own_then_none, ALICE));
    assert_eq!(m.grant_privilege(&vec![66, BOB], &own_then_none, ALICE).err().unwrap(), MetaError::CatalogIdNotFound(CatalogKind::User, 66));
    assert!(m.can_grant(&vec![ROOT], &own_then_none, ALICE) && m.can_grant(&vec![BOB], &own_then_none, ROOT));
    // an earlier refusal
    let mut m = with_tables();
    assert!(m.can_grant(&vec![BOB], &own_then_none, CAROL));
    assert_eq!(m.grant_privilege(&vec![BOB], &own_then_none, CAROL).err().unwrap(), MetaError::GrantorLacksPrivilege(CAROL));

    assert!(!m.can_revoke(&own_then_none, ALICE, ALICE));
    assert!(m.can_revoke(&own_then_none, CAROL, CAROL) && m.can_revoke(&own_then_none, ALICE, ROOT) && m.can_revoke(&own_then_none, 66, 66));
    let e = m.revoke_privilege(&vec![BOB], &own_then_none, CAROL, CAROL, false, true).err().unwrap();
    assert_eq!(e, MetaError::RevokerLacksPrivilege(s("carol")));
    let e = m.revoke_privilege(&vec![BOB], &own_then_none, 66, 66, false, true).err().unwrap();
    assert_eq!(e, MetaError::CatalogIdNotFound(CatalogKind::User, 66));
}

#[test]
fn what_starting_up_presumes() {
    let mut m = with_tables();
    let ids = vec![8, 9, 10, 11];
    assert!(m.can_init(&ids, &vec![]));
    assert!(!m.can_init(&vec![8], &vec![]));
    // a sink that did not note the columns of its table needs the table, one that did does not
    m.core.database.sinks.insert(107, Sink { target_table: Some(9), ..sink(107, "k", vec![101]) });
    assert!(!m.can_init(&ids, &vec![]));
    let noted = Sink { target_table: Some(9), original_target_columns: vec![ColumnCatalog::default()], ..sink(107, "k", vec![101]) };
    m.core.database.sinks.insert(107, noted);
    assert!(m.can_init(&ids, &vec![]));
    let info = Some(SourceInfo { is_shared: false, format_encode_options: vec![] });
    let with_properties = vec![Property { key: s("connector"), value: s("kafka") }];
    m.core.database.sources.insert(103, Source { info, with_properties, ..source(103, "src") });
    assert!(!m.can_init(&ids, &vec![]) && !m.can_init(&ids, &vec![vec![]]) && m.can_init(&ids, &vec![vec![true]]));
    m.core.user.catalog_create_ref_count.insert(ROOT, usize::MAX - 4);
    assert!(!m.can_init(&ids, &vec![vec![true]]));

    let mut m = with_tables();
    let jobs = fragments(&[100, 101, 120]);
    assert!(m.can_clean_tables(&jobs) && m.can_clean_subscriptions());
    let foreground = Table { table_type: TableType::MaterializedView, ..table(120, "fg", vec![100]) };
    m.start_create_materialized_view_procedure(&foreground, &vec![]).unwrap();
    let sub = Subscription { subscription_state: SubscriptionState::Init, ..subscription(130, "sub", 101) };
    m.start_create_subscription_procedure(&sub).unwrap();
    assert!(m.can_clean_tables(&jobs) && m.can_clean_subscriptions());
    m.core.user.catalog_create_ref_count.remove(ALICE);
    assert!(!m.can_clean_tables(&jobs) && !m.can_clean_subscriptions());
    let mut m = with_tables();
    m.core.database.tables.insert(200, table(100, "elsewhere", vec![]));
    assert!(!m.can_clean_tables(&jobs));
}
