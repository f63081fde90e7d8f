//! Renaming objects and changing what is told of them.

use vstd::prelude::*;
use vstd::string::*;

use crate::catalog::drop::{subscription_depends_on, table_depends_on, view_depends_on};
use crate::catalog::error::{CatalogKind, MetaError, MetaErrorModel, MetaResult};
use crate::catalog::manager::CatalogManager;
use crate::catalog::notify::{
    Info, InfoModel, Notification, NotificationModel, Operation, RelationInfo, RelationInfoModel,
};
use crate::catalog::objects::key_of;
use crate::catalog::outcome::{ends_as, with_database, Outcome};
use crate::catalog::relations::{
    frontend, frontend_relations, sink_infos, sinks_to_infos, source_infos, sources_to_infos,
    subscription_infos, subscriptions_to_infos, table_infos, tables_to_infos, view_infos,
    views_to_infos,
};
use crate::catalog::state::{CatalogManagerCoreModel, DatabaseManagerModel};
use crate::catalog::types::{
    ColumnCatalogModel, ColumnDescModel, Comment, CommentModel, DatabaseModel, IndexModel,
    RelationKey, SchemaModel, Sink, SinkModel, Source, SourceModel, Subscription, SubscriptionModel,
    Table, TableModel, ViewInfo, ViewInfoModel,
};
use crate::util::id_map::{
    all_in, duplicate_opt, ids_where, inserted, values_at, views, Entry, IdMap,
};
use crate::util::ids::contains_id;
use crate::util::lists::{append_all, image};

verus! {

/// The definitions of the relations that mention a renamed relation, rewritten to its new name.
#[derive(Debug, PartialEq, Eq)]
pub struct Rewrites {
    pub tables: IdMap<String>,
    pub views: IdMap<String>,
    pub sinks: IdMap<String>,
    pub subscriptions: IdMap<String>,
}

/// The mathematical model of [`Rewrites`].
#[verifier::ext_equal]
pub struct RewritesModel {
    pub tables: Map<u32, Seq<char>>,
    pub views: Map<u32, Seq<char>>,
    pub sinks: Map<u32, Seq<char>>,
    pub subscriptions: Map<u32, Seq<char>>,
}

impl View for Rewrites {
    type V = RewritesModel;

    open spec fn view(&self) -> RewritesModel {
        RewritesModel {
            tables: self.tables@,
            views: self.views@,
            sinks: self.sinks@,
            subscriptions: self.subscriptions@,
        }
    }
}

impl Entry for Rewrites {
    fn duplicate(&self) -> (r: Self) {
        Rewrites {
            tables: self.tables.duplicate(),
            views: self.views.duplicate(),
            sinks: self.sinks.duplicate(),
            subscriptions: self.subscriptions.duplicate(),
        }
    }
}

impl RewritesModel {
    /// All fields at their default.
    pub open spec fn blank() -> RewritesModel {
        RewritesModel {
            tables: Map::empty(),
            views: Map::empty(),
            sinks: Map::empty(),
            subscriptions: Map::empty(),
        }
    }
}

impl Default for Rewrites {
    fn default() -> (r: Self)
        ensures
            r@ == RewritesModel::blank(),
    {
        let r = Rewrites {
            tables: IdMap::new(),
            views: IdMap::new(),
            sinks: IdMap::new(),
            subscriptions: IdMap::new(),
        };
        assert(r@ =~= RewritesModel::blank());
        r
    }
}

/// The sink reads the relation or writes into it.
pub open spec fn sink_mentions(id: u32) -> spec_fn(SinkModel) -> bool {
    |x: SinkModel| x.dependent_relations.contains(id) || x.target_table == Some(id)
}

/// The tables that mention the relation, with rewritten definitions.
pub open spec fn rewritten_tables(db: DatabaseManagerModel, rewrites: RewritesModel, id: u32) -> Seq<TableModel> {
    image(
        ids_where(db.tables, table_depends_on(id)),
        |x: u32| TableModel { definition: rewrites.tables[x], ..db.tables[x] },
    )
}

pub open spec fn table_id() -> spec_fn(TableModel) -> u32 {
    |x: TableModel| x.id
}

/// The views that mention the relation, with rewritten definitions.
pub open spec fn rewritten_views(db: DatabaseManagerModel, rewrites: RewritesModel, id: u32) -> Seq<ViewInfoModel> {
    image(
        ids_where(db.views, view_depends_on(id)),
        |x: u32| ViewInfoModel { sql: rewrites.views[x], ..db.views[x] },
    )
}

pub open spec fn view_id() -> spec_fn(ViewInfoModel) -> u32 {
    |x: ViewInfoModel| x.id
}

/// The sinks that mention the relation, with rewritten definitions.
pub open spec fn rewritten_sinks(db: DatabaseManagerModel, rewrites: RewritesModel, id: u32) -> Seq<SinkModel> {
    image(
        ids_where(db.sinks, sink_mentions(id)),
        |x: u32| SinkModel { definition: rewrites.sinks[x], ..db.sinks[x] },
    )
}

pub open spec fn sink_id() -> spec_fn(SinkModel) -> u32 {
    |x: SinkModel| x.id
}

/// The subscriptions that mention the relation, with rewritten definitions.
pub open spec fn rewritten_subscriptions(db: DatabaseManagerModel, rewrites: RewritesModel, id: u32) -> Seq<SubscriptionModel> {
    image(
        ids_where(db.subscriptions, subscription_depends_on(id)),
        |x: u32| SubscriptionModel { definition: rewrites.subscriptions[x], ..db.subscriptions[x] },
    )
}

pub open spec fn subscription_id() -> spec_fn(SubscriptionModel) -> u32 {
    |x: SubscriptionModel| x.id
}

/// All relations that mention the relation are rewritten.
pub open spec fn rewrites_complete(db: DatabaseManagerModel, rewrites: RewritesModel, id: u32) -> bool {
    &&& all_in(ids_where(db.tables, table_depends_on(id)), rewrites.tables)
    &&& all_in(ids_where(db.views, view_depends_on(id)), rewrites.views)
    &&& all_in(ids_where(db.sinks, sink_mentions(id)), rewrites.sinks)
    &&& all_in(ids_where(db.subscriptions, subscription_depends_on(id)), rewrites.subscriptions)
}

/// The renamed relation: a table, perhaps with the source it is associated with; a view; or a
/// source.
#[verifier::ext_equal]
pub struct Renamed {
    pub tables: Seq<TableModel>,
    pub views: Seq<ViewInfoModel>,
    pub sources: Seq<SourceModel>,
}

/// The catalog and the messages after a relation is renamed: the renamed relation and those that
/// mention it are replaced.
pub open spec fn renamed_with_refs(
    c: CatalogManagerCoreModel,
    id: u32,
    rewrites: RewritesModel,
    renamed: Renamed,
) -> (CatalogManagerCoreModel, Seq<NotificationModel>) {
    let db = c.database;
    let tables = renamed.tables + rewritten_tables(db, rewrites, id);
    let view_list = renamed.views + rewritten_views(db, rewrites, id);
    let sinks = rewritten_sinks(db, rewrites, id);
    let subscriptions = rewritten_subscriptions(db, rewrites, id);
    (
        with_database(
            c,
            DatabaseManagerModel {
                tables: inserted(db.tables, tables, table_id()),
                views: inserted(db.views, view_list, view_id()),
                sinks: inserted(db.sinks, sinks, sink_id()),
                subscriptions: inserted(db.subscriptions, subscriptions, subscription_id()),
                sources: inserted(db.sources, renamed.sources, |x: SourceModel| x.id),
                ..db
            },
        ),
        seq![
            frontend_relations(
                Operation::Update,
                table_infos(tables) + view_infos(view_list) + sink_infos(sinks)
                    + subscription_infos(subscriptions) + source_infos(renamed.sources),
            ),
        ],
    )
}

impl CatalogManager {
    fn rewrite_tables(&self, rewrites: &Rewrites, id: u32) -> (r: Vec<Table>)
        requires
            all_in(ids_where(self@.database.tables, table_depends_on(id)), rewrites@.tables),
        ensures
            views(r@) == rewritten_tables(self@.database, rewrites@, id),
    {
        let f = |x: &Table| -> (b: bool)
            ensures
                b == table_depends_on(id)(x@),
        {
            contains_id(&x.dependent_relations, id)
        };
        let ids = self.core.database.tables.ids_where(f, Ghost(table_depends_on(id)));
        let mut r = self.core.database.tables.values_at(&ids);
        let ghost goal = rewritten_tables(self@.database, rewrites@, id);
        let ghost first = views(r@);
        let mut i: usize = 0;
        assert(views(r@).len() == r@.len());
        while i < ids.len()
            invariant
                i <= ids.len(),
                r@.len() == ids@.len(),
                first == values_at(self@.database.tables, ids@),
                ids@ == ids_where(self@.database.tables, table_depends_on(id)),
                goal == rewritten_tables(self@.database, rewrites@, id),
                all_in(ids@, rewrites@.tables),
                forall|k: int| 0 <= k < i ==> (#[trigger] r@[k])@ == goal[k],
                forall|k: int| i <= k < r@.len() ==> (#[trigger] r@[k])@ == first[k],
            decreases ids.len() - i,
        {
            assert(rewrites@.tables.contains_key(ids@[i as int]));
            match rewrites.tables.get(ids[i]) {
                Some(text) => {
                    let mut x = r[i].duplicate();
                    x.definition = text.clone();
                    assert(x@ =~= goal[i as int]);
                    r.set(i, x);
                },
                None => {},
            }
            i = i + 1;
        }
        assert(views(r@) =~= goal);
        r
    }

    fn rewrite_views(&self, rewrites: &Rewrites, id: u32) -> (r: Vec<ViewInfo>)
        requires
            all_in(ids_where(self@.database.views, view_depends_on(id)), rewrites@.views),
        ensures
            views(r@) == rewritten_views(self@.database, rewrites@, id),
    {
        let f = |x: &ViewInfo| -> (b: bool)
            ensures
                b == view_depends_on(id)(x@),
        {
            contains_id(&x.dependent_relations, id)
        };
        let ids = self.core.database.views.ids_where(f, Ghost(view_depends_on(id)));
        let mut r = self.core.database.views.values_at(&ids);
        let ghost goal = rewritten_views(self@.database, rewrites@, id);
        let ghost first = views(r@);
        let mut i: usize = 0;
        assert(views(r@).len() == r@.len());
        while i < ids.len()
            invariant
                i <= ids.len(),
                r@.len() == ids@.len(),
                first == values_at(self@.database.views, ids@),
                ids@ == ids_where(self@.database.views, view_depends_on(id)),
                goal == rewritten_views(self@.database, rewrites@, id),
                all_in(ids@, rewrites@.views),
                forall|k: int| 0 <= k < i ==> (#[trigger] r@[k])@ == goal[k],
                forall|k: int| i <= k < r@.len() ==> (#[trigger] r@[k])@ == first[k],
            decreases ids.len() - i,
        {
            assert(rewrites@.views.contains_key(ids@[i as int]));
            match rewrites.views.get(ids[i]) {
                Some(text) => {
                    let mut x = r[i].duplicate();
                    x.sql = text.clone();
                    assert(x@ =~= goal[i as int]);
                    r.set(i, x);
                },
                None => {},
            }
            i = i + 1;
        }
        assert(views(r@) =~= goal);
        r
    }

    fn rewrite_sinks(&self, rewrites: &Rewrites, id: u32) -> (r: Vec<Sink>)
        requires
            all_in(ids_where(self@.database.sinks, sink_mentions(id)), rewrites@.sinks),
        ensures
            views(r@) == rewritten_sinks(self@.database, rewrites@, id),
    {
        let f = |x: &Sink| -> (b: bool)
            ensures
                b == sink_mentions(id)(x@),
        {
            contains_id(&x.dependent_relations, id) || x.target_table == Some(id)
        };
        let ids = self.core.database.sinks.ids_where(f, Ghost(sink_mentions(id)));
        let mut r = self.core.database.sinks.values_at(&ids);
        let ghost goal = rewritten_sinks(self@.database, rewrites@, id);
        let ghost first = views(r@);
        let mut i: usize = 0;
        assert(views(r@).len() == r@.len());
        while i < ids.len()
            invariant
                i <= ids.len(),
                r@.len() == ids@.len(),
                first == values_at(self@.database.sinks, ids@),
                ids@ == ids_where(self@.database.sinks, sink_mentions(id)),
                goal == rewritten_sinks(self@.database, rewrites@, id),
                all_in(ids@, rewrites@.sinks),
                forall|k: int| 0 <= k < i ==> (#[trigger] r@[k])@ == goal[k],
                forall|k: int| i <= k < r@.len() ==> (#[trigger] r@[k])@ == first[k],
            decreases ids.len() - i,
        {
            assert(rewrites@.sinks.contains_key(ids@[i as int]));
            match rewrites.sinks.get(ids[i]) {
                Some(text) => {
                    let mut x = r[i].duplicate();
                    x.definition = text.clone();
                    assert(x@ =~= goal[i as int]);
                    r.set(i, x);
                },
                None => {},
            }
            i = i + 1;
        }
        assert(views(r@) =~= goal);
        r
    }

    fn rewrite_subscriptions(&self, rewrites: &Rewrites, id: u32) -> (r: Vec<Subscription>)
        requires
            all_in(ids_where(self@.database.subscriptions, subscription_depends_on(id)), rewrites@.subscriptions),
        ensures
            views(r@) == rewritten_subscriptions(self@.database, rewrites@, id),
    {
        let f = |x: &Subscription| -> (b: bool)
            ensures
                b == subscription_depends_on(id)(x@),
        {
            x.dependent_table_id == id
        };
        let ids = self.core.database.subscriptions.ids_where(f, Ghost(subscription_depends_on(id)));
        let mut r = self.core.database.subscriptions.values_at(&ids);
        let ghost goal = rewritten_subscriptions(self@.database, rewrites@, id);
        let ghost first = views(r@);
        let mut i: usize = 0;
        assert(views(r@).len() == r@.len());
        while i < ids.len()
            invariant
                i <= ids.len(),
                r@.len() == ids@.len(),
                first == values_at(self@.database.subscriptions, ids@),
                ids@ == ids_where(self@.database.subscriptions, subscription_depends_on(id)),
                goal == rewritten_subscriptions(self@.database, rewrites@, id),
                all_in(ids@, rewrites@.subscriptions),
                forall|k: int| 0 <= k < i ==> (#[trigger] r@[k])@ == goal[k],
                forall|k: int| i <= k < r@.len() ==> (#[trigger] r@[k])@ == first[k],
            decreases ids.len() - i,
        {
            assert(rewrites@.subscriptions.contains_key(ids@[i as int]));
            match rewrites.subscriptions.get(ids[i]) {
                Some(text) => {
                    let mut x = r[i].duplicate();
                    x.definition = text.clone();
                    assert(x@ =~= goal[i as int]);
                    r.set(i, x);
                },
                None => {},
            }
            i = i + 1;
        }
        assert(views(r@) =~= goal);
        r
    }

    /// Replaces a renamed relation and all relations that mention it.
    fn alter_relation_name_refs_inner(
        &mut self,
        id: u32,
        rewrites: &Rewrites,
        renamed_tables: Vec<Table>,
        renamed_views: Vec<ViewInfo>,
        sources: Vec<Source>,
    ) -> (r: Vec<Notification>)
        requires
            rewrites_complete(old(self)@.database, rewrites@, id),
            renamed_tables@.len() + renamed_views@.len() + sources@.len() > 0,
        ensures
            ({
                let (c, messages) = renamed_with_refs(
                    old(self)@,
                    id,
                    rewrites@,
                    Renamed {
                        tables: views(renamed_tables@),
                        views: views(renamed_views@),
                        sources: views(sources@),
                    },
                );
                final(self)@ == c && views(r@) == messages
            }),
    {
        let ghost c = self@;
        let ghost renamed = Renamed {
            tables: views(renamed_tables@),
            views: views(renamed_views@),
            sources: views(sources@),
        };
        let mut tables = renamed_tables;
        append_all(&mut tables, self.rewrite_tables(rewrites, id));
        let mut view_list = renamed_views;
        append_all(&mut view_list, self.rewrite_views(rewrites, id));
        let sinks = self.rewrite_sinks(rewrites, id);
        let subscriptions = self.rewrite_subscriptions(rewrites, id);
        let f = |x: &Table| -> (y: u32)
            ensures
                y == x@.id,
        {
            x.id
        };
        self.core.database.tables.insert_all(&tables, f, Ghost(table_id()));
        let f = |x: &ViewInfo| -> (y: u32)
            ensures
                y == x@.id,
        {
            x.id
        };
        self.core.database.views.insert_all(&view_list, f, Ghost(view_id()));
        let f = |x: &Sink| -> (y: u32)
            ensures
                y == x@.id,
        {
            x.id
        };
        self.core.database.sinks.insert_all(&sinks, f, Ghost(sink_id()));
        let f = |x: &Subscription| -> (y: u32)
            ensures
                y == x@.id,
        {
            x.id
        };
        self.core.database.subscriptions.insert_all(&subscriptions, f, Ghost(subscription_id()));
        let f = |x: &Source| -> (y: u32)
            ensures
                y == x@.id,
        {
            x.id
        };
        self.core.database.sources.insert_all(&sources, f, Ghost(|x: SourceModel| x.id));
        let mut relations = tables_to_infos(&tables);
        append_all(&mut relations, views_to_infos(&view_list));
        append_all(&mut relations, sinks_to_infos(&sinks));
        append_all(&mut relations, subscriptions_to_infos(&subscriptions));
        append_all(&mut relations, sources_to_infos(&sources));
        let mut messages: Vec<Notification> = Vec::new();
        messages.push(Self::notify_frontend_relations(Operation::Update, relations));
        assert(views(messages@) =~= renamed_with_refs(c, id, rewrites@, renamed).1);
        assert(self@ =~= renamed_with_refs(c, id, rewrites@, renamed).0);
        messages
    }
}

// ---------------------------------------------------------------------------
// Renaming.
// ---------------------------------------------------------------------------

/// A table is renamed together with the source it is associated with; `definition` is its
/// definition under the new name.
pub open spec fn table_renamed(
    c: CatalogManagerCoreModel,
    id: u32,
    name: Seq<char>,
    definition: Seq<char>,
    rewrites: RewritesModel,
) -> Outcome {
    let db = c.database;
    let table = db.tables[id];
    match db.ensure_table(id) {
        Some(e) => Err(e),
        None => match db.name_clash(key_of(table.database_id, table.schema_id, name)) {
            Some(e) => Err(e),
            None => Ok(
                renamed_with_refs(
                    c,
                    id,
                    rewrites,
                    Renamed {
                        tables: seq![TableModel { name, definition, ..table }],
                        views: Seq::empty(),
                        sources: match table.optional_associated_source_id {
                            Some(source_id) => seq![SourceModel { name, ..db.sources[source_id] }],
                            None => Seq::empty(),
                        },
                    },
                ),
            ),
        },
    }
}

pub open spec fn view_renamed(c: CatalogManagerCoreModel, id: u32, name: Seq<char>, rewrites: RewritesModel) -> Outcome {
    let db = c.database;
    let view = db.views[id];
    match db.ensure_view(id) {
        Some(e) => Err(e),
        None => match db.name_clash(key_of(view.database_id, view.schema_id, name)) {
            Some(e) => Err(e),
            None => Ok(
                renamed_with_refs(
                    c,
                    id,
                    rewrites,
                    Renamed {
                        tables: Seq::empty(),
                        views: seq![ViewInfoModel { name, ..view }],
                        sources: Seq::empty(),
                    },
                ),
            ),
        },
    }
}

pub open spec fn source_renamed(
    c: CatalogManagerCoreModel,
    id: u32,
    name: Seq<char>,
    definition: Seq<char>,
    rewrites: RewritesModel,
) -> Outcome {
    let db = c.database;
    let source = db.sources[id];
    match db.ensure_source(id) {
        Some(e) => Err(e),
        None => match db.name_clash(key_of(source.database_id, source.schema_id, name)) {
            Some(e) => Err(e),
            None => Ok(
                renamed_with_refs(
                    c,
                    id,
                    rewrites,
                    Renamed {
                        tables: Seq::empty(),
                        views: Seq::empty(),
                        sources: seq![SourceModel { name, definition, ..source }],
                    },
                ),
            ),
        },
    }
}

pub open spec fn sink_renamed(c: CatalogManagerCoreModel, id: u32, name: Seq<char>, definition: Seq<char>) -> Outcome {
    let db = c.database;
    let sink = db.sinks[id];
    match db.ensure_sink(id) {
        Some(e) => Err(e),
        None => match db.name_clash(key_of(sink.database_id, sink.schema_id, name)) {
            Some(e) => Err(e),
            None => {
                let new = SinkModel { name, definition, ..sink };
                Ok(
                    (
                        with_database(
                            c,
                            DatabaseManagerModel { sinks: db.sinks.insert(id, new), ..db },
                        ),
                        seq![
                            frontend_relations(Operation::Update, seq![RelationInfoModel::Sink(new)]),
                        ],
                    ),
                )
            },
        },
    }
}

pub open spec fn subscription_renamed(c: CatalogManagerCoreModel, id: u32, name: Seq<char>, definition: Seq<char>) -> Outcome {
    let db = c.database;
    let subscription = db.subscriptions[id];
    match db.ensure_subscription(id) {
        Some(e) => Err(e),
        None => match db.name_clash(key_of(subscription.database_id, subscription.schema_id, name)) {
            Some(e) => Err(e),
            None => {
                let new = SubscriptionModel { name, definition, ..subscription };
                Ok(
                    (
                        with_database(
                            c,
                            DatabaseManagerModel { subscriptions: db.subscriptions.insert(id, new), ..db },
                        ),
                        seq![
                            frontend_relations(Operation::Update, seq![RelationInfoModel::Subscription(new)]),
                        ],
                    ),
                )
            },
        },
    }
}

/// An index is renamed together with its table.
pub open spec fn index_renamed(c: CatalogManagerCoreModel, id: u32, name: Seq<char>, definition: Seq<char>) -> Outcome {
    let db = c.database;
    let index = db.indexes[id];
    match db.ensure_index(id) {
        Some(e) => Err(e),
        None => match db.name_clash(key_of(index.database_id, index.schema_id, name)) {
            Some(e) => Err(e),
            None => {
                let new = IndexModel { name, ..index };
                let table = TableModel { name, definition, ..db.tables[index.index_table_id] };
                Ok(
                    (
                        with_database(
                            c,
                            DatabaseManagerModel {
                                indexes: db.indexes.insert(id, new),
                                tables: db.tables.insert(index.index_table_id, table),
                                ..db
                            },
                        ),
                        seq![
                            frontend_relations(
                                Operation::Update,
                                seq![RelationInfoModel::Table(table), RelationInfoModel::Index(new)],
                            ),
                        ],
                    ),
                )
            },
        },
    }
}

pub open spec fn schema_renamed(c: CatalogManagerCoreModel, id: u32, name: Seq<char>) -> Outcome {
    let db = c.database;
    let schema = db.schemas[id];
    match db.ensure_schema(id) {
        Some(e) => Err(e),
        None => match db.schema_clash(schema.database_id, name) {
            Some(e) => Err(e),
            None => {
                let new = SchemaModel { name, ..schema };
                Ok(
                    (
                        with_database(
                            c,
                            DatabaseManagerModel { schemas: db.schemas.insert(id, new), ..db },
                        ),
                        seq![frontend(Operation::Update, InfoModel::Schema(new))],
                    ),
                )
            },
        },
    }
}

pub open spec fn database_renamed(c: CatalogManagerCoreModel, id: u32, name: Seq<char>) -> Outcome {
    let db = c.database;
    match db.ensure_database(id) {
        Some(e) => Err(e),
        None => match db.database_clash(name) {
            Some(e) => Err(e),
            None => {
                let new = DatabaseModel { name, ..db.databases[id] };
                Ok(
                    (
                        with_database(
                            c,
                            DatabaseManagerModel { databases: db.databases.insert(id, new), ..db },
                        ),
                        seq![frontend(Operation::Update, InfoModel::Database(new))],
                    ),
                )
            },
        },
    }
}

/// What renaming a table presumes: where it is not refused, all that mentions it is rewritten, and
/// the source it is associated with exists.
pub open spec fn table_renaming_presumes(
    c: CatalogManagerCoreModel,
    id: u32,
    name: Seq<char>,
    rewrites: RewritesModel,
) -> bool {
    let db = c.database;
    let table = db.tables[id];
    db.tables.contains_key(id) && db.name_clash(key_of(table.database_id, table.schema_id, name)) is None
        ==> {
        &&& rewrites_complete(db, rewrites, id)
        &&& table.optional_associated_source_id is Some ==> db.sources.contains_key(
            table.optional_associated_source_id->0,
        )
    }
}

/// What renaming a view presumes: where it is not refused, all that mentions it is rewritten.
pub open spec fn view_renaming_presumes(
    c: CatalogManagerCoreModel,
    id: u32,
    name: Seq<char>,
    rewrites: RewritesModel,
) -> bool {
    let db = c.database;
    let view = db.views[id];
    db.views.contains_key(id) && db.name_clash(key_of(view.database_id, view.schema_id, name)) is None
        ==> rewrites_complete(db, rewrites, id)
}

/// What renaming a source presumes: where it is not refused, all that mentions it is rewritten.
pub open spec fn source_renaming_presumes(
    c: CatalogManagerCoreModel,
    id: u32,
    name: Seq<char>,
    rewrites: RewritesModel,
) -> bool {
    let db = c.database;
    let source = db.sources[id];
    db.sources.contains_key(id) && db.name_clash(
        key_of(source.database_id, source.schema_id, name),
    ) is None ==> rewrites_complete(db, rewrites, id)
}

/// What renaming an index presumes: where it is not refused, its table exists.
pub open spec fn index_renaming_presumes(c: CatalogManagerCoreModel, id: u32, name: Seq<char>) -> bool {
    let db = c.database;
    let index = db.indexes[id];
    db.indexes.contains_key(id) && db.name_clash(
        key_of(index.database_id, index.schema_id, name),
    ) is None ==> db.tables.contains_key(index.index_table_id)
}

impl CatalogManager {
    pub fn alter_table_name(
        &mut self,
        table_id: u32,
        table_name: &str,
        definition: String,
        rewrites: &Rewrites,
    ) -> (r: MetaResult<Vec<Notification>>)
        requires
            table_renaming_presumes(old(self)@, table_id, table_name@, rewrites@),
        ensures
            ends_as(
                r,
                old(self)@,
                final(self)@,
                table_renamed(old(self)@, table_id, table_name@, definition@, rewrites@),
            ),
    {
        let ghost c = self@;
        let mut table = match self.core.database.tables.get(table_id) {
            Some(table) => table.duplicate(),
            None => {
                return Err(MetaError::CatalogIdNotFound(CatalogKind::Table, table_id));
            },
        };
        let key = RelationKey {
            database_id: table.database_id,
            schema_id: table.schema_id,
            name: table_name.to_string(),
        };
        match self.core.database.check_relation_name_duplicated(&key) {
            Err(e) => {
                return Err(e);
            },
            Ok(_) => {},
        }
        let mut sources: Vec<Source> = Vec::new();
        match table.optional_associated_source_id {
            Some(source_id) => {
                match self.core.database.sources.get(source_id) {
                    Some(source) => {
                        let mut source = source.duplicate();
                        source.name = table_name.to_string();
                        sources.push(source);
                    },
                    None => {},
                }
            },
            None => {},
        }
        table.name = table_name.to_string();
        table.definition = definition;
        let mut tables: Vec<Table> = Vec::new();
        tables.push(table);
        let no_views: Vec<ViewInfo> = Vec::new();
        proof {
            let old_table = c.database.tables[table_id];
            assert(views(tables@) =~= seq![
                TableModel { name: table_name@, definition: definition@, ..old_table },
            ]);
            assert(views(no_views@) =~= Seq::<ViewInfoModel>::empty());
            assert(views(sources@) =~= match old_table.optional_associated_source_id {
                Some(source_id) => seq![
                    SourceModel { name: table_name@, ..c.database.sources[source_id] },
                ],
                None => Seq::empty(),
            });
        }
        Ok(self.alter_relation_name_refs_inner(table_id, rewrites, tables, no_views, sources))
    }

    pub fn alter_view_name(&mut self, view_id: u32, view_name: &str, rewrites: &Rewrites) -> (r:
        MetaResult<Vec<Notification>>)
        requires
            view_renaming_presumes(old(self)@, view_id, view_name@, rewrites@),
        ensures
            ends_as(
                r,
                old(self)@,
                final(self)@,
                view_renamed(old(self)@, view_id, view_name@, rewrites@),
            ),
    {
        let ghost c = self@;
        let mut view = match self.core.database.views.get(view_id) {
            Some(view) => view.duplicate(),
            None => {
                return Err(MetaError::CatalogIdNotFound(CatalogKind::View, view_id));
            },
        };
        let key = RelationKey {
            database_id: view.database_id,
            schema_id: view.schema_id,
            name: view_name.to_string(),
        };
        match self.core.database.check_relation_name_duplicated(&key) {
            Err(e) => {
                return Err(e);
            },
            Ok(_) => {},
        }
        view.name = view_name.to_string();
        let mut renamed: Vec<ViewInfo> = Vec::new();
        renamed.push(view);
        let no_tables: Vec<Table> = Vec::new();
        let no_sources: Vec<Source> = Vec::new();
        proof {
            assert(views(renamed@) =~= seq![
                ViewInfoModel { name: view_name@, ..c.database.views[view_id] },
            ]);
            assert(views(no_tables@) =~= Seq::<TableModel>::empty());
            assert(views(no_sources@) =~= Seq::<SourceModel>::empty());
        }
        Ok(self.alter_relation_name_refs_inner(view_id, rewrites, no_tables, renamed, no_sources))
    }

    pub fn alter_source_name(
        &mut self,
        source_id: u32,
        source_name: &str,
        definition: String,
        rewrites: &Rewrites,
    ) -> (r: MetaResult<Vec<Notification>>)
        requires
            source_renaming_presumes(old(self)@, source_id, source_name@, rewrites@),
        ensures
            ends_as(
                r,
                old(self)@,
                final(self)@,
                source_renamed(old(self)@, source_id, source_name@, definition@, rewrites@),
            ),
    {
        let ghost c = self@;
        let mut source = match self.core.database.sources.get(source_id) {
            Some(source) => source.duplicate(),
            None => {
                return Err(MetaError::CatalogIdNotFound(CatalogKind::Source, source_id));
            },
        };
        let key = RelationKey {
            database_id: source.database_id,
            schema_id: source.schema_id,
            name: source_name.to_string(),
        };
        match self.core.database.check_relation_name_duplicated(&key) {
            Err(e) => {
                return Err(e);
            },
            Ok(_) => {},
        }
        source.name = source_name.to_string();
        source.definition = definition;
        let mut renamed: Vec<Source> = Vec::new();
        renamed.push(source);
        let no_tables: Vec<Table> = Vec::new();
        let no_views: Vec<ViewInfo> = Vec::new();
        proof {
            assert(views(renamed@) =~= seq![
                SourceModel {
                    name: source_name@,
                    definition: definition@,
                    ..c.database.sources[source_id]
                },
            ]);
            assert(views(no_tables@) =~= Seq::<TableModel>::empty());
            assert(views(no_views@) =~= Seq::<ViewInfoModel>::empty());
        }
        Ok(self.alter_relation_name_refs_inner(source_id, rewrites, no_tables, no_views, renamed))
    }

    pub fn alter_sink_name(&mut self, sink_id: u32, sink_name: &str, definition: String) -> (r:
        MetaResult<Vec<Notification>>)
        ensures
            ends_as(
                r,
                old(self)@,
                final(self)@,
                sink_renamed(old(self)@, sink_id, sink_name@, definition@),
            ),
    {
        let ghost c = self@;
        let mut new = match self.core.database.sinks.get(sink_id) {
            Some(x) => x.duplicate(),
            None => {
                return Err(MetaError::CatalogIdNotFound(CatalogKind::Sink, sink_id));
            },
        };
        let key = RelationKey {
            database_id: new.database_id,
            schema_id: new.schema_id,
            name: sink_name.to_string(),
        };
        match self.core.database.check_relation_name_duplicated(&key) {
            Err(e) => {
                return Err(e);
            },
            Ok(_) => {},
        }
        new.name = sink_name.to_string();
        new.definition = definition;
        let mut messages: Vec<Notification> = Vec::new();
        messages.push(
            Self::notify_frontend_relation_info(
                Operation::Update,
                RelationInfo::Sink(new.duplicate()),
            ),
        );
        self.core.database.sinks.insert(sink_id, new);
        assert(views(messages@) =~= sink_renamed(c, sink_id, sink_name@, definition@)->Ok_0.1);
        Ok(messages)
    }

    pub fn alter_subscription_name(&mut self, subscription_id: u32, subscription_name: &str, definition: String) -> (r:
        MetaResult<Vec<Notification>>)
        ensures
            ends_as(
                r,
                old(self)@,
                final(self)@,
                subscription_renamed(old(self)@, subscription_id, subscription_name@, definition@),
            ),
    {
        let ghost c = self@;
        let mut new = match self.core.database.subscriptions.get(subscription_id) {
            Some(x) => x.duplicate(),
            None => {
                return Err(MetaError::CatalogIdNotFound(CatalogKind::Subscription, subscription_id));
            },
        };
        let key = RelationKey {
            database_id: new.database_id,
            schema_id: new.schema_id,
            name: subscription_name.to_string(),
        };
        match self.core.database.check_relation_name_duplicated(&key) {
            Err(e) => {
                return Err(e);
            },
            Ok(_) => {},
        }
        new.name = subscription_name.to_string();
        new.definition = definition;
        let mut messages: Vec<Notification> = Vec::new();
        messages.push(
            Self::notify_frontend_relation_info(
                Operation::Update,
                RelationInfo::Subscription(new.duplicate()),
            ),
        );
        self.core.database.subscriptions.insert(subscription_id, new);
        assert(views(messages@) =~= subscription_renamed(c, subscription_id, subscription_name@, definition@)->Ok_0.1);
        Ok(messages)
    }

    pub fn alter_index_name(&mut self, index_id: u32, index_name: &str, definition: String) -> (r:
        MetaResult<Vec<Notification>>)
        requires
            index_renaming_presumes(old(self)@, index_id, index_name@),
        ensures
            ends_as(
                r,
                old(self)@,
                final(self)@,
                index_renamed(old(self)@, index_id, index_name@, definition@),
            ),
    {
        let ghost c = self@;
        let mut index = match self.core.database.indexes.get(index_id) {
            Some(index) => index.duplicate(),
            None => {
                return Err(MetaError::CatalogIdNotFound(CatalogKind::Index, index_id));
            },
        };
        let key = RelationKey {
            database_id: index.database_id,
            schema_id: index.schema_id,
            name: index_name.to_string(),
        };
        match self.core.database.check_relation_name_duplicated(&key) {
            Err(e) => {
                return Err(e);
            },
            Ok(_) => {},
        }
        let mut relations: Vec<RelationInfo> = Vec::new();
        let index_table_id: u32 = index.index_table_id;
        match self.core.database.tables.get(index_table_id) {
            Some(table) => {
                let mut table = table.duplicate();
                table.name = index_name.to_string();
                table.definition = definition;
                relations.push(RelationInfo::Table(table.duplicate()));
                self.core.database.tables.insert(index_table_id, table);
            },
            None => {},
        }
        index.name = index_name.to_string();
        relations.push(RelationInfo::Index(index.duplicate()));
        self.core.database.indexes.insert(index_id, index);
        proof {
            let goal = index_renamed(c, index_id, index_name@, definition@)->Ok_0;
            let old_index = c.database.indexes[index_id];
            let new = IndexModel { name: index_name@, ..old_index };
            let table = TableModel {
                name: index_name@,
                definition: definition@,
                ..c.database.tables[old_index.index_table_id]
            };
            let pair = seq![RelationInfoModel::Table(table), RelationInfoModel::Index(new)];
            assert(views(relations@) =~= pair);
            assert(goal.1[0] == frontend_relations(Operation::Update, pair));
            assert(goal.1 =~= seq![frontend_relations(Operation::Update, views(relations@))]);
        }
        let ghost infos = views(relations@);
        let mut messages: Vec<Notification> = Vec::new();
        messages.push(Self::notify_frontend_relations(Operation::Update, relations));
        assert(views(messages@) =~= seq![frontend_relations(Operation::Update, infos)]);
        assert(views(messages@) =~= index_renamed(c, index_id, index_name@, definition@)->Ok_0.1);
        Ok(messages)
    }

    pub fn alter_schema_name(&mut self, schema_id: u32, schema_name: &str) -> (r: MetaResult<
        Vec<Notification>,
    >)
        ensures
            ends_as(
                r,
                old(self)@,
                final(self)@,
                schema_renamed(old(self)@, schema_id, schema_name@),
            ),
    {
        let ghost c = self@;
        let mut schema = match self.core.database.schemas.get(schema_id) {
            Some(schema) => schema.duplicate(),
            None => {
                return Err(MetaError::CatalogIdNotFound(CatalogKind::Schema, schema_id));
            },
        };
        let name = schema_name.to_string();
        match self.core.database.check_schema_duplicated(schema.database_id, &name) {
            Err(e) => {
                return Err(e);
            },
            Ok(_) => {},
        }
        schema.name = name;
        let mut messages: Vec<Notification> = Vec::new();
        messages.push(Self::notify_frontend(Operation::Update, Info::Schema(schema.duplicate())));
        self.core.database.schemas.insert(schema_id, schema);
        assert(views(messages@) =~= schema_renamed(c, schema_id, schema_name@)->Ok_0.1);
        Ok(messages)
    }

    pub fn alter_database_name(&mut self, database_id: u32, database_name: &str) -> (r: MetaResult<
        Vec<Notification>,
    >)
        ensures
            ends_as(
                r,
                old(self)@,
                final(self)@,
                database_renamed(old(self)@, database_id, database_name@),
            ),
    {
        let ghost c = self@;
        let mut database = match self.core.database.databases.get(database_id) {
            Some(database) => database.duplicate(),
            None => {
                return Err(MetaError::CatalogIdNotFound(CatalogKind::Database, database_id));
            },
        };
        let name = database_name.to_string();
        match self.core.database.check_database_duplicated(&name) {
            Err(e) => {
                return Err(e);
            },
            Ok(_) => {},
        }
        database.name = name;
        let mut messages: Vec<Notification> = Vec::new();
        messages.push(
            Self::notify_frontend(Operation::Update, Info::Database(database.duplicate())),
        );
        self.core.database.databases.insert(database_id, database);
        assert(views(messages@) =~= database_renamed(c, database_id, database_name@)->Ok_0.1);
        Ok(messages)
    }
}

// ---------------------------------------------------------------------------
// Other changes.
// ---------------------------------------------------------------------------

/// A source is replaced by its next version.
pub open spec fn source_columns_altered(c: CatalogManagerCoreModel, source: SourceModel) -> Outcome {
    let db = c.database;
    match db.ensure_source(source.id) {
        Some(e) => Err(e),
        None => if db.sources[source.id].version + 1 != source.version {
            Err(MetaErrorModel::SourceVersionStale)
        } else {
            Ok(
                (
                    with_database(
                        c,
                        DatabaseManagerModel { sources: db.sources.insert(source.id, source), ..db },
                    ),
                    seq![frontend_relations(Operation::Update, seq![RelationInfoModel::Source(source)])],
                ),
            )
        },
    }
}

/// The rate limit of a source is set. What is sent is the source as it was.
pub open spec fn rate_limited(c: CatalogManagerCoreModel, id: u32, rate_limit: Option<u32>) -> Outcome {
    let db = c.database;
    if !db.sources.contains_key(id) {
        Err(MetaErrorModel::SourceMissing(id))
    } else {
        let source = db.sources[id];
        Ok(
            (
                with_database(
                    c,
                    DatabaseManagerModel {
                        sources: db.sources.insert(id, SourceModel { rate_limit, ..source }),
                        ..db
                    },
                ),
                seq![frontend_relations(Operation::Update, seq![RelationInfoModel::Source(source)])],
            ),
        )
    }
}

/// The table with a comment on it or on one of its columns, or the refusal.
pub open spec fn commented(table: TableModel, comment: CommentModel) -> Result<TableModel, MetaErrorModel> {
    match comment.column_index {
        Some(i) => if i >= table.columns.len() {
            Err(MetaErrorModel::CatalogIdNotFound(CatalogKind::Column, i))
        } else {
            match table.columns[i as int].column_desc {
                None => Err(MetaErrorModel::ColumnDescMissing(i, comment.table_id)),
                Some(desc) => Ok(
                    TableModel {
                        columns: table.columns.update(
                            i as int,
                            ColumnCatalogModel {
                                column_desc: Some(
                                    ColumnDescModel { description: comment.description, ..desc },
                                ),
                                ..table.columns[i as int]
                            },
                        ),
                        ..table
                    },
                ),
            }
        },
        None => Ok(TableModel { description: comment.description, ..table }),
    }
}

pub open spec fn comment_result(c: CatalogManagerCoreModel, comment: CommentModel) -> Outcome {
    let db = c.database;
    match crate::catalog::database::either(
        db.ensure_database(comment.database_id),
        crate::catalog::database::either(
            db.ensure_schema(comment.schema_id),
            db.ensure_table(comment.table_id),
        ),
    ) {
        Some(e) => Err(e),
        None => match commented(db.tables[comment.table_id], comment) {
            Err(e) => Err(e),
            Ok(table) => Ok(
                (
                    with_database(
                        c,
                        DatabaseManagerModel {
                            tables: db.tables.insert(comment.table_id, table),
                            ..db
                        },
                    ),
                    seq![frontend_relations(Operation::Update, seq![RelationInfoModel::Table(table)])],
                ),
            ),
        },
    }
}

impl CatalogManager {
    pub fn alter_source_column(&mut self, source: Source) -> (r: MetaResult<Vec<Notification>>)
        requires
            old(self)@.database.sources.contains_key(source@.id) ==> old(
                self,
            )@.database.sources[source@.id].version < u64::MAX,
        ensures
            ends_as(r, old(self)@, final(self)@, source_columns_altered(old(self)@, source@)),
    {
        let ghost c = self@;
        match self.core.database.sources.get(source.id) {
            Some(stored) => {
                if stored.version + 1 != source.version {
                    return Err(MetaError::SourceVersionStale);
                }
            },
            None => {
                return Err(MetaError::CatalogIdNotFound(CatalogKind::Source, source.id));
            },
        }
        let mut messages: Vec<Notification> = Vec::new();
        messages.push(
            Self::notify_frontend_relation_info(
                Operation::Update,
                RelationInfo::Source(source.duplicate()),
            ),
        );
        self.core.database.sources.insert(source.id, source);
        assert(views(messages@) =~= source_columns_altered(c, source@)->Ok_0.1);
        Ok(messages)
    }

    pub fn update_source_rate_limit_by_source_id(&mut self, source_id: u32, rate_limit: Option<u32>) -> (r:
        MetaResult<Vec<Notification>>)
        ensures
            ends_as(r, old(self)@, final(self)@, rate_limited(old(self)@, source_id, rate_limit)),
    {
        let ghost c = self@;
        let source = match self.core.database.sources.get(source_id) {
            Some(source) => source.duplicate(),
            None => {
                return Err(MetaError::SourceMissing(source_id));
            },
        };
        let mut limited = source.duplicate();
        limited.rate_limit = rate_limit;
        self.core.database.sources.insert(source_id, limited);
        let mut messages: Vec<Notification> = Vec::new();
        messages.push(
            Self::notify_frontend_relation_info(Operation::Update, RelationInfo::Source(source)),
        );
        assert(views(messages@) =~= rate_limited(c, source_id, rate_limit)->Ok_0.1);
        Ok(messages)
    }

    pub fn comment_on(&mut self, comment: Comment) -> (r: MetaResult<Vec<Notification>>)
        ensures
            ends_as(r, old(self)@, final(self)@, comment_result(old(self)@, comment@)),
    {
        let ghost c = self@;
        match self.core.database.ensure_database_id(comment.database_id) {
            Err(e) => {
                return Err(e);
            },
            Ok(_) => {},
        }
        match self.core.database.ensure_schema_id(comment.schema_id) {
            Err(e) => {
                return Err(e);
            },
            Ok(_) => {},
        }
        let mut table = match self.core.database.tables.get(comment.table_id) {
            Some(table) => table.duplicate(),
            None => {
                return Err(MetaError::CatalogIdNotFound(CatalogKind::Table, comment.table_id));
            },
        };
        let ghost before = table@;
        match comment.column_index {
            Some(i) => {
                if i as usize >= table.columns.len() {
                    assert(before.columns.len() == table.columns@.len());
                    return Err(MetaError::CatalogIdNotFound(CatalogKind::Column, i));
                }
                let mut column = table.columns[i as usize].duplicate();
                assert(before.columns[i as int] == table.columns@[i as int]@);
                match column.column_desc {
                    None => {
                        return Err(MetaError::ColumnDescMissing(i, comment.table_id));
                    },
                    Some(desc) => {
                        let mut desc = desc;
                        desc.description = duplicate_opt(&comment.description);
                        column.column_desc = Some(desc);
                    },
                }
                let ghost new_column = column@;
                table.columns.set(i as usize, column);
                assert(views(table.columns@) =~= before.columns.update(i as int, new_column));
            },
            None => {
                table.description = duplicate_opt(&comment.description);
            },
        }
        assert(commented(before, comment@) == Ok::<TableModel, MetaErrorModel>(table@));
        let mut messages: Vec<Notification> = Vec::new();
        messages.push(
            Self::notify_frontend_relation_info(
                Operation::Update,
                RelationInfo::Table(table.duplicate()),
            ),
        );
        self.core.database.tables.insert(comment.table_id, table);
        assert(views(messages@) =~= comment_result(c, comment@)->Ok_0.1);
        Ok(messages)
    }
}

} // verus!
