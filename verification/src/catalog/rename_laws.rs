//! What holds once an object is renamed: it has the new name, whatever mentions it is rewritten, and
//! nothing else changes.

use vstd::prelude::*;

use crate::catalog::drop::{subscription_depends_on, table_depends_on, view_depends_on};
use crate::catalog::effects::{
    finite_relations, keyed_by_id, kept_but, lemma_inserted_at, lemma_inserted_other, stands, tells,
    told_of, told_truly,
};
use crate::catalog::notify::{Audience, InfoModel, NotificationModel, Operation, RelationInfoModel};
use crate::catalog::rename::{
    comment_result, database_renamed, index_renamed, rate_limited, renamed_with_refs,
    rewritten_sinks, rewritten_subscriptions, rewritten_tables, rewritten_views, schema_renamed,
    sink_id, sink_mentions, sink_renamed, source_columns_altered, source_renamed,
    subscription_id, subscription_renamed, table_id, table_renamed, view_id, view_renamed, Renamed,
    RewritesModel,
};
use crate::catalog::start_laws::{law_taken_names_are_refused, name_is_free};
use crate::catalog::state::{CatalogManagerCoreModel, DatabaseManagerModel};
use crate::catalog::types::{
    ColumnDescModel, CommentModel, DatabaseModel, IndexModel, RelationKeyModel, SchemaModel,
    SinkModel, SourceModel, SubscriptionModel, TableModel, ViewInfoModel,
};
use crate::util::id_map::{ids_where, inserted, lemma_ids_where};
use crate::util::lists::image;

verus! {

// ---------------------------------------------------------------------------
// What mentions a renamed relation.
// ---------------------------------------------------------------------------

/// Every view that depends on `id` has the rewritten query and is otherwise as before; the other
/// views are as before.
pub open spec fn views_follow(
    before: DatabaseManagerModel,
    after: DatabaseManagerModel,
    rewrites: RewritesModel,
    id: u32,
) -> bool {
    &&& after.views.dom() == before.views.dom()
    &&& forall|x: u32|
        x != id && #[trigger] before.views.contains_key(x) ==> {
            &&& before.views[x].dependent_relations.contains(id) ==> after.views[x].sql
                == rewrites.views[x] && after.views[x] == (ViewInfoModel {
                sql: after.views[x].sql,
                ..before.views[x]
            })
            &&& !before.views[x].dependent_relations.contains(id) ==> after.views[x]
                == before.views[x]
        }
}

/// Every table that depends on `id` has the rewritten definition and is otherwise as before; the
/// other tables are as before.
pub open spec fn tables_follow(
    before: DatabaseManagerModel,
    after: DatabaseManagerModel,
    rewrites: RewritesModel,
    id: u32,
) -> bool {
    &&& after.tables.dom() == before.tables.dom()
    &&& forall|x: u32|
        x != id && #[trigger] before.tables.contains_key(x) ==> {
            &&& before.tables[x].dependent_relations.contains(id) ==> after.tables[x].definition
                == rewrites.tables[x] && after.tables[x] == (TableModel {
                definition: after.tables[x].definition,
                ..before.tables[x]
            })
            &&& !before.tables[x].dependent_relations.contains(id) ==> after.tables[x]
                == before.tables[x]
        }
}

/// Every sink that depends on `id` or writes into it has the rewritten definition and is otherwise as
/// before; the other sinks are as before.
pub open spec fn sinks_follow(
    before: DatabaseManagerModel,
    after: DatabaseManagerModel,
    rewrites: RewritesModel,
    id: u32,
) -> bool {
    &&& after.sinks.dom() == before.sinks.dom()
    &&& forall|x: u32| #[trigger]
        before.sinks.contains_key(x) ==> {
            let mentions = before.sinks[x].dependent_relations.contains(id)
                || before.sinks[x].target_table == Some(id);
            &&& mentions ==> after.sinks[x].definition == rewrites.sinks[x] && after.sinks[x] == (
            SinkModel { definition: after.sinks[x].definition, ..before.sinks[x] })
            &&& !mentions ==> after.sinks[x] == before.sinks[x]
        }
}

/// Every subscription to `id` has the rewritten definition and is otherwise as before; the other
/// subscriptions are as before.
pub open spec fn subscriptions_follow(
    before: DatabaseManagerModel,
    after: DatabaseManagerModel,
    rewrites: RewritesModel,
    id: u32,
) -> bool {
    &&& after.subscriptions.dom() == before.subscriptions.dom()
    &&& forall|x: u32| #[trigger]
        before.subscriptions.contains_key(x) ==> {
            let to = before.subscriptions[x].dependent_table_id == id;
            &&& to ==> after.subscriptions[x].definition == rewrites.subscriptions[x]
                && after.subscriptions[x] == (SubscriptionModel {
                definition: after.subscriptions[x].definition,
                ..before.subscriptions[x]
            })
            &&& !to ==> after.subscriptions[x] == before.subscriptions[x]
        }
}

/// Whatever mentions `id` follows its renaming.
pub open spec fn all_follow(
    before: DatabaseManagerModel,
    after: DatabaseManagerModel,
    rewrites: RewritesModel,
    id: u32,
) -> bool {
    &&& views_follow(before, after, rewrites, id)
    &&& tables_follow(before, after, rewrites, id)
    &&& sinks_follow(before, after, rewrites, id)
    &&& subscriptions_follow(before, after, rewrites, id)
}

/// What is put in for each of `ids` stands there, and the rest is as before.
proof fn lemma_rewritten<V>(m: Map<u32, V>, ids: Seq<u32>, g: spec_fn(u32) -> V, p: spec_fn(V) -> u32)
    requires
        ids.no_duplicates(),
        forall|i: int| 0 <= i < ids.len() ==> p(g(#[trigger] ids[i])) == ids[i],
    ensures
        forall|x: u32| #[trigger]
            ids.contains(x) ==> inserted(m, image(ids, g), p).contains_key(x) && inserted(
                m,
                image(ids, g),
                p,
            )[x] == g(x),
        kept_but(m, inserted(m, image(ids, g), p), ids.to_set()),
{
    let q = image(ids, g);
    let r = inserted(m, q, p);
    assert forall|x: u32| #[trigger] ids.contains(x) implies r.contains_key(x) && r[x] == g(x) by {
        let i = choose|i: int| 0 <= i < ids.len() && ids[i] == x;
        assert(p(g(ids[i])) == x);
        assert forall|j: int| i < j < q.len() implies p(#[trigger] q[j]) != p(q[i]) by {
            assert(p(g(ids[j])) == ids[j]);
            assert(ids[i] != ids[j]);
        }
        lemma_inserted_at(m, q, p, i);
    }
    assert forall|x: u32| !ids.to_set().contains(x) implies {
        &&& (#[trigger] r.contains_key(x) <==> m.contains_key(x))
        &&& m.contains_key(x) ==> r[x] == m[x]
    } by {
        assert forall|i: int| 0 <= i < q.len() implies p(#[trigger] q[i]) != x by {
            assert(p(g(ids[i])) == ids[i]);
            assert(ids.contains(ids[i]));
        }
        lemma_inserted_other(m, q, p, x);
    }
}

/// Putting in two lists is putting in one after the other.
proof fn lemma_inserted_add<V>(m: Map<u32, V>, a: Seq<V>, b: Seq<V>, p: spec_fn(V) -> u32)
    ensures
        inserted(m, a + b, p) == inserted(inserted(m, a, p), b, p),
    decreases b.len(),
{
    if b.len() == 0 {
        assert(a + b =~= a);
    } else {
        lemma_inserted_add(m, a, b.drop_last(), p);
        assert((a + b).drop_last() =~= a + b.drop_last());
        assert((a + b).last() == b.last());
    }
}

/// The catalog after a renaming, kind by kind.
proof fn lemma_renamed(
    c: CatalogManagerCoreModel,
    id: u32,
    rewrites: RewritesModel,
    renamed: Renamed,
)
    requires
        finite_relations(c.database),
        keyed_by_id(c.database),
        renamed.tables.len() <= 1,
        renamed.views.len() <= 1,
        renamed.tables.len() == 1 ==> c.database.tables.contains_key(id) && renamed.tables[0].id == id
            && !c.database.tables[id].dependent_relations.contains(id),
        renamed.views.len() == 1 ==> c.database.views.contains_key(id) && renamed.views[0].id == id
            && !c.database.views[id].dependent_relations.contains(id),
        renamed.tables.len() == 0 ==> !c.database.tables.contains_key(id),
        renamed.views.len() == 0 ==> !c.database.views.contains_key(id),
        renamed.sources.len() <= 1,
        renamed.sources.len() == 1 ==> c.database.sources.contains_key(renamed.sources[0].id),
    ensures
        ({
            let (after, messages) = renamed_with_refs(c, id, rewrites, renamed);
            let db = after.database;
            &&& all_follow(c.database, db, rewrites, id)
            &&& renamed.tables.len() == 1 ==> db.tables[id] == renamed.tables[0]
            &&& renamed.views.len() == 1 ==> db.views[id] == renamed.views[0]
            &&& renamed.sources.len() == 1 ==> db.sources[renamed.sources[0].id]
                == renamed.sources[0] && kept_but(
                c.database.sources,
                db.sources,
                set![renamed.sources[0].id],
            ) && db.sources.dom() == c.database.sources.dom()
            &&& renamed.sources.len() == 0 ==> db.sources == c.database.sources
            &&& told_truly(db, messages, Operation::Update)
            &&& renamed.tables.len() == 1 ==> tells(
                messages,
                RelationInfoModel::Table(renamed.tables[0]),
            )
            &&& renamed.views.len() == 1 ==> tells(messages, RelationInfoModel::View(renamed.views[0]))
            &&& renamed.sources.len() == 1 ==> tells(
                messages,
                RelationInfoModel::Source(renamed.sources[0]),
            )
            &&& db == (DatabaseManagerModel {
                tables: db.tables,
                views: db.views,
                sinks: db.sinks,
                subscriptions: db.subscriptions,
                sources: db.sources,
                ..c.database
            })
            &&& after.user == c.user
        }),
{
    let before = c.database;
    let (after, messages) = renamed_with_refs(c, id, rewrites, renamed);
    let db = after.database;
    let told = told_of(messages);

    let ti = ids_where(before.tables, table_depends_on(id));
    let tg = |x: u32| TableModel { definition: rewrites.tables[x], ..before.tables[x] };
    lemma_ids_where(before.tables, table_depends_on(id));
    assert forall|i: int| 0 <= i < ti.len() implies table_id()(tg(#[trigger] ti[i])) == ti[i] by {
        assert(ti.contains(ti[i]));
    }
    let tm = inserted(before.tables, renamed.tables, table_id());
    assert(renamed.tables.len() == 1 ==> renamed.tables =~= seq![renamed.tables[0]]);
    assert(renamed.tables.len() == 0 ==> renamed.tables =~= Seq::<TableModel>::empty());
    reveal_with_fuel(inserted, 2);
    assert(renamed.tables.len() == 1 ==> tm == before.tables.insert(id, renamed.tables[0]));
    lemma_rewritten(tm, ti, tg, table_id());
    lemma_inserted_add(before.tables, renamed.tables, image(ti, tg), table_id());
    assert(rewritten_tables(before, rewrites, id) =~= image(ti, tg));
    assert(db.tables == inserted(tm, image(ti, tg), table_id()));

    let vi = ids_where(before.views, view_depends_on(id));
    let vg = |x: u32| ViewInfoModel { sql: rewrites.views[x], ..before.views[x] };
    lemma_ids_where(before.views, view_depends_on(id));
    assert forall|i: int| 0 <= i < vi.len() implies view_id()(vg(#[trigger] vi[i])) == vi[i] by {
        assert(vi.contains(vi[i]));
    }
    let vm = inserted(before.views, renamed.views, view_id());
    assert(renamed.views.len() == 1 ==> vm == before.views.insert(id, renamed.views[0]));
    lemma_rewritten(vm, vi, vg, view_id());
    lemma_inserted_add(before.views, renamed.views, image(vi, vg), view_id());
    assert(rewritten_views(before, rewrites, id) =~= image(vi, vg));
    assert(db.views == inserted(vm, image(vi, vg), view_id()));

    let si = ids_where(before.sinks, sink_mentions(id));
    let sg = |x: u32| SinkModel { definition: rewrites.sinks[x], ..before.sinks[x] };
    lemma_ids_where(before.sinks, sink_mentions(id));
    assert forall|i: int| 0 <= i < si.len() implies sink_id()(sg(#[trigger] si[i])) == si[i] by {
        assert(si.contains(si[i]));
    }
    lemma_rewritten(before.sinks, si, sg, sink_id());
    assert(rewritten_sinks(before, rewrites, id) =~= image(si, sg));
    assert(db.sinks == inserted(before.sinks, image(si, sg), sink_id()));

    let ui = ids_where(before.subscriptions, subscription_depends_on(id));
    let ug = |x: u32|
        SubscriptionModel { definition: rewrites.subscriptions[x], ..before.subscriptions[x] };
    lemma_ids_where(before.subscriptions, subscription_depends_on(id));
    assert forall|i: int| 0 <= i < ui.len() implies subscription_id()(ug(#[trigger] ui[i])) == ui[i] by {
        assert(ui.contains(ui[i]));
    }
    lemma_rewritten(before.subscriptions, ui, ug, subscription_id());
    assert(rewritten_subscriptions(before, rewrites, id) =~= image(ui, ug));
    assert(db.subscriptions == inserted(before.subscriptions, image(ui, ug), subscription_id()));

    assert(db.tables.dom() =~= before.tables.dom()) by {
        assert forall|x: u32| db.tables.dom().contains(x) <==> before.tables.dom().contains(x) by {
            assert(ti.contains(x) || !ti.to_set().contains(x));
            assert(db.tables.contains_key(x) <==> before.tables.contains_key(x));
        }
    }
    assert(db.views.dom() =~= before.views.dom()) by {
        assert forall|x: u32| db.views.dom().contains(x) <==> before.views.dom().contains(x) by {
            assert(vi.contains(x) || !vi.to_set().contains(x));
            assert(db.views.contains_key(x) <==> before.views.contains_key(x));
        }
    }
    assert(db.sinks.dom() =~= before.sinks.dom()) by {
        assert forall|x: u32| db.sinks.dom().contains(x) <==> before.sinks.dom().contains(x) by {
            assert(si.contains(x) || !si.to_set().contains(x));
            assert(db.sinks.contains_key(x) <==> before.sinks.contains_key(x));
        }
    }
    assert(db.subscriptions.dom() =~= before.subscriptions.dom()) by {
        assert forall|x: u32|
            db.subscriptions.dom().contains(x) <==> before.subscriptions.dom().contains(x) by {
            assert(ui.contains(x) || !ui.to_set().contains(x));
            assert(db.subscriptions.contains_key(x) <==> before.subscriptions.contains_key(x));
        }
    }
    assert(tables_follow(before, db, rewrites, id)) by {
        assert forall|x: u32| x != id && #[trigger] before.tables.contains_key(x) implies {
            &&& before.tables[x].dependent_relations.contains(id) ==> db.tables[x] == tg(x)
            &&& !before.tables[x].dependent_relations.contains(id) ==> db.tables[x] == before.tables[x]
        } by {
            assert(ti.contains(x) <==> before.tables[x].dependent_relations.contains(id));
            assert(tm.contains_key(x) && tm[x] == before.tables[x]);
            assert(db.tables.contains_key(x));
        }
    }
    assert(views_follow(before, db, rewrites, id)) by {
        assert forall|x: u32| x != id && #[trigger] before.views.contains_key(x) implies {
            &&& before.views[x].dependent_relations.contains(id) ==> db.views[x] == vg(x)
            &&& !before.views[x].dependent_relations.contains(id) ==> db.views[x] == before.views[x]
        } by {
            assert(vi.contains(x) <==> before.views[x].dependent_relations.contains(id));
            assert(vm.contains_key(x) && vm[x] == before.views[x]);
            assert(db.views.contains_key(x));
        }
    }
    assert(sinks_follow(before, db, rewrites, id)) by {
        assert forall|x: u32| #[trigger] before.sinks.contains_key(x) implies {
            &&& sink_mentions(id)(before.sinks[x]) ==> db.sinks[x] == sg(x)
            &&& !sink_mentions(id)(before.sinks[x]) ==> db.sinks[x] == before.sinks[x]
        } by {
            assert(si.contains(x) <==> sink_mentions(id)(before.sinks[x]));
            assert(db.sinks.contains_key(x));
        }
    }
    assert(subscriptions_follow(before, db, rewrites, id)) by {
        assert forall|x: u32| #[trigger] before.subscriptions.contains_key(x) implies {
            &&& before.subscriptions[x].dependent_table_id == id ==> db.subscriptions[x] == ug(x)
            &&& before.subscriptions[x].dependent_table_id != id ==> db.subscriptions[x]
                == before.subscriptions[x]
        } by {
            assert(ui.contains(x) <==> before.subscriptions[x].dependent_table_id == id);
            assert(db.subscriptions.contains_key(x));
        }
    }
    assert(renamed.tables.len() == 1 ==> db.tables[id] == renamed.tables[0]) by {
        assert(db.tables.contains_key(id) || !db.tables.contains_key(id));
        if renamed.tables.len() == 1 {
            assert(!ti.contains(id));
        }
    }
    assert(renamed.views.len() == 1 ==> db.views[id] == renamed.views[0]) by {
        assert(db.views.contains_key(id) || !db.views.contains_key(id));
        if renamed.views.len() == 1 {
            assert(!vi.contains(id));
        }
    }
    let f = |x: SourceModel| x.id;
    assert(renamed.sources.len() == 0 ==> db.sources =~= before.sources);
    assert(renamed.sources.len() == 1 ==> db.sources == before.sources.insert(
        renamed.sources[0].id,
        renamed.sources[0],
    ));
    assert(renamed.sources.len() == 1 ==> db.sources.dom() =~= before.sources.dom());

    let nt = (renamed.tables + image(ti, tg)).len() as int;
    let nv = (renamed.views + image(vi, vg)).len() as int;
    let ns = si.len() as int;
    let nu = ui.len() as int;
    assert(told.len() == nt + nv + ns + nu + renamed.sources.len());
    assert forall|k: int| 0 <= k < told.len() implies stands(db, #[trigger] told[k]) by {
        if k < nt {
            let t = (renamed.tables + image(ti, tg))[k];
            assert(told[k] == RelationInfoModel::Table(t));
            if k < renamed.tables.len() {
                assert(t == renamed.tables[0]);
                assert(db.tables.dom().contains(id));
            } else {
                let x = ti[k - renamed.tables.len()];
                assert(t == tg(x));
                assert(ti.contains(x));
            }
        } else if k < nt + nv {
            let v = (renamed.views + image(vi, vg))[k - nt];
            assert(told[k] == RelationInfoModel::View(v));
            if k - nt < renamed.views.len() {
                assert(v == renamed.views[0]);
                assert(db.views.dom().contains(id));
            } else {
                let x = vi[k - nt - renamed.views.len()];
                assert(v == vg(x));
                assert(vi.contains(x));
            }
        } else if k < nt + nv + ns {
            let x = si[k - nt - nv];
            assert(told[k] == RelationInfoModel::Sink(sg(x)));
            assert(si.contains(x));
        } else if k < nt + nv + ns + nu {
            let x = ui[k - nt - nv - ns];
            assert(told[k] == RelationInfoModel::Subscription(ug(x)));
            assert(ui.contains(x));
        } else {
            assert(told[k] == RelationInfoModel::Source(renamed.sources[0]));
        }
    }
    if renamed.tables.len() == 1 {
        assert(told[0] == RelationInfoModel::Table(renamed.tables[0]));
    }
    if renamed.views.len() == 1 {
        assert(told[nt] == RelationInfoModel::View(renamed.views[0]));
    }
    if renamed.sources.len() == 1 {
        assert(told[nt + nv + ns + nu] == RelationInfoModel::Source(renamed.sources[0]));
    }
}

/// A table is renamed exactly where it is known and the new name is free. It has the new name and the
/// new definition, its source has the new name too, whatever mentions it has the rewritten text, and
/// the frontends are told of all of that as it stands. Nothing else changes.
pub proof fn law_renamed_table(
    c: CatalogManagerCoreModel,
    id: u32,
    name: Seq<char>,
    definition: Seq<char>,
    rewrites: RewritesModel,
)
    requires
        finite_relations(c.database),
        keyed_by_id(c.database),
        !c.database.views.contains_key(id),
        c.database.tables.contains_key(id) ==> !c.database.tables[id].dependent_relations.contains(id)
            && match c.database.tables[id].optional_associated_source_id {
            Some(source) => c.database.sources.contains_key(source),
            None => true,
        },
    ensures
        ({
            let before = c.database;
            let table = before.tables[id];
            let key = RelationKeyModel {
                database_id: table.database_id,
                schema_id: table.schema_id,
                name,
            };
            match table_renamed(c, id, name, definition, rewrites) {
                Ok((after, messages)) => {
                    let db = after.database;
                    &&& before.tables.contains_key(id)
                    &&& name_is_free(before, key)
                    &&& db.tables[id].name == name
                    &&& db.tables[id].definition == definition
                    &&& db.tables[id] == (TableModel {
                        name: db.tables[id].name,
                        definition: db.tables[id].definition,
                        ..table
                    })
                    &&& all_follow(before, db, rewrites, id)
                    &&& match table.optional_associated_source_id {
                        Some(source) => {
                            &&& db.sources.contains_key(source)
                            &&& db.sources[source].name == name
                            &&& db.sources[source] == (SourceModel {
                                name: db.sources[source].name,
                                ..before.sources[source]
                            })
                            &&& kept_but(before.sources, db.sources, set![source])
                            &&& tells(messages, RelationInfoModel::Source(db.sources[source]))
                        },
                        None => db.sources == before.sources,
                    }
                    &&& told_truly(db, messages, Operation::Update)
                    &&& tells(messages, RelationInfoModel::Table(db.tables[id]))
                    &&& db == (DatabaseManagerModel {
                        tables: db.tables,
                        views: db.views,
                        sinks: db.sinks,
                        subscriptions: db.subscriptions,
                        sources: db.sources,
                        ..before
                    })
                    &&& after.user == c.user
                },
                Err(_) => !before.tables.contains_key(id) || !name_is_free(before, key),
            }
        }),
{
    let before = c.database;
    let table = before.tables[id];
    let key = RelationKeyModel { database_id: table.database_id, schema_id: table.schema_id, name };
    law_taken_names_are_refused(before, key);
    if before.tables.contains_key(id) && name_is_free(before, key) {
        let renamed = Renamed {
            tables: seq![TableModel { name, definition, ..table }],
            views: Seq::empty(),
            sources: match table.optional_associated_source_id {
                Some(source_id) => seq![SourceModel { name, ..before.sources[source_id] }],
                None => Seq::empty(),
            },
        };
        lemma_renamed(c, id, rewrites, renamed);
    }
}

/// A view is renamed exactly where it is known and the new name is free. It has the new name, whatever
/// mentions it has the rewritten text, and the frontends are told of all of that as it stands. Nothing
/// else changes.
pub proof fn law_renamed_view(
    c: CatalogManagerCoreModel,
    id: u32,
    name: Seq<char>,
    rewrites: RewritesModel,
)
    requires
        finite_relations(c.database),
        keyed_by_id(c.database),
        !c.database.tables.contains_key(id),
        c.database.views.contains_key(id) ==> !c.database.views[id].dependent_relations.contains(id),
    ensures
        ({
            let before = c.database;
            let view = before.views[id];
            let key = RelationKeyModel {
                database_id: view.database_id,
                schema_id: view.schema_id,
                name,
            };
            match view_renamed(c, id, name, rewrites) {
                Ok((after, messages)) => {
                    let db = after.database;
                    &&& before.views.contains_key(id)
                    &&& name_is_free(before, key)
                    &&& db.views[id].name == name
                    &&& db.views[id] == (ViewInfoModel { name: db.views[id].name, ..view })
                    &&& all_follow(before, db, rewrites, id)
                    &&& told_truly(db, messages, Operation::Update)
                    &&& tells(messages, RelationInfoModel::View(db.views[id]))
                    &&& db == (DatabaseManagerModel {
                        tables: db.tables,
                        views: db.views,
                        sinks: db.sinks,
                        subscriptions: db.subscriptions,
                        ..before
                    })
                    &&& after.user == c.user
                },
                Err(_) => !before.views.contains_key(id) || !name_is_free(before, key),
            }
        }),
{
    let before = c.database;
    let view = before.views[id];
    let key = RelationKeyModel { database_id: view.database_id, schema_id: view.schema_id, name };
    law_taken_names_are_refused(before, key);
    if before.views.contains_key(id) && name_is_free(before, key) {
        let renamed = Renamed {
            tables: Seq::empty(),
            views: seq![ViewInfoModel { name, ..view }],
            sources: Seq::empty(),
        };
        lemma_renamed(c, id, rewrites, renamed);
    }
}

/// A source is renamed exactly where it is known and the new name is free. It has the new name and the
/// new definition, whatever mentions it has the rewritten text, and the frontends are told of all of
/// that as it stands. Nothing else changes.
pub proof fn law_renamed_source(
    c: CatalogManagerCoreModel,
    id: u32,
    name: Seq<char>,
    definition: Seq<char>,
    rewrites: RewritesModel,
)
    requires
        finite_relations(c.database),
        keyed_by_id(c.database),
        !c.database.tables.contains_key(id),
        !c.database.views.contains_key(id),
    ensures
        ({
            let before = c.database;
            let source = before.sources[id];
            let key = RelationKeyModel {
                database_id: source.database_id,
                schema_id: source.schema_id,
                name,
            };
            match source_renamed(c, id, name, definition, rewrites) {
                Ok((after, messages)) => {
                    let db = after.database;
                    &&& before.sources.contains_key(id)
                    &&& name_is_free(before, key)
                    &&& db.sources.contains_key(id)
                    &&& db.sources[id].name == name
                    &&& db.sources[id].definition == definition
                    &&& db.sources[id] == (SourceModel {
                        name: db.sources[id].name,
                        definition: db.sources[id].definition,
                        ..source
                    })
                    &&& kept_but(before.sources, db.sources, set![id])
                    &&& all_follow(before, db, rewrites, id)
                    &&& told_truly(db, messages, Operation::Update)
                    &&& tells(messages, RelationInfoModel::Source(db.sources[id]))
                    &&& db == (DatabaseManagerModel {
                        tables: db.tables,
                        views: db.views,
                        sinks: db.sinks,
                        subscriptions: db.subscriptions,
                        sources: db.sources,
                        ..before
                    })
                    &&& after.user == c.user
                },
                Err(_) => !before.sources.contains_key(id) || !name_is_free(before, key),
            }
        }),
{
    let before = c.database;
    let source = before.sources[id];
    let key = RelationKeyModel { database_id: source.database_id, schema_id: source.schema_id, name };
    law_taken_names_are_refused(before, key);
    if before.sources.contains_key(id) && name_is_free(before, key) {
        let renamed = Renamed {
            tables: Seq::empty(),
            views: Seq::empty(),
            sources: seq![SourceModel { name, definition, ..source }],
        };
        lemma_renamed(c, id, rewrites, renamed);
    }
}

// ---------------------------------------------------------------------------
// Objects that nothing mentions.
// ---------------------------------------------------------------------------

/// A sink is renamed exactly where it is known and the new name is free. It has the new name and the
/// new definition, and the frontends are told of it. Nothing else changes.
pub proof fn law_renamed_sink(
    c: CatalogManagerCoreModel,
    id: u32,
    name: Seq<char>,
    definition: Seq<char>,
)
    requires
        c.database.tables.dom().finite(),
        keyed_by_id(c.database),
    ensures
        ({
            let before = c.database;
            let sink = before.sinks[id];
            let key = RelationKeyModel {
                database_id: sink.database_id,
                schema_id: sink.schema_id,
                name,
            };
            match sink_renamed(c, id, name, definition) {
                Ok((after, messages)) => {
                    let db = after.database;
                    &&& before.sinks.contains_key(id)
                    &&& name_is_free(before, key)
                    &&& db.sinks.contains_key(id)
                    &&& db.sinks[id].name == name
                    &&& db.sinks[id].definition == definition
                    &&& db.sinks[id] == (SinkModel {
                        name: db.sinks[id].name,
                        definition: db.sinks[id].definition,
                        ..sink
                    })
                    &&& kept_but(before.sinks, db.sinks, set![id])
                    &&& told_truly(db, messages, Operation::Update)
                    &&& tells(messages, RelationInfoModel::Sink(db.sinks[id]))
                    &&& db == (DatabaseManagerModel { sinks: db.sinks, ..before })
                    &&& after.user == c.user
                },
                Err(_) => !before.sinks.contains_key(id) || !name_is_free(before, key),
            }
        }),
{
    let sink = c.database.sinks[id];
    law_taken_names_are_refused(
        c.database,
        RelationKeyModel { database_id: sink.database_id, schema_id: sink.schema_id, name },
    );
    if sink_renamed(c, id, name, definition) is Ok {
        let messages = sink_renamed(c, id, name, definition)->Ok_0.1;
        assert(told_of(messages)[0] is Sink);
    }
}

/// A subscription is renamed exactly where it is known and the new name is free. It has the new name
/// and the new definition, and the frontends are told of it. Nothing else changes.
pub proof fn law_renamed_subscription(
    c: CatalogManagerCoreModel,
    id: u32,
    name: Seq<char>,
    definition: Seq<char>,
)
    requires
        c.database.tables.dom().finite(),
        keyed_by_id(c.database),
    ensures
        ({
            let before = c.database;
            let subscription = before.subscriptions[id];
            let key = RelationKeyModel {
                database_id: subscription.database_id,
                schema_id: subscription.schema_id,
                name,
            };
            match subscription_renamed(c, id, name, definition) {
                Ok((after, messages)) => {
                    let db = after.database;
                    let s = db.subscriptions[id];
                    &&& before.subscriptions.contains_key(id)
                    &&& name_is_free(before, key)
                    &&& db.subscriptions.contains_key(id)
                    &&& s.name == name
                    &&& s.definition == definition
                    &&& s == (SubscriptionModel {
                        name: s.name,
                        definition: s.definition,
                        ..subscription
                    })
                    &&& kept_but(before.subscriptions, db.subscriptions, set![id])
                    &&& told_truly(db, messages, Operation::Update)
                    &&& tells(messages, RelationInfoModel::Subscription(s))
                    &&& db == (DatabaseManagerModel { subscriptions: db.subscriptions, ..before })
                    &&& after.user == c.user
                },
                Err(_) => !before.subscriptions.contains_key(id) || !name_is_free(before, key),
            }
        }),
{
    let s = c.database.subscriptions[id];
    law_taken_names_are_refused(
        c.database,
        RelationKeyModel { database_id: s.database_id, schema_id: s.schema_id, name },
    );
    if subscription_renamed(c, id, name, definition) is Ok {
        let messages = subscription_renamed(c, id, name, definition)->Ok_0.1;
        assert(told_of(messages)[0] is Subscription);
    }
}

/// An index is renamed exactly where it is known and the new name is free. It and its table have the
/// new name, the table the new definition, and the frontends are told of both. Nothing else changes.
pub proof fn law_renamed_index(
    c: CatalogManagerCoreModel,
    id: u32,
    name: Seq<char>,
    definition: Seq<char>,
)
    requires
        c.database.tables.dom().finite(),
        keyed_by_id(c.database),
        c.database.indexes.contains_key(id) ==> c.database.tables.contains_key(
            c.database.indexes[id].index_table_id,
        ),
    ensures
        ({
            let before = c.database;
            let index = before.indexes[id];
            let table = index.index_table_id;
            let key = RelationKeyModel {
                database_id: index.database_id,
                schema_id: index.schema_id,
                name,
            };
            match index_renamed(c, id, name, definition) {
                Ok((after, messages)) => {
                    let db = after.database;
                    &&& before.indexes.contains_key(id)
                    &&& name_is_free(before, key)
                    &&& db.indexes.contains_key(id)
                    &&& db.indexes[id].name == name
                    &&& db.indexes[id] == (IndexModel { name: db.indexes[id].name, ..index })
                    &&& db.tables.contains_key(table)
                    &&& db.tables[table].name == name
                    &&& db.tables[table].definition == definition
                    &&& db.tables[table] == (TableModel {
                        name: db.tables[table].name,
                        definition: db.tables[table].definition,
                        ..before.tables[table]
                    })
                    &&& kept_but(before.indexes, db.indexes, set![id])
                    &&& kept_but(before.tables, db.tables, set![table])
                    &&& told_truly(db, messages, Operation::Update)
                    &&& tells(messages, RelationInfoModel::Index(db.indexes[id]))
                    &&& tells(messages, RelationInfoModel::Table(db.tables[table]))
                    &&& db == (DatabaseManagerModel {
                        indexes: db.indexes,
                        tables: db.tables,
                        ..before
                    })
                    &&& after.user == c.user
                },
                Err(_) => !before.indexes.contains_key(id) || !name_is_free(before, key),
            }
        }),
{
    let index = c.database.indexes[id];
    law_taken_names_are_refused(
        c.database,
        RelationKeyModel { database_id: index.database_id, schema_id: index.schema_id, name },
    );
    if index_renamed(c, id, name, definition) is Ok {
        let messages = index_renamed(c, id, name, definition)->Ok_0.1;
        assert(told_of(messages)[0] is Table);
        assert(told_of(messages)[1] is Index);
    }
}

/// The one message is to the frontends and about this object.
pub open spec fn told_about(
    messages: Seq<NotificationModel>,
    operation: Operation,
    info: InfoModel,
) -> bool {
    &&& messages.len() == 1
    &&& messages[0].audience == Audience::Frontend
    &&& messages[0].operation == operation
    &&& messages[0].info == info
}

/// A schema is renamed exactly where it is known and no schema of its database has the new name. It
/// has the new name, and the frontends are told of it. Nothing else changes.
pub proof fn law_renamed_schema(c: CatalogManagerCoreModel, id: u32, name: Seq<char>)
    ensures
        ({
            let before = c.database;
            let schema = before.schemas[id];
            let free = forall|x: u32| #[trigger]
                before.schemas.contains_key(x) ==> !(before.schemas[x].database_id
                    == schema.database_id && before.schemas[x].name == name);
            match schema_renamed(c, id, name) {
                Ok((after, messages)) => {
                    let db = after.database;
                    &&& before.schemas.contains_key(id)
                    &&& free
                    &&& db.schemas.contains_key(id)
                    &&& db.schemas[id].name == name
                    &&& db.schemas[id] == (SchemaModel { name: db.schemas[id].name, ..schema })
                    &&& kept_but(before.schemas, db.schemas, set![id])
                    &&& told_about(messages, Operation::Update, InfoModel::Schema(db.schemas[id]))
                    &&& db == (DatabaseManagerModel { schemas: db.schemas, ..before })
                    &&& after.user == c.user
                },
                Err(_) => !before.schemas.contains_key(id) || !free,
            }
        }),
{
}

/// A database is renamed exactly where it is known and no database has the new name. It has the new
/// name, and the frontends are told of it. Nothing else changes.
pub proof fn law_renamed_database(c: CatalogManagerCoreModel, id: u32, name: Seq<char>)
    ensures
        ({
            let before = c.database;
            let free = forall|x: u32| #[trigger]
                before.databases.contains_key(x) ==> before.databases[x].name != name;
            match database_renamed(c, id, name) {
                Ok((after, messages)) => {
                    let db = after.database;
                    &&& before.databases.contains_key(id)
                    &&& free
                    &&& db.databases.contains_key(id)
                    &&& db.databases[id].name == name
                    &&& db.databases[id] == (DatabaseModel {
                        name: db.databases[id].name,
                        ..before.databases[id]
                    })
                    &&& kept_but(before.databases, db.databases, set![id])
                    &&& told_about(
                        messages,
                        Operation::Update,
                        InfoModel::Database(db.databases[id]),
                    )
                    &&& db == (DatabaseManagerModel { databases: db.databases, ..before })
                    &&& after.user == c.user
                },
                Err(_) => !before.databases.contains_key(id) || !free,
            }
        }),
{
}

// ---------------------------------------------------------------------------
// Other changes.
// ---------------------------------------------------------------------------

/// A source is altered exactly where it is known and the given one is the next version of it. The
/// given one then stands in the catalog, and the frontends are told of it. Nothing else changes.
pub proof fn law_altered_source_is_the_next_version(c: CatalogManagerCoreModel, source: SourceModel)
    ensures
        ({
            let before = c.database;
            match source_columns_altered(c, source) {
                Ok((after, messages)) => {
                    let db = after.database;
                    &&& before.sources.contains_key(source.id)
                    &&& source.version == before.sources[source.id].version + 1
                    &&& stands(db, RelationInfoModel::Source(source))
                    &&& kept_but(before.sources, db.sources, set![source.id])
                    &&& told_truly(db, messages, Operation::Update)
                    &&& tells(messages, RelationInfoModel::Source(source))
                    &&& db == (DatabaseManagerModel { sources: db.sources, ..before })
                    &&& after.user == c.user
                },
                Err(_) => before.sources.contains_key(source.id) ==> source.version
                    != before.sources[source.id].version + 1,
            }
        }),
{
    if source_columns_altered(c, source) is Ok {
        let messages = source_columns_altered(c, source)->Ok_0.1;
        assert(told_of(messages)[0] is Source);
    }
}

/// The rate limit of a known source becomes the given one, and nothing else changes; a source that is
/// not known is refused.
pub proof fn law_rate_limit_is_set(c: CatalogManagerCoreModel, id: u32, rate_limit: Option<u32>)
    ensures
        ({
            let before = c.database;
            match rate_limited(c, id, rate_limit) {
                Ok((after, messages)) => {
                    let db = after.database;
                    &&& before.sources.contains_key(id)
                    &&& db.sources.contains_key(id)
                    &&& db.sources[id].rate_limit == rate_limit
                    &&& db.sources[id] == (SourceModel {
                        rate_limit: db.sources[id].rate_limit,
                        ..before.sources[id]
                    })
                    &&& kept_but(before.sources, db.sources, set![id])
                    &&& messages.len() == 1
                    &&& messages[0].audience == Audience::Frontend
                    &&& messages[0].operation == Operation::Update
                    &&& messages[0].info is RelationGroup
                    &&& told_of(messages).len() == 1
                    &&& told_of(messages)[0] is Source
                    &&& told_of(messages)[0]->Source_0.name == before.sources[id].name
                    &&& told_of(messages)[0]->Source_0.id == before.sources[id].id
                    &&& db == (DatabaseManagerModel { sources: db.sources, ..before })
                    &&& after.user == c.user
                },
                Err(_) => !before.sources.contains_key(id),
            }
        }),
{
}

/// A comment becomes the description of the table or of the one column that it is on; nothing else
/// changes, and the frontends are told of the table. It is refused where the database, the schema, the
/// table or the column is not known.
pub proof fn law_comment_is_kept(c: CatalogManagerCoreModel, comment: CommentModel)
    requires
        keyed_by_id(c.database),
    ensures
        ({
            let before = c.database;
            let old_table = before.tables[comment.table_id];
            let column = comment.column_index;
            let known = before.databases.contains_key(comment.database_id)
                && before.schemas.contains_key(comment.schema_id) && before.tables.contains_key(
                comment.table_id,
            ) && match column {
                Some(i) => i < old_table.columns.len() && old_table.columns[i as int].column_desc is Some,
                None => true,
            };
            match comment_result(c, comment) {
                Ok((after, messages)) => {
                    let db = after.database;
                    let table = db.tables[comment.table_id];
                    &&& known
                    &&& db.tables.contains_key(comment.table_id)
                    &&& match column {
                        Some(i) => {
                            &&& table.columns.len() == old_table.columns.len()
                            &&& table.columns[i as int].column_desc is Some
                            &&& table.columns[i as int].column_desc->0.description
                                == comment.description
                            &&& table.columns[i as int].column_desc->0 == (ColumnDescModel {
                                description: table.columns[i as int].column_desc->0.description,
                                ..old_table.columns[i as int].column_desc->0
                            })
                            &&& table.columns[i as int].is_hidden
                                == old_table.columns[i as int].is_hidden
                            &&& forall|j: int|
                                0 <= j < table.columns.len() && j != i ==> #[trigger] table.columns[j]
                                    == old_table.columns[j]
                            &&& table == (TableModel { columns: table.columns, ..old_table })
                        },
                        None => table.description == comment.description && table == (TableModel {
                            description: table.description,
                            ..old_table
                        }),
                    }
                    &&& kept_but(before.tables, db.tables, set![comment.table_id])
                    &&& told_truly(db, messages, Operation::Update)
                    &&& tells(messages, RelationInfoModel::Table(table))
                    &&& db == (DatabaseManagerModel { tables: db.tables, ..before })
                    &&& after.user == c.user
                },
                Err(_) => !known,
            }
        }),
{
    if comment_result(c, comment) is Ok {
        let messages = comment_result(c, comment)->Ok_0.1;
        assert(told_of(messages)[0] is Table);
    }
}

} // verus!
