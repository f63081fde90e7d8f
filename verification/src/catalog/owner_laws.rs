//! What holds once an object is handed to another owner or moved to another schema: it and what goes
//! with it have the new owner or the new schema, the owners are counted anew, and nothing else
//! changes.

use vstd::prelude::*;

use crate::catalog::drop::{index_on, indexes_of, JobFragmentsModel};
use crate::catalog::effects::{keyed_by_id, kept_but, stands, tells, told_of, told_truly};
use crate::catalog::notify::{Audience, InfoModel, Operation, RelationInfoModel};
use crate::catalog::owner::{
    all_internal_tables, database_handed_over, first_without, owner_altered, schema_handed_over,
    sink_handed_over, source_handed_over, subscription_handed_over, table_family, table_handed_over,
    table_handing_presumes, transferable, transferred, view_handed_over, OwnedObject,
};
use crate::catalog::relations::one_or_none;
use crate::catalog::rename_laws::told_about;
use crate::catalog::set_schema::{
    connection_relocated, function_relocated, name_in, schema_set, sink_relocated, source_relocated,
    subscription_relocated, table_moving_presumes, table_relocated, view_relocated, MovableObject,
};
use crate::catalog::start_laws::{law_taken_names_are_refused, name_is_free};
use crate::catalog::state::{CatalogManagerCoreModel, DatabaseManagerModel, UserManagerModel};
use crate::catalog::types::{
    Action, ConnectionModel, DatabaseModel, FunctionModel, IndexModel, Object, RelationKeyModel,
    SchemaModel, SinkModel, SourceModel, SubscriptionModel, TableModel, UserInfoModel, ViewInfoModel,
};
use crate::util::counts::{count_of, lemma_times, lowered, times};
use crate::util::id_map::lemma_ids_where;
use crate::util::ids::lemma_occurrences_contains;

verus! {

/// `n` objects went from one owner to the other; nothing else is known otherwise of the users.
pub open spec fn handed(
    before: UserManagerModel,
    after: UserManagerModel,
    from: u32,
    to: u32,
    n: nat,
) -> bool {
    &&& count_of(after.catalog_create_ref_count, from) + n == count_of(
        before.catalog_create_ref_count,
        from,
    )
    &&& count_of(after.catalog_create_ref_count, to) == count_of(before.catalog_create_ref_count, to) + n
    &&& forall|x: u32|
        x != from && x != to ==> #[trigger] count_of(after.catalog_create_ref_count, x) == count_of(
            before.catalog_create_ref_count,
            x,
        )
    &&& after.user_grant_relation == before.user_grant_relation
}

proof fn lemma_handed(c: Map<u32, usize>, from: u32, to: u32, n: nat)
    requires
        from != to,
        transferable(c, from, to, n),
    ensures
        ({
            let r = transferred(c, from, to, n);
            &&& count_of(r, from) + n == count_of(c, from)
            &&& count_of(r, to) == count_of(c, to) + n
            &&& forall|x: u32| x != from && x != to ==> #[trigger] count_of(r, x) == count_of(c, x)
        }),
{
    let l = lowered(c, times(from, n));
    let r = transferred(c, from, to, n);
    assert forall|x: u32|
        count_of(l, x) + (if x == from {
            n
        } else {
            0
        }) == count_of(c, x) && #[trigger] count_of(r, x) == count_of(l, x) + (if x == to {
            n
        } else {
            0
        }) by {
        lemma_times(from, n, x);
        lemma_times(to, n, x);
        lemma_occurrences_contains(times(to, n), x);
    }
    assert(count_of(r, from) == count_of(l, from));
    assert(count_of(r, to) == count_of(l, to) + n);
}

/// The tables that go with a table: those of its indexes, and the internal ones of all of these.
pub open spec fn goes_with(
    c: CatalogManagerCoreModel,
    fragments: Map<u32, JobFragmentsModel>,
    id: u32,
    x: u32,
) -> bool {
    let family = table_family(c.database, id);
    (family + all_internal_tables(fragments, family)).contains(x)
}

/// What goes with a table: the table itself, the tables of its indexes, and every internal table of
/// these.
pub proof fn law_what_goes_with_a_table(
    c: CatalogManagerCoreModel,
    fragments: Map<u32, JobFragmentsModel>,
    id: u32,
    x: u32,
)
    requires
        c.database.indexes.dom().finite(),
    ensures
        ({
            let main = |t: u32|
                t == id || exists|i: u32| #[trigger]
                    c.database.indexes.contains_key(i) && c.database.indexes[i].primary_table_id == id
                        && c.database.indexes[i].index_table_id == t;
            goes_with(c, fragments, id, x) <==> main(x) || exists|t: u32|
                main(t) && #[trigger] fragments.contains_key(t)
                    && fragments[t].internal_table_ids.contains(x)
        }),
{
    let db = c.database;
    let family = table_family(db, id);
    let inner = all_internal_tables(fragments, family);
    let p = |t: u32| crate::catalog::drop::internal_tables(fragments, t);
    let ii = indexes_of(db, id);
    lemma_ids_where(db.indexes, index_on(id));
    crate::util::lists::lemma_gather_contains(family, p, x);
    let main = |t: u32|
        t == id || exists|i: u32| #[trigger]
            db.indexes.contains_key(i) && db.indexes[i].primary_table_id == id
                && db.indexes[i].index_table_id == t;
    assert forall|t: u32| #[trigger] family.contains(t) <==> main(t) by {
        if family.contains(t) {
            let k = choose|k: int| 0 <= k < family.len() && family[k] == t;
            if k > 0 {
                let i = ii[k - 1];
                assert(ii.contains(i));
                assert(db.indexes.contains_key(i));
            }
        }
        if t == id {
            assert(family[0] == t);
        } else if main(t) {
            let i = choose|i: u32| #[trigger]
                db.indexes.contains_key(i) && db.indexes[i].primary_table_id == id
                    && db.indexes[i].index_table_id == t;
            assert(ii.contains(i));
            let k = choose|k: int| 0 <= k < ii.len() && ii[k] == i;
            assert(family[k + 1] == t);
        }
    }
    assert((family + inner).contains(x) <==> family.contains(x) || inner.contains(x)) by {
        if family.contains(x) {
            let k = choose|k: int| 0 <= k < family.len() && family[k] == x;
            assert((family + inner)[k] == x);
        }
        if inner.contains(x) {
            let k = choose|k: int| 0 <= k < inner.len() && inner[k] == x;
            assert((family + inner)[family.len() + k] == x);
        }
    }
    if inner.contains(x) {
        let k = choose|k: int| 0 <= k < family.len() && p(#[trigger] family[k]).contains(x);
        assert(family.contains(family[k]));
        assert(fragments.contains_key(family[k]));
    }
    if exists|t: u32|
        main(t) && #[trigger] fragments.contains_key(t) && fragments[t].internal_table_ids.contains(x) {
        let t = choose|t: u32|
            main(t) && #[trigger] fragments.contains_key(t) && fragments[t].internal_table_ids.contains(
                x,
            );
        assert(family.contains(t));
        let k = choose|k: int| 0 <= k < family.len() && family[k] == t;
        assert(p(family[k]).contains(x));
    }
}

/// A table is handed over with everything that goes with it, its indexes and its source: all of these
/// have the new owner and are otherwise as before, nothing else changes, and each of the owners is
/// counted for the table, its index tables, its indexes and its source. The frontends are told of what
/// then stands. Where the owner has it already, nothing happens.
pub proof fn law_handed_over_table(
    c: CatalogManagerCoreModel,
    fragments: Map<u32, JobFragmentsModel>,
    id: u32,
    owner: u32,
)
    requires
        c.database.indexes.dom().finite(),
        keyed_by_id(c.database),
        table_handing_presumes(c, fragments, id, owner),
        c.database.tables.contains_key(id),
    ensures
        ({
            let before = c.database;
            let table = before.tables[id];
            let source = table.optional_associated_source_id;
            match table_handed_over(c, fragments, id, owner) {
                Ok((after, messages)) => {
                    let db = after.database;
                    &&& table.owner == owner ==> after == c && messages.len() == 0
                    &&& table.owner != owner ==> {
                        &&& db.tables[id].owner == owner
                        &&& db.tables.dom() == before.tables.dom()
                        &&& forall|x: u32| #[trigger]
                            before.tables.contains_key(x) ==> {
                                &&& goes_with(c, fragments, id, x) ==> db.tables[x].owner == owner
                                    && db.tables[x] == (TableModel {
                                    owner: db.tables[x].owner,
                                    ..before.tables[x]
                                }) && tells(messages, RelationInfoModel::Table(db.tables[x]))
                                &&& !goes_with(c, fragments, id, x) ==> db.tables[x]
                                    == before.tables[x]
                            }
                        &&& db.indexes.dom() == before.indexes.dom()
                        &&& forall|x: u32| #[trigger]
                            before.indexes.contains_key(x) ==> {
                                let on = before.indexes[x].primary_table_id == id;
                                &&& on ==> db.indexes[x].owner == owner && db.indexes[x] == (
                                IndexModel { owner: db.indexes[x].owner, ..before.indexes[x] })
                                    && tells(messages, RelationInfoModel::Index(db.indexes[x]))
                                &&& !on ==> db.indexes[x] == before.indexes[x]
                            }
                        &&& source is Some ==> {
                            let s = source->0;
                            &&& db.sources.contains_key(s)
                            &&& db.sources[s].owner == owner
                            &&& db.sources[s] == (SourceModel {
                                owner: db.sources[s].owner,
                                ..before.sources[s]
                            })
                            &&& kept_but(before.sources, db.sources, set![s])
                            &&& tells(messages, RelationInfoModel::Source(db.sources[s]))
                        }
                        &&& source is None ==> db.sources == before.sources
                        &&& handed(
                            c.user,
                            after.user,
                            table.owner,
                            owner,
                            1 + 2 * indexes_of(before, id).len() + if source is Some {
                                1nat
                            } else {
                                0nat
                            },
                        )
                        &&& after.user.user_info == c.user.user_info
                        &&& told_truly(db, messages, Operation::Update)
                        &&& db == (DatabaseManagerModel {
                            tables: db.tables,
                            indexes: db.indexes,
                            sources: db.sources,
                            ..before
                        })
                    }
                },
                Err(e) => table.owner != owner && e is FragmentNotFound,
            }
        }),
{
    let before = c.database;
    let table = before.tables[id];
    let family = table_family(before, id);
    let inner = all_internal_tables(fragments, family);
    let all = family + inner;
    let ii = indexes_of(before, id);
    let source = one_or_none(table.optional_associated_source_id);
    lemma_ids_where(before.indexes, index_on(id));
    if table.owner != owner && first_without(fragments, family) is None {
        let (after, messages) = table_handed_over(c, fragments, id, owner)->Ok_0;
        let db = after.database;
        let told = told_of(messages);
        assert(family[0] == id);
        assert(all[0] == id);
        assert(all.contains(id));
        assert(db.tables.dom() =~= before.tables.dom());
        assert(db.indexes.dom() =~= before.indexes.dom());
        assert(source.len() == 0 ==> db.sources =~= before.sources);
        lemma_handed(
            c.user.catalog_create_ref_count,
            table.owner,
            owner,
            family.len() + ii.len() + source.len(),
        );
        let nf = family.len() as int;
        let ni = ii.len() as int;
        let ns = source.len() as int;
        assert(told.len() == nf + ni + ns + inner.len());
        assert forall|x: u32| #[trigger] before.tables.contains_key(x) && all.contains(x) implies tells(
            messages,
            RelationInfoModel::Table(db.tables[x]),
        ) by {
            let k = choose|k: int| 0 <= k < all.len() && all[k] == x;
            if k < nf {
                assert(told[k] == RelationInfoModel::Table(db.tables[x]));
            } else {
                assert(told[nf + ni + ns + (k - nf)] == RelationInfoModel::Table(db.tables[x]));
            }
        }
        assert forall|x: u32| #[trigger] before.indexes.contains_key(x) implies {
            let on = before.indexes[x].primary_table_id == id;
            &&& on ==> db.indexes[x].owner == owner && db.indexes[x] == (IndexModel {
                owner: db.indexes[x].owner,
                ..before.indexes[x]
            }) && tells(messages, RelationInfoModel::Index(db.indexes[x]))
            &&& !on ==> db.indexes[x] == before.indexes[x]
        } by {
            assert(ii.contains(x) <==> index_on(id)(before.indexes[x]));
            if ii.contains(x) {
                let k = choose|k: int| 0 <= k < ii.len() && ii[k] == x;
                assert(told[nf + k] == RelationInfoModel::Index(db.indexes[x]));
            }
        }
        if ns > 0 {
            assert(source[0] == table.optional_associated_source_id->0);
            assert(source.contains(source[0]));
            assert(before.sources.contains_key(source[0]));
            assert(told[nf + ni] == RelationInfoModel::Source(db.sources[source[0]]));
        }
        assert forall|k: int| 0 <= k < told.len() implies stands(db, #[trigger] told[k]) by {
            if k < nf {
                assert(all[k] == family[k]);
                assert(before.tables.contains_key(all[k]));
                assert(all.contains(family[k]));
                assert(told[k] == RelationInfoModel::Table(db.tables[family[k]]));
            } else if k < nf + ni {
                let x = ii[k - nf];
                assert(ii.contains(x));
                assert(told[k] == RelationInfoModel::Index(db.indexes[x]));
                assert(db.indexes[x].id == before.indexes[x].id);
            } else if k < nf + ni + ns {
                assert(told[k] == RelationInfoModel::Source(db.sources[source[0]]));
                assert(db.sources[source[0]].id == before.sources[source[0]].id);
            } else {
                let j = k - nf - ni - ns;
                assert(all[nf + j] == inner[j]);
                assert(before.tables.contains_key(all[nf + j]));
                assert(all.contains(all[nf + j]));
                assert(told[k] == RelationInfoModel::Table(db.tables[inner[j]]));
            }
        }
    }
}

/// A view, a source, a subscription or a schema is handed over: it has the new owner and is otherwise
/// as before, each owner is counted for it, nothing else changes, and the frontends are told of it.
/// Where the owner has it already, nothing happens; what is not known is refused.
pub proof fn law_handed_over_object(c: CatalogManagerCoreModel, id: u32, owner: u32)
    requires
        keyed_by_id(c.database),
    ensures
        ({
            let before = c.database;
            let r = view_handed_over(c, id, owner);
            &&& r is Ok <==> before.views.contains_key(id)
            &&& r is Ok && before.views[id].owner == owner ==> r->Ok_0.0 == c && r->Ok_0.1.len() == 0
            &&& r is Ok && before.views[id].owner != owner && transferable(
                c.user.catalog_create_ref_count,
                before.views[id].owner,
                owner,
                1,
            ) ==> {
                let (after, messages) = r->Ok_0;
                let db = after.database;
                &&& db.views.contains_key(id)
                &&& db.views[id].owner == owner
                &&& db.views[id] == (ViewInfoModel { owner: db.views[id].owner, ..before.views[id] })
                &&& kept_but(before.views, db.views, set![id])
                &&& handed(c.user, after.user, before.views[id].owner, owner, 1)
                &&& after.user.user_info == c.user.user_info
                &&& told_truly(db, messages, Operation::Update)
                &&& tells(messages, RelationInfoModel::View(db.views[id]))
                &&& db == (DatabaseManagerModel { views: db.views, ..before })
            }
        }),
        ({
            let before = c.database;
            let r = source_handed_over(c, id, owner);
            &&& r is Ok <==> before.sources.contains_key(id)
            &&& r is Ok && before.sources[id].owner == owner ==> r->Ok_0.0 == c && r->Ok_0.1.len() == 0
            &&& r is Ok && before.sources[id].owner != owner && transferable(
                c.user.catalog_create_ref_count,
                before.sources[id].owner,
                owner,
                1,
            ) ==> {
                let (after, messages) = r->Ok_0;
                let db = after.database;
                &&& db.sources.contains_key(id)
                &&& db.sources[id].owner == owner
                &&& db.sources[id] == (SourceModel {
                    owner: db.sources[id].owner,
                    ..before.sources[id]
                })
                &&& kept_but(before.sources, db.sources, set![id])
                &&& handed(c.user, after.user, before.sources[id].owner, owner, 1)
                &&& after.user.user_info == c.user.user_info
                &&& told_truly(db, messages, Operation::Update)
                &&& tells(messages, RelationInfoModel::Source(db.sources[id]))
                &&& db == (DatabaseManagerModel { sources: db.sources, ..before })
            }
        }),
        ({
            let before = c.database;
            let r = subscription_handed_over(c, id, owner);
            &&& r is Ok <==> before.subscriptions.contains_key(id)
            &&& r is Ok && before.subscriptions[id].owner == owner ==> r->Ok_0.0 == c
                && r->Ok_0.1.len() == 0
            &&& r is Ok && before.subscriptions[id].owner != owner && transferable(
                c.user.catalog_create_ref_count,
                before.subscriptions[id].owner,
                owner,
                1,
            ) ==> {
                let (after, messages) = r->Ok_0;
                let db = after.database;
                &&& db.subscriptions.contains_key(id)
                &&& db.subscriptions[id].owner == owner
                &&& db.subscriptions[id] == (SubscriptionModel {
                    owner: db.subscriptions[id].owner,
                    ..before.subscriptions[id]
                })
                &&& kept_but(before.subscriptions, db.subscriptions, set![id])
                &&& handed(c.user, after.user, before.subscriptions[id].owner, owner, 1)
                &&& after.user.user_info == c.user.user_info
                &&& told_truly(db, messages, Operation::Update)
                &&& tells(messages, RelationInfoModel::Subscription(db.subscriptions[id]))
                &&& db == (DatabaseManagerModel { subscriptions: db.subscriptions, ..before })
            }
        }),
        ({
            let before = c.database;
            let r = schema_handed_over(c, id, owner);
            &&& r is Ok <==> before.schemas.contains_key(id)
            &&& r is Ok && before.schemas[id].owner == owner ==> r->Ok_0.0 == c && r->Ok_0.1.len() == 0
            &&& r is Ok && before.schemas[id].owner != owner && transferable(
                c.user.catalog_create_ref_count,
                before.schemas[id].owner,
                owner,
                1,
            ) ==> {
                let (after, messages) = r->Ok_0;
                let db = after.database;
                &&& db.schemas.contains_key(id)
                &&& db.schemas[id].owner == owner
                &&& db.schemas[id] == (SchemaModel {
                    owner: db.schemas[id].owner,
                    ..before.schemas[id]
                })
                &&& kept_but(before.schemas, db.schemas, set![id])
                &&& handed(c.user, after.user, before.schemas[id].owner, owner, 1)
                &&& after.user.user_info == c.user.user_info
                &&& told_about(messages, Operation::Update, InfoModel::Schema(db.schemas[id]))
                &&& db == (DatabaseManagerModel { schemas: db.schemas, ..before })
            }
        }),
{
    let counts = c.user.catalog_create_ref_count;
    let db = c.database;
    if db.views.contains_key(id) && db.views[id].owner != owner && transferable(
        counts,
        db.views[id].owner,
        owner,
        1,
    ) {
        lemma_handed(counts, db.views[id].owner, owner, 1);
        assert(told_of(view_handed_over(c, id, owner)->Ok_0.1)[0] is View);
    }
    if db.sources.contains_key(id) && db.sources[id].owner != owner && transferable(
        counts,
        db.sources[id].owner,
        owner,
        1,
    ) {
        lemma_handed(counts, db.sources[id].owner, owner, 1);
        assert(told_of(source_handed_over(c, id, owner)->Ok_0.1)[0] is Source);
    }
    if db.subscriptions.contains_key(id) && db.subscriptions[id].owner != owner && transferable(
        counts,
        db.subscriptions[id].owner,
        owner,
        1,
    ) {
        lemma_handed(counts, db.subscriptions[id].owner, owner, 1);
        assert(told_of(subscription_handed_over(c, id, owner)->Ok_0.1)[0] is Subscription);
    }
    if db.schemas.contains_key(id) && db.schemas[id].owner != owner && transferable(
        counts,
        db.schemas[id].owner,
        owner,
        1,
    ) {
        lemma_handed(counts, db.schemas[id].owner, owner, 1);
    }
}

/// A sink is handed over with its internal tables: all have the new owner and are otherwise as before,
/// each owner is counted for the sink, nothing else changes, and the frontends are told of what then
/// stands. Where the owner has it already, nothing happens; a sink that is not known or has no
/// fragments is refused.
pub proof fn law_handed_over_sink(
    c: CatalogManagerCoreModel,
    fragments: Map<u32, JobFragmentsModel>,
    id: u32,
    owner: u32,
)
    requires
        keyed_by_id(c.database),
        c.database.sinks.contains_key(id) && fragments.contains_key(id) ==> transferable(
            c.user.catalog_create_ref_count,
            c.database.sinks[id].owner,
            owner,
            1,
        ) && forall|i: int|
            0 <= i < fragments[id].internal_table_ids.len() ==> c.database.tables.contains_key(
                #[trigger] fragments[id].internal_table_ids[i],
            ),
    ensures
        ({
            let before = c.database;
            match sink_handed_over(c, fragments, id, owner) {
                Ok((after, messages)) => {
                    let db = after.database;
                    let inner = fragments[id].internal_table_ids;
                    &&& before.sinks.contains_key(id)
                    &&& before.sinks[id].owner == owner ==> after == c && messages.len() == 0
                    &&& before.sinks[id].owner != owner ==> {
                        &&& fragments.contains_key(id)
                        &&& db.sinks.contains_key(id)
                        &&& db.sinks[id].owner == owner
                        &&& db.sinks[id] == (SinkModel {
                            owner: db.sinks[id].owner,
                            ..before.sinks[id]
                        })
                        &&& kept_but(before.sinks, db.sinks, set![id])
                        &&& db.tables.dom() == before.tables.dom()
                        &&& forall|x: u32| #[trigger]
                            before.tables.contains_key(x) ==> {
                                &&& inner.contains(x) ==> db.tables[x].owner == owner && db.tables[x]
                                    == (TableModel { owner: db.tables[x].owner, ..before.tables[x] })
                                &&& !inner.contains(x) ==> db.tables[x] == before.tables[x]
                            }
                        &&& handed(c.user, after.user, before.sinks[id].owner, owner, 1)
                        &&& after.user.user_info == c.user.user_info
                        &&& told_truly(db, messages, Operation::Update)
                        &&& tells(messages, RelationInfoModel::Sink(db.sinks[id]))
                        &&& told_of(messages).len() == 1 + inner.len()
                        &&& db == (DatabaseManagerModel {
                            sinks: db.sinks,
                            tables: db.tables,
                            ..before
                        })
                    }
                },
                Err(_) => !before.sinks.contains_key(id) || (before.sinks[id].owner != owner
                    && !fragments.contains_key(id)),
            }
        }),
{
    let before = c.database;
    if before.sinks.contains_key(id) && before.sinks[id].owner != owner && fragments.contains_key(id) {
        let (after, messages) = sink_handed_over(c, fragments, id, owner)->Ok_0;
        let db = after.database;
        let inner = fragments[id].internal_table_ids;
        lemma_handed(c.user.catalog_create_ref_count, before.sinks[id].owner, owner, 1);
        assert(db.tables.dom() =~= before.tables.dom());
        let told = told_of(messages);
        assert(told[0] == RelationInfoModel::Sink(db.sinks[id]));
        assert forall|k: int| 0 <= k < told.len() implies stands(db, #[trigger] told[k]) by {
            if k > 0 {
                let x = inner[k - 1];
                assert(before.tables.contains_key(x));
                assert(inner.contains(x));
                assert(told[k] == RelationInfoModel::Table(db.tables[x]));
            }
        }
    }
}

/// A database is handed over: it has the new owner, who may connect to it from then on, granted by the
/// old one; each owner is counted for it, nothing else changes, and the frontends are told of both.
pub proof fn law_handed_over_database(c: CatalogManagerCoreModel, id: u32, owner: u32)
    requires
        c.database.databases.contains_key(id),
        c.database.databases[id].owner != owner,
        c.user.user_info.contains_key(owner),
        transferable(c.user.catalog_create_ref_count, c.database.databases[id].owner, owner, 1),
    ensures
        ({
            let before = c.database;
            let from = before.databases[id].owner;
            let r = database_handed_over(c, id, owner);
            let (after, messages) = r->Ok_0;
            let db = after.database;
            let user = after.user.user_info[owner];
            &&& r is Ok
            &&& db.databases.contains_key(id)
            &&& db.databases[id].owner == owner
            &&& db.databases[id] == (DatabaseModel {
                owner: db.databases[id].owner,
                ..before.databases[id]
            })
            &&& kept_but(before.databases, db.databases, set![id])
            &&& handed(c.user, after.user, from, owner, 1)
            &&& kept_but(c.user.user_info, after.user.user_info, set![owner])
            &&& after.user.user_info.contains_key(owner)
            &&& user == (UserInfoModel {
                grant_privileges: user.grant_privileges,
                ..c.user.user_info[owner]
            })
            &&& messages.len() == 2
            &&& messages[0].audience == Audience::Frontend
            &&& messages[0].operation == Operation::Update
            &&& messages[0].info == InfoModel::User(user)
            &&& messages[1].audience == Audience::Frontend
            &&& messages[1].operation == Operation::Update
            &&& messages[1].info == InfoModel::Database(db.databases[id])
            &&& db == (DatabaseManagerModel { databases: db.databases, ..before })
        }),
{
    lemma_handed(c.user.catalog_create_ref_count, c.database.databases[id].owner, owner, 1);
}

/// The privilege that goes with a database is to connect to it, without the right to grant it on, and
/// given by who had it before.
pub proof fn law_connect_privilege(database_id: u32, granted_by: u32)
    ensures
        ({
            let p = crate::catalog::owner::connect_privilege(database_id, granted_by);
            &&& p.object == Some(Object::DatabaseId(database_id))
            &&& p.action_with_opts.len() == 1
            &&& p.action_with_opts[0].action == Action::Connect
            &&& !p.action_with_opts[0].with_grant_option
            &&& p.action_with_opts[0].granted_by == granted_by
        }),
{
}

/// What is handed over is the object that is named.
pub proof fn law_owner_of_the_named_object(
    c: CatalogManagerCoreModel,
    fragments: Map<u32, JobFragmentsModel>,
    id: u32,
    owner: u32,
)
    ensures
        owner_altered(c, fragments, OwnedObject::TableId(id), owner) == table_handed_over(
            c,
            fragments,
            id,
            owner,
        ),
        owner_altered(c, fragments, OwnedObject::ViewId(id), owner) == view_handed_over(c, id, owner),
        owner_altered(c, fragments, OwnedObject::SourceId(id), owner) == source_handed_over(
            c,
            id,
            owner,
        ),
        owner_altered(c, fragments, OwnedObject::SinkId(id), owner) == sink_handed_over(
            c,
            fragments,
            id,
            owner,
        ),
        owner_altered(c, fragments, OwnedObject::DatabaseId(id), owner) == database_handed_over(
            c,
            id,
            owner,
        ),
        owner_altered(c, fragments, OwnedObject::SchemaId(id), owner) == schema_handed_over(
            c,
            id,
            owner,
        ),
        owner_altered(c, fragments, OwnedObject::SubscriptionId(id), owner)
            == subscription_handed_over(c, id, owner),
{
}

// ---------------------------------------------------------------------------
// Schemas.
// ---------------------------------------------------------------------------

/// The name stays, in the database of the new schema.
pub open spec fn key_in(db: DatabaseManagerModel, schema_id: u32, name: Seq<char>) -> RelationKeyModel {
    RelationKeyModel { database_id: db.schemas[schema_id].database_id, schema_id, name }
}

/// A table is moved with everything that goes with it, its indexes and its source: all of these are in
/// the new schema and otherwise as before, nothing else changes, and the frontends are told of what
/// then stands. Where it is there already, nothing happens; it is refused where the name is taken there.
pub proof fn law_moved_table(
    c: CatalogManagerCoreModel,
    fragments: Map<u32, JobFragmentsModel>,
    id: u32,
    schema_id: u32,
)
    requires
        c.database.indexes.dom().finite(),
        c.database.tables.dom().finite(),
        keyed_by_id(c.database),
        table_moving_presumes(c, fragments, id, schema_id),
        c.database.tables.contains_key(id),
    ensures
        ({
            let before = c.database;
            let table = before.tables[id];
            let source = table.optional_associated_source_id;
            match table_relocated(c, fragments, id, schema_id) {
                Ok((after, messages)) => {
                    let db = after.database;
                    &&& table.schema_id == schema_id ==> after == c && messages.len() == 0
                    &&& table.schema_id != schema_id ==> {
                        &&& name_is_free(before, key_in(before, schema_id, table.name))
                        &&& db.tables[id].schema_id == schema_id
                        &&& db.tables.dom() == before.tables.dom()
                        &&& forall|x: u32| #[trigger]
                            before.tables.contains_key(x) ==> {
                                &&& goes_with(c, fragments, id, x) ==> db.tables[x].schema_id
                                    == schema_id && db.tables[x] == (TableModel {
                                    schema_id: db.tables[x].schema_id,
                                    ..before.tables[x]
                                }) && tells(messages, RelationInfoModel::Table(db.tables[x]))
                                &&& !goes_with(c, fragments, id, x) ==> db.tables[x]
                                    == before.tables[x]
                            }
                        &&& db.indexes.dom() == before.indexes.dom()
                        &&& forall|x: u32| #[trigger]
                            before.indexes.contains_key(x) ==> {
                                let on = before.indexes[x].primary_table_id == id;
                                &&& on ==> db.indexes[x].schema_id == schema_id && db.indexes[x] == (
                                IndexModel {
                                    schema_id: db.indexes[x].schema_id,
                                    ..before.indexes[x]
                                }) && tells(messages, RelationInfoModel::Index(db.indexes[x]))
                                &&& !on ==> db.indexes[x] == before.indexes[x]
                            }
                        &&& source is Some ==> {
                            let s = source->0;
                            &&& db.sources.contains_key(s)
                            &&& db.sources[s].schema_id == schema_id
                            &&& db.sources[s] == (SourceModel {
                                schema_id: db.sources[s].schema_id,
                                ..before.sources[s]
                            })
                            &&& kept_but(before.sources, db.sources, set![s])
                            &&& tells(messages, RelationInfoModel::Source(db.sources[s]))
                        }
                        &&& source is None ==> db.sources == before.sources
                        &&& after.user == c.user
                        &&& told_truly(db, messages, Operation::Update)
                        &&& db == (DatabaseManagerModel {
                            tables: db.tables,
                            indexes: db.indexes,
                            sources: db.sources,
                            ..before
                        })
                    }
                },
                Err(e) => table.schema_id != schema_id && (e is FragmentNotFound || !name_is_free(
                    before,
                    key_in(before, schema_id, table.name),
                )),
            }
        }),
{
    let before = c.database;
    let table = before.tables[id];
    let family = table_family(before, id);
    let inner = all_internal_tables(fragments, family);
    let all = family + inner;
    let ii = indexes_of(before, id);
    let source = one_or_none(table.optional_associated_source_id);
    lemma_ids_where(before.indexes, index_on(id));
    law_taken_names_are_refused(before, key_in(before, schema_id, table.name));
    if table.schema_id != schema_id && before.name_clash(name_in(before, schema_id, table.name)) is None
        && first_without(fragments, family) is None {
        let (after, messages) = table_relocated(c, fragments, id, schema_id)->Ok_0;
        let db = after.database;
        let told = told_of(messages);
        assert(all[0] == id);
        assert(all.contains(id));
        assert(db.tables.dom() =~= before.tables.dom());
        assert(db.indexes.dom() =~= before.indexes.dom());
        assert(source.len() == 0 ==> db.sources =~= before.sources);
        let nf = all.len() as int;
        let ni = ii.len() as int;
        let ns = source.len() as int;
        assert(told.len() == nf + ni + ns);
        assert forall|x: u32| #[trigger] before.tables.contains_key(x) && all.contains(x) implies tells(
            messages,
            RelationInfoModel::Table(db.tables[x]),
        ) by {
            let k = choose|k: int| 0 <= k < all.len() && all[k] == x;
            assert(told[k] == RelationInfoModel::Table(db.tables[x]));
        }
        assert forall|x: u32| #[trigger] before.indexes.contains_key(x) implies {
            let on = before.indexes[x].primary_table_id == id;
            &&& on ==> db.indexes[x].schema_id == schema_id && db.indexes[x] == (IndexModel {
                schema_id: db.indexes[x].schema_id,
                ..before.indexes[x]
            }) && tells(messages, RelationInfoModel::Index(db.indexes[x]))
            &&& !on ==> db.indexes[x] == before.indexes[x]
        } by {
            assert(ii.contains(x) <==> index_on(id)(before.indexes[x]));
            if ii.contains(x) {
                let k = choose|k: int| 0 <= k < ii.len() && ii[k] == x;
                assert(told[nf + ns + k] == RelationInfoModel::Index(db.indexes[x]));
            }
        }
        if ns > 0 {
            assert(source[0] == table.optional_associated_source_id->0);
            assert(source.contains(source[0]));
            assert(before.sources.contains_key(source[0]));
            assert(told[nf] == RelationInfoModel::Source(db.sources[source[0]]));
        }
        assert forall|k: int| 0 <= k < told.len() implies stands(db, #[trigger] told[k]) by {
            if k < nf {
                assert(before.tables.contains_key(all[k]));
                assert(all.contains(all[k]));
                assert(told[k] == RelationInfoModel::Table(db.tables[all[k]]));
            } else if k < nf + ns {
                assert(told[k] == RelationInfoModel::Source(db.sources[source[0]]));
                assert(db.sources[source[0]].id == before.sources[source[0]].id);
            } else {
                let x = ii[k - nf - ns];
                assert(ii.contains(x));
                assert(told[k] == RelationInfoModel::Index(db.indexes[x]));
                assert(db.indexes[x].id == before.indexes[x].id);
            }
        }
    }
}

/// A sink is moved with its internal tables: all are in the new schema and otherwise as before, nothing
/// else changes, and the frontends are told of what then stands. Where it is there already, nothing
/// happens.
pub proof fn law_moved_sink(
    c: CatalogManagerCoreModel,
    fragments: Map<u32, JobFragmentsModel>,
    id: u32,
    schema_id: u32,
)
    requires
        keyed_by_id(c.database),
        c.database.tables.dom().finite(),
        c.database.sinks.contains_key(id) && fragments.contains_key(id) ==> forall|i: int|
            0 <= i < fragments[id].internal_table_ids.len() ==> c.database.tables.contains_key(
                #[trigger] fragments[id].internal_table_ids[i],
            ),
    ensures
        ({
            let before = c.database;
            match sink_relocated(c, fragments, id, schema_id) {
                Ok((after, messages)) => {
                    let db = after.database;
                    let inner = fragments[id].internal_table_ids;
                    &&& before.sinks.contains_key(id)
                    &&& before.sinks[id].schema_id == schema_id ==> after == c && messages.len() == 0
                    &&& before.sinks[id].schema_id != schema_id ==> {
                        &&& name_is_free(before, key_in(before, schema_id, before.sinks[id].name))
                        &&& db.sinks.contains_key(id)
                        &&& db.sinks[id].schema_id == schema_id
                        &&& db.sinks[id] == (SinkModel {
                            schema_id: db.sinks[id].schema_id,
                            ..before.sinks[id]
                        })
                        &&& kept_but(before.sinks, db.sinks, set![id])
                        &&& db.tables.dom() == before.tables.dom()
                        &&& forall|x: u32| #[trigger]
                            before.tables.contains_key(x) ==> {
                                &&& inner.contains(x) ==> db.tables[x].schema_id == schema_id
                                    && db.tables[x] == (TableModel {
                                    schema_id: db.tables[x].schema_id,
                                    ..before.tables[x]
                                })
                                &&& !inner.contains(x) ==> db.tables[x] == before.tables[x]
                            }
                        &&& after.user == c.user
                        &&& told_truly(db, messages, Operation::Update)
                        &&& tells(messages, RelationInfoModel::Sink(db.sinks[id]))
                        &&& told_of(messages).len() == 1 + inner.len()
                        &&& db == (DatabaseManagerModel {
                            sinks: db.sinks,
                            tables: db.tables,
                            ..before
                        })
                    }
                },
                Err(_) => !before.sinks.contains_key(id) || !fragments.contains_key(id)
                    || !name_is_free(before, key_in(before, schema_id, before.sinks[id].name)),
            }
        }),
{
    let before = c.database;
    law_taken_names_are_refused(before, key_in(before, schema_id, before.sinks[id].name));
    if sink_relocated(c, fragments, id, schema_id) is Ok && before.sinks[id].schema_id != schema_id {
        let (after, messages) = sink_relocated(c, fragments, id, schema_id)->Ok_0;
        let db = after.database;
        let inner = fragments[id].internal_table_ids;
        assert(db.tables.dom() =~= before.tables.dom());
        let told = told_of(messages);
        assert(told[0] == RelationInfoModel::Sink(db.sinks[id]));
        assert forall|k: int| 0 <= k < told.len() implies stands(db, #[trigger] told[k]) by {
            if k > 0 {
                let x = inner[k - 1];
                assert(before.tables.contains_key(x));
                assert(inner.contains(x));
                assert(told[k] == RelationInfoModel::Table(db.tables[x]));
            }
        }
    }
}

/// A view, a source or a subscription is moved: it is in the new schema and otherwise as before, nothing
/// else changes, and the frontends are told of it. Where it is there already, nothing happens; it is
/// refused where the name is taken there.
pub proof fn law_moved_relation(c: CatalogManagerCoreModel, id: u32, schema_id: u32)
    requires
        keyed_by_id(c.database),
        c.database.tables.dom().finite(),
    ensures
        ({
            let before = c.database;
            let x = before.views[id];
            match view_relocated(c, id, schema_id) {
                Ok((after, messages)) => {
                    let db = after.database;
                    &&& before.views.contains_key(id)
                    &&& x.schema_id == schema_id ==> after == c && messages.len() == 0
                    &&& x.schema_id != schema_id ==> {
                        &&& db.views.contains_key(id)
                        &&& db.views[id].schema_id == schema_id
                        &&& db.views[id] == (ViewInfoModel { schema_id: db.views[id].schema_id, ..x })
                        &&& kept_but(before.views, db.views, set![id])
                        &&& told_truly(db, messages, Operation::Update)
                        &&& tells(messages, RelationInfoModel::View(db.views[id]))
                        &&& db == (DatabaseManagerModel { views: db.views, ..before })
                        &&& after.user == c.user
                    }
                },
                Err(_) => !before.views.contains_key(id) || (x.schema_id != schema_id && !name_is_free(
                    before,
                    key_in(before, schema_id, x.name),
                )),
            }
        }),
        ({
            let before = c.database;
            let x = before.sources[id];
            match source_relocated(c, id, schema_id) {
                Ok((after, messages)) => {
                    let db = after.database;
                    &&& before.sources.contains_key(id)
                    &&& x.schema_id == schema_id ==> after == c && messages.len() == 0
                    &&& x.schema_id != schema_id ==> {
                        &&& db.sources.contains_key(id)
                        &&& db.sources[id].schema_id == schema_id
                        &&& db.sources[id] == (SourceModel {
                            schema_id: db.sources[id].schema_id,
                            ..x
                        })
                        &&& kept_but(before.sources, db.sources, set![id])
                        &&& told_truly(db, messages, Operation::Update)
                        &&& tells(messages, RelationInfoModel::Source(db.sources[id]))
                        &&& db == (DatabaseManagerModel { sources: db.sources, ..before })
                        &&& after.user == c.user
                    }
                },
                Err(_) => !before.sources.contains_key(id) || (x.schema_id != schema_id
                    && !name_is_free(before, key_in(before, schema_id, x.name))),
            }
        }),
        ({
            let before = c.database;
            let x = before.subscriptions[id];
            match subscription_relocated(c, id, schema_id) {
                Ok((after, messages)) => {
                    let db = after.database;
                    &&& before.subscriptions.contains_key(id)
                    &&& x.schema_id == schema_id ==> after == c && messages.len() == 0
                    &&& x.schema_id != schema_id ==> {
                        &&& db.subscriptions.contains_key(id)
                        &&& db.subscriptions[id].schema_id == schema_id
                        &&& db.subscriptions[id] == (SubscriptionModel {
                            schema_id: db.subscriptions[id].schema_id,
                            ..x
                        })
                        &&& kept_but(before.subscriptions, db.subscriptions, set![id])
                        &&& told_truly(db, messages, Operation::Update)
                        &&& tells(messages, RelationInfoModel::Subscription(db.subscriptions[id]))
                        &&& db == (DatabaseManagerModel {
                            subscriptions: db.subscriptions,
                            ..before
                        })
                        &&& after.user == c.user
                    }
                },
                Err(_) => !before.subscriptions.contains_key(id) || (x.schema_id != schema_id
                    && !name_is_free(before, key_in(before, schema_id, x.name))),
            }
        }),
{
    let db = c.database;
    law_taken_names_are_refused(db, key_in(db, schema_id, db.views[id].name));
    law_taken_names_are_refused(db, key_in(db, schema_id, db.sources[id].name));
    law_taken_names_are_refused(db, key_in(db, schema_id, db.subscriptions[id].name));
    if view_relocated(c, id, schema_id) is Ok && db.views[id].schema_id != schema_id {
        assert(told_of(view_relocated(c, id, schema_id)->Ok_0.1)[0] is View);
    }
    if source_relocated(c, id, schema_id) is Ok && db.sources[id].schema_id != schema_id {
        assert(told_of(source_relocated(c, id, schema_id)->Ok_0.1)[0] is Source);
    }
    if subscription_relocated(c, id, schema_id) is Ok && db.subscriptions[id].schema_id != schema_id {
        assert(told_of(subscription_relocated(c, id, schema_id)->Ok_0.1)[0] is Subscription);
    }
}

/// A connection or a function is moved: it is in the new schema and otherwise as before, nothing else
/// changes, and the frontends are told of it. It is refused where one of the same name, and for a
/// function of the same arguments, is there.
pub proof fn law_moved_connection_or_function(c: CatalogManagerCoreModel, id: u32, schema_id: u32)
    ensures
        ({
            let before = c.database;
            let x = before.connections[id];
            let free = forall|k: u32| #[trigger]
                before.connections.contains_key(k) ==> !(before.connections[k].schema_id == schema_id
                    && before.connections[k].database_id == before.schemas[schema_id].database_id
                    && before.connections[k].name == x.name);
            match connection_relocated(c, id, schema_id) {
                Ok((after, messages)) => {
                    let db = after.database;
                    &&& before.connections.contains_key(id)
                    &&& x.schema_id == schema_id ==> after == c && messages.len() == 0
                    &&& x.schema_id != schema_id ==> {
                        &&& free
                        &&& db.connections.contains_key(id)
                        &&& db.connections[id].schema_id == schema_id
                        &&& db.connections[id] == (ConnectionModel {
                            schema_id: db.connections[id].schema_id,
                            ..x
                        })
                        &&& kept_but(before.connections, db.connections, set![id])
                        &&& told_about(
                            messages,
                            Operation::Update,
                            InfoModel::Connection(db.connections[id]),
                        )
                        &&& db == (DatabaseManagerModel { connections: db.connections, ..before })
                        &&& after.user == c.user
                    }
                },
                Err(_) => !before.connections.contains_key(id) || (x.schema_id != schema_id && !free),
            }
        }),
        ({
            let before = c.database;
            let x = before.functions[id];
            let free = forall|k: u32| #[trigger]
                before.functions.contains_key(k) ==> !(before.functions[k].schema_id == schema_id
                    && before.functions[k].database_id == before.schemas[schema_id].database_id
                    && before.functions[k].name == x.name && before.functions[k].arg_types
                    == x.arg_types);
            match function_relocated(c, id, schema_id) {
                Ok((after, messages)) => {
                    let db = after.database;
                    &&& before.functions.contains_key(id)
                    &&& x.schema_id == schema_id ==> after == c && messages.len() == 0
                    &&& x.schema_id != schema_id ==> {
                        &&& free
                        &&& db.functions.contains_key(id)
                        &&& db.functions[id].schema_id == schema_id
                        &&& db.functions[id] == (FunctionModel {
                            schema_id: db.functions[id].schema_id,
                            ..x
                        })
                        &&& kept_but(before.functions, db.functions, set![id])
                        &&& told_about(
                            messages,
                            Operation::Update,
                            InfoModel::Function(db.functions[id]),
                        )
                        &&& db == (DatabaseManagerModel { functions: db.functions, ..before })
                        &&& after.user == c.user
                    }
                },
                Err(_) => !before.functions.contains_key(id) || (x.schema_id != schema_id && !free),
            }
        }),
{
}

/// What is moved is the object that is named, and only into a schema that is known.
pub proof fn law_schema_of_the_named_object(
    c: CatalogManagerCoreModel,
    fragments: Map<u32, JobFragmentsModel>,
    id: u32,
    schema_id: u32,
)
    ensures
        !c.database.schemas.contains_key(schema_id) ==> forall|object: MovableObject| #[trigger]
            schema_set(c, fragments, object, schema_id) is Err,
        c.database.schemas.contains_key(schema_id) ==> {
            &&& schema_set(c, fragments, MovableObject::TableId(id), schema_id) == table_relocated(
                c,
                fragments,
                id,
                schema_id,
            )
            &&& schema_set(c, fragments, MovableObject::ViewId(id), schema_id) == view_relocated(
                c,
                id,
                schema_id,
            )
            &&& schema_set(c, fragments, MovableObject::SourceId(id), schema_id) == source_relocated(
                c,
                id,
                schema_id,
            )
            &&& schema_set(c, fragments, MovableObject::SinkId(id), schema_id) == sink_relocated(
                c,
                fragments,
                id,
                schema_id,
            )
            &&& schema_set(c, fragments, MovableObject::ConnectionId(id), schema_id)
                == connection_relocated(c, id, schema_id)
            &&& schema_set(c, fragments, MovableObject::FunctionId(id), schema_id)
                == function_relocated(c, id, schema_id)
            &&& schema_set(c, fragments, MovableObject::SubscriptionId(id), schema_id)
                == subscription_relocated(c, id, schema_id)
        },
{
}

/// The job that is said to have no fragments is one of those asked about that has none; where each has
/// some, none is named.
pub proof fn law_jobs_without_fragments(fragments: Map<u32, JobFragmentsModel>, ids: Seq<u32>)
    ensures
        match first_without(fragments, ids) {
            Some(x) => ids.contains(x) && !fragments.contains_key(x),
            None => forall|i: int| 0 <= i < ids.len() ==> fragments.contains_key(#[trigger] ids[i]),
        },
    decreases ids.len(),
{
    if ids.len() > 0 {
        let d = ids.drop_first();
        law_jobs_without_fragments(fragments, d);
        assert(ids.contains(ids[0]));
        match first_without(fragments, d) {
            Some(x) => {
                let k = choose|k: int| 0 <= k < d.len() && d[k] == x;
                assert(ids[k + 1] == x);
            },
            None => {
                if fragments.contains_key(ids[0]) {
                    assert forall|i: int| 0 <= i < ids.len() implies fragments.contains_key(
                        #[trigger] ids[i],
                    ) by {
                        if i > 0 {
                            assert(d[i - 1] == ids[i]);
                        }
                    }
                }
            },
        }
    }
}

} // verus!
