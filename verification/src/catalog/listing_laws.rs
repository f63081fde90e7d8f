//! What the lists of the catalog hold: every object that is asked for, and no other.

use vstd::prelude::*;

use crate::catalog::effects::{lemma_image_where, lemma_values_all, lemma_values_where};
use crate::catalog::listing::{
    all_of, associated_connector, background_mview, being_created, creating_job, creating_with_key,
    dml_in, ids_of_tables, not_being_created, of_type, read_from, readonly_in, refers_to,
    retention_of, sink_at, sink_references, subscription_references, table_at, table_references,
    telemetry_of, type_word, versioned_schemas, with_key, ObjectDependency,
};
use crate::catalog::state::DatabaseManagerModel;
use crate::catalog::types::{
    CreateType, RelationKeyModel, SinkModel, StreamJobStatus, SubscriptionModel, TableModel, TableType,
};
use crate::util::id_map::{ids_where, lemma_ids_where, values_where};
use crate::util::ids::{lemma_listing_exists, listing};
use crate::util::lists::{gather, lemma_gather_contains};

verus! {

/// A list of all objects of a kind has every one of them, each once, in the order of their identifiers.
pub proof fn law_all_are_listed<V>(m: Map<u32, V>, v: V)
    requires
        m.dom().finite(),
    ensures
        all_of(m).contains(v) <==> exists|id: u32| #[trigger] m.contains_key(id) && m[id] == v,
        all_of(m).len() == m.dom().len(),
        forall|i: int, j: int|
            0 <= i < j < all_of(m).len() ==> #[trigger] listing(m.dom())[i] < #[trigger] listing(
                m.dom(),
            )[j],
        forall|i: int| 0 <= i < all_of(m).len() ==> #[trigger] all_of(m)[i] == m[listing(m.dom())[i]],
{
    lemma_values_all(m, v);
    lemma_listing_exists(m.dom());
}

/// The tables of a type, those that are being created, and of these the materialized views that are
/// created in the background; the tables that are read from a table outside.
pub proof fn law_lists_of_tables(m: Map<u32, TableModel>, table_type: TableType, key: Seq<char>, t: TableModel)
    requires
        m.dom().finite(),
    ensures
        ({
            let known = exists|id: u32| #[trigger] m.contains_key(id) && m[id] == t;
            let creating = t.stream_job_status == StreamJobStatus::Creating;
            &&& values_where(m, of_type(table_type)).contains(t) <==> known && t.table_type == table_type
            &&& values_where(m, being_created()).contains(t) <==> known && creating
            &&& values_where(m, background_mview()).contains(t) <==> known && creating && t.table_type
                == TableType::MaterializedView && t.create_type == CreateType::Background
            &&& values_where(m, read_from(key)).contains(t) <==> known && t.cdc_table_id == Some(key)
        }),
{
    lemma_values_where(m, of_type(table_type), t);
    lemma_values_where(m, being_created(), t);
    lemma_values_where(m, background_mview(), t);
    lemma_values_where(m, read_from(key), t);
}

/// The identifiers of the tables that are created; of those of a schema that can be written to, and of
/// those that cannot. Every table of a schema is in exactly one of the last two.
pub proof fn law_lists_of_table_ids(m: Map<u32, TableModel>, schema_id: u32, x: u32)
    requires
        m.dom().finite(),
    ensures
        ids_of_tables(values_where(m, not_being_created())).contains(x) <==> exists|id: u32| #[trigger]
            m.contains_key(id) && m[id].id == x && m[id].stream_job_status != StreamJobStatus::Creating,
        ids_of_tables(values_where(m, readonly_in(schema_id))).contains(x) <==> exists|id: u32|
         #[trigger]
            m.contains_key(id) && m[id].id == x && m[id].schema_id == schema_id && m[id].table_type
                != TableType::Table,
        ids_of_tables(values_where(m, dml_in(schema_id))).contains(x) <==> exists|id: u32| #[trigger]
            m.contains_key(id) && m[id].id == x && m[id].schema_id == schema_id && m[id].table_type
                == TableType::Table,
        forall|t: TableModel|
            #![trigger readonly_in(schema_id)(t)]
            t.schema_id == schema_id ==> readonly_in(schema_id)(t) != dml_in(schema_id)(t),
{
    let f = |t: TableModel| t.id;
    lemma_image_where(m, not_being_created(), f, x);
    lemma_image_where(m, readonly_in(schema_id), f, x);
    lemma_image_where(m, dml_in(schema_id), f, x);
}

/// Of the tables that are asked for those that are being created come as they are created, the others as
/// they stand; those that are not known are left out.
pub proof fn law_tables_asked_for(d: DatabaseManagerModel, ids: Seq<u32>, t: TableModel)
    ensures
        gather(ids, table_at(d)).contains(t) <==> exists|i: int|
            0 <= i < ids.len() && (if d.in_progress_creating_tables.contains_key(#[trigger] ids[i]) {
                d.in_progress_creating_tables[ids[i]] == t
            } else {
                d.tables.contains_key(ids[i]) && d.tables[ids[i]] == t
            }),
{
    let p = table_at(d);
    lemma_gather_contains(ids, p, t);
    assert forall|id: u32| #[trigger] p(id).contains(t) <==> (if d.in_progress_creating_tables.contains_key(
        id,
    ) {
        d.in_progress_creating_tables[id] == t
    } else {
        d.tables.contains_key(id) && d.tables[id] == t
    }) by {
        if p(id).len() > 0 {
            assert(p(id).contains(p(id)[0]));
        }
    }
    if gather(ids, p).contains(t) {
        let i = choose|i: int| 0 <= i < ids.len() && p(#[trigger] ids[i]).contains(t);
        assert(ids[i] == ids[i]);
    }
    if exists|i: int|
        0 <= i < ids.len() && (if d.in_progress_creating_tables.contains_key(#[trigger] ids[i]) {
            d.in_progress_creating_tables[ids[i]] == t
        } else {
            d.tables.contains_key(ids[i]) && d.tables[ids[i]] == t
        }) {
        let i = choose|i: int|
            0 <= i < ids.len() && (if d.in_progress_creating_tables.contains_key(#[trigger] ids[i]) {
                d.in_progress_creating_tables[ids[i]] == t
            } else {
                d.tables.contains_key(ids[i]) && d.tables[ids[i]] == t
            });
        assert(p(ids[i]).contains(t));
    }
}

/// Of the sinks that are asked for those that are known come as they stand.
pub proof fn law_sinks_asked_for(d: DatabaseManagerModel, ids: Seq<u32>, s: SinkModel)
    ensures
        gather(ids, sink_at(d)).contains(s) <==> exists|i: int|
            0 <= i < ids.len() && d.sinks.contains_key(#[trigger] ids[i]) && d.sinks[ids[i]] == s,
{
    let p = sink_at(d);
    lemma_gather_contains(ids, p, s);
    assert forall|id: u32| #[trigger] p(id).contains(s) <==> d.sinks.contains_key(id) && d.sinks[id] == s by {
        if p(id).len() > 0 {
            assert(p(id).contains(p(id)[0]));
        }
    }
    if gather(ids, p).contains(s) {
        let i = choose|i: int| 0 <= i < ids.len() && p(#[trigger] ids[i]).contains(s);
        assert(d.sinks.contains_key(ids[i]));
    }
    if exists|i: int| 0 <= i < ids.len() && d.sinks.contains_key(#[trigger] ids[i]) && d.sinks[ids[i]] == s {
        let i = choose|i: int|
            0 <= i < ids.len() && d.sinks.contains_key(#[trigger] ids[i]) && d.sinks[ids[i]] == s;
        assert(p(ids[i]).contains(s));
    }
}

proof fn lemma_refers(object_id: u32, ids: Seq<u32>, d: ObjectDependency)
    ensures
        refers_to(object_id, ids).contains(d) <==> d.object_id == object_id && ids.contains(
            d.referenced_object_id,
        ),
{
    let q = refers_to(object_id, ids);
    if q.contains(d) {
        let k = choose|k: int| 0 <= k < q.len() && q[k] == d;
        assert(ids[k] == d.referenced_object_id);
    }
    if d.object_id == object_id && ids.contains(d.referenced_object_id) {
        let k = choose|k: int| 0 <= k < ids.len() && ids[k] == d.referenced_object_id;
        assert(q[k] == d);
    }
}

/// A dependency is listed exactly where a table that is created and not internal depends on the object or
/// has it as a sink, a sink depends on it, or a subscription is to it.
pub proof fn law_dependencies_are_listed(d: DatabaseManagerModel, x: ObjectDependency)
    requires
        d.tables.dom().finite(),
        d.sinks.dom().finite(),
        d.subscriptions.dom().finite(),
    ensures
        gather(all_of(d.tables), table_references()).contains(x) <==> exists|id: u32| #[trigger]
            d.tables.contains_key(id) && d.tables[id].id == x.object_id && d.tables[id].table_type
                != TableType::Internal && d.tables[id].stream_job_status != StreamJobStatus::Creating && (
            d.tables[id].dependent_relations.contains(x.referenced_object_id)
                || d.tables[id].incoming_sinks.contains(x.referenced_object_id)),
        gather(all_of(d.sinks), sink_references()).contains(x) <==> exists|id: u32| #[trigger]
            d.sinks.contains_key(id) && d.sinks[id].id == x.object_id
                && d.sinks[id].dependent_relations.contains(x.referenced_object_id),
        gather(all_of(d.subscriptions), subscription_references()).contains(x) <==> exists|id: u32|
         #[trigger]
            d.subscriptions.contains_key(id) && d.subscriptions[id].id == x.object_id
                && d.subscriptions[id].dependent_table_id == x.referenced_object_id,
{
    let tp = table_references();
    let sp = sink_references();
    let up = subscription_references();
    lemma_gather_contains(all_of(d.tables), tp, x);
    lemma_gather_contains(all_of(d.sinks), sp, x);
    lemma_gather_contains(all_of(d.subscriptions), up, x);
    assert forall|t: TableModel| #[trigger] tp(t).contains(x) <==> t.id == x.object_id && t.table_type
        != TableType::Internal && t.stream_job_status != StreamJobStatus::Creating && (
    t.dependent_relations.contains(x.referenced_object_id) || t.incoming_sinks.contains(
        x.referenced_object_id,
    )) by {
        lemma_refers(t.id, t.dependent_relations, x);
        lemma_refers(t.id, t.incoming_sinks, x);
        let a = refers_to(t.id, t.dependent_relations);
        let b = refers_to(t.id, t.incoming_sinks);
        if a.contains(x) {
            let k = choose|k: int| 0 <= k < a.len() && a[k] == x;
            assert((a + b)[k] == x);
        }
        if b.contains(x) {
            let k = choose|k: int| 0 <= k < b.len() && b[k] == x;
            assert((a + b)[a.len() + k] == x);
        }
    }
    assert forall|s: SinkModel| #[trigger] sp(s).contains(x) <==> s.id == x.object_id
        && s.dependent_relations.contains(x.referenced_object_id) by {
        lemma_refers(s.id, s.dependent_relations, x);
    }
    assert forall|s: SubscriptionModel| #[trigger] up(s).contains(x) <==> s.id == x.object_id
        && s.dependent_table_id == x.referenced_object_id by {
        assert(up(s)[0] == (ObjectDependency {
            object_id: s.id,
            referenced_object_id: s.dependent_table_id,
        }));
    }
    lemma_listing_exists(d.tables.dom());
    lemma_listing_exists(d.sinks.dom());
    lemma_listing_exists(d.subscriptions.dom());
    let tl = listing(d.tables.dom());
    let sl = listing(d.sinks.dom());
    let ul = listing(d.subscriptions.dom());
    if gather(all_of(d.tables), tp).contains(x) {
        let i = choose|i: int|
            0 <= i < all_of(d.tables).len() && tp(#[trigger] all_of(d.tables)[i]).contains(x);
        assert(tl.contains(tl[i]));
        assert(d.tables.contains_key(tl[i]));
    }
    if gather(all_of(d.sinks), sp).contains(x) {
        let i = choose|i: int|
            0 <= i < all_of(d.sinks).len() && sp(#[trigger] all_of(d.sinks)[i]).contains(x);
        assert(sl.contains(sl[i]));
        assert(d.sinks.contains_key(sl[i]));
    }
    if gather(all_of(d.subscriptions), up).contains(x) {
        let i = choose|i: int|
            0 <= i < all_of(d.subscriptions).len() && up(
                #[trigger] all_of(d.subscriptions)[i],
            ).contains(x);
        assert(ul.contains(ul[i]));
        assert(d.subscriptions.contains_key(ul[i]));
    }
    assert forall|id: u32| #[trigger] d.tables.contains_key(id) && tp(d.tables[id]).contains(
        x,
    ) implies gather(all_of(d.tables), tp).contains(x) by {
        assert(tl.contains(id));
        let k = choose|k: int| 0 <= k < tl.len() && tl[k] == id;
        assert(tp(all_of(d.tables)[k]).contains(x));
    }
    assert forall|id: u32| #[trigger] d.sinks.contains_key(id) && sp(d.sinks[id]).contains(
        x,
    ) implies gather(all_of(d.sinks), sp).contains(x) by {
        assert(sl.contains(id));
        let k = choose|k: int| 0 <= k < sl.len() && sl[k] == id;
        assert(sp(all_of(d.sinks)[k]).contains(x));
    }
    assert forall|id: u32| #[trigger] d.subscriptions.contains_key(id) && up(
        d.subscriptions[id],
    ).contains(x) implies gather(all_of(d.subscriptions), up).contains(x) by {
        assert(ul.contains(id));
        let k = choose|k: int| 0 <= k < ul.len() && ul[k] == id;
        assert(up(all_of(d.subscriptions)[k]).contains(x));
    }
}

/// The subscription is this one, to this table.
pub open spec fn subscribes(s: SubscriptionModel, table: u32, id: u32) -> bool {
    s.dependent_table_id == table && s.id == id
}

/// The retention of a subscription stands under its table and its own identifier.
pub proof fn law_retention_of_a_subscription(q: Seq<SubscriptionModel>, i: int)
    requires
        0 <= i < q.len(),
        forall|j: int|
            i < j < q.len() ==> !subscribes(#[trigger] q[j], q[i].dependent_table_id, q[i].id),
    ensures
        ({
            let r = retention_of(q);
            &&& r.contains_key(q[i].dependent_table_id)
            &&& r[q[i].dependent_table_id].contains_key(q[i].id)
            &&& r[q[i].dependent_table_id][q[i].id] == q[i].retention_seconds
        }),
    decreases q.len(),
{
    if i < q.len() - 1 {
        let d = q.drop_last();
        assert forall|j: int| i < j < d.len() implies !subscribes(
            #[trigger] d[j],
            d[i].dependent_table_id,
            d[i].id,
        ) by {
            assert(d[j] == q[j]);
        }
        law_retention_of_a_subscription(d, i);
        assert(!subscribes(q[q.len() - 1], q[i].dependent_table_id, q[i].id));
    }
}

/// Where there is no such subscription, no retention stands.
pub proof fn law_no_retention_without_a_subscription(q: Seq<SubscriptionModel>, table: u32, id: u32)
    requires
        forall|i: int| 0 <= i < q.len() ==> !subscribes(#[trigger] q[i], table, id),
    ensures
        !(retention_of(q).contains_key(table) && retention_of(q)[table].contains_key(id)),
    decreases q.len(),
{
    if q.len() > 0 {
        let d = q.drop_last();
        assert forall|i: int| 0 <= i < d.len() implies !subscribes(#[trigger] d[i], table, id) by {
            assert(d[i] == q[i]);
        }
        law_no_retention_without_a_subscription(d, table, id);
        assert(!subscribes(q[q.len() - 1], table, id));
    }
}

/// Of the tables that are asked for those with a version come with the identifiers of their columns in
/// order; the others are left out.
pub proof fn law_schemas_of_versioned_tables(m: Map<u32, TableModel>, ids: Seq<u32>, x: u32)
    requires
        forall|id: u32| #[trigger] m.contains_key(id) ==> m[id].id == id,
    ensures
        ({
            let r = versioned_schemas(m, ids);
            &&& r.contains_key(x) <==> ids.contains(x) && m.contains_key(x) && m[x].version is Some
            &&& r.contains_key(x) ==> {
                &&& r[x].len() == m[x].columns.len()
                &&& forall|k: int|
                    0 <= k < m[x].columns.len() && m[x].columns[k].column_desc is Some
                        ==> #[trigger] r[x][k] == m[x].columns[k].column_desc->0.column_id
            }
        }),
    decreases ids.len(),
{
    if ids.len() > 0 {
        let d = ids.drop_last();
        law_schemas_of_versioned_tables(m, d, x);
        assert(ids.contains(x) <==> d.contains(x) || ids.last() == x) by {
            if d.contains(x) {
                let k = choose|k: int| 0 <= k < d.len() && d[k] == x;
                assert(ids[k] == x);
            }
            if ids.last() == x {
                assert(ids[ids.len() - 1] == x);
            }
            if ids.contains(x) {
                let k = choose|k: int| 0 <= k < ids.len() && ids[k] == x;
                if k < d.len() {
                    assert(d[k] == x);
                }
            }
        }
    }
}

/// A table or a materialized view is described with its identifier and, where its source is known and
/// says so, with the connector of the source; no other table is described.
pub proof fn law_telemetry_of_a_table(d: DatabaseManagerModel, t: TableModel)
    ensures
        ({
            let q = telemetry_of(d)(t);
            let counts = t.table_type == TableType::Table || t.table_type
                == TableType::MaterializedView;
            &&& q.len() == if counts {
                1nat
            } else {
                0nat
            }
            &&& counts ==> q[0].table_id == t.id && q[0].optimization.len() == 0
            &&& counts ==> (q[0].connector is Some <==> associated_connector(d, t) is Some)
            &&& t.optional_associated_source_id is None ==> associated_connector(d, t) is None
            &&& t.optional_associated_source_id is Some && !d.sources.contains_key(
                t.optional_associated_source_id->0,
            ) ==> associated_connector(d, t) is None
        }),
{
}

/// The value of a property is that of the last one with the key; there is none exactly where no property
/// has it.
pub proof fn law_value_of_a_property(
    q: Seq<crate::catalog::types::PropertyModel>,
    key: Seq<char>,
)
    ensures
        match crate::catalog::init::value_of(q, key) {
            Some(v) => exists|i: int|
                0 <= i < q.len() && (#[trigger] q[i]).key == key && q[i].value == v && forall|j: int|
                    i < j < q.len() ==> (#[trigger] q[j]).key != key,
            None => forall|i: int| 0 <= i < q.len() ==> (#[trigger] q[i]).key != key,
        },
    decreases q.len(),
{
    if q.len() > 0 {
        let d = q.drop_last();
        law_value_of_a_property(d, key);
        if q.last().key == key {
            assert(q[q.len() - 1].key == key && q[q.len() - 1].value == q.last().value);
        } else {
            match crate::catalog::init::value_of(d, key) {
                Some(v) => {
                    let i = choose|i: int|
                        0 <= i < d.len() && (#[trigger] d[i]).key == key && d[i].value == v && forall|j: int|
                            i < j < d.len() ==> (#[trigger] d[j]).key != key;
                    assert(q[i] == d[i]);
                    assert forall|j: int| i < j < q.len() implies (#[trigger] q[j]).key != key by {
                        if j < d.len() {
                            assert(d[j] == q[j]);
                        }
                    }
                },
                None => {
                    assert forall|i: int| 0 <= i < q.len() implies (#[trigger] q[i]).key != key by {
                        if i < d.len() {
                            assert(d[i] == q[i]);
                        }
                    }
                },
            }
        }
    }
}

/// The job that creates a name: the one that is running under it, or else the materialized view of that
/// name that stands as being created; none where there is neither.
pub proof fn law_job_that_creates_a_name(d: DatabaseManagerModel, key: RelationKeyModel)
    requires
        d.tables.dom().finite(),
        d.in_progress_creating_streaming_job.dom().finite(),
    ensures
        ({
            let r = creating_job(d)(key);
            let running = exists|id: u32| #[trigger]
                d.in_progress_creating_streaming_job.contains_key(id)
                    && d.in_progress_creating_streaming_job[id] == key;
            let matches_key = |t: TableModel|
                t.stream_job_status == StreamJobStatus::Creating && t.table_type
                    == TableType::MaterializedView && t.database_id == key.database_id && t.schema_id
                    == key.schema_id && t.name == key.name;
            let stored = exists|id: u32| #[trigger]
                d.tables.contains_key(id) && matches_key(d.tables[id]);
            &&& r.len() == if running || stored {
                1nat
            } else {
                0nat
            }
            &&& running ==> d.in_progress_creating_streaming_job.contains_key(r[0])
                && d.in_progress_creating_streaming_job[r[0]] == key
            &&& !running && stored ==> d.tables.contains_key(r[0]) && matches_key(d.tables[r[0]])
        }),
{
    let m = d.in_progress_creating_streaming_job;
    lemma_ids_where(m, with_key(key));
    lemma_ids_where(d.tables, creating_with_key(key));
    let a = ids_where(m, with_key(key));
    let b = ids_where(d.tables, creating_with_key(key));
    if a.len() > 0 {
        assert(a.contains(a[0]));
        assert(m.contains_key(a[0]));
    }
    if b.len() > 0 {
        assert(b.contains(b[0]));
        assert(d.tables.contains_key(b[0]));
    }
    assert forall|id: u32| #[trigger] m.contains_key(id) && m[id] == key implies a.len() > 0 by {
        assert(a.contains(id));
    }
    assert forall|id: u32| #[trigger]
        d.tables.contains_key(id) && creating_with_key(key)(d.tables[id]) implies b.len() > 0 by {
        assert(b.contains(id));
    }
}

/// No two types of a table have the same word.
pub proof fn law_types_have_words_of_their_own(a: TableType, b: TableType)
    ensures
        type_word(a) == type_word(b) ==> a == b,
{
    reveal_strlit("UNSPECIFIED");
    reveal_strlit("TABLE");
    reveal_strlit("MATERIALIZED_VIEW");
    reveal_strlit("INDEX");
    reveal_strlit("INTERNAL");
    assert(type_word(a).len() == type_word(b).len() || type_word(a) != type_word(b));
    assert("TABLE"@[0] != "INDEX"@[0]);
    assert("INTERNAL"@.len() == 8);
}

} // verus!
