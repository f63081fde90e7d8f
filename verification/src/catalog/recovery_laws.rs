//! What a recovery takes out of the catalog and what it leaves, and what is noted when a catalog is
//! loaded.

use vstd::prelude::*;

use crate::catalog::definition::{cdc_table_id, external_table_name};
use crate::catalog::drop::JobFragmentsModel;
use crate::catalog::init::{
    chosen_for, external_tables_noted, legacy_sink, legacy_source, legacy_table, options_chosen,
    properties_at, targets_noted,
};
use crate::catalog::jobs::{unfinished, without_unfinished};
use crate::catalog::notify::{Audience, Operation, RelationInfoModel};
use crate::catalog::recovery::{
    clean_messages, cleaned, clear_record, dirty_internal_table, dirty_job, dirty_jobs,
    dirty_tables, lost_sink, reserved_tables, surviving_job,
};
use crate::catalog::creating::subscription_key;
use crate::catalog::relations::{
    subscription_dependencies, subscription_owners, table_dependencies, table_owners,
};
use crate::catalog::state::{CatalogManagerCoreModel, DatabaseManagerModel};
use crate::catalog::types::{
    CreateType, PropertyModel, SinkModel, SourceModel, StreamJobStatus, SubscriptionState, TableModel,
    TableType,
};
use crate::util::counts::{count_of, covers};
use crate::util::id_map::{ids_where, lemma_ids_where, values_at, values_where};
use crate::util::ids::occurrences;
use crate::util::lists::{image, lemma_gather_contains};

verus! {

// ---------------------------------------------------------------------------
// Recovery.
// ---------------------------------------------------------------------------

/// The table is one that a recovery takes out: it is still being created, and it is a job that runs in
/// the foreground or has not got past its start, or an internal table of no job that goes on.
pub open spec fn is_taken_out(
    db: DatabaseManagerModel,
    fragments: Map<u32, JobFragmentsModel>,
    t: TableModel,
) -> bool {
    let goes_on = |j: TableModel|
        j.stream_job_status == StreamJobStatus::Creating && j.table_type != TableType::Internal
            && j.create_type != CreateType::Foreground && fragments.contains_key(j.id)
            && !fragments[j.id].is_initial;
    &&& t.stream_job_status == StreamJobStatus::Creating
    &&& if t.table_type != TableType::Internal {
        !goes_on(t)
    } else {
        !exists|x: u32| #[trigger]
            db.tables.contains_key(x) && goes_on(db.tables[x])
                && fragments[db.tables[x].id].internal_table_ids.contains(t.id)
    }
}

/// The internal tables that a recovery keeps.
proof fn lemma_reserved(db: DatabaseManagerModel, fragments: Map<u32, JobFragmentsModel>, x: u32)
    requires
        db.tables.dom().finite(),
    ensures
        reserved_tables(db, fragments).contains(x) <==> exists|j: u32| #[trigger]
            db.tables.contains_key(j) && surviving_job(fragments)(db.tables[j])
                && fragments[db.tables[j].id].internal_table_ids.contains(x),
{
    let p = surviving_job(fragments);
    let f = |t: TableModel| fragments[t.id].internal_table_ids;
    let q = values_where(db.tables, p);
    let ids = ids_where(db.tables, p);
    lemma_ids_where(db.tables, p);
    lemma_gather_contains(q, f, x);
    if reserved_tables(db, fragments).contains(x) {
        let k = choose|k: int| 0 <= k < q.len() && f(#[trigger] q[k]).contains(x);
        assert(ids.contains(ids[k]));
        assert(db.tables.contains_key(ids[k]));
    }
    if exists|j: u32| #[trigger]
        db.tables.contains_key(j) && surviving_job(fragments)(db.tables[j])
            && fragments[db.tables[j].id].internal_table_ids.contains(x) {
        let j = choose|j: u32| #[trigger]
            db.tables.contains_key(j) && surviving_job(fragments)(db.tables[j])
                && fragments[db.tables[j].id].internal_table_ids.contains(x);
        assert(ids.contains(j));
        let k = choose|k: int| 0 <= k < ids.len() && ids[k] == j;
        assert(f(q[k]).contains(x));
    }
}

proof fn lemma_dirty(db: DatabaseManagerModel, fragments: Map<u32, JobFragmentsModel>, x: u32)
    requires
        db.tables.dom().finite(),
    ensures
        dirty_tables(db, fragments).contains(x) <==> db.tables.contains_key(x) && is_taken_out(
            db,
            fragments,
            db.tables[x],
        ),
{
    let a = dirty_jobs(db, fragments);
    let reserved = reserved_tables(db, fragments);
    let b = ids_where(db.tables, dirty_internal_table(reserved));
    lemma_ids_where(db.tables, dirty_job(fragments));
    lemma_ids_where(db.tables, dirty_internal_table(reserved));
    assert((a + b).contains(x) <==> a.contains(x) || b.contains(x)) by {
        if a.contains(x) {
            let k = choose|k: int| 0 <= k < a.len() && a[k] == x;
            assert((a + b)[k] == x);
        }
        if b.contains(x) {
            let k = choose|k: int| 0 <= k < b.len() && b[k] == x;
            assert((a + b)[a.len() + k] == x);
        }
    }
    lemma_reserved(db, fragments, db.tables[x].id);
    let goes_on = |j: TableModel|
        j.stream_job_status == StreamJobStatus::Creating && j.table_type != TableType::Internal
            && j.create_type != CreateType::Foreground && fragments.contains_key(j.id)
            && !fragments[j.id].is_initial;
    assert forall|j: TableModel| #[trigger] goes_on(j) == surviving_job(fragments)(j) by {}
    if db.tables.contains_key(x) {
        let t = db.tables[x];
        if reserved.contains(t.id) {
            let j = choose|j: u32| #[trigger]
                db.tables.contains_key(j) && surviving_job(fragments)(db.tables[j])
                    && fragments[db.tables[j].id].internal_table_ids.contains(t.id);
            assert(goes_on(db.tables[j]));
        }
        if exists|j: u32| #[trigger]
            db.tables.contains_key(j) && goes_on(db.tables[j])
                && fragments[db.tables[j].id].internal_table_ids.contains(t.id) {
            let j = choose|j: u32| #[trigger]
                db.tables.contains_key(j) && goes_on(db.tables[j])
                    && fragments[db.tables[j].id].internal_table_ids.contains(t.id);
            assert(surviving_job(fragments)(db.tables[j]));
        }
    }
}

/// A recovery takes out exactly the tables that cannot go on being created. Of the others those with a
/// sink that is gone lose that sink, and nothing else of them changes; whatever stood otherwise stands.
pub proof fn law_recovery_takes_out_what_cannot_go_on(
    c: CatalogManagerCoreModel,
    fragments: Map<u32, JobFragmentsModel>,
    x: u32,
    s: u32,
)
    requires
        c.database.tables.dom().finite(),
    ensures
        ({
            let before = c.database;
            let after = cleaned(c, fragments);
            let db = after.database;
            &&& db.tables.contains_key(x) <==> before.tables.contains_key(x) && !is_taken_out(
                before,
                fragments,
                before.tables[x],
            )
            &&& db.tables.contains_key(x) ==> {
                &&& db.tables[x].incoming_sinks.contains(s) <==> before.tables[x].incoming_sinks.contains(
                    s,
                ) && before.sinks.contains_key(s)
                &&& db.tables[x] == (TableModel {
                    incoming_sinks: db.tables[x].incoming_sinks,
                    ..before.tables[x]
                })
                &&& (forall|i: int|
                    0 <= i < before.tables[x].incoming_sinks.len() ==> before.sinks.contains_key(
                        #[trigger] before.tables[x].incoming_sinks[i],
                    )) ==> db.tables[x] == before.tables[x]
            }
            &&& db == (DatabaseManagerModel {
                tables: db.tables,
                relation_ref_count: db.relation_ref_count,
                ..before
            })
            &&& after.user.user_info == c.user.user_info
            &&& after.user.user_grant_relation == c.user.user_grant_relation
        }),
{
    broadcast use vstd::seq_lib::group_filter_ensures;

    let before = c.database;
    let db = cleaned(c, fragments).database;
    lemma_dirty(before, fragments, x);
    lemma_ids_where(before.tables, lost_sink(before.sinks.dom()));
    let losers = ids_where(before.tables, lost_sink(before.sinks.dom()));
    if db.tables.contains_key(x) {
        let q = before.tables[x].incoming_sinks;
        let p = |s: u32| before.sinks.dom().contains(s);
        assert(losers.contains(x) <==> lost_sink(before.sinks.dom())(before.tables[x]));
        if losers.contains(x) {
            assert(db.tables[x].incoming_sinks == q.filter(p));
            if q.filter(p).contains(s) {
                let k = choose|k: int| 0 <= k < q.filter(p).len() && q.filter(p)[k] == s;
                assert(p(q.filter(p)[k]));
                q.lemma_filter_contains_rev(p, s);
            }
            if q.contains(s) && before.sinks.contains_key(s) {
                let k = choose|k: int| 0 <= k < q.len() && q[k] == s;
                assert(p(q[k]));
                assert(q.filter(p).contains(q[k]));
            }
        } else {
            assert(q.all(|s: u32| before.sinks.dom().contains(s)));
            if q.contains(s) {
                let k = choose|k: int| 0 <= k < q.len() && q[k] == s;
                assert((|s: u32| before.sinks.dom().contains(s))(q[k]));
            }
        }
        if forall|i: int|
            0 <= i < q.len() ==> before.sinks.contains_key(#[trigger] q[i]) {
            assert(q.all(|s: u32| before.sinks.dom().contains(s)));
        }
    }
}

/// What a recovery stops counting are the relations that the jobs that it takes out depend on, and the
/// owners of these jobs; the internal tables have no owner of their own.
pub proof fn law_recovery_counts(
    c: CatalogManagerCoreModel,
    fragments: Map<u32, JobFragmentsModel>,
    x: u32,
)
    requires
        c.database.tables.dom().finite(),
        covers(
            c.database.relation_ref_count,
            table_dependencies(values_at(c.database.tables, dirty_jobs(c.database, fragments))),
        ),
        covers(
            c.user.catalog_create_ref_count,
            table_owners(values_at(c.database.tables, dirty_jobs(c.database, fragments))),
        ),
    ensures
        ({
            let before = c.database;
            let after = cleaned(c, fragments);
            let jobs = dirty_jobs(before, fragments);
            let relations = table_dependencies(values_at(before.tables, jobs));
            let owners = table_owners(values_at(before.tables, jobs));
            &&& count_of(after.database.relation_ref_count, x) + occurrences(relations, x) == count_of(
                before.relation_ref_count,
                x,
            )
            &&& count_of(after.user.catalog_create_ref_count, x) + occurrences(owners, x) == count_of(
                c.user.catalog_create_ref_count,
                x,
            )
            &&& relations.contains(x) <==> exists|i: int|
                0 <= i < jobs.len() && before.tables[#[trigger] jobs[i]].dependent_relations.contains(x)
            &&& owners.len() == jobs.len()
            &&& forall|i: int| 0 <= i < jobs.len() ==> #[trigger] owners[i] == before.tables[jobs[i]].owner
            &&& jobs.contains(x) <==> before.tables.contains_key(x) && before.tables[x].table_type
                != TableType::Internal && is_taken_out(before, fragments, before.tables[x])
        }),
{
    let before = c.database;
    let jobs = dirty_jobs(before, fragments);
    let q = values_at(before.tables, jobs);
    let f = |t: TableModel| t.dependent_relations;
    assert(occurrences(table_dependencies(q), x) <= count_of(before.relation_ref_count, x));
    assert(occurrences(table_owners(q), x) <= count_of(c.user.catalog_create_ref_count, x));
    lemma_gather_contains(q, f, x);
    if table_dependencies(q).contains(x) {
        let i = choose|i: int| 0 <= i < q.len() && f(#[trigger] q[i]).contains(x);
        assert(before.tables[jobs[i]].dependent_relations.contains(x));
    }
    if exists|i: int|
        0 <= i < jobs.len() && before.tables[#[trigger] jobs[i]].dependent_relations.contains(x) {
        let i = choose|i: int|
            0 <= i < jobs.len() && before.tables[#[trigger] jobs[i]].dependent_relations.contains(x);
        assert(f(q[i]).contains(x));
    }
    lemma_ids_where(before.tables, dirty_job(fragments));
}

/// The frontends are told of the tables that a recovery takes out, each as it stood, and before that of
/// those that lose a sink, each as it then stands; of no others.
pub proof fn law_recovery_is_told(
    c: CatalogManagerCoreModel,
    fragments: Map<u32, JobFragmentsModel>,
)
    requires
        c.database.tables.dom().finite(),
    ensures
        ({
            let db = c.database;
            let messages = clean_messages(c, fragments);
            let gone = dirty_tables(db, fragments);
            let losers = ids_where(db.tables, lost_sink(db.sinks.dom()));
            let last = messages.last();
            &&& messages.len() == if losers.len() > 0 {
                2nat
            } else {
                1nat
            }
            &&& last.audience == Audience::Frontend
            &&& last.operation == Operation::Delete
            &&& last.info is RelationGroup
            &&& last.info->RelationGroup_0.len() == gone.len()
            &&& forall|i: int|
                0 <= i < gone.len() ==> #[trigger] last.info->RelationGroup_0[i]
                    == RelationInfoModel::Table(db.tables[gone[i]])
            &&& losers.len() > 0 ==> {
                let first = messages[0];
                &&& first.audience == Audience::Frontend
                &&& first.operation == Operation::Update
                &&& first.info is RelationGroup
                &&& first.info->RelationGroup_0.len() == losers.len()
                &&& forall|i: int|
                    0 <= i < losers.len() ==> {
                        let told = #[trigger] first.info->RelationGroup_0[i];
                        &&& told is Table
                        &&& told->Table_0 == (TableModel {
                            incoming_sinks: told->Table_0.incoming_sinks,
                            ..db.tables[losers[i]]
                        })
                        &&& told->Table_0.incoming_sinks
                            == db.tables[losers[i]].incoming_sinks.filter(
                            |s: u32| db.sinks.dom().contains(s),
                        )
                    }
            }
        }),
{
}

/// What is written down of a job that a recovery takes out: its identifier, its name and its definition.
pub proof fn law_record_of_a_job_taken_out(t: TableModel)
    ensures
        clear_record()(t).id == t.id,
        clear_record()(t).name == t.name,
        clear_record()(t).definition == t.definition,
        clear_record()(t).error == "clear during recovery"@,
{
}

/// The subscriptions whose creation was not finished are taken out with their marks; what they depend on
/// and their owners are counted once less for each. Every other subscription stays as it was.
pub proof fn law_unfinished_subscriptions_are_taken_out(c: CatalogManagerCoreModel, x: u32)
    requires
        c.database.subscriptions.dom().finite(),
        covers(
            c.database.relation_ref_count,
            subscription_dependencies(values_where(c.database.subscriptions, unfinished())),
        ),
        covers(
            c.user.catalog_create_ref_count,
            subscription_owners(values_where(c.database.subscriptions, unfinished())),
        ),
    ensures
        ({
            let before = c.database;
            let after = without_unfinished(c);
            let db = after.database;
            let list = values_where(before.subscriptions, unfinished());
            let init = before.subscriptions.contains_key(x)
                && before.subscriptions[x].subscription_state == SubscriptionState::Init;
            &&& db.subscriptions.contains_key(x) <==> before.subscriptions.contains_key(x) && !init
            &&& db.subscriptions.contains_key(x) ==> db.subscriptions[x] == before.subscriptions[x]
            &&& db.in_progress_creating_streaming_job.contains_key(x)
                <==> before.in_progress_creating_streaming_job.contains_key(x) && !init
            &&& init ==> !db.in_progress(subscription_key(before.subscriptions[x]))
            &&& forall|k| #[trigger] db.in_progress(k) ==> before.in_progress(k)
            &&& forall|k|
                #[trigger] before.in_progress(k) && !db.in_progress(k) ==> exists|i: int|
                    0 <= i < list.len() && k == subscription_key(#[trigger] list[i])
            &&& count_of(db.relation_ref_count, x) + occurrences(subscription_dependencies(list), x)
                == count_of(before.relation_ref_count, x)
            &&& count_of(after.user.catalog_create_ref_count, x) + occurrences(
                subscription_owners(list),
                x,
            ) == count_of(c.user.catalog_create_ref_count, x)
            &&& forall|i: int|
                0 <= i < list.len() ==> #[trigger] subscription_dependencies(list)[i]
                    == list[i].dependent_table_id && subscription_owners(list)[i] == list[i].owner
            &&& db == (DatabaseManagerModel {
                subscriptions: db.subscriptions,
                in_progress_creation_tracker: db.in_progress_creation_tracker,
                in_progress_creating_streaming_job: db.in_progress_creating_streaming_job,
                relation_ref_count: db.relation_ref_count,
                ..before
            })
            &&& after.user.user_info == c.user.user_info
        }),
{
    let before = c.database;
    let db = without_unfinished(c).database;
    let ids = ids_where(before.subscriptions, unfinished());
    let list = values_where(before.subscriptions, unfinished());
    lemma_ids_where(before.subscriptions, unfinished());
    assert(ids.contains(x) <==> before.subscriptions.contains_key(x) && unfinished()(
        before.subscriptions[x],
    ));
    assert(occurrences(subscription_dependencies(list), x) <= count_of(before.relation_ref_count, x));
    assert(occurrences(subscription_owners(list), x) <= count_of(c.user.catalog_create_ref_count, x));
    let f = |s: crate::catalog::types::SubscriptionModel| subscription_key(s);
    let keys = image(list, f);
    if ids.contains(x) {
        let k = choose|k: int| 0 <= k < ids.len() && ids[k] == x;
        assert(keys[k] == subscription_key(before.subscriptions[x]));
        assert(keys.to_set().contains(keys[k]));
    }
    assert forall|k| #[trigger] before.in_progress(k) && !db.in_progress(k) implies exists|i: int|
        0 <= i < list.len() && k == subscription_key(#[trigger] list[i]) by {
        assert(keys.to_set().contains(k));
        let i = choose|i: int| 0 <= i < keys.len() && keys[i] == k;
        assert(k == subscription_key(list[i]));
    }
}

// ---------------------------------------------------------------------------
// Loading.
// ---------------------------------------------------------------------------

/// A property is kept exactly where it is chosen, in the order of the properties.
pub proof fn law_chosen_properties_are_kept(q: Seq<PropertyModel>, chosen: Seq<bool>, p: PropertyModel)
    requires
        chosen.len() >= q.len(),
    ensures
        properties_at(q, chosen).contains(p) <==> exists|i: int|
            0 <= i < q.len() && #[trigger] q[i] == p && chosen[i],
        properties_at(q, chosen).len() <= q.len(),
        (forall|i: int| 0 <= i < q.len() ==> #[trigger] chosen[i]) ==> properties_at(q, chosen) == q,
    decreases q.len(),
{
    if q.len() > 0 {
        let d = q.drop_last();
        let n = q.len() - 1;
        law_chosen_properties_are_kept(d, chosen, p);
        let before = properties_at(d, chosen);
        assert forall|i: int| 0 <= i < d.len() implies #[trigger] d[i] == q[i] by {}
        assert(q[n] == q.last());
        if before.contains(p) {
            let i = choose|i: int| 0 <= i < d.len() && #[trigger] d[i] == p && chosen[i];
            assert(q[i] == p);
            let k = choose|k: int| 0 <= k < before.len() && before[k] == p;
            assert(before.push(q.last())[k] == p);
        }
        if chosen[n] && q.last() == p {
            assert(before.push(q.last())[before.len() as int] == p);
        }
        if properties_at(q, chosen).contains(p) && chosen[n] {
            let k = choose|k: int|
                0 <= k < properties_at(q, chosen).len() && properties_at(q, chosen)[k] == p;
            if k < before.len() {
                assert(before[k] == p);
            }
        }
        if exists|i: int| 0 <= i < q.len() && #[trigger] q[i] == p && chosen[i] {
            let i = choose|i: int| 0 <= i < q.len() && #[trigger] q[i] == p && chosen[i];
            if i < d.len() {
                assert(d[i] == p);
            }
        }
        if forall|i: int| 0 <= i < q.len() ==> #[trigger] chosen[i] {
            assert(before == d);
            assert(d.push(q.last()) =~= q);
        }
    }
}

/// When a catalog is loaded, a source without format options gets those of its properties that are chosen
/// for it, and nothing else of it changes; every other source stays as it was.
pub proof fn law_format_options_are_noted(c: CatalogManagerCoreModel, chosen: Seq<Vec<bool>>, i: int, x: u32)
    requires
        c.database.sources.dom().finite(),
        chosen_for(c, chosen),
    ensures
        ({
            let before = c.database.sources;
            let after = options_chosen(c, chosen);
            let m = after.database.sources;
            let ids = ids_where(before, legacy_source());
            let legacy = |s: SourceModel| s.info is Some && s.info->0.format_encode_options.len() == 0;
            &&& m.dom() == before.dom()
            &&& before.contains_key(x) && !legacy(before[x]) ==> m[x] == before[x]
            &&& ids.contains(x) <==> before.contains_key(x) && legacy(before[x])
            &&& 0 <= i < ids.len() ==> {
                let s = m[ids[i]];
                &&& s.info is Some
                &&& s.info->0.format_encode_options == properties_at(
                    before[ids[i]].with_properties,
                    chosen[i]@,
                )
                &&& s.info->0.is_shared == before[ids[i]].info->0.is_shared
                &&& s == (SourceModel { info: s.info, ..before[ids[i]] })
            }
            &&& after.database == (DatabaseManagerModel { sources: m, ..c.database })
            &&& after.user == c.user
        }),
{
    let before = c.database.sources;
    let m = options_chosen(c, chosen).database.sources;
    let ids = ids_where(before, legacy_source());
    lemma_ids_where(before, legacy_source());
    assert(m.dom() =~= before.dom());
    assert(ids.contains(x) <==> before.contains_key(x) && legacy_source()(before[x]));
    if 0 <= i < ids.len() {
        assert(ids.contains(ids[i]));
        assert(ids.index_of(ids[i]) == i);
    }
}

/// When a catalog is loaded, a sink into a table that has not noted the columns of the table gets them,
/// and nothing else of it changes; every other sink stays as it was.
pub proof fn law_target_columns_are_noted(c: CatalogManagerCoreModel, x: u32)
    requires
        c.database.sinks.dom().finite(),
        c.database.sinks.contains_key(x),
    ensures
        ({
            let before = c.database.sinks[x];
            let after = targets_noted(c);
            let sink = after.database.sinks[x];
            let missing = before.target_table is Some && before.original_target_columns.len() == 0;
            &&& after.database.sinks.dom() == c.database.sinks.dom()
            &&& missing ==> sink.original_target_columns
                == c.database.tables[before.target_table->0].columns && sink == (SinkModel {
                original_target_columns: sink.original_target_columns,
                ..before
            })
            &&& !missing ==> sink == before
            &&& after.database == (DatabaseManagerModel {
                sinks: after.database.sinks,
                ..c.database
            })
            &&& after.user == c.user
        }),
{
    lemma_ids_where(c.database.sinks, legacy_sink());
    let ids = ids_where(c.database.sinks, legacy_sink());
    assert(ids.contains(x) <==> legacy_sink()(c.database.sinks[x]));
    assert(targets_noted(c).database.sinks.dom() =~= c.database.sinks.dom());
}

/// When a catalog is loaded, a table that is read from a source and has not noted which table outside it
/// is gets the identifier of the source, a dot and the name that its definition gives, where it gives one;
/// nothing else of it changes, and every other table stays as it was.
pub proof fn law_external_tables_are_noted(c: CatalogManagerCoreModel, x: u32)
    requires
        c.database.tables.dom().finite(),
        c.database.tables.contains_key(x),
    ensures
        ({
            let before = c.database.tables[x];
            let after = external_tables_noted(c);
            let table = after.database.tables[x];
            let missing = before.dependent_relations.len() > 0 && c.database.sources.contains_key(
                before.dependent_relations[0],
            ) && before.table_type == TableType::Table && before.cdc_table_id is None;
            let name = external_table_name(before.definition);
            &&& after.database.tables.dom() == c.database.tables.dom()
            &&& missing && name is Some ==> table.cdc_table_id == Some(
                crate::util::text::decimal(before.dependent_relations[0] as nat) + "."@ + name->0,
            ) && table == (TableModel { cdc_table_id: table.cdc_table_id, ..before })
            &&& !missing || name is None ==> table == before
            &&& after.database == (DatabaseManagerModel {
                tables: after.database.tables,
                ..c.database
            })
            &&& after.user == c.user
        }),
{
    let p = legacy_table(c.database.sources);
    lemma_ids_where(c.database.tables, p);
    let ids = ids_where(c.database.tables, p);
    assert(ids.contains(x) <==> p(c.database.tables[x]));
    assert(external_tables_noted(c).database.tables.dom() =~= c.database.tables.dom());
}

} // verus!
