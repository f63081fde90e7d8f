//! What holds of a catalog that is loaded and cleaned up.

use vstd::prelude::*;

use crate::catalog::creating::lemma_lowered_nothing;
use crate::catalog::drop::JobFragmentsModel;
use crate::catalog::init::{external_tables_noted, legacy_sink, legacy_table, targets_noted};
use crate::catalog::recovery::{
    cleaned, dirty_internal_table, dirty_job, dirty_jobs, dirty_tables, lost_sink, reserved_tables,
    sink_losers, surviving_job, tables_keyed, without_lost_sinks,
};
use crate::catalog::relations::{table_dependencies, table_owners};
use crate::catalog::state::CatalogManagerCoreModel;
use crate::catalog::types::{TableModel, TableType};
use crate::catalog::users::{
    default_users_added, DEFAULT_SUPER_USER_FOR_PG_ID, DEFAULT_SUPER_USER_ID,
};
use crate::util::id_map::{ids_where, lemma_ids_where, values_at, values_where};
use crate::util::lists::lemma_gather_contains;

verus! {

/// What is brought up to date when the catalog is loaded is so once and for all: to do it again
/// changes nothing.
pub proof fn law_loading_twice_changes_nothing_more(c: CatalogManagerCoreModel)
    requires
        c.database.tables.dom().finite(),
        c.database.sinks.dom().finite(),
    ensures
        targets_noted(targets_noted(c)) == targets_noted(c),
        external_tables_noted(external_tables_noted(c)) == external_tables_noted(c),
{
    let s = targets_noted(c);
    assert(s.database.sinks.dom() =~= c.database.sinks.dom());
    lemma_ids_where(c.database.sinks, legacy_sink());
    lemma_ids_where(s.database.sinks, legacy_sink());
    assert(targets_noted(s).database.sinks =~= s.database.sinks);
    let t = external_tables_noted(c);
    let p = legacy_table(c.database.sources);
    assert(t.database.tables.dom() =~= c.database.tables.dom());
    lemma_ids_where(c.database.tables, p);
    lemma_ids_where(t.database.tables, p);
    assert(external_tables_noted(t).database.tables =~= t.database.tables);
}

/// The users that are there from the start are added once: to add them again changes nothing,
/// unless `root` stood where `postgres` is added.
pub proof fn law_default_users_are_added_once(c: CatalogManagerCoreModel)
    requires
        c.user.user_info.contains_key(DEFAULT_SUPER_USER_FOR_PG_ID)
            ==> c.user.user_info[DEFAULT_SUPER_USER_FOR_PG_ID].name != "root"@,
    ensures
        default_users_added(default_users_added(c)) == default_users_added(c),
{
    let first = c.user.with_default("root"@, DEFAULT_SUPER_USER_ID);
    let second = first.with_default("postgres"@, DEFAULT_SUPER_USER_FOR_PG_ID);
    if c.user.has_name("root"@) {
        let id = choose|id: u32| #[trigger]
            c.user.user_info.contains_key(id) && c.user.user_info[id].name == "root"@;
        assert(second.user_info.contains_key(id) && second.user_info[id].name == "root"@);
    } else {
        assert(first.user_info[DEFAULT_SUPER_USER_ID].name == "root"@);
        assert(second.user_info.contains_key(DEFAULT_SUPER_USER_ID)
            && second.user_info[DEFAULT_SUPER_USER_ID].name == "root"@);
    }
    assert(second.has_name("root"@));
    if !first.has_name("postgres"@) {
        assert(second.user_info.contains_key(DEFAULT_SUPER_USER_FOR_PG_ID)
            && second.user_info[DEFAULT_SUPER_USER_FOR_PG_ID].name == "postgres"@);
    }
    assert(second.has_name("postgres"@));
}

/// What stands in the catalog after the cleaning stood there before, with the sinks that are there.
proof fn lemma_left_by_cleaning(
    c: CatalogManagerCoreModel,
    fragments: Map<u32, JobFragmentsModel>,
    id: u32,
)
    requires
        c.database.tables.dom().finite(),
        cleaned(c, fragments).database.tables.contains_key(id),
    ensures
        c.database.tables.contains_key(id),
        !dirty_tables(c.database, fragments).contains(id),
        cleaned(c, fragments).database.tables[id] == if lost_sink(c.database.sinks.dom())(
            c.database.tables[id],
        ) {
            without_lost_sinks(c.database.sinks.dom())(c.database.tables[id])
        } else {
            c.database.tables[id]
        },
{
    lemma_ids_where(c.database.tables, lost_sink(c.database.sinks.dom()));
}

/// Of the sinks that are there none is lost.
proof fn lemma_no_sink_lost(sinks: Set<u32>, t: TableModel)
    ensures
        !lost_sink(sinks)(without_lost_sinks(sinks)(t)),
{
    let q = t.incoming_sinks.filter(|s: u32| sinks.contains(s));
    broadcast use vstd::seq_lib::group_filter_ensures;

    assert forall|i: int| 0 <= i < q.len() implies sinks.contains(#[trigger] q[i]) by {}
}

/// What was not removed by a cleaning is not removed by the next one: the catalog is clean.
pub proof fn law_cleaning_leaves_nothing_to_clean(
    c: CatalogManagerCoreModel,
    fragments: Map<u32, JobFragmentsModel>,
)
    requires
        c.database.tables.dom().finite(),
        tables_keyed(c.database.tables),
    ensures
        dirty_tables(cleaned(c, fragments).database, fragments).len() == 0,
        sink_losers(cleaned(c, fragments).database).len() == 0,
        cleaned(cleaned(c, fragments), fragments) == cleaned(c, fragments),
{
    let db = c.database;
    let after = cleaned(c, fragments);
    let m = after.database.tables;
    let lost = lost_sink(db.sinks.dom());
    let surviving = surviving_job(fragments);
    let internal = |t: TableModel| fragments[t.id].internal_table_ids;
    assert(m.dom().subset_of(db.tables.dom())) by {
        assert forall|id: u32| m.dom().contains(id) implies db.tables.dom().contains(id) by {
            lemma_left_by_cleaning(c, fragments, id);
        }
    }
    vstd::set_lib::lemma_set_subset_finite(db.tables.dom(), m.dom());
    let reserved = reserved_tables(db, fragments);
    let reserved_after = reserved_tables(after.database, fragments);
    lemma_ids_where(db.tables, dirty_job(fragments));
    lemma_ids_where(db.tables, dirty_internal_table(reserved));
    lemma_ids_where(db.tables, surviving);
    lemma_ids_where(m, dirty_job(fragments));
    lemma_ids_where(m, dirty_internal_table(reserved_after));
    lemma_ids_where(m, surviving);
    lemma_ids_where(m, lost);
    let jobs = dirty_jobs(db, fragments);
    let hanging = ids_where(db.tables, dirty_internal_table(reserved));
    assert forall|id: u32| #[trigger] dirty_tables(db, fragments).contains(id) <==> jobs.contains(id)
        || hanging.contains(id) by {
        if jobs.contains(id) {
            let k = choose|k: int| 0 <= k < jobs.len() && jobs[k] == id;
            assert(dirty_tables(db, fragments)[k] == id);
        }
        if hanging.contains(id) {
            let k = choose|k: int| 0 <= k < hanging.len() && hanging[k] == id;
            assert(dirty_tables(db, fragments)[jobs.len() + k] == id);
        }
    }
    // No job is dirty any more.
    assert(dirty_jobs(after.database, fragments).len() == 0) by {
        let q = dirty_jobs(after.database, fragments);
        if q.len() > 0 {
            let id = q[0];
            assert(q.contains(id));
            lemma_left_by_cleaning(c, fragments, id);
            assert(dirty_job(fragments)(db.tables[id]));
            assert(jobs.contains(id));
        }
    }
    // What the surviving jobs need is still reserved.
    assert forall|x: u32| #[trigger] reserved.contains(x) implies reserved_after.contains(x) by {
        let q = values_where(db.tables, surviving);
        lemma_gather_contains(q, internal, x);
        let i = choose|i: int| 0 <= i < q.len() && internal(#[trigger] q[i]).contains(x);
        let id = ids_where(db.tables, surviving)[i];
        assert(ids_where(db.tables, surviving).contains(id));
        assert(q[i] == db.tables[id]);
        assert(!dirty_job(fragments)(db.tables[id]));
        assert(db.tables[id].table_type != TableType::Internal);
        assert(!jobs.contains(id) && !hanging.contains(id));
        assert(!dirty_tables(db, fragments).contains(id));
        assert(m.contains_key(id));
        lemma_left_by_cleaning(c, fragments, id);
        assert(surviving(m[id]));
        let p = ids_where(m, surviving);
        assert(p.contains(id));
        let k = choose|k: int| 0 <= k < p.len() && p[k] == id;
        let v = values_where(m, surviving);
        assert(v[k] == m[id]);
        assert(internal(v[k]).contains(x));
        lemma_gather_contains(v, internal, x);
    }
    assert(ids_where(m, dirty_internal_table(reserved_after)).len() == 0) by {
        let q = ids_where(m, dirty_internal_table(reserved_after));
        if q.len() > 0 {
            let id = q[0];
            assert(q.contains(id));
            lemma_left_by_cleaning(c, fragments, id);
            assert(!reserved_after.contains(m[id].id));
            assert(!reserved.contains(db.tables[id].id));
            assert(dirty_internal_table(reserved)(db.tables[id]));
            assert(hanging.contains(id));
        }
    }
    // No table has lost a sink.
    assert(ids_where(m, lost).len() == 0) by {
        let q = ids_where(m, lost);
        if q.len() > 0 {
            let id = q[0];
            assert(q.contains(id));
            lemma_left_by_cleaning(c, fragments, id);
            lemma_no_sink_lost(db.sinks.dom(), db.tables[id]);
        }
    }
    let again = cleaned(after, fragments);
    let none = values_at(m, dirty_jobs(after.database, fragments));
    assert(none =~= Seq::empty());
    assert(table_dependencies(none) =~= Seq::empty());
    assert(table_owners(none) =~= Seq::empty());
    lemma_lowered_nothing(after.database.relation_ref_count);
    lemma_lowered_nothing(after.user.catalog_create_ref_count);
    assert(again.database.tables =~= m);
    assert(again.database =~= after.database);
    assert(again.user =~= after.user);
    assert(again =~= after);
}

} // verus!
