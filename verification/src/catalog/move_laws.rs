//! What holds of objects that are handed to another owner or moved to another schema: giving them
//! back undoes it.

use vstd::prelude::*;

use crate::catalog::drop::{index_on, index_tables_of, indexes_of, JobFragmentsModel};
use crate::catalog::owner::{
    all_internal_tables, table_family, table_handed_over, table_handing_presumes, transferable,
    transferred,
};
use crate::catalog::relations::one_or_none;
use crate::catalog::set_schema::{table_moving_presumes, table_relocated};
use crate::catalog::state::{CatalogManagerCoreModel, DatabaseManagerModel};
use crate::util::counts::{count_of, lemma_times, positive, times};
use crate::util::id_map::lemma_ids_where;
use crate::util::ids::{lemma_listing_exists, lemma_occurrences_contains, listing};

verus! {

/// Two conditions that agree on all elements select the same.
proof fn lemma_filter_same(l: Seq<u32>, f: spec_fn(u32) -> bool, g: spec_fn(u32) -> bool)
    requires
        forall|i: int| 0 <= i < l.len() ==> f(#[trigger] l[i]) == g(l[i]),
    ensures
        l.filter(f) == l.filter(g),
    decreases l.len(),
{
    reveal(Seq::filter);
    if l.len() > 0 {
        let d = l.drop_last();
        assert forall|i: int| 0 <= i < d.len() implies f(#[trigger] d[i]) == g(d[i]) by {
            assert(d[i] == l[i]);
        }
        lemma_filter_same(d, f, g);
        assert(f(l[l.len() - 1]) == g(l[l.len() - 1]));
    }
}

/// Both catalogs have the same indexes, on the same tables and with the same tables.
pub open spec fn same_indexes(a: DatabaseManagerModel, b: DatabaseManagerModel) -> bool {
    &&& a.indexes.dom() == b.indexes.dom()
    &&& forall|i: u32| #[trigger]
        a.indexes.contains_key(i) ==> a.indexes[i].primary_table_id == b.indexes[i].primary_table_id
            && a.indexes[i].index_table_id == b.indexes[i].index_table_id
}

proof fn lemma_same_indexes(a: DatabaseManagerModel, b: DatabaseManagerModel, id: u32)
    requires
        a.indexes.dom().finite(),
        same_indexes(a, b),
    ensures
        indexes_of(b, id) == indexes_of(a, id),
        index_tables_of(b, id) == index_tables_of(a, id),
        table_family(b, id) == table_family(a, id),
{
    let l = listing(a.indexes.dom());
    let f = |i: u32| index_on(id)(a.indexes[i]);
    let g = |i: u32| index_on(id)(b.indexes[i]);
    lemma_listing_exists(a.indexes.dom());
    assert forall|i: int| 0 <= i < l.len() implies f(#[trigger] l[i]) == g(l[i]) by {
        assert(l.contains(l[i]));
        assert(a.indexes.contains_key(l[i]));
    }
    lemma_filter_same(l, f, g);
    lemma_ids_where(a.indexes, index_on(id));
    assert(indexes_of(b, id) == indexes_of(a, id));
    assert forall|k: int| 0 <= k < indexes_of(a, id).len() implies index_tables_of(b, id)[k]
        == index_tables_of(a, id)[k] by {
        assert(a.indexes.contains_key(indexes_of(a, id)[k]));
    }
    assert(index_tables_of(b, id) =~= index_tables_of(a, id));
}

/// A table, its indexes, their tables, the source it is associated with and all internal tables
/// stand in the same schema.
pub open spec fn stands_together(
    db: DatabaseManagerModel,
    fragments: Map<u32, JobFragmentsModel>,
    id: u32,
) -> bool {
    let home = db.tables[id].schema_id;
    let family = table_family(db, id);
    let all = family + all_internal_tables(fragments, family);
    let source = one_or_none(db.tables[id].optional_associated_source_id);
    &&& forall|i: int| 0 <= i < all.len() ==> db.tables[#[trigger] all[i]].schema_id == home
    &&& forall|i: int| 0 <= i < source.len() ==> db.sources[#[trigger] source[i]].schema_id == home
    &&& forall|i: int|
        0 <= i < indexes_of(db, id).len() ==> db.indexes[#[trigger] indexes_of(
            db,
            id,
        )[i]].schema_id == home
}

/// A table that is moved away and back again, with all that goes with it, leaves the catalog as it
/// was, as long as all of it stood in one schema and nothing took the name in between.
pub proof fn law_moving_back_restores_table(
    c: CatalogManagerCoreModel,
    fragments: Map<u32, JobFragmentsModel>,
    id: u32,
    away: u32,
)
    requires
        c.database.indexes.dom().finite(),
        c.database.tables.contains_key(id),
        c.database.tables[id].schema_id != away,
        stands_together(c.database, fragments, id),
        table_moving_presumes(c, fragments, id, away),
        table_relocated(c, fragments, id, away) is Ok,
        table_relocated(
            table_relocated(c, fragments, id, away)->Ok_0.0,
            fragments,
            id,
            c.database.tables[id].schema_id,
        ) is Ok,
    ensures
        table_relocated(
            table_relocated(c, fragments, id, away)->Ok_0.0,
            fragments,
            id,
            c.database.tables[id].schema_id,
        )->Ok_0.0 == c,
{
    let db = c.database;
    let home = db.tables[id].schema_id;
    let gone = table_relocated(c, fragments, id, away)->Ok_0.0;
    let back = table_relocated(gone, fragments, id, home)->Ok_0.0;
    lemma_ids_where(db.indexes, index_on(id));
    assert(gone.database.indexes.dom() =~= db.indexes.dom());
    lemma_same_indexes(db, gone.database, id);
    let family = table_family(db, id);
    let all = family + all_internal_tables(fragments, family);
    let source = one_or_none(db.tables[id].optional_associated_source_id);
    assert(all[0] == id);
    assert(all.contains(id));
    assert(gone.database.tables[id].schema_id == away);
    assert(back.database.tables =~= db.tables) by {
        assert forall|t: u32| db.tables.contains_key(t) implies back.database.tables[t]
            == db.tables[t] by {
            if all.contains(t) {
                let i = choose|i: int| 0 <= i < all.len() && all[i] == t;
                assert(db.tables[all[i]].schema_id == home);
            }
        }
    }
    assert(back.database.sources =~= db.sources) by {
        assert forall|t: u32| db.sources.contains_key(t) implies back.database.sources[t]
            == db.sources[t] by {
            if source.contains(t) {
                let i = choose|i: int| 0 <= i < source.len() && source[i] == t;
                assert(db.sources[source[i]].schema_id == home);
            }
        }
    }
    assert(back.database.indexes =~= db.indexes) by {
        assert forall|t: u32| db.indexes.contains_key(t) implies back.database.indexes[t]
            == db.indexes[t] by {
            let l = indexes_of(db, id);
            if l.contains(t) {
                let i = choose|i: int| 0 <= i < l.len() && l[i] == t;
                assert(db.indexes[l[i]].schema_id == home);
            }
        }
    }
    assert(back =~= c);
}

/// Objects that are handed over and handed back are counted as before.
proof fn lemma_transferred_back(counts: Map<u32, usize>, from: u32, to: u32, n: nat)
    requires
        positive(counts),
        from != to,
        transferable(counts, from, to, n),
    ensures
        transferred(transferred(counts, from, to, n), to, from, n) == counts,
{
    let there = transferred(counts, from, to, n);
    let back = transferred(there, to, from, n);
    assert forall|x: u32|
        back.contains_key(x) == counts.contains_key(x) && (counts.contains_key(x) ==> back[x]
            == counts[x]) by {
        lemma_times(from, n, x);
        lemma_times(to, n, x);
        lemma_occurrences_contains(times(from, n), x);
        lemma_occurrences_contains(times(to, n), x);
        assert(count_of(counts, x) <= usize::MAX);
    }
    assert(back =~= counts);
}

/// A table that is handed over and handed back, with all that goes with it, leaves the catalog as
/// it was.
pub proof fn law_handing_back_restores_table(
    c: CatalogManagerCoreModel,
    fragments: Map<u32, JobFragmentsModel>,
    id: u32,
    owner: u32,
)
    requires
        c.database.indexes.dom().finite(),
        c.database.tables.contains_key(id),
        c.database.tables[id].owner != owner,
        positive(c.user.catalog_create_ref_count),
        table_handing_presumes(c, fragments, id, owner),
        table_handed_over(c, fragments, id, owner) is Ok,
    ensures
        ({
            let there = table_handed_over(c, fragments, id, owner)->Ok_0.0;
            let back = table_handed_over(there, fragments, id, c.database.tables[id].owner);
            back is Ok && back->Ok_0.0 == c
        }),
{
    let db = c.database;
    let old_owner = db.tables[id].owner;
    let there = table_handed_over(c, fragments, id, owner)->Ok_0.0;
    lemma_ids_where(db.indexes, index_on(id));
    assert(there.database.indexes.dom() =~= db.indexes.dom());
    lemma_same_indexes(db, there.database, id);
    let family = table_family(db, id);
    let all = family + all_internal_tables(fragments, family);
    let l = indexes_of(db, id);
    let source = one_or_none(db.tables[id].optional_associated_source_id);
    assert(all[0] == id);
    assert(all.contains(id));
    assert(there.database.tables[id].owner == owner);
    let back = table_handed_over(there, fragments, id, old_owner);
    assert(back is Ok);
    let b = back->Ok_0.0;
    lemma_transferred_back(
        c.user.catalog_create_ref_count,
        old_owner,
        owner,
        family.len() + l.len() + source.len(),
    );
    assert(b.database.tables =~= db.tables) by {
        assert forall|t: u32| db.tables.contains_key(t) implies b.database.tables[t]
            == db.tables[t] by {
            if all.contains(t) {
                let i = choose|i: int| 0 <= i < all.len() && all[i] == t;
                assert(db.tables[all[i]].owner == old_owner);
            }
        }
    }
    assert(b.database.sources =~= db.sources) by {
        assert forall|t: u32| db.sources.contains_key(t) implies b.database.sources[t]
            == db.sources[t] by {
            if source.contains(t) {
                assert(source[0] == t);
            }
        }
    }
    assert(b.database.indexes =~= db.indexes) by {
        assert forall|t: u32| db.indexes.contains_key(t) implies b.database.indexes[t]
            == db.indexes[t] by {
            if l.contains(t) {
                let i = choose|i: int| 0 <= i < l.len() && l[i] == t;
                assert(db.indexes[l[i]].owner == old_owner);
            }
        }
    }
    assert(b.user =~= c.user);
    assert(b =~= c);
}

} // verus!
