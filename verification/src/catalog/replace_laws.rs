//! What holds of a table that is replaced by its next version: which sinks write into it, what its
//! indexes refer to, and what the frontends are told.

use vstd::prelude::*;

use crate::catalog::creating::{replacing_cancelled, source_key, table_key};
use crate::catalog::drop::{index_on, indexes_of};
use crate::catalog::effects::{keyed_by_id, kept_but, stands, tells, told_of, told_truly};
use crate::catalog::finishing::{replace_started, sink_finished, Replacement};
use crate::catalog::jobs::{relation_finished, sink_replacement};
use crate::catalog::notify::{Operation, RelationInfoModel, StreamingJobModel, TargetTableModel};
use crate::catalog::state::{CatalogManagerCoreModel, DatabaseManagerModel};
use crate::catalog::types::{IndexModel, SinkModel, SourceModel, StreamJobStatus, TableModel};
use crate::util::id_map::{inserted, lemma_ids_where, updated_at};
use crate::util::ids::{lemma_occurrences_contains, occurrences};

verus! {

/// How often a value is left once another one is taken out.
proof fn lemma_filter_occurrences(q: Seq<u32>, s: u32, x: u32)
    ensures
        occurrences(q.filter(|y: u32| y != s), x) == if x == s {
            0
        } else {
            occurrences(q, x)
        },
    decreases q.len(),
{
    reveal(Seq::filter);
    let p = |y: u32| y != s;
    if q.len() > 0 {
        let d = q.drop_last();
        lemma_filter_occurrences(d, s, x);
        if p(q.last()) {
            assert(q.filter(p) == d.filter(p).push(q.last()));
            assert(d.filter(p).push(q.last()).drop_last() =~= d.filter(p));
        } else {
            assert(q.filter(p) == d.filter(p));
        }
    }
}

/// The sinks that write into a replaced table are those that were given with it and the one that is
/// being created, each as often as it was, but the one that is being dropped is not among them. Where
/// none is dropped they stand in the given order, the created one last; where none is created the
/// others keep their order. The table stands as created and is otherwise as it was given.
pub proof fn law_sinks_into_replaced_table(r: Replacement, c: CatalogManagerCoreModel, x: u32)
    ensures
        ({
            let (after, messages) = r.applied(c);
            let table = after.database.tables[r.table.id];
            let given = r.table.incoming_sinks;
            &&& after.database.tables.contains_key(r.table.id)
            &&& r.dropping_sink is Some ==> !table.incoming_sinks.contains(r.dropping_sink->0)
            &&& r.dropping_sink != Some(x) ==> (table.incoming_sinks.contains(x) <==> given.contains(x)
                || r.creating_sink == Some(x))
            &&& r.dropping_sink != Some(x) ==> occurrences(table.incoming_sinks, x) == occurrences(
                given,
                x,
            ) + if r.creating_sink == Some(x) {
                1nat
            } else {
                0nat
            }
            &&& r.dropping_sink is None && r.creating_sink is None ==> table.incoming_sinks == given
            &&& r.dropping_sink is None && r.creating_sink is Some ==> table.incoming_sinks
                == given.push(r.creating_sink->0)
            &&& r.dropping_sink is Some && r.creating_sink is None ==> table.incoming_sinks
                == given.filter(|y: u32| y != r.dropping_sink->0)
            &&& table.stream_job_status == StreamJobStatus::Created
            &&& table == (TableModel {
                incoming_sinks: table.incoming_sinks,
                stream_job_status: table.stream_job_status,
                ..r.table
            })
        }),
{
    let (after, messages) = r.applied(c);
    let table = after.database.tables[r.table.id];
    let given = r.table.incoming_sinks;
    let added = match r.creating_sink {
        Some(s) => given.push(s),
        None => given,
    };
    assert(r.creating_sink is Some ==> given.push(r.creating_sink->0).drop_last() =~= given);
    assert(occurrences(added, x) == occurrences(given, x) + if r.creating_sink == Some(x) {
        1nat
    } else {
        0nat
    });
    if r.dropping_sink is Some {
        let s = r.dropping_sink->0;
        assert((|y: u32| y != r.dropping_sink->0) =~= (|y: u32| y != s));
        lemma_filter_occurrences(added, r.dropping_sink->0, x);
        lemma_filter_occurrences(added, r.dropping_sink->0, r.dropping_sink->0);
        lemma_occurrences_contains(table.incoming_sinks, r.dropping_sink->0);
    }
    lemma_occurrences_contains(table.incoming_sinks, x);
    lemma_occurrences_contains(given, x);
}

/// The items of the index refer to the columns at which the mapping puts them, in the same order and
/// with the same expressions.
pub open spec fn index_follows(before: IndexModel, after: IndexModel, map: Seq<Option<u32>>) -> bool {
    &&& after == (IndexModel { index_item: after.index_item, ..before })
    &&& after.index_item.len() == before.index_item.len()
    &&& forall|i: int|
        0 <= i < before.index_item.len() ==> {
            let a = #[trigger] after.index_item[i];
            let b = before.index_item[i];
            &&& a.expression == b.expression
            &&& a.input_refs.len() == b.input_refs.len()
            &&& forall|k: int|
                0 <= k < b.input_refs.len() ==> map[b.input_refs[k] as int] is Some
                    ==> Some(#[trigger] a.input_refs[k]) == map[b.input_refs[k] as int]
        }
}

/// Once a table is replaced, its indexes refer to the new columns, the sinks that are to be updated
/// keep the columns that the table had before, its source stands as it was given, and neither name is
/// in progress. The frontends are told of all of that as it stands, and nothing else changes.
pub proof fn law_replaced_table(r: Replacement, c: CatalogManagerCoreModel)
    requires
        keyed_by_id(c.database),
        c.database.indexes.dom().finite(),
        forall|i: int| 0 <= i < r.updated_sinks.len() ==> c.database.sinks.contains_key(#[trigger] r.updated_sinks[i]),
    ensures
        ({
            let before = c.database;
            let (after, messages) = r.applied(c);
            let db = after.database;
            &&& kept_but(before.tables, db.tables, set![r.table.id])
            &&& db.indexes.dom() == before.indexes.dom()
            &&& forall|x: u32| #[trigger]
                before.indexes.contains_key(x) ==> {
                    &&& r.mapping is Some && before.indexes[x].primary_table_id == r.table.id
                        ==> index_follows(before.indexes[x], db.indexes[x], r.mapping->0) && tells(
                        messages,
                        RelationInfoModel::Index(db.indexes[x]),
                    )
                    &&& r.mapping is None || before.indexes[x].primary_table_id != r.table.id
                        ==> db.indexes[x] == before.indexes[x]
                }
            &&& db.sinks.dom() == before.sinks.dom()
            &&& forall|x: u32| #[trigger]
                before.sinks.contains_key(x) ==> {
                    &&& r.updated_sinks.contains(x) ==> db.sinks[x].original_target_columns
                        == before.tables[r.table.id].columns && db.sinks[x] == (SinkModel {
                        original_target_columns: db.sinks[x].original_target_columns,
                        ..before.sinks[x]
                    }) && tells(messages, RelationInfoModel::Sink(db.sinks[x]))
                    &&& !r.updated_sinks.contains(x) ==> db.sinks[x] == before.sinks[x]
                }
            &&& r.source is Some ==> {
                &&& stands(db, RelationInfoModel::Source(r.source->0))
                &&& kept_but(before.sources, db.sources, set![r.source->0.id])
                &&& tells(messages, RelationInfoModel::Source(r.source->0))
                &&& !db.in_progress(source_key(r.source->0))
            }
            &&& r.source is None ==> db.sources == before.sources
            &&& !db.in_progress(table_key(r.table))
            &&& forall|k|
                k != table_key(r.table) && (r.source is Some ==> k != source_key(r.source->0))
                    ==> #[trigger] db.in_progress(k) == before.in_progress(k)
            &&& told_truly(db, messages, Operation::Update)
            &&& tells(messages, RelationInfoModel::Table(db.tables[r.table.id]))
            &&& db == (DatabaseManagerModel {
                tables: db.tables,
                sinks: db.sinks,
                indexes: db.indexes,
                sources: db.sources,
                in_progress_creation_tracker: db.in_progress_creation_tracker,
                ..before
            })
            &&& after.user == c.user
        }),
{
    let before = c.database;
    let (after, messages) = r.applied(c);
    let db = after.database;
    let mid = replacing_cancelled(c, r.source, r.table).database;
    let told = told_of(messages);
    let source = match r.source {
        Some(source) => seq![source],
        None => Seq::empty(),
    };
    reveal_with_fuel(inserted, 2);
    assert(r.source is None ==> db.sources =~= before.sources);
    assert(r.source is Some ==> db.sources =~= before.sources.insert(r.source->0.id, r.source->0));
    lemma_ids_where(before.indexes, index_on(r.table.id));
    let ii = indexes_of(before, r.table.id);
    let changed = r.changed_indexes(mid);
    assert(mid.indexes == before.indexes);
    assert(indexes_of(mid, r.table.id) == ii);
    assert(db.indexes.dom() =~= before.indexes.dom());
    assert(db.sinks.dom() =~= before.sinks.dom());
    let ni = changed.len() as int;
    let nk = r.updated_sinks.len() as int;
    assert(told.len() == 1 + source.len() + ni + nk);
    assert forall|x: u32| #[trigger] before.indexes.contains_key(x) implies {
        &&& r.mapping is Some && before.indexes[x].primary_table_id == r.table.id ==> index_follows(
            before.indexes[x],
            db.indexes[x],
            r.mapping->0,
        ) && tells(messages, RelationInfoModel::Index(db.indexes[x]))
        &&& r.mapping is None || before.indexes[x].primary_table_id != r.table.id ==> db.indexes[x]
            == before.indexes[x]
    } by {
        assert(ii.contains(x) <==> index_on(r.table.id)(before.indexes[x]));
        if r.mapping is Some && before.indexes[x].primary_table_id == r.table.id {
            assert(changed.contains(x));
            let k = choose|k: int| 0 <= k < changed.len() && changed[k] == x;
            assert(told[1 + source.len() + k] == RelationInfoModel::Index(db.indexes[x]));
        } else {
            assert(!changed.contains(x));
        }
    }
    assert forall|x: u32| #[trigger] before.sinks.contains_key(x) && r.updated_sinks.contains(
        x,
    ) implies tells(messages, RelationInfoModel::Sink(db.sinks[x])) by {
        let k = choose|k: int| 0 <= k < r.updated_sinks.len() && r.updated_sinks[k] == x;
        assert(told[1 + source.len() + ni + k] == RelationInfoModel::Sink(db.sinks[x]));
    }
    assert(told[0] == RelationInfoModel::Table(db.tables[r.table.id]));
    if r.source is Some {
        assert(told[1] == RelationInfoModel::Source(r.source->0));
    }
    assert forall|k: int| 0 <= k < told.len() implies stands(db, #[trigger] told[k]) by {
        if k == 0 {
        } else if k < 1 + source.len() {
            assert(told[k] == RelationInfoModel::Source(r.source->0));
        } else if k < 1 + source.len() + ni {
            let x = changed[k - 1 - source.len()];
            assert(told[k] == RelationInfoModel::Index(db.indexes[x]));
            assert(changed.contains(x));
            assert(ii.contains(x));
            assert(before.indexes.contains_key(x));
            assert(db.indexes[x].id == before.indexes[x].id);
        } else {
            let x = r.updated_sinks[k - 1 - source.len() - ni];
            assert(told[k] == RelationInfoModel::Sink(db.sinks[x]));
            assert(r.updated_sinks.contains(x));
            assert(before.sinks.contains_key(x));
            assert(db.sinks[x].id == before.sinks[x].id);
        }
    }
}

/// A replacement is started exactly where the database, the schema and the table are known, the given
/// table is the next version of it, and neither its name nor that of its source is in progress; the
/// names are in progress then, and nothing else changes.
pub proof fn law_started_replacement_is_in_progress(
    c: CatalogManagerCoreModel,
    source: Option<SourceModel>,
    table: TableModel,
)
    ensures
        ({
            let before = c.database;
            let (after, e) = replace_started(c, source, table);
            let db = after.database;
            let next = before.tables.contains_key(table.id) && table.version is Some
                && before.tables[table.id].version is Some && table.version->0
                == before.tables[table.id].version->0 + 1;
            &&& e is None <==> before.databases.contains_key(table.database_id)
                && before.schemas.contains_key(table.schema_id) && next && !before.in_progress(
                table_key(table),
            ) && (source is Some ==> !before.in_progress(source_key(source->0)))
            &&& e is Some ==> after == c
            &&& e is None ==> {
                &&& db.in_progress(table_key(table))
                &&& source is Some ==> db.in_progress(source_key(source->0))
                &&& forall|k|
                    k != table_key(table) && (source is Some ==> k != source_key(source->0))
                        ==> #[trigger] db.in_progress(k) == before.in_progress(k)
                &&& db == (DatabaseManagerModel {
                    in_progress_creation_tracker: db.in_progress_creation_tracker,
                    ..before
                })
                &&& after.user == c.user
            }
        }),
{
}

/// Once a sink into a table is finished, the sink writes into the table that stands: the table has it
/// among its sinks, once more than it was given with, and has lost none.
pub proof fn law_finished_sink_writes_into_its_table(
    c: CatalogManagerCoreModel,
    sink: SinkModel,
    target: TargetTableModel,
    internal: Seq<TableModel>,
    epoch: u64,
    x: u32,
)
    ensures
        ({
            let r = relation_finished(
                c,
                StreamingJobModel::Sink(sink, Some(target)),
                internal,
                epoch,
            );
            &&& r is Ok
            &&& ({
                let db = r->Ok_0.0.database;
                let table = db.tables[target.table.id];
                &&& db.tables.contains_key(target.table.id)
                &&& table.incoming_sinks == target.table.incoming_sinks.push(sink.id)
                &&& table.incoming_sinks.contains(sink.id)
                &&& target.table.incoming_sinks.contains(x) ==> table.incoming_sinks.contains(x)
                &&& table.stream_job_status == StreamJobStatus::Created
                &&& db.sinks.contains_key(sink.id)
                &&& db.sinks[sink.id].stream_job_status == StreamJobStatus::Created
                &&& target.source is Some ==> db.sources.contains_key(target.source->0.id)
                    && db.sources[target.source->0.id] == target.source->0
                &&& r->Ok_0.1.len() == 2
                &&& r->Ok_0.1[0].operation == Operation::Add
                &&& r->Ok_0.1[1].operation == Operation::Update
            })
        }),
{
    let (middle, messages) = sink_finished(c, internal, sink);
    let r = sink_replacement(target, sink.id);
    law_sinks_into_replaced_table(r, middle, x);
    law_sinks_into_replaced_table(r, middle, sink.id);
    reveal_with_fuel(inserted, 2);
    let db = r.applied(middle).0.database;
    assert(updated_at(
        middle.database.sinks,
        Seq::<u32>::empty(),
        crate::catalog::finishing::sink_targeting(
            replacing_cancelled(middle, target.source, target.table).database.tables[target.table.id].columns,
        ),
    ) =~= middle.database.sinks);
    let q = target.table.incoming_sinks;
    assert(q.push(sink.id)[q.len() as int] == sink.id);
}

} // verus!
