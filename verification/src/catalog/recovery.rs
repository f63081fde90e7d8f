//! Cleaning up after a restart: streaming jobs whose creation did not get far enough are removed.

use vstd::prelude::*;

use crate::catalog::drop::{JobFragments, JobFragmentsModel};
use crate::catalog::manager::CatalogManager;
use crate::catalog::notify::{Notification, NotificationModel, Operation};
use crate::catalog::relations::{
    collect_table_dependencies, frontend_relations, owners_of_tables, table_dependencies,
    table_infos, table_owners, tables_to_infos,
};
use crate::catalog::state::{CatalogManagerCoreModel, DatabaseManagerModel, UserManagerModel};
use crate::catalog::types::{CreateType, StreamJobStatus, Table, TableModel, TableType};
use crate::util::counts::{covers, lower_all, lowered};
use crate::util::id_map::{
    all_in, copy_all, ids_where, lemma_ids_where, updated_at, values_at, values_where, views, Entry,
    IdMap,
};
use crate::util::lists::{gather, image, map_all};

verus! {

/// The record of a streaming job that was cleared.
#[derive(Debug, PartialEq, Eq)]
pub struct DirtyStreamJobClear {
    pub id: u32,
    pub name: String,
    pub definition: String,
    pub error: String,
}

/// The mathematical model of [`DirtyStreamJobClear`].
#[verifier::ext_equal]
pub struct DirtyStreamJobClearModel {
    pub id: u32,
    pub name: Seq<char>,
    pub definition: Seq<char>,
    pub error: Seq<char>,
}

impl View for DirtyStreamJobClear {
    type V = DirtyStreamJobClearModel;

    open spec fn view(&self) -> DirtyStreamJobClearModel {
        DirtyStreamJobClearModel {
            id: self.id,
            name: self.name@,
            definition: self.definition@,
            error: self.error@,
        }
    }
}

impl Entry for DirtyStreamJobClear {
    fn duplicate(&self) -> (r: Self) {
        DirtyStreamJobClear {
            id: self.id,
            name: self.name.clone(),
            definition: self.definition.clone(),
            error: self.error.clone(),
        }
    }
}

/// The table belongs to a job that is being created.
pub open spec fn creating() -> spec_fn(TableModel) -> bool {
    |t: TableModel| t.stream_job_status == StreamJobStatus::Creating
}

/// The job of the table is being created and cannot be taken up again: it was created in the
/// foreground, its fragments were not persisted, or it was not running yet.
pub open spec fn dirty_job(fragments: Map<u32, JobFragmentsModel>) -> spec_fn(TableModel) -> bool {
    |t: TableModel|
        {
            &&& t.stream_job_status == StreamJobStatus::Creating
            &&& t.table_type != TableType::Internal
            &&& t.create_type == CreateType::Foreground || !fragments.contains_key(t.id)
                || fragments[t.id].is_initial
        }
}

/// The job of the table is being created and is taken up again.
pub open spec fn surviving_job(fragments: Map<u32, JobFragmentsModel>) -> spec_fn(TableModel) -> bool {
    |t: TableModel|
        {
            &&& t.stream_job_status == StreamJobStatus::Creating
            &&& t.table_type != TableType::Internal
            &&& !dirty_job(fragments)(t)
        }
}

/// The internal tables of the jobs that are taken up again.
pub open spec fn reserved_tables(db: DatabaseManagerModel, fragments: Map<u32, JobFragmentsModel>) -> Seq<u32> {
    gather(
        values_where(db.tables, surviving_job(fragments)),
        |t: TableModel| fragments[t.id].internal_table_ids,
    )
}

/// The table is an internal table of a job that is being created, and is not `reserved`.
pub open spec fn dirty_internal_table(reserved: Seq<u32>) -> spec_fn(TableModel) -> bool {
    |t: TableModel|
        {
            &&& t.stream_job_status == StreamJobStatus::Creating
            &&& t.table_type == TableType::Internal
            &&& !reserved.contains(t.id)
        }
}

/// The jobs that are cleaned up.
pub open spec fn dirty_jobs(db: DatabaseManagerModel, fragments: Map<u32, JobFragmentsModel>) -> Seq<u32> {
    ids_where(db.tables, dirty_job(fragments))
}

/// The tables that are removed: those of the jobs, then the internal tables that no job needs.
pub open spec fn dirty_tables(db: DatabaseManagerModel, fragments: Map<u32, JobFragmentsModel>) -> Seq<u32> {
    dirty_jobs(db, fragments) + ids_where(
        db.tables,
        dirty_internal_table(reserved_tables(db, fragments)),
    )
}

/// A sink that writes into the table is gone.
pub open spec fn lost_sink(sinks: Set<u32>) -> spec_fn(TableModel) -> bool {
    |t: TableModel| !t.incoming_sinks.all(|s: u32| sinks.contains(s))
}

/// The table without the sinks that are gone.
pub open spec fn without_lost_sinks(sinks: Set<u32>) -> spec_fn(TableModel) -> TableModel {
    |t: TableModel|
        TableModel { incoming_sinks: t.incoming_sinks.filter(|s: u32| sinks.contains(s)), ..t }
}

/// The tables that lose a sink, as they are without it.
pub open spec fn sink_losers(db: DatabaseManagerModel) -> Seq<TableModel> {
    image(
        values_where(db.tables, lost_sink(db.sinks.dom())),
        without_lost_sinks(db.sinks.dom()),
    )
}

/// The record of a job that is cleaned up.
pub open spec fn clear_record() -> spec_fn(TableModel) -> DirtyStreamJobClearModel {
    |t: TableModel|
        DirtyStreamJobClearModel {
            id: t.id,
            name: t.name,
            definition: t.definition,
            error: "clear during recovery"@,
        }
}

/// The catalog after the cleaning.
pub open spec fn cleaned(c: CatalogManagerCoreModel, fragments: Map<u32, JobFragmentsModel>) -> CatalogManagerCoreModel {
    let db = c.database;
    let jobs = values_at(db.tables, dirty_jobs(db, fragments));
    CatalogManagerCoreModel {
        database: DatabaseManagerModel {
            tables: updated_at(
                db.tables.remove_keys(dirty_tables(db, fragments).to_set()),
                ids_where(db.tables, lost_sink(db.sinks.dom())),
                without_lost_sinks(db.sinks.dom()),
            ),
            relation_ref_count: lowered(db.relation_ref_count, table_dependencies(jobs)),
            ..db
        },
        user: UserManagerModel {
            catalog_create_ref_count: lowered(
                c.user.catalog_create_ref_count,
                table_owners(jobs),
            ),
            ..c.user
        },
    }
}

/// The messages about the cleaning: the tables that lose a sink, if there are any, and the
/// tables that are removed.
pub open spec fn clean_messages(c: CatalogManagerCoreModel, fragments: Map<u32, JobFragmentsModel>) -> Seq<NotificationModel> {
    let db = c.database;
    let removed = frontend_relations(
        Operation::Delete,
        table_infos(values_at(db.tables, dirty_tables(db, fragments))),
    );
    if sink_losers(db).len() > 0 {
        seq![frontend_relations(Operation::Update, table_infos(sink_losers(db))), removed]
    } else {
        seq![removed]
    }
}

/// Every table stands at its identifier.
pub open spec fn tables_keyed(tables: Map<u32, TableModel>) -> bool {
    forall|id: u32| #[trigger] tables.contains_key(id) ==> tables[id].id == id
}

/// What the cleaning presumes: a job that is taken up again was created in the background, and
/// all references that go are counted.
pub open spec fn clean_presumes(c: CatalogManagerCoreModel, fragments: Map<u32, JobFragmentsModel>) -> bool {
    let db = c.database;
    let jobs = values_at(db.tables, dirty_jobs(db, fragments));
    &&& tables_keyed(db.tables)
    &&& forall|id: u32| #[trigger]
        db.tables.contains_key(id) && surviving_job(fragments)(db.tables[id])
            ==> db.tables[id].create_type == CreateType::Background
    &&& covers(db.relation_ref_count, table_dependencies(jobs))
    &&& covers(c.user.catalog_create_ref_count, table_owners(jobs))
}

/// The members of `v` that are keys of `m`.
fn known_ids<T: Entry>(v: &Vec<u32>, m: &IdMap<T>) -> (r: Vec<u32>)
    ensures
        r@ == v@.filter(|s: u32| m@.dom().contains(s)),
{
    let mut r: Vec<u32> = Vec::new();
    let ghost p = |s: u32| m@.dom().contains(s);
    let mut i: usize = 0;
    proof {
        reveal(Seq::filter);
        assert(v@.take(0) =~= Seq::<u32>::empty());
    }
    while i < v.len()
        invariant
            i <= v.len(),
            p == (|s: u32| m@.dom().contains(s)),
            r@ == v@.take(i as int).filter(p),
        decreases v.len() - i,
    {
        proof {
            reveal(Seq::filter);
            assert(v@.take(i + 1).drop_last() =~= v@.take(i as int));
            assert(v@.take(i + 1).last() == v@[i as int]);
        }
        if m.contains_key(v[i]) {
            r.push(v[i]);
        }
        i = i + 1;
    }
    assert(v@.take(i as int) =~= v@);
    r
}

/// Whether all members of `v` are keys of `m`.
fn all_known<T: Entry>(v: &Vec<u32>, m: &IdMap<T>) -> (r: bool)
    ensures
        r == v@.all(|s: u32| m@.dom().contains(s)),
{
    let ghost p = |s: u32| m@.dom().contains(s);
    let mut i: usize = 0;
    while i < v.len()
        invariant
            i <= v.len(),
            p == (|s: u32| m@.dom().contains(s)),
            forall|k: int| 0 <= k < i ==> p(#[trigger] v@[k]),
        decreases v.len() - i,
    {
        if !m.contains_key(v[i]) {
            assert(!p(v@[i as int]));
            return false;
        }
        i = i + 1;
    }
    true
}

impl CatalogManager {
    /// We clean the following tables:
    /// 1. Those which belonged to incomplete Foreground jobs.
    /// 2. Those which did not persist their table fragments, we can't recover these.
    /// 3. Those which were only initialized, but not actually running yet.
    /// 4. From 2, since we don't have internal table ids from the fragments,
    ///    we can detect hanging table ids by just finding all internal ids
    ///    with:
    ///    1. `stream_job_status` = CREATING
    ///    2. Not belonging to a background stream job.
    ///
    ///    Clean up these hanging tables by the id.
    pub fn clean_dirty_tables(&mut self, fragments: &IdMap<JobFragments>) -> (r: (
        Vec<Notification>,
        Vec<DirtyStreamJobClear>,
    ))
        requires
            clean_presumes(old(self)@, fragments@),
        ensures
            final(self)@ == cleaned(old(self)@, fragments@),
            views(r.0@) == clean_messages(old(self)@, fragments@),
            views(r.1@) == image(
                values_at(
                    old(self)@.database.tables,
                    dirty_jobs(old(self)@.database, fragments@),
                ),
                clear_record(),
            ),
    {
        let ghost c = self@;
        let ghost db = c.database;
        proof {
            self.core.database.tables.lemma_finite();
        }
        // The jobs that cannot be taken up again.
        let f = |t: &Table| -> (b: bool)
            ensures
                b == dirty_job(fragments@)(t@),
        {
            t.stream_job_status == StreamJobStatus::Creating && t.table_type != TableType::Internal
                && (t.create_type == CreateType::Foreground || match fragments.get(t.id) {
                Some(job) => job.is_initial,
                None => true,
            })
        };
        let job_ids = self.core.database.tables.ids_where(f, Ghost(dirty_job(fragments@)));
        let jobs = self.core.database.tables.values_at(&job_ids);
        // The internal tables of the jobs that can.
        let f = |t: &Table| -> (b: bool)
            ensures
                b == surviving_job(fragments@)(t@),
        {
            t.stream_job_status == StreamJobStatus::Creating && t.table_type != TableType::Internal
                && !(t.create_type == CreateType::Foreground || match fragments.get(t.id) {
                Some(job) => job.is_initial,
                None => true,
            })
        };
        let survivors = self.core.database.tables.values_where(f, Ghost(surviving_job(fragments@)));
        let reserved = Self::reserved_of(fragments, &survivors);
        proof {
            assert(reserved@ == reserved_tables(db, fragments@)) by {
                lemma_ids_where(db.tables, surviving_job(fragments@));
                let q = values_where(db.tables, surviving_job(fragments@));
                assert forall|i: int| 0 <= i < q.len() implies fragments@.contains_key(
                    (#[trigger] q[i]).id,
                ) by {
                    let ids = ids_where(db.tables, surviving_job(fragments@));
                    assert(ids.contains(ids[i]));
                    assert(surviving_job(fragments@)(db.tables[ids[i]]));
                }
                lemma_reserved(fragments@, q);
            }
        }
        let f = |t: &Table| -> (b: bool)
            ensures
                b == dirty_internal_table(reserved@)(t@),
        {
            t.stream_job_status == StreamJobStatus::Creating && t.table_type == TableType::Internal
                && !crate::util::ids::contains_id(&reserved, t.id)
        };
        let internal_ids = self.core.database.tables.ids_where(
            f,
            Ghost(dirty_internal_table(reserved@)),
        );
        let mut removed_ids = copy_all(&job_ids);
        let mut part = copy_all(&internal_ids);
        removed_ids.append(&mut part);
        // The tables that lose a sink.
        let sinks = &self.core.database.sinks;
        let ghost known = db.sinks.dom();
        let f = |t: &Table| -> (b: bool)
            ensures
                b == lost_sink(sinks@.dom())(t@),
        {
            !all_known(&t.incoming_sinks, sinks)
        };
        let loser_ids = self.core.database.tables.ids_where(f, Ghost(lost_sink(known)));
        let losers = self.core.database.tables.values_at(&loser_ids);
        let f = |t: &Table| -> (y: Table)
            ensures
                y@ == without_lost_sinks(sinks@.dom())(t@),
        {
            let mut y = t.duplicate();
            y.incoming_sinks = known_ids(&t.incoming_sinks, sinks);
            y
        };
        let pruned = map_all(&losers, f, Ghost(without_lost_sinks(known)));
        proof {
            lemma_ids_where(db.tables, dirty_job(fragments@));
            lemma_ids_where(db.tables, dirty_internal_table(reserved@));
            lemma_ids_where(db.tables, lost_sink(known));
            assert(removed_ids@ =~= dirty_tables(db, fragments@));
            lemma_disjoint_ids(
                db.tables,
                dirty_job(fragments@),
                dirty_internal_table(reserved@),
                removed_ids@,
            );
        }
        let removed = self.core.database.tables.remove_all(&removed_ids);
        let ghost left = self.core.database.tables@;
        let mut i: usize = 0;
        proof {
            assert(left =~= updated_at(left, loser_ids@.take(0), without_lost_sinks(known)));
            assert(views(losers@).len() == loser_ids@.len());
            assert(views(pruned@).len() == losers@.len());
            assert forall|k: int| 0 <= k < pruned@.len() implies (#[trigger] pruned@[k])@
                == without_lost_sinks(known)(db.tables[loser_ids@[k]]) by {
                assert(views(pruned@)[k] == pruned@[k]@);
                assert(views(losers@)[k] == db.tables[loser_ids@[k]]);
            }
        }
        while i < loser_ids.len()
            invariant
                i <= loser_ids.len(),
                loser_ids@.len() == pruned@.len(),
                loser_ids@ == ids_where(db.tables, lost_sink(known)),
                all_in(loser_ids@, db.tables),
                left == db.tables.remove_keys(removed_ids@.to_set()),
                forall|k: int|
                    0 <= k < pruned@.len() ==> (#[trigger] pruned@[k])@ == without_lost_sinks(known)(
                        db.tables[loser_ids@[k]],
                    ),
                self@ == (CatalogManagerCoreModel {
                    database: DatabaseManagerModel {
                        tables: updated_at(
                            left,
                            loser_ids@.take(i as int),
                            without_lost_sinks(known),
                        ),
                        ..db
                    },
                    ..c
                }),
            decreases loser_ids.len() - i,
        {
            let id: u32 = loser_ids[i];
            let ghost seen = loser_ids@.take(i as int);
            proof {
                assert(db.tables.contains_key(loser_ids@[i as int]));
                assert(loser_ids@.take(i + 1) =~= seen.push(id));
                assert(loser_ids@.take(i + 1)[i as int] == id);
                assert forall|x: u32| #[trigger]
                    seen.push(id).contains(x) <==> seen.contains(x) || x == id by {
                    broadcast use vstd::seq_lib::lemma_seq_contains_after_push;

                }
                assert(pruned@[i as int]@ == without_lost_sinks(known)(db.tables[id]));
            }
            let ghost current = self.core.database.tables@;
            proof {
                assert(current.contains_key(id) <==> left.contains_key(id));
                assert(left.contains_key(id) ==> left[id] == db.tables[id]);
            }
            if self.core.database.tables.contains_key(id) {
                self.core.database.tables.insert(id, pruned[i].duplicate());
            }
            assert(self.core.database.tables@ =~= updated_at(
                left,
                loser_ids@.take(i + 1),
                without_lost_sinks(known),
            ));
            i = i + 1;
        }
        assert(loser_ids@.take(i as int) =~= loser_ids@);
        let mut messages: Vec<Notification> = Vec::new();
        let some_losers: bool = pruned.len() > 0;
        if some_losers {
            messages.push(
                Self::notify_frontend_relations(Operation::Update, tables_to_infos(&pruned)),
            );
        }
        messages.push(Self::notify_frontend_relations(Operation::Delete, tables_to_infos(&removed)));
        assert(views(pruned@) =~= sink_losers(db));
        assert(views(messages@) =~= clean_messages(c, fragments@));
        let f = |t: &Table| -> (y: DirtyStreamJobClear)
            ensures
                y@ == clear_record()(t@),
        {
            DirtyStreamJobClear {
                id: t.id,
                name: t.name.clone(),
                definition: t.definition.clone(),
                error: "clear during recovery".to_string(),
            }
        };
        let records = map_all(&jobs, f, Ghost(clear_record()));
        let dependencies = collect_table_dependencies(&jobs);
        lower_all(&mut self.core.database.relation_ref_count, &dependencies);
        let owners = owners_of_tables(&jobs);
        lower_all(&mut self.core.user.catalog_create_ref_count, &owners);
        assert(self@ =~= cleaned(c, fragments@));
        (messages, records)
    }

    /// The internal tables of jobs, one behind the other.
    fn reserved_of(fragments: &IdMap<JobFragments>, jobs: &Vec<Table>) -> (r: Vec<u32>)
        ensures
            r@ == gather(views(jobs@), internal_of(fragments@)),
    {
        let f = |t: &Table| -> (y: Vec<u32>)
            ensures
                y@ == internal_of(fragments@)(t@),
        {
            match fragments.get(t.id) {
                Some(job) => copy_all(&job.internal_table_ids),
                None => {
                    let none: Vec<u32> = Vec::new();
                    assert(none@ =~= Seq::<u32>::empty());
                    none
                },
            }
        };
        crate::util::lists::gather_all(jobs, f, Ghost(internal_of(fragments@)))
    }
}

/// The internal tables of a job, none where it is not known.
spec fn internal_of(fragments: Map<u32, JobFragmentsModel>) -> spec_fn(TableModel) -> Seq<u32> {
    |t: TableModel|
        if fragments.contains_key(t.id) {
            fragments[t.id].internal_table_ids
        } else {
            Seq::empty()
        }
}

proof fn lemma_reserved(fragments: Map<u32, JobFragmentsModel>, q: Seq<TableModel>)
    requires
        forall|i: int| 0 <= i < q.len() ==> fragments.contains_key((#[trigger] q[i]).id),
    ensures
        gather(q, internal_of(fragments)) == gather(
            q,
            |t: TableModel| fragments[t.id].internal_table_ids,
        ),
    decreases q.len(),
{
    if q.len() > 0 {
        let d = q.drop_last();
        assert forall|i: int| 0 <= i < d.len() implies fragments.contains_key((#[trigger] d[i]).id) by {
            assert(d[i] == q[i]);
        }
        lemma_reserved(fragments, d);
        assert(fragments.contains_key(q[q.len() - 1].id));
    }
}

proof fn lemma_disjoint_ids<V>(
    m: Map<u32, V>,
    p: spec_fn(V) -> bool,
    q: spec_fn(V) -> bool,
    ids: Seq<u32>,
)
    requires
        m.dom().finite(),
        ids == ids_where(m, p) + ids_where(m, q),
        forall|v: V| !(#[trigger] p(v) && q(v)),
    ensures
        all_in(ids, m),
        ids.no_duplicates(),
{
    lemma_ids_where(m, p);
    lemma_ids_where(m, q);
    let a = ids_where(m, p);
    let b = ids_where(m, q);
    assert forall|i: int| 0 <= i < ids.len() implies m.contains_key(#[trigger] ids[i]) by {
        if i < a.len() {
            assert(a[i] == ids[i]);
        } else {
            assert(b[i - a.len()] == ids[i]);
        }
    }
    assert forall|i: int, j: int| 0 <= i < ids.len() && 0 <= j < ids.len() && i != j implies ids[i] != ids[j] by {
        if i < a.len() && j >= a.len() {
            assert(a.contains(a[i]) && b.contains(b[j - a.len()]));
            assert(p(m[a[i]]) && q(m[b[j - a.len()]]));
        }
        if j < a.len() && i >= a.len() {
            assert(a.contains(a[j]) && b.contains(b[i - a.len()]));
            assert(p(m[a[j]]) && q(m[b[i - a.len()]]));
        }
    }
}

} // verus!
