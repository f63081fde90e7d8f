//! Questions about fragments and actors that are answered from stored rows.

use std::collections::HashMap;

use vstd::prelude::*;

use crate::catalog::error::{CatalogKind, MetaError, MetaErrorModel, MetaResult};
use crate::fragment::controller::CatalogController;
use crate::fragment::flags::{
    has_flag, injectable, BARRIER_RECV, MVIEW, NOW, SINK, SOURCE, SOURCE_SCAN, STREAM_SCAN, VALUES,
};
use crate::fragment::tree::{backfill_of, found, source_of};
use crate::fragment::types::{
    ConnectorSplit, ConnectorSplitModel, StoredActor, StoredActorModel, StoredFragment,
    StoredFragmentModel,
};
use crate::util::counts::{raised, tally};
use crate::util::groups::{group_at, grouped, lemma_grouped_push, push_at};
use crate::util::id_map::{copy_all, views, Entry, IdMap};
use crate::util::id_set::IdSet;
use crate::util::lists::{append_all, gather, gather_all, keep, lemma_gather_contains, List};
use crate::util::outside::into_group_map;

verus! {

// ---------------------------------------------------------------------------
// How often jobs read other jobs.
// ---------------------------------------------------------------------------

/// A fragment of a job with the fragments that it reads.
#[derive(Debug, PartialEq, Eq)]
pub struct UpstreamRow {
    pub job_id: u32,
    pub fragment_type_mask: u32,
    pub upstream_fragment_id: Vec<u32>,
}

/// The mathematical model of [`UpstreamRow`].
#[verifier::ext_equal]
pub struct UpstreamRowModel {
    pub job_id: u32,
    pub fragment_type_mask: u32,
    pub upstream_fragment_id: Seq<u32>,
}

impl View for UpstreamRow {
    type V = UpstreamRowModel;

    open spec fn view(&self) -> UpstreamRowModel {
        UpstreamRowModel {
            job_id: self.job_id,
            fragment_type_mask: self.fragment_type_mask,
            upstream_fragment_id: self.upstream_fragment_id@,
        }
    }
}

impl Entry for UpstreamRow {
    fn duplicate(&self) -> (r: Self) {
        UpstreamRow {
            job_id: self.job_id,
            fragment_type_mask: self.fragment_type_mask,
            upstream_fragment_id: copy_all(&self.upstream_fragment_id),
        }
    }
}

/// The fragment scans a stream.
pub open spec fn scans_stream() -> spec_fn(UpstreamRowModel) -> bool {
    |r: UpstreamRowModel| has_flag(r.fragment_type_mask, STREAM_SCAN)
}

/// The fragments that a row reads.
pub open spec fn upstreams_of() -> spec_fn(UpstreamRowModel) -> Seq<u32> {
    |r: UpstreamRowModel| r.upstream_fragment_id
}

/// The fragments that the scanning fragments read, as often as they do.
pub open spec fn scanned(q: Seq<UpstreamRowModel>) -> Seq<u32> {
    gather(q.filter(scans_stream()), upstreams_of())
}

/// The row is one of the job that scans a stream.
pub open spec fn scans_of(job_id: u32) -> spec_fn(UpstreamRowModel) -> bool {
    |r: UpstreamRowModel| has_flag(r.fragment_type_mask, STREAM_SCAN) && r.job_id == job_id
}

/// The job has a fragment that scans a stream.
pub open spec fn scanning(q: Seq<UpstreamRowModel>, job_id: u32) -> bool {
    exists|i: int| 0 <= i < q.len() && scans_of(job_id)(#[trigger] q[i])
}

/// The jobs that a job reads, once for each fragment that one of its scanning fragments reads.
pub open spec fn reads(q: Seq<UpstreamRowModel>, jobs: Map<u32, u32>, job_id: u32) -> Seq<u32> {
    let ids = gather(q.filter(scans_of(job_id)), upstreams_of());
    Seq::new(ids.len(), |i: int| jobs[ids[i]])
}

/// What a scanning row of a job reads is read by a scanning row.
proof fn lemma_read_is_scanned(q: Seq<UpstreamRowModel>, job_id: u32, id: u32)
    requires
        gather(q.filter(scans_of(job_id)), upstreams_of()).contains(id),
    ensures
        scanned(q).contains(id),
{
    broadcast use vstd::seq_lib::group_filter_ensures;

    let a = q.filter(scans_of(job_id));
    let b = q.filter(scans_stream());
    lemma_gather_contains(a, upstreams_of(), id);
    let i = choose|i: int| 0 <= i < a.len() && upstreams_of()(#[trigger] a[i]).contains(id);
    let row = a[i];
    assert(scans_of(job_id)(a[i]));
    assert(a.contains(row));
    q.lemma_filter_contains_rev(scans_of(job_id), row);
    let k = choose|k: int| 0 <= k < q.len() && q[k] == row;
    assert(scans_stream()(q[k]));
    assert(b.contains(q[k]));
    let m = choose|m: int| 0 <= m < b.len() && b[m] == row;
    assert(upstreams_of()(b[m]).contains(id));
    lemma_gather_contains(b, upstreams_of(), id);
}

/// The jobs that a job reads, in order and with repeats.
fn list_reads(rows: &Vec<UpstreamRow>, jobs: &IdMap<u32>, job_id: u32) -> (r: Vec<u32>)
    requires
        forall|id: u32| #[trigger] scanned(views(rows@)).contains(id) ==> jobs@.contains_key(id),
    ensures
        r@ == reads(views(rows@), jobs@, job_id),
{
    let f = |x: &UpstreamRow| -> (b: bool)
        ensures
            b == scans_of(job_id)(x@),
    {
        x.fragment_type_mask & STREAM_SCAN != 0 && x.job_id == job_id
    };
    let scans = keep(rows, f, Ghost(scans_of(job_id)));
    let g = |x: &UpstreamRow| -> (u: Vec<u32>)
        ensures
            u@ == upstreams_of()(x@),
    {
        copy_all(&x.upstream_fragment_id)
    };
    let ids = gather_all(&scans, g, Ghost(upstreams_of()));
    let mut r: Vec<u32> = Vec::new();
    let mut i: usize = 0;
    while i < ids.len()
        invariant
            i <= ids.len(),
            ids@ == gather(views(rows@).filter(scans_of(job_id)), upstreams_of()),
            forall|id: u32| #[trigger]
                scanned(views(rows@)).contains(id) ==> jobs@.contains_key(id),
            r@.len() == i,
            forall|k: int| 0 <= k < i ==> r@[k] == jobs@[ids@[k]],
        decreases ids.len() - i,
    {
        proof {
            assert(ids@.contains(ids@[i as int]));
            lemma_read_is_scanned(views(rows@), job_id, ids@[i as int]);
        }
        match jobs.get(ids[i]) {
            Some(job) => {
                r.push(*job);
            },
            None => {
                assert(false);
            },
        }
        i = i + 1;
    }
    assert(r@ =~= reads(views(rows@), jobs@, job_id));
    r
}

impl CatalogController {
    /// The fragments whose jobs [`Self::get_upstream_job_counts`] has to know.
    pub fn scanned_fragments(rows: &Vec<UpstreamRow>) -> (r: Vec<u32>)
        ensures
            r@ == scanned(views(rows@)),
    {
        let f = |x: &UpstreamRow| -> (b: bool)
            ensures
                b == scans_stream()(x@),
        {
            x.fragment_type_mask & STREAM_SCAN != 0
        };
        let scans = keep(rows, f, Ghost(scans_stream()));
        let g = |x: &UpstreamRow| -> (u: Vec<u32>)
            ensures
                u@ == upstreams_of()(x@),
        {
            copy_all(&x.upstream_fragment_id)
        };
        gather_all(&scans, g, Ghost(upstreams_of()))
    }

    /// Gets the counts for each upstream relation that each stream job depends on, out of the
    /// fragments of the jobs and the job of each fragment that they read.
    pub fn get_upstream_job_counts(rows: &Vec<UpstreamRow>, fragment_job_mapping: &IdMap<u32>) -> (r:
        IdMap<IdMap<usize>>)
        requires
            forall|id: u32| #[trigger]
                scanned(views(rows@)).contains(id) ==> fragment_job_mapping@.contains_key(id),
        ensures
            forall|j: u32| #[trigger] r@.contains_key(j) <==> scanning(views(rows@), j),
            forall|j: u32| #[trigger]
                r@.contains_key(j) ==> r@[j] == raised(
                    Map::empty(),
                    reads(views(rows@), fragment_job_mapping@, j),
                ),
    {
        let ghost q = views(rows@);
        let ghost jobs = fragment_job_mapping@;
        let mut r: IdMap<IdMap<usize>> = IdMap::new();
        let mut i: usize = 0;
        while i < rows.len()
            invariant
                i <= rows.len(),
                q == views(rows@),
                jobs == fragment_job_mapping@,
                forall|id: u32| #[trigger]
                    scanned(q).contains(id) ==> fragment_job_mapping@.contains_key(id),
                forall|j: u32| #[trigger] r@.contains_key(j) ==> scanning(q, j),
                forall|k: int| 0 <= k < i && scans_stream()(#[trigger] q[k]) ==> r@.contains_key(
                    q[k].job_id,
                ),
                forall|j: u32| #[trigger]
                    r@.contains_key(j) ==> r@[j] == raised(Map::empty(), reads(q, jobs, j)),
            decreases rows.len() - i,
        {
            let row = &rows[i];
            assert(q[i as int] == row@);
            if row.fragment_type_mask & STREAM_SCAN != 0 && !r.contains_key(row.job_id) {
                let job_id: u32 = row.job_id;
                assert(scans_of(job_id)(q[i as int]));
                let list = list_reads(rows, fragment_job_mapping, job_id);
                r.insert(job_id, tally(&list));
            }
            i = i + 1;
        }
        proof {
            assert forall|j: u32| scanning(q, j) implies #[trigger] r@.contains_key(j) by {
                let k = choose|k: int| 0 <= k < q.len() && scans_of(j)(#[trigger] q[k]);
                assert(scans_stream()(q[k]));
            }
        }
        r
    }

    /// Get all actor ids in the target streaming jobs, out of the pairs of job and actor.
    pub fn get_job_actor_mapping(job_actors: Vec<(u32, u32)>) -> (r: HashMap<u32, Vec<u32>>)
        ensures
            forall|k: u32| #[trigger]
                r@.contains_key(k) <==> grouped(job_actors@).contains_key(k),
            forall|k: u32| #[trigger] r@.contains_key(k) ==> r@[k]@ == grouped(job_actors@)[k],
    {
        into_group_map(job_actors)
    }
}

// ---------------------------------------------------------------------------
// Actors and their places.
// ---------------------------------------------------------------------------

/// An actor with its node and what its fragment does.
#[derive(Debug, Clone, Copy, PartialEq, Eq, Structural)]
pub struct ActorRow {
    pub actor_id: u32,
    pub worker_id: u32,
    pub fragment_type_mask: u32,
}

/// The actors of each node, and those among them at which barriers are injected.
#[derive(Debug, PartialEq, Eq)]
pub struct ActorInfos {
    pub actor_maps: IdMap<List<u32>>,
    pub barrier_inject_actor_maps: IdMap<List<u32>>,
}

/// The node and the identifier of each actor.
pub open spec fn placed_actors(q: Seq<ActorRow>) -> Seq<(u32, u32)> {
    Seq::new(q.len(), |i: int| (q[i].worker_id, q[i].actor_id))
}

/// Barriers are injected at the actor.
pub open spec fn row_injectable() -> spec_fn(ActorRow) -> bool {
    |a: ActorRow| injectable(a.fragment_type_mask)
}

/// An actor of a fragment of a sink.
#[derive(Debug, Clone, Copy, PartialEq, Eq, Structural)]
pub struct SinkActorRow {
    pub actor_id: u32,
    pub sink_id: u32,
    pub fragment_type_mask: u32,
}

/// A sink with the actors that write to it.
#[derive(Debug, PartialEq, Eq)]
pub struct SinkActors {
    pub name: String,
    pub actors: Vec<u32>,
}

/// The mathematical model of [`SinkActors`].
#[verifier::ext_equal]
pub struct SinkActorsModel {
    pub name: Seq<char>,
    pub actors: Seq<u32>,
}

impl View for SinkActors {
    type V = SinkActorsModel;

    open spec fn view(&self) -> SinkActorsModel {
        SinkActorsModel { name: self.name@, actors: self.actors@ }
    }
}

impl Entry for SinkActors {
    fn duplicate(&self) -> (r: Self) {
        SinkActors { name: self.name.clone(), actors: copy_all(&self.actors) }
    }
}

/// The actor writes to its sink.
pub open spec fn writes_sink() -> spec_fn(SinkActorRow) -> bool {
    |a: SinkActorRow| has_flag(a.fragment_type_mask, SINK)
}

/// The sinks that are written to, with their names and the actors that write.
pub open spec fn sink_actors(
    q: Seq<SinkActorRow>,
    names: Map<u32, Seq<char>>,
) -> Map<u32, SinkActorsModel>
    decreases q.len(),
{
    if q.len() == 0 {
        Map::empty()
    } else {
        let m = sink_actors(q.drop_last(), names);
        let a = q.last();
        if !writes_sink()(a) {
            m
        } else if m.contains_key(a.sink_id) {
            m.insert(
                a.sink_id,
                SinkActorsModel { actors: m[a.sink_id].actors.push(a.actor_id), ..m[a.sink_id] },
            )
        } else {
            m.insert(
                a.sink_id,
                SinkActorsModel { name: names[a.sink_id], actors: seq![a.actor_id] },
            )
        }
    }
}

/// Lists under their keys, each behind what stands there.
pub open spec fn extended(q: Seq<(u32, Seq<u32>)>) -> Map<u32, Seq<u32>>
    decreases q.len(),
{
    if q.len() == 0 {
        Map::empty()
    } else {
        let m = extended(q.drop_last());
        m.insert(q.last().0, group_at(m, q.last().0) + q.last().1)
    }
}

/// The models of keyed lists.
pub open spec fn list_views(q: Seq<(u32, Vec<u32>)>) -> Seq<(u32, Seq<u32>)> {
    Seq::new(q.len(), |i: int| (q[i].0, q[i].1@))
}

/// The pairs with their parts exchanged.
pub open spec fn turned(q: Seq<(u32, u32)>) -> Seq<(u32, u32)> {
    Seq::new(q.len(), |i: int| (q[i].1, q[i].0))
}

impl CatalogController {
    /// Check if the fragment type mask is injectable.
    pub fn is_injectable(fragment_type_mask: u32) -> (r: bool)
        ensures
            r == injectable(fragment_type_mask),
    {
        let flags: u32 = SOURCE | NOW | VALUES | BARRIER_RECV;
        proof {
            let mask = fragment_type_mask;
            assert((mask & (1u32 | 8u32 | 64u32 | 32u32) != 0) == (mask & 1u32 != 0 || mask & 8u32
                != 0 || mask & 64u32 != 0 || mask & 32u32 != 0)) by (bit_vector);
        }
        fragment_type_mask & flags != 0
    }

    /// Load all running actors that need to be sent or collected, out of the rows of the running
    /// actors.
    pub fn load_all_actors(actor_info: &Vec<ActorRow>) -> (r: ActorInfos)
        ensures
            r.actor_maps@ == grouped(placed_actors(actor_info@)),
            r.barrier_inject_actor_maps@ == grouped(
                placed_actors(actor_info@.filter(row_injectable())),
            ),
    {
        let ghost q = actor_info@;
        let mut actor_maps: IdMap<List<u32>> = IdMap::new();
        let mut barrier_inject_actor_maps: IdMap<List<u32>> = IdMap::new();
        let mut i: usize = 0;
        proof {
            reveal(Seq::filter);
            assert(q.take(0) =~= Seq::empty());
            assert(placed_actors(q.take(0)) =~= Seq::empty());
            assert(placed_actors(q.take(0).filter(row_injectable())) =~= Seq::empty());
        }
        while i < actor_info.len()
            invariant
                i <= actor_info.len(),
                q == actor_info@,
                actor_maps@ == grouped(placed_actors(q.take(i as int))),
                barrier_inject_actor_maps@ == grouped(
                    placed_actors(q.take(i as int).filter(row_injectable())),
                ),
            decreases actor_info.len() - i,
        {
            let row = actor_info[i];
            let ghost pair = (row.worker_id, row.actor_id);
            proof {
                reveal(Seq::filter);
                assert(q.take(i + 1).drop_last() =~= q.take(i as int));
                assert(q.take(i + 1).last() == row);
                assert(placed_actors(q.take(i + 1)) =~= placed_actors(q.take(i as int)).push(
                    pair,
                ));
                lemma_grouped_push(Map::empty(), placed_actors(q.take(i as int)), pair);
                let kept = q.take(i as int).filter(row_injectable());
                assert(placed_actors(kept.push(row)) =~= placed_actors(kept).push(pair));
                lemma_grouped_push(Map::empty(), placed_actors(kept), pair);
            }
            push_at(&mut actor_maps, row.worker_id, row.actor_id);
            if Self::is_injectable(row.fragment_type_mask) {
                push_at(&mut barrier_inject_actor_maps, row.worker_id, row.actor_id);
            }
            i = i + 1;
        }
        assert(q.take(i as int) =~= q);
        ActorInfos { actor_maps, barrier_inject_actor_maps }
    }

    /// The actors of each node, out of the pairs of actor and node.
    pub fn get_worker_actor_ids(actor_workers: &Vec<(u32, u32)>) -> (r: IdMap<List<u32>>)
        ensures
            r@ == grouped(turned(actor_workers@)),
    {
        let ghost q = turned(actor_workers@);
        let mut r: IdMap<List<u32>> = IdMap::new();
        let mut i: usize = 0;
        assert(q.take(0) =~= Seq::empty());
        while i < actor_workers.len()
            invariant
                i <= actor_workers.len(),
                q == turned(actor_workers@),
                r@ == grouped(q.take(i as int)),
            decreases actor_workers.len() - i,
        {
            proof {
                assert(q.take(i + 1) =~= q.take(i as int).push(q[i as int]));
                lemma_grouped_push(Map::empty(), q.take(i as int), q[i as int]);
            }
            push_at(&mut r, actor_workers[i].1, actor_workers[i].0);
            i = i + 1;
        }
        assert(q.take(i as int) =~= q);
        r
    }

    /// Try to get internal table ids of each streaming job, out of the jobs and state tables of
    /// all fragments, where they could be read.
    pub fn get_job_internal_table_ids(job_state_tables: Option<&Vec<(u32, Vec<u32>)>>) -> (r: Option<
        IdMap<List<u32>>,
    >)
        ensures
            match job_state_tables {
                Some(rows) => r is Some && r->0@ == extended(list_views(rows@)),
                None => r is None,
            },
    {
        let rows = match job_state_tables {
            Some(rows) => rows,
            None => {
                return None;
            },
        };
        let ghost q = list_views(rows@);
        let mut r: IdMap<List<u32>> = IdMap::new();
        let mut i: usize = 0;
        assert(q.take(0) =~= Seq::empty());
        while i < rows.len()
            invariant
                i <= rows.len(),
                q == list_views(rows@),
                r@ == extended(q.take(i as int)),
            decreases rows.len() - i,
        {
            let ghost before = r@;
            let job_id: u32 = rows[i].0;
            proof {
                assert(q.take(i + 1).drop_last() =~= q.take(i as int));
                assert(q.take(i + 1).last() == (job_id, rows@[i as int].1@));
            }
            let mut list: List<u32> = match r.remove(job_id) {
                Some(list) => list,
                None => List::empty(),
            };
            append_all(&mut list.items, copy_all(&rows[i].1));
            proof {
                assert(views(rows@[i as int].1@) =~= rows@[i as int].1@);
                assert(list@ == group_at(before, job_id) + rows@[i as int].1@);
            }
            r.insert(job_id, list);
            assert(r@ =~= extended(q.take(i + 1)));
            i = i + 1;
        }
        assert(q.take(i as int) =~= q);
        Some(r)
    }

    /// The actors that write to each sink, out of the names of the sinks and the actors of their
    /// fragments.
    pub fn list_sink_actor_mapping(
        sink_name_mapping: &IdMap<String>,
        actor_with_type: &Vec<SinkActorRow>,
    ) -> (r: IdMap<SinkActors>)
        requires
            forall|i: int|
                0 <= i < actor_with_type@.len() && writes_sink()(#[trigger] actor_with_type@[i])
                    ==> sink_name_mapping@.contains_key(actor_with_type@[i].sink_id),
        ensures
            r@ == sink_actors(actor_with_type@, sink_name_mapping@),
    {
        let ghost q = actor_with_type@;
        let mut r: IdMap<SinkActors> = IdMap::new();
        let mut i: usize = 0;
        assert(q.take(0) =~= Seq::empty());
        while i < actor_with_type.len()
            invariant
                i <= actor_with_type.len(),
                q == actor_with_type@,
                forall|k: int|
                    0 <= k < q.len() && writes_sink()(#[trigger] q[k])
                        ==> sink_name_mapping@.contains_key(q[k].sink_id),
                r@ == sink_actors(q.take(i as int), sink_name_mapping@),
            decreases actor_with_type.len() - i,
        {
            let row = actor_with_type[i];
            proof {
                assert(q.take(i + 1).drop_last() =~= q.take(i as int));
                assert(q.take(i + 1).last() == q[i as int]);
                assert(row == q[i as int]);
            }
            if row.fragment_type_mask & SINK != 0 {
                assert(writes_sink()(q[i as int]));
                match r.remove(row.sink_id) {
                    Some(entry) => {
                        let mut entry = entry;
                        entry.actors.push(row.actor_id);
                        r.insert(row.sink_id, entry);
                    },
                    None => match sink_name_mapping.get(row.sink_id) {
                        Some(name) => {
                            let mut actors: Vec<u32> = Vec::new();
                            actors.push(row.actor_id);
                            r.insert(row.sink_id, SinkActors { name: name.clone(), actors });
                        },
                        None => {
                            assert(false);
                        },
                    },
                }
                assert(r@ =~= sink_actors(q.take(i + 1), sink_name_mapping@));
            }
            i = i + 1;
        }
        assert(q.take(i as int) =~= q);
        r
    }
}

// ---------------------------------------------------------------------------
// Splits.
// ---------------------------------------------------------------------------

/// What each actor gets.
pub open spec fn assignment_views(q: Seq<(u32, Vec<ConnectorSplit>)>) -> Seq<
    (u32, Seq<ConnectorSplitModel>),
> {
    Seq::new(q.len(), |i: int| (q[i].0, views(q[i].1@)))
}

/// The actor with these splits behind those that it has.
pub open spec fn given(a: StoredActorModel, splits: Seq<ConnectorSplitModel>) -> StoredActorModel {
    StoredActorModel {
        splits: Some(
            match a.splits {
                Some(s) => s + splits,
                None => splits,
            },
        ),
        ..a
    }
}

/// The actors with the splits that are assigned to them, or the first one that is not known.
pub open spec fn assigned(
    m: Map<u32, StoredActorModel>,
    q: Seq<(u32, Seq<ConnectorSplitModel>)>,
) -> Result<Map<u32, StoredActorModel>, MetaErrorModel>
    decreases q.len(),
{
    if q.len() == 0 {
        Ok(m)
    } else {
        match assigned(m, q.drop_last()) {
            Err(e) => Err(e),
            Ok(n) => if n.contains_key(q.last().0) {
                Ok(n.insert(q.last().0, given(n[q.last().0], q.last().1)))
            } else {
                Err(MetaErrorModel::CatalogIdNotFound(CatalogKind::ActorId, q.last().0))
            },
        }
    }
}

proof fn lemma_first_unknown(
    m: Map<u32, StoredActorModel>,
    q: Seq<(u32, Seq<ConnectorSplitModel>)>,
    k: int,
)
    requires
        0 <= k <= q.len(),
        assigned(m, q.take(k)) is Err,
    ensures
        assigned(m, q) == assigned(m, q.take(k)),
    decreases q.len() - k,
{
    if k < q.len() {
        assert(q.take(k + 1).drop_last() =~= q.take(k));
        lemma_first_unknown(m, q, k + 1);
    } else {
        assert(q.take(k) =~= q);
    }
}

impl CatalogController {
    /// Adds splits to actors, in the order in which the assignment is walked. Where an actor is
    /// not known nothing changes.
    pub fn update_actor_splits(
        actors: &mut IdMap<StoredActor>,
        split_assignment: &Vec<(u32, Vec<ConnectorSplit>)>,
    ) -> (r: MetaResult<()>)
        ensures
            match assigned(old(actors)@, assignment_views(split_assignment@)) {
                Ok(m) => r is Ok && final(actors)@ == m,
                Err(e) => r is Err && r->Err_0@ == e && final(actors)@ == old(actors)@,
            },
    {
        let ghost q = assignment_views(split_assignment@);
        let ghost before = actors@;
        let mut new = actors.duplicate();
        let mut i: usize = 0;
        assert(q.take(0) =~= Seq::empty());
        while i < split_assignment.len()
            invariant
                i <= split_assignment.len(),
                q == assignment_views(split_assignment@),
                before == old(actors)@,
                actors@ == before,
                assigned(before, q.take(i as int)) == Ok::<_, MetaErrorModel>(new@),
            decreases split_assignment.len() - i,
        {
            let actor_id: u32 = split_assignment[i].0;
            let splits = &split_assignment[i].1;
            proof {
                assert(q.take(i + 1).drop_last() =~= q.take(i as int));
                assert(q.take(i + 1).last() == (actor_id, views(splits@)));
            }
            match new.remove(actor_id) {
                None => {
                    proof {
                        lemma_first_unknown(before, q, i + 1);
                    }
                    return Err(MetaError::CatalogIdNotFound(CatalogKind::ActorId, actor_id));
                },
                Some(actor) => {
                    let ghost had = actor@;
                    let mut actor = actor;
                    let mut list: List<ConnectorSplit> = match actor.splits.take() {
                        Some(list) => list,
                        None => List::empty(),
                    };
                    append_all(&mut list.items, crate::util::id_map::duplicate_all(splits));
                    actor.splits = Some(list);
                    assert(actor@ =~= given(had, views(splits@)));
                    new.insert(actor_id, actor);
                },
            }
            assert(new@ =~= assigned(before, q.take(i + 1))->Ok_0);
            i = i + 1;
        }
        assert(q.take(i as int) =~= q);
        *actors = new;
        Ok(())
    }
}

// ---------------------------------------------------------------------------
// Sources.
// ---------------------------------------------------------------------------

/// The fragments that read each source.
pub open spec fn source_fragments(q: Seq<StoredFragmentModel>) -> Map<u32, Set<u32>>
    decreases q.len(),
{
    if q.len() == 0 {
        Map::empty()
    } else {
        let m = source_fragments(q.drop_last());
        let f = q.last();
        if !has_flag(f.fragment_type_mask, SOURCE) {
            m
        } else {
            match found(f.stream_node, source_of()) {
                None => m,
                Some(id) => m.insert(
                    id,
                    (if m.contains_key(id) {
                        m[id]
                    } else {
                        Set::empty()
                    }).insert(f.fragment_id),
                ),
            }
        }
    }
}

/// The fragments that backfill each source, each with the fragment that it reads, or the first
/// that does not read just one.
pub open spec fn backfill_fragments(q: Seq<StoredFragmentModel>) -> Result<
    Map<u32, Map<u32, u32>>,
    MetaErrorModel,
>
    decreases q.len(),
{
    if q.len() == 0 {
        Ok(Map::empty())
    } else {
        match backfill_fragments(q.drop_last()) {
            Err(e) => Err(e),
            Ok(m) => {
                let f = q.last();
                if !has_flag(f.fragment_type_mask, SOURCE_SCAN) {
                    Ok(m)
                } else {
                    match found(f.stream_node, backfill_of()) {
                        None => Ok(m),
                        Some(id) => if f.upstream_fragment_id.len() != 1 {
                            Err(
                                MetaErrorModel::BackfillUpstreams(
                                    f.upstream_fragment_id.len() as usize,
                                    f.fragment_id,
                                ),
                            )
                        } else {
                            Ok(
                                m.insert(
                                    id,
                                    (if m.contains_key(id) {
                                        m[id]
                                    } else {
                                        Map::empty()
                                    }).insert(f.fragment_id, f.upstream_fragment_id[0]),
                                ),
                            )
                        },
                    }
                }
            },
        }
    }
}

proof fn lemma_first_bad_backfill(q: Seq<StoredFragmentModel>, k: int)
    requires
        0 <= k <= q.len(),
        backfill_fragments(q.take(k)) is Err,
    ensures
        backfill_fragments(q) == backfill_fragments(q.take(k)),
    decreases q.len() - k,
{
    if k < q.len() {
        assert(q.take(k + 1).drop_last() =~= q.take(k));
        lemma_first_bad_backfill(q, k + 1);
    } else {
        assert(q.take(k) =~= q);
    }
}

impl CatalogController {
    /// The fragments that read each source.
    pub fn load_source_fragment_ids(fragments: &Vec<StoredFragment>) -> (r: IdMap<IdSet>)
        ensures
            r@ == source_fragments(views(fragments@)),
    {
        let ghost q = views(fragments@);
        let mut r: IdMap<IdSet> = IdMap::new();
        let mut i: usize = 0;
        assert(q.take(0) =~= Seq::empty());
        while i < fragments.len()
            invariant
                i <= fragments.len(),
                q == views(fragments@),
                r@ == source_fragments(q.take(i as int)),
            decreases fragments.len() - i,
        {
            let f = &fragments[i];
            proof {
                assert(q.take(i + 1).drop_last() =~= q.take(i as int));
                assert(q.take(i + 1).last() == f@);
            }
            if f.fragment_type_mask & SOURCE != 0 {
                match f.stream_node.find_stream_source() {
                    Some(source_id) => {
                        let mut set: IdSet = match r.remove(source_id) {
                            Some(set) => set,
                            None => IdSet::new(),
                        };
                        set.insert(f.fragment_id);
                        r.insert(source_id, set);
                    },
                    None => {},
                }
            }
            assert(r@ =~= source_fragments(q.take(i + 1)));
            i = i + 1;
        }
        assert(q.take(i as int) =~= q);
        r
    }

    /// The fragments that backfill each source, each with the one fragment that it reads.
    pub fn load_backfill_fragment_ids(fragments: &Vec<StoredFragment>) -> (r: MetaResult<
        IdMap<IdMap<u32>>,
    >)
        ensures
            match backfill_fragments(views(fragments@)) {
                Ok(m) => r is Ok && r->Ok_0@ == m,
                Err(e) => r is Err && r->Err_0@ == e,
            },
    {
        let ghost q = views(fragments@);
        let mut r: IdMap<IdMap<u32>> = IdMap::new();
        let mut i: usize = 0;
        assert(q.take(0) =~= Seq::empty());
        while i < fragments.len()
            invariant
                i <= fragments.len(),
                q == views(fragments@),
                backfill_fragments(q.take(i as int)) == Ok::<_, MetaErrorModel>(r@),
            decreases fragments.len() - i,
        {
            let f = &fragments[i];
            proof {
                assert(q.take(i + 1).drop_last() =~= q.take(i as int));
                assert(q.take(i + 1).last() == f@);
            }
            if f.fragment_type_mask & SOURCE_SCAN != 0 {
                match f.stream_node.find_source_backfill() {
                    Some(source_id) => {
                        let n: usize = f.upstream_fragment_id.len();
                        if n != 1 {
                            proof {
                                lemma_first_bad_backfill(q, i + 1);
                            }
                            return Err(MetaError::BackfillUpstreams(n, f.fragment_id));
                        }
                        let mut of_source: IdMap<u32> = match r.remove(source_id) {
                            Some(m) => m,
                            None => IdMap::new(),
                        };
                        of_source.insert(f.fragment_id, f.upstream_fragment_id[0]);
                        r.insert(source_id, of_source);
                    },
                    None => {},
                }
            }
            assert(r@ =~= backfill_fragments(q.take(i + 1))->Ok_0);
            i = i + 1;
        }
        assert(q.take(i as int) =~= q);
        Ok(r)
    }
}

// ---------------------------------------------------------------------------
// The parallelism of a job.
// ---------------------------------------------------------------------------

/// A fragment with the number of its actors.
#[derive(Debug, Clone, Copy, PartialEq, Eq, Structural)]
pub struct ParallelismRow {
    pub fragment_id: u32,
    pub fragment_type_mask: u32,
    pub count: usize,
}

/// The fragment writes what the job produces.
pub open spec fn writes_result() -> spec_fn(ParallelismRow) -> bool {
    |r: ParallelismRow|
        has_flag(r.fragment_type_mask, MVIEW) || has_flag(r.fragment_type_mask, SINK)
}

impl CatalogController {
    /// Get the actor count of `Materialize` or `Sink` fragment of the specified table, where there
    /// is just one such fragment.
    pub fn get_actual_job_fragment_parallelism(fragments: &Vec<ParallelismRow>) -> (r: Option<usize>)
        ensures
            ({
                let kept = fragments@.filter(writes_result());
                r == if kept.len() == 1 {
                    Some(kept[0].count)
                } else {
                    None
                }
            }),
    {
        let ghost q = fragments@;
        let mut kept: Vec<ParallelismRow> = Vec::new();
        let mut i: usize = 0;
        proof {
            reveal(Seq::filter);
            assert(q.take(0) =~= Seq::empty());
        }
        while i < fragments.len()
            invariant
                i <= fragments.len(),
                q == fragments@,
                kept@ == q.take(i as int).filter(writes_result()),
            decreases fragments.len() - i,
        {
            let row = fragments[i];
            proof {
                reveal(Seq::filter);
                assert(q.take(i + 1).drop_last() =~= q.take(i as int));
                assert(q.take(i + 1).last() == row);
            }
            if row.fragment_type_mask & MVIEW != 0 || row.fragment_type_mask & SINK != 0 {
                kept.push(row);
            }
            i = i + 1;
        }
        assert(q.take(i as int) =~= q);
        if kept.len() == 1 {
            Some(kept[0].count)
        } else {
            None
        }
    }
}

} // verus!
