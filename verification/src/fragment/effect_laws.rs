//! What the fragments and their actors are put together from, where they are moved, and what the
//! questions about them are answered.

use vstd::prelude::*;

use crate::catalog::error::MetaErrorModel;
use crate::fragment::compose::{
    all_upstreams, composed, composed_actor, composed_actors, composed_all, composed_fragment,
    splits_of, statuses,
};
use crate::fragment::extract::{stored_actor, stored_dispatchers, stored_fragment, Stored};
use crate::fragment::flags::{
    has_flag, injectable, BARRIER_RECV, MVIEW, NOW, SINK, SOURCE, SOURCE_SCAN, STREAM_SCAN,
    VALUES,
};
use crate::fragment::jobs::{
    all_actor_ids, all_fragments, attached, job_fragments, placed, placed_all, rows_fragments,
    FragmentActors, JobInfoModel, JobRows,
};
use crate::fragment::migrate::{moved, remapped, remapped_fragment, target, touched, touched_all};
use crate::fragment::queries::{
    actor_among, counted_fragments, described, fragment_among, fragment_with,
    fragments_and_actors, fragments_of, in_jobs, job_among, jobs_of, runs, location_of,
    mapping_of, of_created_job, running_in, selected, state_tables_of, upstream_row,
    upstreams_of_actor, wanted_of, ActorInJob,
};
use crate::fragment::rows::{
    assigned, backfill_fragments, extended, given, placed_actors, row_injectable, scanned,
    scans_stream, sink_actors, source_fragments, turned, upstreams_of, writes_result, ActorRow,
    ParallelismRow, SinkActorRow, UpstreamRowModel,
};
use crate::fragment::single::{
    chain_fragments, fragment_at, fragment_is, in_fragment, mview_fragment, put_together, roots,
    strategies, writes_mview_of, DispatchStrategyModel,
};
use crate::fragment::tree::{
    backfill_of, cleared, found, found_in, link_map, link_of, linked, links_of, links_of_all,
    source_of, visited, visited_all, NodeBodyModel, StreamNodeModel,
};
use crate::fragment::types::{
    ActorState, ActorStatusModel, ConnectorSplitModel, DispatcherModel, FragmentModel, JobStatus,
    ParallelUnit, StoredActorModel, StoredDispatcherModel, StoredFragmentModel, StreamActorModel,
    TableFragmentsModel, VnodeMappingModel,
};
use crate::util::groups::group_at;
use crate::util::ids::{lemma_listing_exists, lemma_occurrences_contains, listing, occurrences};
use crate::util::lists::{image, lemma_gather_contains};

verus! {

// ---------------------------------------------------------------------------
// Putting together and storing.
// ---------------------------------------------------------------------------

/// An actor is put together from its row and its dispatchers: it has its own identifier and fragment, the
/// operators of the fragment with its own upstream actors, its dispatchers in order, its vnodes and its
/// context.
pub proof fn law_composed_actor(
    node: StreamNodeModel,
    a: StoredActorModel,
    d: Seq<StoredDispatcherModel>,
    x: u32,
)
    requires
        a.upstream_actor_ids.dom().finite(),
    ensures
        ({
            let r = composed_actor(node, a, d);
            &&& r.actor_id == a.actor_id
            &&& r.fragment_id == a.fragment_id
            &&& r.vnode_bitmap == a.vnode_bitmap
            &&& r.expr_context == Some(a.expr_context)
            &&& r.mview_definition.len() == 0
            &&& r.nodes is Some
            &&& r.nodes->0.operator_id == node.operator_id
            &&& r.nodes->0.identity == node.identity
            &&& r.nodes->0.input.len() == node.input.len()
            &&& r.dispatcher.len() == d.len()
            &&& forall|i: int| 0 <= i < d.len() ==> #[trigger] r.dispatcher[i] == d[i].dispatcher
            &&& r.upstream_actor_id.contains(x) <==> exists|f: u32| #[trigger]
                a.upstream_actor_ids.contains_key(f) && a.upstream_actor_ids[f].contains(x)
        }),
{
    lemma_visited_all(node.input, linked(a.upstream_actor_ids));
    let m = a.upstream_actor_ids;
    let l = listing(m.dom());
    let p = |f: u32| m[f];
    lemma_listing_exists(m.dom());
    lemma_gather_contains(l, p, x);
    if all_upstreams(m).contains(x) {
        let i = choose|i: int| 0 <= i < l.len() && p(#[trigger] l[i]).contains(x);
        assert(l.contains(l[i]));
        assert(m.contains_key(l[i]));
    }
    if exists|f: u32| #[trigger] m.contains_key(f) && m[f].contains(x) {
        let f = choose|f: u32| #[trigger] m.contains_key(f) && m[f].contains(x);
        assert(l.contains(f));
        let i = choose|i: int| 0 <= i < l.len() && l[i] == f;
        assert(p(l[i]).contains(x));
    }
}

/// Rewriting the operators of a list rewrites each, in order.
proof fn lemma_visited_all(q: Seq<StreamNodeModel>, p: spec_fn(NodeBodyModel) -> NodeBodyModel)
    ensures
        visited_all(q, p).len() == q.len(),
        forall|i: int| 0 <= i < q.len() ==> #[trigger] visited_all(q, p)[i] == visited(q[i], p),
    decreases q.len(),
{
    if q.len() > 0 {
        lemma_visited_all(q.drop_last(), p);
    }
}

/// Rewriting operators keeps their shape: every operator keeps its identifier, its name and its inputs in
/// order, and has the rewritten body.
pub proof fn law_rewriting_keeps_the_shape(n: StreamNodeModel, p: spec_fn(NodeBodyModel) -> NodeBodyModel)
    ensures
        ({
            let r = visited(n, p);
            &&& r.operator_id == n.operator_id
            &&& r.identity == n.identity
            &&& r.node_body == p(n.node_body)
            &&& r.input.len() == n.input.len()
            &&& forall|i: int| 0 <= i < n.input.len() ==> #[trigger] r.input[i] == visited(n.input[i], p)
        }),
{
    lemma_visited_all(n.input, p);
}

/// A merge of a fragment whose actors are known gets exactly these, and loses them when it is stored;
/// everything else of a body stays.
pub proof fn law_links_of_a_body(links: Map<u32, Seq<u32>>, b: NodeBodyModel)
    ensures
        b is Merge && links.contains_key(b->Merge_0.upstream_fragment_id) ==> linked(links)(b) is Merge
            && linked(links)(b)->Merge_0.upstream_actor_id == links[b->Merge_0.upstream_fragment_id]
            && linked(links)(b)->Merge_0.upstream_fragment_id == b->Merge_0.upstream_fragment_id
            && linked(links)(b)->Merge_0.upstream_dispatcher_type
            == b->Merge_0.upstream_dispatcher_type,
        !(b is Merge) || !links.contains_key(b->Merge_0.upstream_fragment_id) ==> linked(links)(b) == b,
        b is Merge ==> cleared()(b) is Merge && cleared()(b)->Merge_0.upstream_actor_id.len() == 0
            && cleared()(b)->Merge_0.upstream_fragment_id == b->Merge_0.upstream_fragment_id
            && cleared()(b)->Merge_0.upstream_dispatcher_type == b->Merge_0.upstream_dispatcher_type,
        !(b is Merge) ==> cleared()(b) == b,
{
}

/// The place and the state of an actor are those of its row.
pub proof fn law_place_of_an_actor(q: Seq<StoredActorModel>, i: int)
    requires
        0 <= i < q.len(),
        forall|j: int| i < j < q.len() ==> (#[trigger] q[j]).actor_id != q[i].actor_id,
    ensures
        ({
            let m = statuses(q);
            let s = m[q[i].actor_id];
            &&& m.contains_key(q[i].actor_id)
            &&& s.state == q[i].status
            &&& s.parallel_unit is Some
            &&& s.parallel_unit->0.id == q[i].parallel_unit_id
            &&& s.parallel_unit->0.worker_node_id == q[i].worker_id
            &&& q[i].splits is Some ==> splits_of(q).contains_key(q[i].actor_id)
                && splits_of(q)[q[i].actor_id] == q[i].splits->0
            &&& q[i].splits is Some ==> crate::fragment::queries::splits_of(q).contains_key(
                q[i].actor_id,
            ) && crate::fragment::queries::splits_of(q)[q[i].actor_id] == q[i].splits->0
        }),
    decreases q.len(),
{
    if i < q.len() - 1 {
        let d = q.drop_last();
        assert forall|j: int| i < j < d.len() implies (#[trigger] d[j]).actor_id != d[i].actor_id by {
            assert(d[j] == q[j]);
        }
        law_place_of_an_actor(d, i);
        assert(q[q.len() - 1].actor_id != q[i].actor_id);
    }
}

/// An actor without a row has no place, and one without splits in any row has none.
pub proof fn law_no_place_without_a_row(q: Seq<StoredActorModel>, id: u32)
    ensures
        (forall|i: int| 0 <= i < q.len() ==> (#[trigger] q[i]).actor_id != id) ==> !statuses(
            q,
        ).contains_key(id),
        (forall|i: int| 0 <= i < q.len() ==> (#[trigger] q[i]).actor_id != id || q[i].splits is None)
            ==> !splits_of(q).contains_key(id) && !crate::fragment::queries::splits_of(q).contains_key(
            id,
        ),
    decreases q.len(),
{
    if q.len() > 0 {
        let d = q.drop_last();
        law_no_place_without_a_row(d, id);
        assert forall|i: int| 0 <= i < d.len() implies #[trigger] d[i] == q[i] by {}
        assert(q[q.len() - 1] == q.last());
        if forall|i: int| 0 <= i < q.len() ==> (#[trigger] q[i]).actor_id != id {
            assert forall|i: int| 0 <= i < d.len() implies (#[trigger] d[i]).actor_id != id by {
                assert(d[i] == q[i]);
            }
        }
        if forall|i: int| 0 <= i < q.len() ==> (#[trigger] q[i]).actor_id != id || q[i].splits is None {
            assert forall|i: int| 0 <= i < d.len() implies (#[trigger] d[i]).actor_id != id || d[i].splits
                is None by {
                assert(d[i] == q[i]);
            }
        }
    }
}

/// A fragment is put together exactly where all its actors are of it; they stand in the order of their
/// rows, each under its own identifier.
pub proof fn law_actors_of_a_fragment(
    f: StoredFragmentModel,
    q: Seq<StoredActorModel>,
    d: Map<u32, Seq<StoredDispatcherModel>>,
)
    ensures
        composed_actors(f, q, d) is Ok <==> forall|i: int|
            0 <= i < q.len() ==> (#[trigger] q[i]).fragment_id == f.fragment_id,
        composed_actors(f, q, d) is Ok ==> {
            let r = composed_actors(f, q, d)->Ok_0;
            &&& r.len() == q.len()
            &&& forall|i: int|
                0 <= i < q.len() ==> (#[trigger] r[i]).actor_id == q[i].actor_id && r[i].fragment_id
                    == f.fragment_id && r[i].vnode_bitmap == q[i].vnode_bitmap
        },
        composed_actors(f, q, d) is Err ==> composed_actors(f, q, d)->Err_0 is FragmentMismatch,
    decreases q.len(),
{
    if q.len() > 0 {
        let e = q.drop_last();
        law_actors_of_a_fragment(f, e, d);
        assert forall|i: int| 0 <= i < e.len() implies #[trigger] e[i] == q[i] by {}
        assert(q[q.len() - 1] == q.last());
        if composed_actors(f, e, d) is Ok && q.last().fragment_id == f.fragment_id {
            assert forall|i: int| 0 <= i < q.len() implies (#[trigger] q[i]).fragment_id == f.fragment_id by {
                if i < e.len() {
                    assert(e[i] == q[i]);
                }
            }
        }
        if forall|i: int| 0 <= i < q.len() ==> (#[trigger] q[i]).fragment_id == f.fragment_id {
            assert forall|i: int| 0 <= i < e.len() implies (#[trigger] e[i]).fragment_id
                == f.fragment_id by {
                assert(e[i] == q[i]);
            }
        }
    }
}

/// What a fragment has beside its actors is what its row has.
pub proof fn law_composed_fragment(f: StoredFragmentModel, actors: Seq<StreamActorModel>)
    ensures
        ({
            let r = composed_fragment(f, actors);
            &&& r.fragment_id == f.fragment_id
            &&& r.fragment_type_mask == f.fragment_type_mask
            &&& r.distribution_type == f.distribution_type
            &&& r.actors == actors
            &&& r.vnode_mapping == Some(f.vnode_mapping)
            &&& r.state_table_ids == f.state_table_ids
            &&& r.upstream_fragment_ids == f.upstream_fragment_id
        }),
{
}

/// The fragments of a job are those that are put together, each under its identifier.
pub proof fn law_fragments_of_a_job(q: Seq<Stored>, x: u32)
    requires
        composed_all(q) is Ok,
    ensures
        composed_all(q)->Ok_0.0.contains_key(x) <==> exists|i: int|
            0 <= i < q.len() && (#[trigger] q[i]).0.fragment_id == x,
        composed_all(q)->Ok_0.0.contains_key(x) ==> composed_all(q)->Ok_0.0[x].fragment_id == x,
        forall|i: int| 0 <= i < q.len() ==> composed(#[trigger] q[i]) is Ok,
    decreases q.len(),
{
    if q.len() > 0 {
        let d = q.drop_last();
        law_fragments_of_a_job(d, x);
        assert forall|i: int| 0 <= i < d.len() implies #[trigger] d[i] == q[i] by {}
        assert(q[q.len() - 1] == q.last());
        let c = composed(q.last())->Ok_0;
        assert(c.0.fragment_id == q.last().0.fragment_id);
        assert forall|i: int| 0 <= i < q.len() implies composed(#[trigger] q[i]) is Ok by {
            if i < d.len() {
                assert(composed(d[i]) is Ok);
            }
        }
        if exists|i: int| 0 <= i < d.len() && (#[trigger] d[i]).0.fragment_id == x {
            let i = choose|i: int| 0 <= i < d.len() && (#[trigger] d[i]).0.fragment_id == x;
            assert(q[i].0.fragment_id == x);
        }
        if exists|i: int| 0 <= i < q.len() && (#[trigger] q[i]).0.fragment_id == x {
            let i = choose|i: int| 0 <= i < q.len() && (#[trigger] q[i]).0.fragment_id == x;
            if i < d.len() {
                assert(d[i].0.fragment_id == x);
            }
        }
    }
}

/// What is put together of a job has its identifier, its state, its context and its parallelism.
pub proof fn law_composed_job(
    job: JobInfoModel,
    q: Seq<FragmentActors>,
    d: Map<u32, Seq<StoredDispatcherModel>>,
)
    ensures
        match job_fragments(job, q, d) {
            Ok(t) => {
                &&& t.table_id == job.job_id
                &&& t.state == job.job_status
                &&& t.parallelism == Some(job.parallelism)
                &&& t.ctx is Some
                &&& job.timezone is Some ==> t.ctx->0.timezone == job.timezone->0
                &&& job.timezone is None ==> t.ctx->0.timezone.len() == 0
            },
            Err(_) => true,
        },
{
}

/// Each fragment of a job goes with its own actors, and with the dispatchers of these and no others.
pub proof fn law_rows_go_with_their_fragment(
    q: Seq<FragmentActors>,
    d: Map<u32, Seq<StoredDispatcherModel>>,
    i: int,
    x: u32,
)
    requires
        0 <= i < q.len(),
        forall|j: int, a: int, b: int|
            #![trigger q[j].1[a], q[i].1[b]]
            0 <= j < i && 0 <= a < q[j].1.len() && 0 <= b < q[i].1.len() ==> q[j].1[a].actor_id
                != q[i].1[b].actor_id,
    ensures
        ({
            let r = attached(q, d);
            let mine = exists|b: int| 0 <= b < q[i].1.len() && (#[trigger] q[i].1[b]).actor_id == x;
            &&& r.len() == q.len()
            &&& r[i].0 == q[i].0
            &&& r[i].1 == q[i].1
            &&& r[i].2.contains_key(x) <==> mine && d.contains_key(x)
            &&& r[i].2.contains_key(x) ==> r[i].2[x] == d[x]
        }),
{
    let r = attached(q, d);
    let ids = crate::fragment::compose::actor_ids(q[i].1);
    let earlier = all_actor_ids(q.take(i));
    let p = |y: FragmentActors| crate::fragment::compose::actor_ids(y.1);
    lemma_gather_contains(q.take(i), p, x);
    if ids.contains(x) {
        let b = choose|b: int| 0 <= b < ids.len() && ids[b] == x;
        assert(q[i].1[b].actor_id == x);
        if earlier.contains(x) {
            let j = choose|j: int| 0 <= j < q.take(i).len() && p(#[trigger] q.take(i)[j]).contains(x);
            let l = crate::fragment::compose::actor_ids(q[j].1);
            assert(q.take(i)[j] == q[j]);
            assert(l.contains(x));
            let a = choose|a: int| 0 <= a < l.len() && l[a] == x;
            assert(q[j].1[a].actor_id == x);
            assert(false);
        }
    }
    if exists|b: int| 0 <= b < q[i].1.len() && (#[trigger] q[i].1[b]).actor_id == x {
        let b = choose|b: int| 0 <= b < q[i].1.len() && (#[trigger] q[i].1[b]).actor_id == x;
        assert(ids[b] == x);
        assert(ids.contains(x));
    }
}

/// What is stored of an actor is its identifier, its fragment, its state and its place, its splits, the
/// upstream actors of its merges, its vnodes and its context. It cannot be stored without its operators
/// or without its place.
pub proof fn law_stored_actor(
    a: StreamActorModel,
    status: Map<u32, ActorStatusModel>,
    splits: Map<u32, Seq<ConnectorSplitModel>>,
)
    ensures
        match stored_actor(a, status, splits) {
            Ok(s) => {
                &&& a.nodes is Some
                &&& status.contains_key(a.actor_id)
                &&& s.actor_id == a.actor_id
                &&& s.fragment_id == a.fragment_id
                &&& s.status == status[a.actor_id].state
                &&& s.parallel_unit_id == status[a.actor_id].parallel_unit->0.id
                &&& s.worker_id == status[a.actor_id].parallel_unit->0.worker_node_id
                &&& splits.contains_key(a.actor_id) ==> s.splits == Some(splits[a.actor_id])
                &&& !splits.contains_key(a.actor_id) ==> s.splits is None
                &&& s.vnode_bitmap == a.vnode_bitmap
                &&& a.expr_context is Some ==> s.expr_context == a.expr_context->0
                &&& s.upstream_actor_ids == link_map(links_of(a.nodes->0))
            },
            Err(e) => {
                &&& a.nodes is None || !status.contains_key(a.actor_id)
                &&& a.nodes is None ==> e is NodesEmpty
                &&& a.nodes is Some ==> e == MetaErrorModel::ActorStatusMissing(
                    a.actor_id,
                    a.fragment_id,
                )
            },
        },
{
}

/// What is stored of a fragment is what it is, under its job, with the operators of its first actor.
pub proof fn law_stored_fragment(job_id: u32, f: FragmentModel)
    requires
        f.actors.len() > 0,
        f.actors[0].nodes is Some,
        f.vnode_mapping is Some,
    ensures
        ({
            let s = stored_fragment(job_id, f);
            &&& s.fragment_id == f.fragment_id
            &&& s.job_id == job_id
            &&& s.fragment_type_mask == f.fragment_type_mask
            &&& s.distribution_type == f.distribution_type
            &&& s.vnode_mapping == f.vnode_mapping->0
            &&& s.state_table_ids == f.state_table_ids
            &&& s.upstream_fragment_id == f.upstream_fragment_ids
            &&& s.stream_node.operator_id == f.actors[0].nodes->0.operator_id
            &&& s.stream_node.identity == f.actors[0].nodes->0.identity
        }),
{
}

/// The dispatchers of an actor are stored under it, in order.
pub proof fn law_stored_dispatchers(q: Seq<StreamActorModel>, i: int)
    requires
        0 <= i < q.len(),
        forall|j: int| i < j < q.len() ==> (#[trigger] q[j]).actor_id != q[i].actor_id,
    ensures
        ({
            let m = stored_dispatchers(q);
            let s = m[q[i].actor_id];
            &&& m.contains_key(q[i].actor_id)
            &&& s.len() == q[i].dispatcher.len()
            &&& forall|k: int|
                0 <= k < s.len() ==> (#[trigger] s[k]).dispatcher == q[i].dispatcher[k] && s[k].actor_id
                    == q[i].actor_id
        }),
    decreases q.len(),
{
    if i < q.len() - 1 {
        let d = q.drop_last();
        assert forall|j: int| i < j < d.len() implies (#[trigger] d[j]).actor_id != d[i].actor_id by {
            assert(d[j] == q[j]);
        }
        law_stored_dispatchers(d, i);
        assert(q[q.len() - 1].actor_id != q[i].actor_id);
    }
}

/// Each actor is asked for on the node where it is placed.
pub proof fn law_actors_are_built_where_they_are_placed(c: crate::fragment::compose::Composed, i: int)
    requires
        0 <= i < c.0.actors.len(),
    ensures
        placed(c).len() == c.0.actors.len(),
        placed(c)[i].1 == c.0.actors[i],
        placed(c)[i].0 == c.1[c.0.actors[i].actor_id].parallel_unit->0.worker_node_id,
{
}

// ---------------------------------------------------------------------------
// Moving.
// ---------------------------------------------------------------------------

/// The target of a unit is what the last entry for it says; a unit without an entry has none.
pub proof fn law_target_of_a_unit(plan: Seq<(u32, ParallelUnit)>, unit: u32)
    ensures
        match target(plan, unit) {
            Some(to) => exists|i: int|
                0 <= i < plan.len() && (#[trigger] plan[i]).0 == unit && plan[i].1 == to && forall|j: int|
                    i < j < plan.len() ==> (#[trigger] plan[j]).0 != unit,
            None => forall|i: int| 0 <= i < plan.len() ==> (#[trigger] plan[i]).0 != unit,
        },
    decreases plan.len(),
{
    if plan.len() > 0 {
        let d = plan.drop_last();
        law_target_of_a_unit(d, unit);
        if plan.last().0 == unit {
            assert(plan[plan.len() - 1].0 == unit && plan[plan.len() - 1].1 == plan.last().1);
        } else {
            match target(d, unit) {
                Some(to) => {
                    let i = choose|i: int|
                        0 <= i < d.len() && (#[trigger] d[i]).0 == unit && d[i].1 == to && forall|j: int|
                            i < j < d.len() ==> (#[trigger] d[j]).0 != unit;
                    assert(plan[i] == d[i]);
                    assert forall|j: int| i < j < plan.len() implies (#[trigger] plan[j]).0 != unit by {
                        if j < d.len() {
                            assert(d[j] == plan[j]);
                        }
                    }
                },
                None => {
                    assert forall|i: int| 0 <= i < plan.len() implies (#[trigger] plan[i]).0 != unit by {
                        if i < d.len() {
                            assert(d[i] == plan[i]);
                        }
                    }
                },
            }
        }
    }
}

/// No unit that is moved to is itself moved, and no unit is moved twice.
pub open spec fn moves_once(plan: Seq<(u32, ParallelUnit)>) -> bool {
    &&& forall|i: int, j: int|
        0 <= i < plan.len() && 0 <= j < plan.len() ==> (#[trigger] plan[i]).0 != (
        #[trigger] plan[j]).1.id
    &&& forall|i: int, j: int|
        0 <= i < j < plan.len() ==> (#[trigger] plan[i]).0 != (#[trigger] plan[j]).0
}

/// An actor on a unit of the plan is moved to the target, on the worker of the target; an actor on
/// another unit stays. Nothing else of it changes.
pub proof fn law_actors_are_moved_to_the_target(a: StoredActorModel, plan: Seq<(u32, ParallelUnit)>)
    requires
        moves_once(plan),
    ensures
        ({
            let r = moved(a, plan);
            &&& target(plan, a.parallel_unit_id) is Some ==> r.parallel_unit_id == target(
                plan,
                a.parallel_unit_id,
            )->0.id && r.worker_id == target(plan, a.parallel_unit_id)->0.worker_node_id
            &&& target(plan, a.parallel_unit_id) is None ==> r == a
            &&& r == (StoredActorModel {
                parallel_unit_id: r.parallel_unit_id,
                worker_id: r.worker_id,
                ..a
            })
        }),
    decreases plan.len(),
{
    if plan.len() > 0 {
        let d = plan.drop_last();
        assert forall|i: int| 0 <= i < d.len() implies #[trigger] d[i] == plan[i] by {}
        assert(plan[plan.len() - 1] == plan.last());
        assert(moves_once(d)) by {
            assert forall|i: int, j: int| 0 <= i < d.len() && 0 <= j < d.len() implies (
            #[trigger] d[i]).0 != (#[trigger] d[j]).1.id by {
                assert(plan[i].0 != plan[j].1.id);
            }
            assert forall|i: int, j: int| 0 <= i < j < d.len() implies (#[trigger] d[i]).0 != (
            #[trigger] d[j]).0 by {
                assert(plan[i].0 != plan[j].0);
            }
        }
        law_actors_are_moved_to_the_target(a, d);
        law_target_of_a_unit(d, a.parallel_unit_id);
        if target(d, a.parallel_unit_id) is Some {
            let i = choose|i: int|
                0 <= i < d.len() && (#[trigger] d[i]).0 == a.parallel_unit_id && d[i].1 == target(
                    d,
                    a.parallel_unit_id,
                )->0;
            assert(plan[i].0 != plan[plan.len() - 1].0);
            assert(plan[plan.len() - 1].0 != plan[i].1.id);
        }
    }
}

/// Every entry of a mapping is replaced by the target of its unit, where it has one; the mapping keeps its
/// length and its indices.
pub proof fn law_mappings_are_moved_to_the_target(m: VnodeMappingModel, plan: Seq<(u32, ParallelUnit)>)
    ensures
        ({
            let r = remapped(m, plan);
            &&& r.original_indices == m.original_indices
            &&& r.data.len() == m.data.len()
            &&& forall|i: int|
                0 <= i < m.data.len() ==> #[trigger] r.data[i] == if target(plan, m.data[i]) is Some {
                    target(plan, m.data[i])->0.id
                } else {
                    m.data[i]
                }
        }),
{
}

/// A mapping is told for a fragment once for each of its actors that is on a unit of the plan, with the
/// mapping that the fragment has; the fragment is remapped exactly where there is one, and nothing else of
/// it changes.
pub proof fn law_fragments_are_remapped_with_their_actors(
    f: StoredFragmentModel,
    actors: Seq<StoredActorModel>,
    plan: Seq<(u32, ParallelUnit)>,
)
    ensures
        ({
            let q = touched(f, actors, plan);
            let r = remapped_fragment(f, actors, plan);
            let some = exists|i: int|
                0 <= i < actors.len() && (#[trigger] actors[i]).fragment_id == f.fragment_id && target(
                    plan,
                    actors[i].parallel_unit_id,
                ) is Some;
            &&& q.len() > 0 <==> some
            &&& forall|k: int|
                0 <= k < q.len() ==> (#[trigger] q[k]).fragment_id == f.fragment_id && q[k].mapping
                    == f.vnode_mapping
            &&& some ==> r.vnode_mapping == remapped(f.vnode_mapping, plan)
            &&& !some ==> r == f
            &&& r == (StoredFragmentModel { vnode_mapping: r.vnode_mapping, ..f })
        }),
    decreases actors.len(),
{
    if actors.len() > 0 {
        let d = actors.drop_last();
        law_fragments_are_remapped_with_their_actors(f, d, plan);
        assert forall|i: int| 0 <= i < d.len() implies #[trigger] d[i] == actors[i] by {}
        assert(actors[actors.len() - 1] == actors.last());
        if exists|i: int|
            0 <= i < d.len() && (#[trigger] d[i]).fragment_id == f.fragment_id && target(
                plan,
                d[i].parallel_unit_id,
            ) is Some {
            let i = choose|i: int|
                0 <= i < d.len() && (#[trigger] d[i]).fragment_id == f.fragment_id && target(
                    plan,
                    d[i].parallel_unit_id,
                ) is Some;
            assert(actors[i] == d[i]);
        }
        if exists|i: int|
            0 <= i < actors.len() && (#[trigger] actors[i]).fragment_id == f.fragment_id && target(
                plan,
                actors[i].parallel_unit_id,
            ) is Some {
            let i = choose|i: int|
                0 <= i < actors.len() && (#[trigger] actors[i]).fragment_id == f.fragment_id && target(
                    plan,
                    actors[i].parallel_unit_id,
                ) is Some;
            if i < d.len() {
                assert(d[i] == actors[i]);
            }
        }
    }
}

// ---------------------------------------------------------------------------
// Questions.
// ---------------------------------------------------------------------------

/// A fragment is described by what it is and by the number of its actors.
pub proof fn law_described_fragment(f: StoredFragmentModel, actors: Seq<StoredActorModel>)
    requires
        actors.len() <= usize::MAX,
    ensures
        ({
            let r = described(f, actors);
            &&& r.fragment_id == f.fragment_id
            &&& r.job_id == f.job_id
            &&& r.fragment_type_mask == f.fragment_type_mask
            &&& r.distribution_type == f.distribution_type
            &&& r.state_table_ids == f.state_table_ids
            &&& r.upstream_fragment_id == f.upstream_fragment_id
            &&& r.parallelism == occurrences(
                image(actors, |a: StoredActorModel| a.fragment_id),
                f.fragment_id,
            )
            &&& r.parallelism > 0 <==> exists|i: int|
                0 <= i < actors.len() && (#[trigger] actors[i]).fragment_id == f.fragment_id
        }),
{
    let ids = fragments_of(actors);
    lemma_occurrences_contains(ids, f.fragment_id);
    if ids.contains(f.fragment_id) {
        let k = choose|k: int| 0 <= k < ids.len() && ids[k] == f.fragment_id;
        assert(actors[k].fragment_id == f.fragment_id);
    }
    if exists|i: int| 0 <= i < actors.len() && (#[trigger] actors[i]).fragment_id == f.fragment_id {
        let i = choose|i: int|
            0 <= i < actors.len() && (#[trigger] actors[i]).fragment_id == f.fragment_id;
        assert(ids[i] == f.fragment_id);
    }
}

/// What is asked of a fragment or of an actor is answered with its own values, each in the field of its
/// name.
pub proof fn law_answers_about_rows(f: StoredFragmentModel, a: StoredActorModel)
    ensures
        state_tables_of()(f).fragment_id == f.fragment_id,
        state_tables_of()(f).job_id == f.job_id,
        state_tables_of()(f).state_table_ids == f.state_table_ids,
        upstream_row()(f).job_id == f.job_id,
        upstream_row()(f).fragment_type_mask == f.fragment_type_mask,
        upstream_row()(f).upstream_fragment_id == f.upstream_fragment_id,
        mapping_of()(f).fragment_id == f.fragment_id,
        mapping_of()(f).mapping == f.vnode_mapping,
        location_of()(a).actor_id == a.actor_id,
        location_of()(a).fragment_id == a.fragment_id,
        location_of()(a).parallel_unit_id == a.parallel_unit_id,
        location_of()(a).status == a.status,
        upstreams_of_actor()(a).actor_id == a.actor_id,
        upstreams_of_actor()(a).upstream_actor_ids == a.upstream_actor_ids,
{
}

/// Which rows are asked about: the running actors of a fragment, the actors of the fragments that are
/// named, the fragments of jobs that are created, and the actors of a fragment that are wanted.
pub proof fn law_rows_asked_about(
    a: StoredActorModel,
    id: u32,
    filter: Option<Set<u32>>,
    include_inactive: bool,
)
    ensures
        running_in(id)(a) <==> a.fragment_id == id && a.status == ActorState::Running,
        selected(filter)(a) <==> (filter is Some ==> filter->0.contains(a.fragment_id)),
        wanted_of(id, include_inactive)(a) <==> a.fragment_id == id && (a.status == ActorState::Running
            || include_inactive),
{
}

/// The job of a fragment is that of its last row.
pub proof fn law_job_of_a_fragment(q: Seq<StoredFragmentModel>, i: int)
    requires
        0 <= i < q.len(),
        forall|j: int| i < j < q.len() ==> (#[trigger] q[j]).fragment_id != q[i].fragment_id,
    ensures
        jobs_of(q).contains_key(q[i].fragment_id),
        jobs_of(q)[q[i].fragment_id] == q[i].job_id,
    decreases q.len(),
{
    if i < q.len() - 1 {
        let d = q.drop_last();
        assert forall|j: int| i < j < d.len() implies (#[trigger] d[j]).fragment_id != d[i].fragment_id by {
            assert(d[j] == q[j]);
        }
        law_job_of_a_fragment(d, i);
        assert(q[q.len() - 1].fragment_id != q[i].fragment_id);
    }
}

/// The first row of a fragment is found, where it has one.
proof fn lemma_fragment_with(q: Seq<StoredFragmentModel>, id: u32)
    ensures
        match fragment_with(q, id) {
            Some(f) => f.fragment_id == id && q.contains(f),
            None => forall|i: int| 0 <= i < q.len() ==> (#[trigger] q[i]).fragment_id != id,
        },
    decreases q.len(),
{
    if q.len() > 0 {
        if q[0].fragment_id == id {
            assert(q.contains(q[0]));
        } else {
            let d = q.drop_first();
            lemma_fragment_with(d, id);
            assert forall|i: int| 0 <= i < d.len() implies #[trigger] d[i] == q[i + 1] by {}
            match fragment_with(d, id) {
                Some(f) => {
                    let k = choose|k: int| 0 <= k < d.len() && d[k] == f;
                    assert(q[k + 1] == f);
                },
                None => {
                    assert forall|i: int| 0 <= i < q.len() implies (#[trigger] q[i]).fragment_id != id by {
                        if i > 0 {
                            assert(d[i - 1] == q[i]);
                        }
                    }
                },
            }
        }
    }
}

/// An actor is known with its job exactly where its fragment is known: with its own identifier, worker and
/// state, and with the job and the kind of its fragment.
pub proof fn law_actors_with_their_jobs(
    actors: Seq<StoredActorModel>,
    fragments: Seq<StoredFragmentModel>,
    x: ActorInJob,
)
    ensures
        in_jobs(actors, fragments).contains(x) <==> exists|i: int|
            0 <= i < actors.len() && (#[trigger] actors[i]).actor_id == x.actor_id
                && actors[i].worker_id == x.worker_id && actors[i].status == x.status
                && actors[i].fragment_id == x.fragment_id && fragment_with(
                fragments,
                actors[i].fragment_id,
            ) is Some && fragment_with(fragments, actors[i].fragment_id)->0.job_id == x.job_id
                && fragment_with(fragments, actors[i].fragment_id)->0.fragment_type_mask
                == x.fragment_type_mask,
    decreases actors.len(),
{
    if actors.len() > 0 {
        let d = actors.drop_last();
        let a = actors.last();
        law_actors_with_their_jobs(d, fragments, x);
        lemma_fragment_with(fragments, a.fragment_id);
        assert forall|i: int| 0 <= i < d.len() implies #[trigger] d[i] == actors[i] by {}
        assert(actors[actors.len() - 1] == a);
        let good = |b: StoredActorModel|
            b.actor_id == x.actor_id && b.worker_id == x.worker_id && b.status == x.status
                && b.fragment_id == x.fragment_id && fragment_with(fragments, b.fragment_id) is Some
                && fragment_with(fragments, b.fragment_id)->0.job_id == x.job_id && fragment_with(
                fragments,
                b.fragment_id,
            )->0.fragment_type_mask == x.fragment_type_mask;
        let rest = in_jobs(d, fragments);
        let all = in_jobs(actors, fragments);
        if rest.contains(x) {
            let i = choose|i: int| 0 <= i < d.len() && good(#[trigger] d[i]);
            assert(good(actors[i]));
            let k = choose|k: int| 0 <= k < rest.len() && rest[k] == x;
            assert(all[k] == x);
        }
        if good(a) {
            assert(all[rest.len() as int] == x);
        }
        if all.contains(x) {
            let k = choose|k: int| 0 <= k < all.len() && all[k] == x;
            if k < rest.len() {
                assert(rest[k] == x);
            } else {
                assert(good(actors[actors.len() - 1]));
            }
        }
        if exists|i: int| 0 <= i < actors.len() && good(#[trigger] actors[i]) {
            let i = choose|i: int| 0 <= i < actors.len() && good(#[trigger] actors[i]);
            if i < d.len() {
                assert(good(d[i]));
            }
        }
    }
}

/// A fragment is counted exactly where it has actors, with its own kind and as many as it has.
pub proof fn law_counted_fragments(q: Seq<StoredFragmentModel>, ids: Seq<u32>, x: ParallelismRow)
    requires
        ids.len() <= usize::MAX,
    ensures
        counted_fragments(q, ids).contains(x) <==> exists|i: int|
            0 <= i < q.len() && (#[trigger] q[i]).fragment_id == x.fragment_id && q[i].fragment_type_mask
                == x.fragment_type_mask && occurrences(ids, q[i].fragment_id) > 0 && x.count
                == occurrences(ids, q[i].fragment_id),
    decreases q.len(),
{
    if q.len() > 0 {
        let d = q.drop_last();
        let f = q.last();
        law_counted_fragments(d, ids, x);
        lemma_occurrences_contains(ids, f.fragment_id);
        assert forall|i: int| 0 <= i < d.len() implies #[trigger] d[i] == q[i] by {}
        assert(q[q.len() - 1] == f);
        let good = |g: StoredFragmentModel|
            g.fragment_id == x.fragment_id && g.fragment_type_mask == x.fragment_type_mask
                && occurrences(ids, g.fragment_id) > 0 && x.count == occurrences(ids, g.fragment_id);
        let rest = counted_fragments(d, ids);
        let all = counted_fragments(q, ids);
        if rest.contains(x) {
            let i = choose|i: int| 0 <= i < d.len() && good(#[trigger] d[i]);
            assert(good(q[i]));
            let k = choose|k: int| 0 <= k < rest.len() && rest[k] == x;
            assert(all[k] == x);
        }
        if good(f) {
            assert(all[rest.len() as int] == x);
        }
        if all.contains(x) {
            let k = choose|k: int| 0 <= k < all.len() && all[k] == x;
            if k < rest.len() {
                assert(rest[k] == x);
            } else {
                assert(good(q[q.len() - 1]));
            }
        }
        if exists|i: int| 0 <= i < q.len() && good(#[trigger] q[i]) {
            let i = choose|i: int| 0 <= i < q.len() && good(#[trigger] q[i]);
            if i < d.len() {
                assert(good(d[i]));
            }
        }
    }
}

/// With inactive actors every fragment comes, with all its actors; without them a fragment comes with its
/// running actors, and only where it has one.
pub proof fn law_fragments_with_their_actors(
    fragments: Seq<StoredFragmentModel>,
    actors: Seq<StoredActorModel>,
    include_inactive: bool,
    f: StoredFragmentModel,
    mine: Seq<StoredActorModel>,
)
    ensures
        ({
            let r = fragments_and_actors(fragments, actors, include_inactive);
            let own = actors.filter(
                |a: StoredActorModel|
                    a.fragment_id == f.fragment_id && (include_inactive || a.status
                        == ActorState::Running),
            );
            &&& include_inactive ==> r.len() == fragments.len()
            &&& r.contains((f, mine)) <==> fragments.contains(f) && mine == own && (include_inactive
                || mine.len() > 0)
        }),
{
    broadcast use vstd::seq_lib::group_filter_ensures;

    let all = crate::fragment::queries::with_wanted(fragments, actors, include_inactive);
    let r = fragments_and_actors(fragments, actors, include_inactive);
    let p = crate::fragment::queries::has_actors();
    assert((|a: StoredActorModel|
        a.fragment_id == f.fragment_id && (include_inactive || a.status == ActorState::Running))
        =~= wanted_of(f.fragment_id, include_inactive));
    let own = actors.filter(wanted_of(f.fragment_id, include_inactive));
    if all.contains((f, mine)) {
        let k = choose|k: int| 0 <= k < all.len() && all[k] == (f, mine);
        assert(fragments[k] == f);
        assert(mine == own);
    }
    if fragments.contains(f) && mine == own {
        let k = choose|k: int| 0 <= k < fragments.len() && fragments[k] == f;
        assert(all[k] == (f, mine));
    }
    if !include_inactive {
        if r.contains((f, mine)) {
            let k = choose|k: int| 0 <= k < r.len() && r[k] == (f, mine);
            assert(p(r[k]));
            all.lemma_filter_contains_rev(p, (f, mine));
        }
        if all.contains((f, mine)) && mine.len() > 0 {
            let k = choose|k: int| 0 <= k < all.len() && all[k] == (f, mine);
            assert(all.filter(p).contains(all[k]));
        }
    }
}

/// The fragments that are scanned are those upstream of a fragment that scans a stream.
pub proof fn law_scanned_fragments(q: Seq<UpstreamRowModel>, x: u32)
    ensures
        scanned(q).contains(x) <==> exists|i: int|
            0 <= i < q.len() && has_flag((#[trigger] q[i]).fragment_type_mask, STREAM_SCAN)
                && q[i].upstream_fragment_id.contains(x),
{
    broadcast use vstd::seq_lib::group_filter_ensures;

    let p = scans_stream();
    let l = q.filter(p);
    lemma_gather_contains(l, upstreams_of(), x);
    if scanned(q).contains(x) {
        let k = choose|k: int| 0 <= k < l.len() && upstreams_of()(#[trigger] l[k]).contains(x);
        assert(p(l[k]));
        assert(l.contains(l[k]));
        q.lemma_filter_contains_rev(p, l[k]);
        let i = choose|i: int| 0 <= i < q.len() && q[i] == l[k];
        assert(has_flag(q[i].fragment_type_mask, STREAM_SCAN));
    }
    if exists|i: int|
        0 <= i < q.len() && has_flag((#[trigger] q[i]).fragment_type_mask, STREAM_SCAN)
            && q[i].upstream_fragment_id.contains(x) {
        let i = choose|i: int|
            0 <= i < q.len() && has_flag((#[trigger] q[i]).fragment_type_mask, STREAM_SCAN)
                && q[i].upstream_fragment_id.contains(x);
        assert(l.contains(q[i]));
        let k = choose|k: int| 0 <= k < l.len() && l[k] == q[i];
        assert(upstreams_of()(l[k]).contains(x));
    }
}

/// A barrier is injected into the fragments that read a source, the clock or values, or that receive
/// barriers, and into no others.
pub proof fn law_barriers_are_injected_at_the_start(mask: u32)
    ensures
        injectable(mask) <==> mask & SOURCE != 0 || mask & NOW != 0 || mask & VALUES != 0 || mask
            & BARRIER_RECV != 0,
{
}

/// The actors stand under their workers, and turned round under what they were given with.
pub proof fn law_actors_and_workers(q: Seq<ActorRow>, pairs: Seq<(u32, u32)>, i: int)
    ensures
        placed_actors(q).len() == q.len(),
        0 <= i < q.len() ==> placed_actors(q)[i].0 == q[i].worker_id && placed_actors(q)[i].1
            == q[i].actor_id,
        turned(pairs).len() == pairs.len(),
        0 <= i < pairs.len() ==> turned(pairs)[i].0 == pairs[i].1 && turned(pairs)[i].1 == pairs[i].0,
{
}

/// A sink has the actors that write it, in order and under its name; a sink that no actor writes is not
/// there.
pub proof fn law_actors_of_a_sink(q: Seq<SinkActorRow>, names: Map<u32, Seq<char>>, sink: u32, actor: u32)
    ensures
        ({
            let m = sink_actors(q, names);
            let writes = |a: SinkActorRow| a.sink_id == sink && has_flag(a.fragment_type_mask, SINK);
            &&& m.contains_key(sink) <==> exists|i: int| 0 <= i < q.len() && writes(#[trigger] q[i])
            &&& m.contains_key(sink) ==> m[sink].name == names[sink]
            &&& m.contains_key(sink) ==> (m[sink].actors.contains(actor) <==> exists|i: int|
                0 <= i < q.len() && writes(#[trigger] q[i]) && q[i].actor_id == actor)
        }),
    decreases q.len(),
{
    if q.len() > 0 {
        let d = q.drop_last();
        let a = q.last();
        let writes = |a: SinkActorRow| a.sink_id == sink && has_flag(a.fragment_type_mask, SINK);
        law_actors_of_a_sink(d, names, sink, actor);
        assert forall|i: int| 0 <= i < d.len() implies #[trigger] d[i] == q[i] by {}
        assert(q[q.len() - 1] == a);
        let m = sink_actors(d, names);
        let r = sink_actors(q, names);
        if exists|i: int| 0 <= i < d.len() && writes(#[trigger] d[i]) {
            let i = choose|i: int| 0 <= i < d.len() && writes(#[trigger] d[i]);
            assert(writes(q[i]));
        }
        if exists|i: int| 0 <= i < d.len() && writes(#[trigger] d[i]) && d[i].actor_id == actor {
            let i = choose|i: int| 0 <= i < d.len() && writes(#[trigger] d[i]) && d[i].actor_id == actor;
            assert(writes(q[i]) && q[i].actor_id == actor);
        }
        if exists|i: int| 0 <= i < q.len() && writes(#[trigger] q[i]) {
            let i = choose|i: int| 0 <= i < q.len() && writes(#[trigger] q[i]);
            if i < d.len() {
                assert(writes(d[i]));
            }
        }
        if exists|i: int| 0 <= i < q.len() && writes(#[trigger] q[i]) && q[i].actor_id == actor {
            let i = choose|i: int| 0 <= i < q.len() && writes(#[trigger] q[i]) && q[i].actor_id == actor;
            if i < d.len() {
                assert(writes(d[i]) && d[i].actor_id == actor);
            }
        }
        if writes(a) {
            if m.contains_key(sink) {
                let l = m[sink].actors;
                assert(r[sink].actors == l.push(a.actor_id));
                if l.contains(actor) {
                    let k = choose|k: int| 0 <= k < l.len() && l[k] == actor;
                    assert(l.push(a.actor_id)[k] == actor);
                }
                if a.actor_id == actor {
                    assert(l.push(a.actor_id)[l.len() as int] == actor);
                }
                if r[sink].actors.contains(actor) {
                    let k = choose|k: int|
                        0 <= k < r[sink].actors.len() && r[sink].actors[k] == actor;
                    if k < l.len() {
                        assert(l[k] == actor);
                    }
                }
            } else {
                assert(r[sink].actors == seq![a.actor_id]);
                assert(r[sink].actors[0] == a.actor_id);
            }
        }
    }
}

/// What stands under a job is what its rows say, one behind the other.
pub proof fn law_rows_of_a_job_are_joined(q: Seq<(u32, Seq<u32>)>, row: (u32, Seq<u32>), x: u32)
    ensures
        group_at(extended(q.push(row)), x) == if x == row.0 {
            group_at(extended(q), x) + row.1
        } else {
            group_at(extended(q), x)
        },
        extended(q.push(row)).contains_key(x) <==> extended(q).contains_key(x) || x == row.0,
        extended(Seq::<(u32, Seq<u32>)>::empty()) == Map::<u32, Seq<u32>>::empty(),
{
    assert(q.push(row).drop_last() =~= q);
}

/// An actor gets the new splits behind those that it has, and nothing else of it changes.
pub proof fn law_splits_are_added(a: StoredActorModel, splits: Seq<ConnectorSplitModel>)
    ensures
        ({
            let r = given(a, splits);
            &&& r.splits is Some
            &&& a.splits is Some ==> r.splits->0 == a.splits->0 + splits
            &&& a.splits is None ==> r.splits->0 == splits
            &&& r == (StoredActorModel { splits: r.splits, ..a })
        }),
{
}

/// Splits are assigned exactly where every named actor is known; the actors that are not named stay as
/// they were, and those that are named have at least the new splits.
pub proof fn law_splits_are_assigned(
    m: Map<u32, StoredActorModel>,
    q: Seq<(u32, Seq<ConnectorSplitModel>)>,
)
    ensures
        assigned(m, q) is Ok <==> forall|i: int| 0 <= i < q.len() ==> m.contains_key((#[trigger] q[i]).0),
        assigned(m, q) is Ok ==> {
            let r = assigned(m, q)->Ok_0;
            &&& r.dom() == m.dom()
            &&& forall|x: u32| #[trigger]
                m.contains_key(x) ==> r[x] == (StoredActorModel { splits: r[x].splits, ..m[x] })
            &&& forall|x: u32| #[trigger]
                m.contains_key(x) && (forall|i: int| 0 <= i < q.len() ==> (#[trigger] q[i]).0 != x)
                    ==> r[x] == m[x]
            &&& forall|i: int|
                0 <= i < q.len() ==> r[(#[trigger] q[i]).0].splits is Some && q[i].1.len()
                    <= r[q[i].0].splits->0.len()
        },
    decreases q.len(),
{
    if q.len() > 0 {
        let d = q.drop_last();
        law_splits_are_assigned(m, d);
        assert forall|i: int| 0 <= i < d.len() implies #[trigger] d[i] == q[i] by {}
        assert(q[q.len() - 1] == q.last());
        if assigned(m, d) is Ok {
            let n = assigned(m, d)->Ok_0;
            let id = q.last().0;
            assert(n.contains_key(id) <==> m.contains_key(id)) by {
                assert(n.dom().contains(id) <==> m.dom().contains(id));
            }
            if n.contains_key(id) {
                assert forall|i: int| 0 <= i < q.len() implies m.contains_key((#[trigger] q[i]).0) by {
                    if i < d.len() {
                        assert(m.contains_key(d[i].0));
                    }
                }
                let r = assigned(m, q)->Ok_0;
                assert(r.dom() =~= m.dom());
                assert forall|x: u32| #[trigger]
                    m.contains_key(x) && (forall|i: int| 0 <= i < q.len() ==> (#[trigger] q[i]).0
                        != x) implies r[x] == m[x] by {
                    assert(q[q.len() - 1].0 != x);
                    assert forall|i: int| 0 <= i < d.len() implies (#[trigger] d[i]).0 != x by {
                        assert(q[i].0 != x);
                    }
                }
                assert forall|i: int| 0 <= i < q.len() implies r[(#[trigger] q[i]).0].splits is Some
                    && q[i].1.len() <= r[q[i].0].splits->0.len() by {
                    if i < d.len() {
                        assert(n[d[i].0].splits is Some);
                    }
                }
            } else {
                assert(!m.contains_key(q[q.len() - 1].0));
            }
        } else {
            if forall|i: int| 0 <= i < q.len() ==> m.contains_key((#[trigger] q[i]).0) {
                assert forall|i: int| 0 <= i < d.len() implies m.contains_key((#[trigger] d[i]).0) by {
                    assert(m.contains_key(q[i].0));
                }
            }
        }
    }
}

/// A fragment stands under the source that its operators read, where it is a source; under no other.
pub proof fn law_fragments_of_a_source(q: Seq<StoredFragmentModel>, source: u32, x: u32)
    ensures
        ({
            let m = source_fragments(q);
            (m.contains_key(source) && m[source].contains(x)) <==> exists|i: int|
                0 <= i < q.len() && (#[trigger] q[i]).fragment_id == x && has_flag(
                    q[i].fragment_type_mask,
                    SOURCE,
                ) && found(q[i].stream_node, source_of()) == Some(source)
        }),
    decreases q.len(),
{
    if q.len() > 0 {
        let d = q.drop_last();
        let f = q.last();
        law_fragments_of_a_source(d, source, x);
        let good = |g: StoredFragmentModel|
            g.fragment_id == x && has_flag(g.fragment_type_mask, SOURCE) && found(
                g.stream_node,
                source_of(),
            ) == Some(source);
        assert forall|i: int| 0 <= i < d.len() implies #[trigger] d[i] == q[i] by {}
        assert(q[q.len() - 1] == f);
        if exists|i: int| 0 <= i < d.len() && good(#[trigger] d[i]) {
            let i = choose|i: int| 0 <= i < d.len() && good(#[trigger] d[i]);
            assert(good(q[i]));
        }
        if exists|i: int| 0 <= i < q.len() && good(#[trigger] q[i]) {
            let i = choose|i: int| 0 <= i < q.len() && good(#[trigger] q[i]);
            if i < d.len() {
                assert(good(d[i]));
            }
        }
        if good(f) {
            assert(good(q[q.len() - 1]));
        }
    }
}

/// A fragment that fills a source from behind stands under the source that its operators name, with the
/// one fragment that it reads; one that reads none or several is refused.
pub proof fn law_backfill_fragments(q: Seq<StoredFragmentModel>, i: int)
    requires
        0 <= i < q.len(),
        has_flag(q[i].fragment_type_mask, SOURCE_SCAN),
        found(q[i].stream_node, backfill_of()) is Some,
        forall|j: int| i < j < q.len() ==> (#[trigger] q[j]).fragment_id != q[i].fragment_id,
    ensures
        q[i].upstream_fragment_id.len() != 1 ==> backfill_fragments(q) is Err,
        match backfill_fragments(q) {
            Ok(m) => {
                let source = found(q[i].stream_node, backfill_of())->0;
                &&& m.contains_key(source)
                &&& m[source].contains_key(q[i].fragment_id)
                &&& m[source][q[i].fragment_id] == q[i].upstream_fragment_id[0]
            },
            Err(e) => e is BackfillUpstreams,
        },
    decreases q.len(),
{
    lemma_backfill_errors(q);
    if i < q.len() - 1 {
        let d = q.drop_last();
        assert(d[i] == q[i]);
        assert forall|j: int| i < j < d.len() implies (#[trigger] d[j]).fragment_id != d[i].fragment_id by {
            assert(d[j] == q[j]);
        }
        law_backfill_fragments(d, i);
        assert(q[q.len() - 1].fragment_id != q[i].fragment_id);
    }
}

proof fn lemma_backfill_errors(q: Seq<StoredFragmentModel>)
    ensures
        backfill_fragments(q) is Err ==> backfill_fragments(q)->Err_0 is BackfillUpstreams,
    decreases q.len(),
{
    if q.len() > 0 {
        lemma_backfill_errors(q.drop_last());
    }
}

/// What an operator reads is what its own body says, or else what the first of its inputs says that says
/// something.
pub proof fn law_operators_are_searched_from_the_top(n: StreamNodeModel, p: spec_fn(NodeBodyModel) -> Option<u32>)
    ensures
        p(n.node_body) is Some ==> found(n, p) == p(n.node_body),
        p(n.node_body) is None ==> found(n, p) == found_in(n.input, p),
        forall|i: int|
            #![trigger n.input[i]]
            0 <= i < n.input.len() && found(n.input[i], p) is Some && (forall|j: int|
                0 <= j < i ==> found(#[trigger] n.input[j], p) is None) ==> found_in(n.input, p)
                == found(n.input[i], p),
        (forall|i: int| 0 <= i < n.input.len() ==> found(#[trigger] n.input[i], p) is None) ==> found_in(
            n.input,
            p,
        ) is None,
{
    lemma_found_in(n.input, p);
}

proof fn lemma_found_in(q: Seq<StreamNodeModel>, p: spec_fn(NodeBodyModel) -> Option<u32>)
    ensures
        forall|i: int|
            #![trigger q[i]]
            0 <= i < q.len() && found(q[i], p) is Some && (forall|j: int|
                0 <= j < i ==> found(#[trigger] q[j], p) is None) ==> found_in(q, p) == found(q[i], p),
        (forall|i: int| 0 <= i < q.len() ==> found(#[trigger] q[i], p) is None) ==> found_in(q, p) is None,
    decreases q.len(),
{
    if q.len() > 0 {
        let d = q.drop_last();
        lemma_found_in(d, p);
        assert forall|i: int| 0 <= i < d.len() implies #[trigger] d[i] == q[i] by {}
        assert(q[q.len() - 1] == q.last());
        assert forall|i: int|
            #![trigger q[i]]
            0 <= i < q.len() && found(q[i], p) is Some && (forall|j: int|
                0 <= j < i ==> found(#[trigger] q[j], p) is None) implies found_in(q, p) == found(
            q[i],
            p,
        ) by {
            if i < d.len() {
                assert(d[i] == q[i]);
                assert forall|j: int| 0 <= j < i implies found(#[trigger] d[j], p) is None by {
                    assert(found(q[j], p) is None);
                }
            } else {
                assert forall|j: int| 0 <= j < d.len() implies found(#[trigger] d[j], p) is None by {
                    assert(found(q[j], p) is None);
                }
            }
        }
        if forall|i: int| 0 <= i < q.len() ==> found(#[trigger] q[i], p) is None {
            assert forall|i: int| 0 <= i < d.len() implies found(#[trigger] d[i], p) is None by {
                assert(found(q[i], p) is None);
            }
            assert(found(q[q.len() - 1], p) is None);
        }
    }
}

/// The bodies that name a source, and the one that fills a source from behind.
pub proof fn law_sources_of_a_body(b: NodeBodyModel, id: u32)
    ensures
        source_of()(b) == Some(id) <==> b == NodeBodyModel::Source(Some(id)),
        backfill_of()(b) == Some(id) <==> b == NodeBodyModel::SourceBackfill(id),
{
}

/// The result of a job is written by the fragments that write a materialized view or a sink.
pub proof fn law_fragments_that_write_the_result(r: ParallelismRow)
    ensures
        writes_result()(r) <==> r.fragment_type_mask & MVIEW != 0 || r.fragment_type_mask & SINK != 0,
{
}

/// The root of a job is a fragment of it that writes its view, or else one that reads its source; a job
/// has one exactly where it has such a fragment.
pub proof fn law_root_of_a_job(q: Seq<StoredFragmentModel>, job: u32)
    ensures
        ({
            let m = roots(q);
            let mview = |f: StoredFragmentModel| f.job_id == job && has_flag(f.fragment_type_mask, MVIEW);
            let source = |f: StoredFragmentModel| f.job_id == job && has_flag(f.fragment_type_mask, SOURCE);
            &&& m.contains_key(job) <==> exists|i: int|
                0 <= i < q.len() && (mview(#[trigger] q[i]) || source(q[i]))
            &&& m.contains_key(job) ==> q.contains(m[job]) && (mview(m[job]) || source(m[job]))
            &&& (exists|i: int| 0 <= i < q.len() && mview(#[trigger] q[i])) ==> m.contains_key(job)
                && mview(m[job])
        }),
    decreases q.len(),
{
    if q.len() > 0 {
        let d = q.drop_last();
        let f = q.last();
        law_root_of_a_job(d, job);
        let mview = |f: StoredFragmentModel| f.job_id == job && has_flag(f.fragment_type_mask, MVIEW);
        let source = |f: StoredFragmentModel| f.job_id == job && has_flag(f.fragment_type_mask, SOURCE);
        assert forall|i: int| 0 <= i < d.len() implies #[trigger] d[i] == q[i] by {}
        assert(q[q.len() - 1] == f);
        assert(q.contains(f));
        assert forall|g: StoredFragmentModel| d.contains(g) implies #[trigger] q.contains(g) by {
            let k = choose|k: int| 0 <= k < d.len() && d[k] == g;
            assert(q[k] == g);
        }
        if exists|i: int| 0 <= i < d.len() && (mview(#[trigger] d[i]) || source(d[i])) {
            let i = choose|i: int| 0 <= i < d.len() && (mview(#[trigger] d[i]) || source(d[i]));
            assert(mview(q[i]) || source(q[i]));
        }
        if exists|i: int| 0 <= i < q.len() && (mview(#[trigger] q[i]) || source(q[i])) {
            let i = choose|i: int| 0 <= i < q.len() && (mview(#[trigger] q[i]) || source(q[i]));
            if i < d.len() {
                assert(mview(d[i]) || source(d[i]));
            }
        }
        if exists|i: int| 0 <= i < q.len() && mview(#[trigger] q[i]) {
            let i = choose|i: int| 0 <= i < q.len() && mview(#[trigger] q[i]);
            if i < d.len() {
                assert(mview(d[i]));
            }
        }
    }
}

/// The way to a fragment is that of the dispatcher with its identifier: its kind, its keys and its
/// outputs.
pub proof fn law_way_of_a_dispatcher(q: Seq<DispatcherModel>, i: int)
    requires
        0 <= i < q.len(),
        forall|j: int|
            i < j < q.len() ==> (#[trigger] q[j]).dispatcher_id as u32 != q[i].dispatcher_id as u32,
    ensures
        ({
            let m = strategies(q);
            let w = m[q[i].dispatcher_id as u32];
            &&& m.contains_key(q[i].dispatcher_id as u32)
            &&& w.dispatcher_type == q[i].dispatcher_type
            &&& w.dist_key_indices == q[i].dist_key_indices
            &&& w.output_indices == q[i].output_indices
        }),
    decreases q.len(),
{
    if i < q.len() - 1 {
        let d = q.drop_last();
        assert forall|j: int| i < j < d.len() implies (#[trigger] d[j]).dispatcher_id as u32
            != d[i].dispatcher_id as u32 by {
            assert(d[j] == q[j]);
        }
        law_way_of_a_dispatcher(d, i);
        assert(q[q.len() - 1].dispatcher_id as u32 != q[i].dispatcher_id as u32);
    }
}

/// The fragment that writes the view of a job is one of that job that does; where there is none, that is
/// said. A fragment that is asked for by its identifier has it.
pub proof fn law_fragments_asked_for(
    id: u32,
    fragments: Seq<StoredFragmentModel>,
    actors: Seq<StoredActorModel>,
    dispatchers: Map<u32, Seq<StoredDispatcherModel>>,
)
    ensures
        ({
            let writes = |f: StoredFragmentModel| f.job_id == id && has_flag(f.fragment_type_mask, MVIEW);
            match mview_fragment(id, fragments, actors, dispatchers) {
                Ok(r) => exists|i: int|
                    0 <= i < fragments.len() && writes(#[trigger] fragments[i]) && r.fragment_id
                        == fragments[i].fragment_id && r.fragment_type_mask
                        == fragments[i].fragment_type_mask && r.state_table_ids
                        == fragments[i].state_table_ids,
                Err(e) => e == MetaErrorModel::MviewFragmentMissing(id) ==> forall|i: int|
                    0 <= i < fragments.len() ==> !writes(#[trigger] fragments[i]),
            }
        }),
        match fragment_at(id, fragments, actors, dispatchers) {
            Ok(r) => r.fragment_id == id && exists|i: int|
                0 <= i < fragments.len() && (#[trigger] fragments[i]).fragment_id == id
                    && r.fragment_type_mask == fragments[i].fragment_type_mask,
            Err(e) => e == MetaErrorModel::FragmentMissing(id) ==> forall|i: int|
                0 <= i < fragments.len() ==> (#[trigger] fragments[i]).fragment_id != id,
        },
{
    broadcast use vstd::seq_lib::group_filter_ensures;

    let p = writes_mview_of(id);
    let a = fragments.filter(p);
    let writes = |f: StoredFragmentModel| f.job_id == id && has_flag(f.fragment_type_mask, MVIEW);
    if a.len() > 0 {
        assert(p(a[0]));
        assert(a.contains(a[0]));
        fragments.lemma_filter_contains_rev(p, a[0]);
        let i = choose|i: int| 0 <= i < fragments.len() && fragments[i] == a[0];
        assert(writes(fragments[i]));
        law_actors_of_a_fragment(a[0], actors.filter(in_fragment(a[0].fragment_id)), dispatchers);
    } else {
        assert forall|i: int| 0 <= i < fragments.len() implies !writes(#[trigger] fragments[i]) by {
            if p(fragments[i]) {
                assert(a.contains(fragments[i]));
            }
        }
    }
    let q = fragment_is(id);
    let b = fragments.filter(q);
    if b.len() > 0 {
        assert(q(b[0]));
        assert(b.contains(b[0]));
        fragments.lemma_filter_contains_rev(q, b[0]);
        let i = choose|i: int| 0 <= i < fragments.len() && fragments[i] == b[0];
        assert(fragments[i].fragment_id == id);
        law_actors_of_a_fragment(b[0], actors.filter(in_fragment(id)), dispatchers);
    } else {
        assert forall|i: int| 0 <= i < fragments.len() implies (#[trigger] fragments[i]).fragment_id
            != id by {
            if q(fragments[i]) {
                assert(b.contains(fragments[i]));
            }
        }
    }
}

/// The fragments of all jobs are those of each job, under its identifier.
pub proof fn law_fragments_of_all_jobs(q: Seq<JobRows>, i: int, x: u32)
    requires
        all_fragments(q) is Ok,
        0 <= i < q.len(),
        forall|j: int| i < j < q.len() ==> (#[trigger] q[j]).job.job_id != q[i].job.job_id,
    ensures
        ({
            let m = all_fragments(q)->Ok_0;
            let id = q[i].job.job_id;
            &&& m.contains_key(id)
            &&& m[id].table_id == id
            &&& m[id].state == q[i].job.job_status
            &&& rows_fragments(q[i]) == Ok::<TableFragmentsModel, MetaErrorModel>(m[id])
            &&& m.contains_key(x) <==> exists|k: int| 0 <= k < q.len() && (#[trigger] q[k]).job.job_id == x
        }),
    decreases q.len(),
{
    let d = q.drop_last();
    assert forall|k: int| 0 <= k < d.len() implies #[trigger] d[k] == q[k] by {}
    assert(q[q.len() - 1] == q.last());
    lemma_all_fragments(d, x);
    if exists|k: int| 0 <= k < d.len() && (#[trigger] d[k]).job.job_id == x {
        let k = choose|k: int| 0 <= k < d.len() && (#[trigger] d[k]).job.job_id == x;
        assert(q[k].job.job_id == x);
    }
    if exists|k: int| 0 <= k < q.len() && (#[trigger] q[k]).job.job_id == x {
        let k = choose|k: int| 0 <= k < q.len() && (#[trigger] q[k]).job.job_id == x;
        if k < d.len() {
            assert(d[k].job.job_id == x);
        }
    }
    if i < d.len() {
        assert forall|j: int| i < j < d.len() implies (#[trigger] d[j]).job.job_id != d[i].job.job_id by {
            assert(d[j] == q[j]);
        }
        law_fragments_of_all_jobs(d, i, x);
        assert(q[q.len() - 1].job.job_id != q[i].job.job_id);
    }
}

proof fn lemma_all_fragments(q: Seq<JobRows>, x: u32)
    requires
        all_fragments(q) is Ok,
    ensures
        all_fragments(q)->Ok_0.contains_key(x) <==> exists|k: int|
            0 <= k < q.len() && (#[trigger] q[k]).job.job_id == x,
    decreases q.len(),
{
    if q.len() > 0 {
        let d = q.drop_last();
        lemma_all_fragments(d, x);
        assert(q[q.len() - 1] == q.last());
        assert forall|k: int| 0 <= k < d.len() implies #[trigger] d[k] == q[k] by {}
        if exists|k: int| 0 <= k < d.len() && (#[trigger] d[k]).job.job_id == x {
            let k = choose|k: int| 0 <= k < d.len() && (#[trigger] d[k]).job.job_id == x;
            assert(q[k].job.job_id == x);
        }
        if exists|k: int| 0 <= k < q.len() && (#[trigger] q[k]).job.job_id == x {
            let k = choose|k: int| 0 <= k < q.len() && (#[trigger] q[k]).job.job_id == x;
            if k < d.len() {
                assert(d[k].job.job_id == x);
            }
        }
    }
}

/// The actors that are to be built are those of each fragment, in order.
pub proof fn law_actors_of_all_fragments(q: Seq<Stored>, s: Stored)
    ensures
        match (placed_all(q), composed(s)) {
            (Ok(before), Ok(c)) => placed_all(q.push(s)) == Ok::<
                Seq<(u32, StreamActorModel)>,
                MetaErrorModel,
            >(before + placed(c)),
            (Err(e), _) => placed_all(q.push(s)) == Err::<
                Seq<(u32, StreamActorModel)>,
                MetaErrorModel,
            >(e),
            (_, Err(e)) => placed_all(q.push(s)) == Err::<
                Seq<(u32, StreamActorModel)>,
                MetaErrorModel,
            >(e),
        },
        placed_all(Seq::empty()) == Ok::<Seq<(u32, StreamActorModel)>, MetaErrorModel>(Seq::empty()),
{
    assert(q.push(s).drop_last() =~= q);
}

/// The mappings that are told are those of the fragments with an actor on a unit of the plan, and no others.
pub proof fn law_mappings_that_are_told(
    q: Seq<StoredFragmentModel>,
    actors: Seq<StoredActorModel>,
    plan: Seq<(u32, ParallelUnit)>,
    x: u32,
)
    ensures
        (exists|k: int|
            0 <= k < touched_all(q, actors, plan).len() && (#[trigger] touched_all(
                q,
                actors,
                plan,
            )[k]).fragment_id == x) <==> exists|i: int, j: int|
            #![trigger q[i], actors[j]]
            0 <= i < q.len() && 0 <= j < actors.len() && q[i].fragment_id == x && actors[j].fragment_id
                == x && target(plan, actors[j].parallel_unit_id) is Some,
{
    let r = touched_all(q, actors, plan);
    let p = |f: StoredFragmentModel| touched(f, actors, plan);
    if exists|k: int| 0 <= k < r.len() && (#[trigger] r[k]).fragment_id == x {
        let k = choose|k: int| 0 <= k < r.len() && (#[trigger] r[k]).fragment_id == x;
        lemma_gather_contains(q, p, r[k]);
        assert(r.contains(r[k]));
        let i = choose|i: int| 0 <= i < q.len() && p(#[trigger] q[i]).contains(r[k]);
        law_fragments_are_remapped_with_their_actors(q[i], actors, plan);
        let t = touched(q[i], actors, plan);
        let n = choose|n: int| 0 <= n < t.len() && t[n] == r[k];
        assert(t[n].fragment_id == q[i].fragment_id);
        let j = choose|j: int|
            0 <= j < actors.len() && (#[trigger] actors[j]).fragment_id == q[i].fragment_id && target(
                plan,
                actors[j].parallel_unit_id,
            ) is Some;
        assert(q[i].fragment_id == x && actors[j].fragment_id == x);
    }
    if exists|i: int, j: int|
        #![trigger q[i], actors[j]]
        0 <= i < q.len() && 0 <= j < actors.len() && q[i].fragment_id == x && actors[j].fragment_id == x
            && target(plan, actors[j].parallel_unit_id) is Some {
        let (i, j) = choose|i: int, j: int|
            #![trigger q[i], actors[j]]
            0 <= i < q.len() && 0 <= j < actors.len() && q[i].fragment_id == x && actors[j].fragment_id
                == x && target(plan, actors[j].parallel_unit_id) is Some;
        law_fragments_are_remapped_with_their_actors(q[i], actors, plan);
        let t = touched(q[i], actors, plan);
        assert(t.len() > 0);
        assert(t[0].fragment_id == x);
        lemma_gather_contains(q, p, t[0]);
        assert(p(q[i]).contains(t[0]));
        assert(r.contains(t[0]));
        let k = choose|k: int| 0 <= k < r.len() && r[k] == t[0];
        assert(r[k].fragment_id == x);
    }
}

/// Which fragments and actors are chosen: by their identifier, by their job, by a job that is created, or
/// because they run.
pub proof fn law_rows_that_are_chosen(
    ids: Seq<u32>,
    jobs: Seq<JobInfoModel>,
    f: StoredFragmentModel,
    a: ActorInJob,
    row: ActorRow,
)
    ensures
        fragment_among(ids)(f) <==> ids.contains(f.fragment_id),
        job_among(ids)(f) <==> ids.contains(f.job_id),
        actor_among(ids)(a) <==> ids.contains(a.job_id),
        runs()(a) <==> a.status == ActorState::Running,
        of_created_job(jobs)(f) <==> exists|i: int|
            0 <= i < jobs.len() && (#[trigger] jobs[i]).job_id == f.job_id && jobs[i].job_status
                == JobStatus::Created,
        row_injectable()(row) <==> row.fragment_type_mask & SOURCE != 0 || row.fragment_type_mask & NOW != 0
            || row.fragment_type_mask & VALUES != 0 || row.fragment_type_mask & BARRIER_RECV != 0,
{
}

/// The links of an operator are that of its own merge and those of its inputs.
pub proof fn law_links_of_an_operator(n: StreamNodeModel, l: (u32, Seq<u32>))
    ensures
        links_of(n).contains(l) <==> (n.node_body is Merge && l.0
            == n.node_body->Merge_0.upstream_fragment_id && l.1
            == n.node_body->Merge_0.upstream_actor_id) || exists|i: int|
            0 <= i < n.input.len() && links_of(#[trigger] n.input[i]).contains(l),
{
    lemma_links_of_all(n.input, l);
    let a = link_of(n.node_body);
    let b = links_of_all(n.input);
    let r = links_of(n);
    assert(r == a + b);
    if r.contains(l) {
        let k = choose|k: int| 0 <= k < r.len() && r[k] == l;
        if k >= a.len() {
            assert(b[k - a.len()] == l);
        }
    }
    if b.contains(l) {
        let k = choose|k: int| 0 <= k < b.len() && b[k] == l;
        assert(r[a.len() + k] == l);
    }
    if n.node_body is Merge {
        assert(r[0] == a[0]);
    }
}

proof fn lemma_links_of_all(q: Seq<StreamNodeModel>, l: (u32, Seq<u32>))
    ensures
        links_of_all(q).contains(l) <==> exists|i: int|
            0 <= i < q.len() && links_of(#[trigger] q[i]).contains(l),
    decreases q.len(),
{
    if q.len() > 0 {
        let d = q.drop_last();
        lemma_links_of_all(d, l);
        assert forall|i: int| 0 <= i < d.len() implies #[trigger] d[i] == q[i] by {}
        assert(q[q.len() - 1] == q.last());
        let a = links_of_all(d);
        let b = links_of(q.last());
        let r = links_of_all(q);
        assert(r == a + b);
        if r.contains(l) {
            let k = choose|k: int| 0 <= k < r.len() && r[k] == l;
            if k < a.len() {
                assert(a[k] == l);
                assert(a.contains(l));
                let i = choose|i: int| 0 <= i < d.len() && links_of(#[trigger] d[i]).contains(l);
                assert(links_of(q[i]).contains(l));
            } else {
                assert(b[k - a.len()] == l);
                assert(links_of(q[q.len() - 1]).contains(l));
            }
        }
        if exists|i: int| 0 <= i < q.len() && links_of(#[trigger] q[i]).contains(l) {
            let i = choose|i: int| 0 <= i < q.len() && links_of(#[trigger] q[i]).contains(l);
            if i < d.len() {
                assert(links_of(d[i]).contains(l));
                let k = choose|k: int| 0 <= k < a.len() && a[k] == l;
                assert(r[k] == l);
            } else {
                let k = choose|k: int| 0 <= k < b.len() && b[k] == l;
                assert(r[a.len() + k] == l);
            }
        }
    }
}

/// Each fragment downstream is given with the way to it, in order.
pub proof fn law_downstream_fragments(
    ways: Map<u32, DispatchStrategyModel>,
    ids: Seq<u32>,
    fragments: Seq<StoredFragmentModel>,
    actors: Seq<StoredActorModel>,
    dispatchers: Map<u32, Seq<StoredDispatcherModel>>,
)
    ensures
        match chain_fragments(ways, ids, fragments, actors, dispatchers) {
            Ok(r) => r.len() == ids.len() && forall|i: int|
                0 <= i < ids.len() ==> (#[trigger] r[i]).0 == ways[ids[i]] && r[i].1.fragment_id == ids[i],
            Err(_) => true,
        },
    decreases ids.len(),
{
    if ids.len() > 0 {
        let d = ids.drop_last();
        law_downstream_fragments(ways, d, fragments, actors, dispatchers);
        law_fragments_asked_for(ids.last(), fragments, actors, dispatchers);
        assert forall|i: int| 0 <= i < d.len() implies #[trigger] d[i] == ids[i] by {}
    }
}

/// The root fragments are put together for exactly the jobs that are asked about, each from its own row.
pub proof fn law_root_fragments_are_put_together(
    m: Map<u32, StoredFragmentModel>,
    ids: Seq<u32>,
    actors: Seq<StoredActorModel>,
    dispatchers: Map<u32, Seq<StoredDispatcherModel>>,
    x: u32,
)
    ensures
        match put_together(m, ids, actors, dispatchers) {
            Ok(r) => {
                &&& r.contains_key(x) <==> ids.contains(x)
                &&& r.contains_key(x) ==> r[x].fragment_id == m[x].fragment_id && r[x].fragment_type_mask
                    == m[x].fragment_type_mask
            },
            Err(e) => e is FragmentMismatch,
        },
    decreases ids.len(),
{
    if ids.len() > 0 {
        let d = ids.drop_last();
        let id = ids.last();
        law_root_fragments_are_put_together(m, d, actors, dispatchers, x);
        law_actors_of_a_fragment(m[id], actors.filter(in_fragment(m[id].fragment_id)), dispatchers);
        assert(ids[ids.len() - 1] == id);
        if d.contains(x) {
            let k = choose|k: int| 0 <= k < d.len() && d[k] == x;
            assert(ids[k] == x);
        }
        if ids.contains(x) && x != id {
            let k = choose|k: int| 0 <= k < ids.len() && ids[k] == x;
            assert(d[k] == x);
        }
    }
}

} // verus!
