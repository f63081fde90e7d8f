//! What the barriers that are sent, collected and completed carry, and who is told of them.

use vstd::prelude::*;

use crate::barrier::control::{
    completed_at, completed_head, count_in_flight, in_flight, lemma_position, position_of, ssts_of, workers_of, workers_with,
    CheckpointControlModel, CheckpointPostModel, EpochNodeModel,
};
use crate::barrier::manager::{
    awaited, collected_pairs, failed_epoch, failure_notices, post_notices, progress_of,
    resolved_info, scheduled_with, sent_pairs, GlobalBarrierManagerModel, INVALID_EPOCH,
};
use crate::barrier::notifier::{
    checkpoint_notice, checkpoint_of, collected, failed_notice, finished_notice, finished_of,
    no_checkpoint_notice, no_checkpoint_of, send_notice, to_send_of, told, Notice, Notifier,
};
use crate::barrier::scheduled::{aborted, ScheduledModel};
use crate::barrier::types::{
    ActorLocation, ActorState, BarrierActorInfoModel, BarrierCompleteResponseModel,
    CommandContextModel, CommandKind, CommandModel, GroupedSst,
};
use crate::util::groups::{group_at, grouped};
use crate::util::ids::{ascending, lemma_listing_exists, listing};
use crate::util::id_map::lemma_filter_ascending;
use crate::util::lists::lemma_gather_contains;

verus! {

// ---------------------------------------------------------------------------
// Requests.
// ---------------------------------------------------------------------------

/// Every request for a sent barrier carries the new epoch, the epoch that was in flight before, and
/// the command; the new epoch is the later one. The next barrier goes on from the new epoch.
pub proof fn law_requests_carry_the_epochs(
    m: GlobalBarrierManagerModel,
    command: CommandModel,
    info: BarrierActorInfoModel,
    new_epoch: u64,
    notifiers: Seq<Notifier>,
    next: CommandModel,
    next_info: BarrierActorInfoModel,
    next_epoch: u64,
    node: u32,
    request_id: Seq<char>,
    next_id: Seq<char>,
)
    requires
        new_epoch > m.in_flight_prev_epoch,
    ensures
        ({
            let ctx = m.next_context(command, info, new_epoch);
            let after = m.after_send(ctx, notifiers);
            let request = ctx.inject_request(node, request_id);
            let following = after.next_context(next, next_info, next_epoch).inject_request(
                node,
                next_id,
            );
            &&& request.curr_epoch == new_epoch
            &&& request.prev_epoch == m.in_flight_prev_epoch
            &&& request.prev_epoch < request.curr_epoch
            &&& request.prev_epoch == ctx.prev_epoch
            &&& request.command_id == command.id
            &&& request.request_id == request_id
            &&& following.prev_epoch == new_epoch
            &&& following.curr_epoch == next_epoch
        }),
{
}

/// A request asks a node to inject to its own actors and to collect from its own actors.
pub proof fn law_requests_name_the_actors_of_the_node(
    m: GlobalBarrierManagerModel,
    command: CommandModel,
    info: BarrierActorInfoModel,
    new_epoch: u64,
    node: u32,
    request_id: Seq<char>,
)
    ensures
        ({
            let request = m.next_context(command, info, new_epoch).inject_request(node, request_id);
            &&& request.actor_ids_to_send == if info.actor_map_to_send.contains_key(node) {
                info.actor_map_to_send[node]
            } else {
                Seq::empty()
            }
            &&& request.actor_ids_to_collect == if info.actor_map_to_collect.contains_key(node) {
                info.actor_map_to_collect[node]
            } else {
                Seq::empty()
            }
        }),
{
}

/// A command that is not plain is sent with a checkpoint, and so is a plain one once the distance
/// to the next checkpoint is used up; no other barrier is. The request says so.
pub proof fn law_request_says_whether_checkpoint(
    m: GlobalBarrierManagerModel,
    command: CommandModel,
    info: BarrierActorInfoModel,
    new_epoch: u64,
    node: u32,
    request_id: Seq<char>,
)
    ensures
        ({
            let request = m.next_context(command, info, new_epoch).inject_request(node, request_id);
            &&& command.kind != CommandKind::Plain ==> request.checkpoint
            &&& m.checkpoint_control.num_distance_checkpoint == 0 ==> request.checkpoint
            &&& command.kind == CommandKind::Plain && m.checkpoint_control.num_distance_checkpoint > 0
                ==> !request.checkpoint
        }),
{
}

/// Exactly the nodes that have an actor to collect from are asked, each once and in the order of
/// their identifiers.
pub proof fn law_nodes_with_actors_are_asked(ctx: CommandContextModel, node: u32)
    requires
        ctx.info.nodes.finite(),
    ensures
        ctx.needed_nodes().contains(node) <==> ctx.info.nodes.contains(node)
            && ctx.info.actor_map_to_collect.contains_key(node)
            && ctx.info.actor_map_to_collect[node].len() > 0,
        ascending(ctx.needed_nodes()),
        ctx.needed_nodes().no_duplicates(),
{
    broadcast use vstd::seq_lib::group_filter_ensures;

    let l = listing(ctx.info.nodes);
    lemma_listing_exists(ctx.info.nodes);
    let p = |node: u32| ctx.needs(node);
    lemma_filter_ascending(l, p);
    if l.contains(node) && ctx.needs(node) {
        l.lemma_filter_contains_rev(p, node);
    }
    if l.filter(p).contains(node) {
        let k = choose|k: int| 0 <= k < l.filter(p).len() && l.filter(p)[k] == node;
        assert(p(l.filter(p)[k]));
    }
}

// ---------------------------------------------------------------------------
// The actors of a barrier.
// ---------------------------------------------------------------------------

/// What stands under a key was put there.
proof fn lemma_grouped_contains(q: Seq<(u32, u32)>, k: u32, v: u32)
    ensures
        group_at(grouped(q), k).contains(v) <==> q.contains((k, v)),
    decreases q.len(),
{
    if q.len() > 0 {
        let d = q.drop_last();
        let x = q.last();
        lemma_grouped_contains(d, k, v);
        assert(q =~= d.push(x));
        let before = group_at(grouped(d), k);
        if x.0 == k {
            assert(group_at(grouped(q), k) == before.push(x.1));
            if before.contains(v) {
                let i = choose|i: int| 0 <= i < before.len() && before[i] == v;
                assert(before.push(x.1)[i] == v);
            }
            if x.1 == v {
                assert(before.push(x.1)[before.len() as int] == v);
            }
            if before.push(x.1).contains(v) {
                let i = choose|i: int| 0 <= i < before.push(x.1).len() && before.push(x.1)[i] == v;
                if i < before.len() {
                    assert(before[i] == v);
                }
            }
        } else {
            assert(group_at(grouped(q), k) == before);
        }
        if d.contains((k, v)) {
            let i = choose|i: int| 0 <= i < d.len() && d[i] == (k, v);
            assert(q[i] == (k, v));
        }
        if x == (k, v) {
            assert(q[q.len() - 1] == (k, v));
        }
        if q.contains((k, v)) {
            let i = choose|i: int| 0 <= i < q.len() && q[i] == (k, v);
            if i < d.len() {
                assert(d[i] == (k, v));
            }
        }
    } else {
        assert(grouped(q) =~= Map::<u32, Seq<u32>>::empty());
    }
}

/// The pairs of `q` are those of the actors that are reached.
proof fn lemma_pairs(c: CheckpointControlModel, q: Seq<ActorLocation>, worker: u32, actor: u32)
    ensures
        collected_pairs(c, q).contains((worker, actor)) <==> exists|i: int|
            0 <= i < q.len() && (#[trigger] q[i]).worker_id == worker && q[i].actor_id == actor
                && c.reaches(q[i].state, q[i].table_id, actor),
        sent_pairs(c, q).contains((worker, actor)) <==> exists|i: int|
            0 <= i < q.len() && (#[trigger] q[i]).worker_id == worker && q[i].actor_id == actor
                && c.reaches(q[i].state, q[i].table_id, actor) && q[i].injectable,
    decreases q.len(),
{
    if q.len() > 0 {
        let d = q.drop_last();
        let a = q.last();
        lemma_pairs(c, d, worker, actor);
        let x = (worker, actor);
        let y = (a.worker_id, a.actor_id);
        let reached = c.reaches(a.state, a.table_id, a.actor_id);
        assert forall|l: Seq<(u32, u32)>| #[trigger] l.push(y).contains(x) <==> l.contains(x) || x
            == y by {
            if l.contains(x) {
                let i = choose|i: int| 0 <= i < l.len() && l[i] == x;
                assert(l.push(y)[i] == x);
            }
            if x == y {
                assert(l.push(y)[l.len() as int] == x);
            }
            if l.push(y).contains(x) {
                let i = choose|i: int| 0 <= i < l.push(y).len() && l.push(y)[i] == x;
                if i < l.len() {
                    assert(l[i] == x);
                }
            }
        }
        assert forall|i: int| 0 <= i < d.len() implies #[trigger] d[i] == q[i] by {}
        assert(q[q.len() - 1] == a);
        if collected_pairs(c, d).contains(x) {
            let i = choose|i: int|
                0 <= i < d.len() && (#[trigger] d[i]).worker_id == worker && d[i].actor_id == actor
                    && c.reaches(d[i].state, d[i].table_id, actor);
            assert(q[i] == d[i]);
        }
        if sent_pairs(c, d).contains(x) {
            let i = choose|i: int|
                0 <= i < d.len() && (#[trigger] d[i]).worker_id == worker && d[i].actor_id == actor
                    && c.reaches(d[i].state, d[i].table_id, actor) && d[i].injectable;
            assert(q[i] == d[i]);
        }
        if exists|i: int|
            0 <= i < q.len() && (#[trigger] q[i]).worker_id == worker && q[i].actor_id == actor
                && c.reaches(q[i].state, q[i].table_id, actor) {
            let i = choose|i: int|
                0 <= i < q.len() && (#[trigger] q[i]).worker_id == worker && q[i].actor_id == actor
                    && c.reaches(q[i].state, q[i].table_id, actor);
            if i < d.len() {
                assert(d[i] == q[i]);
            }
        }
        if exists|i: int|
            0 <= i < q.len() && (#[trigger] q[i]).worker_id == worker && q[i].actor_id == actor
                && c.reaches(q[i].state, q[i].table_id, actor) && q[i].injectable {
            let i = choose|i: int|
                0 <= i < q.len() && (#[trigger] q[i]).worker_id == worker && q[i].actor_id == actor
                    && c.reaches(q[i].state, q[i].table_id, actor) && q[i].injectable;
            if i < d.len() {
                assert(d[i] == q[i]);
            }
        }
    }
}

/// A barrier is collected from every actor that it reaches, on the node where the actor runs, and
/// from no other; it is sent to those of them that take barriers from outside, and to no other. A
/// running actor is reached unless it or its table is being removed; another one is reached where it
/// or its table is being added.
pub proof fn law_barrier_reaches_the_actors(
    c: CheckpointControlModel,
    nodes: Set<u32>,
    q: Seq<ActorLocation>,
    worker: u32,
    actor: u32,
)
    ensures
        ({
            let info = resolved_info(c, nodes, q);
            let reached = |a: ActorLocation|
                if a.state == ActorState::Running {
                    !c.dropping_tables.contains(a.table_id) && !c.removing_actors.contains(
                        a.actor_id,
                    )
                } else {
                    c.creating_tables.contains(a.table_id) || c.adding_actors.contains(a.actor_id)
                };
            &&& info.nodes == nodes
            &&& group_at(info.actor_map_to_collect, worker).contains(actor) <==> exists|i: int|
                0 <= i < q.len() && (#[trigger] q[i]).worker_id == worker && q[i].actor_id == actor
                    && reached(q[i])
            &&& group_at(info.actor_map_to_send, worker).contains(actor) <==> exists|i: int|
                0 <= i < q.len() && (#[trigger] q[i]).worker_id == worker && q[i].actor_id == actor
                    && reached(q[i]) && q[i].injectable
            &&& group_at(info.actor_map_to_send, worker).contains(actor) ==> group_at(
                info.actor_map_to_collect,
                worker,
            ).contains(actor)
        }),
{
    let info = resolved_info(c, nodes, q);
    lemma_pairs(c, q, worker, actor);
    lemma_grouped_contains(collected_pairs(c, q), worker, actor);
    lemma_grouped_contains(sent_pairs(c, q), worker, actor);
    let reached = |a: ActorLocation|
        if a.state == ActorState::Running {
            !c.dropping_tables.contains(a.table_id) && !c.removing_actors.contains(a.actor_id)
        } else {
            c.creating_tables.contains(a.table_id) || c.adding_actors.contains(a.actor_id)
        };
    assert forall|i: int| 0 <= i < q.len() implies reached(#[trigger] q[i]) == c.reaches(
        q[i].state,
        q[i].table_id,
        q[i].actor_id,
    ) by {}
    if group_at(info.actor_map_to_collect, worker).contains(actor) {
        let i = choose|i: int|
            0 <= i < q.len() && (#[trigger] q[i]).worker_id == worker && q[i].actor_id == actor
                && c.reaches(q[i].state, q[i].table_id, actor);
        assert(reached(q[i]));
    }
    if group_at(info.actor_map_to_send, worker).contains(actor) {
        let i = choose|i: int|
            0 <= i < q.len() && (#[trigger] q[i]).worker_id == worker && q[i].actor_id == actor
                && c.reaches(q[i].state, q[i].table_id, actor) && q[i].injectable;
        assert(reached(q[i]));
    }
}

// ---------------------------------------------------------------------------
// Sending.
// ---------------------------------------------------------------------------

/// A sent barrier stands in flight behind the others, with its context and with those who wait for
/// it; nothing else that is in flight, noted or uncommitted changes.
pub proof fn law_sent_barrier_is_in_flight(
    m: GlobalBarrierManagerModel,
    command: CommandModel,
    info: BarrierActorInfoModel,
    new_epoch: u64,
    notifiers: Seq<Notifier>,
)
    ensures
        ({
            let ctx = m.next_context(command, info, new_epoch);
            let after = m.after_send(ctx, notifiers);
            let q = m.checkpoint_control.command_ctx_queue;
            let p = after.checkpoint_control.command_ctx_queue;
            &&& p.len() == q.len() + 1
            &&& p.drop_last() == q
            &&& p.last().state is InFlight
            &&& p.last().command_ctx.command == command
            &&& p.last().command_ctx.info == info
            &&& p.last().command_ctx.curr_epoch == new_epoch
            &&& p.last().notifiers.len() == notifiers.len()
            &&& forall|i: int|
                0 <= i < notifiers.len() ==> {
                    let n = #[trigger] p.last().notifiers[i];
                    &&& n.to_send is None
                    &&& n.collected_no_checkpoint == notifiers[i].collected_no_checkpoint
                    &&& n.collected_checkpoint == notifiers[i].collected_checkpoint
                    &&& n.finished == notifiers[i].finished
                }
            &&& after.in_flight_prev_epoch == new_epoch
            &&& after.scheduled_barriers == m.scheduled_barriers
            &&& after.enable_recovery == m.enable_recovery
            &&& after.in_flight_barrier_nums == m.in_flight_barrier_nums
            &&& after.checkpoint_control.uncommitted_messages
                == m.checkpoint_control.uncommitted_messages
            &&& after.checkpoint_control.creating_tables == m.checkpoint_control.creating_tables
            &&& after.checkpoint_control.dropping_tables == m.checkpoint_control.dropping_tables
            &&& after.checkpoint_control.adding_actors == m.checkpoint_control.adding_actors
            &&& after.checkpoint_control.removing_actors == m.checkpoint_control.removing_actors
            &&& after.checkpoint_control.checkpoint_frequency
                == m.checkpoint_control.checkpoint_frequency
        }),
{
    let ctx = m.next_context(command, info, new_epoch);
    let after = m.after_send(ctx, notifiers);
    let q = m.checkpoint_control.command_ctx_queue;
    assert(after.checkpoint_control.command_ctx_queue.drop_last() =~= q);
}

/// A barrier with a checkpoint starts the count to the next one anew, and one without counts down.
pub proof fn law_sending_counts_to_the_checkpoint(
    m: GlobalBarrierManagerModel,
    command: CommandModel,
    info: BarrierActorInfoModel,
    new_epoch: u64,
    notifiers: Seq<Notifier>,
)
    ensures
        ({
            let ctx = m.next_context(command, info, new_epoch);
            let before = m.checkpoint_control;
            let after = m.after_send(ctx, notifiers).checkpoint_control;
            &&& ctx.checkpoint ==> after.num_distance_checkpoint == before.checkpoint_frequency
            &&& !ctx.checkpoint ==> after.num_distance_checkpoint + 1
                == before.num_distance_checkpoint
        }),
{
}

/// A shutdown comes before all else, a completed barrier before a new one; a barrier is sent only
/// where one is due, where fewer are in flight than may be, and where the last one does not pause
/// the others.
pub proof fn law_action_of_the_loop(
    m: GlobalBarrierManagerModel,
    shutdown: bool,
    completed: bool,
    ticked: bool,
)
    ensures
        ({
            let action = m.next_action(shutdown, completed, ticked);
            let q = m.checkpoint_control.command_ctx_queue;
            let room = crate::barrier::control::count_in_flight(q) < m.in_flight_barrier_nums;
            let paused = q.len() > 0 && q.last().command_ctx.command.should_pause_inject_barrier;
            let due = m.scheduled_barriers.len() > 0 || ticked;
            &&& action is Stop <==> shutdown
            &&& action is Complete <==> !shutdown && completed
            &&& action is Send <==> !shutdown && !completed && due && room && !paused
            &&& action is Wait <==> !shutdown && !completed && !(due && room && !paused)
        }),
{
}

// ---------------------------------------------------------------------------
// Who is told.
// ---------------------------------------------------------------------------

/// Whoever is to be told is told, and nobody else.
proof fn lemma_told(q: Seq<Option<u64>>, p: spec_fn(u64) -> Notice, notice: Notice)
    ensures
        told(q, p).contains(notice) <==> exists|i: int|
            0 <= i < q.len() && #[trigger] q[i] is Some && p(q[i]->0) == notice,
    decreases q.len(),
{
    if q.len() > 0 {
        let d = q.drop_last();
        lemma_told(d, p, notice);
        let t = told(d, p);
        assert(q[q.len() - 1] == q.last());
        assert forall|i: int| 0 <= i < d.len() implies #[trigger] d[i] == q[i] by {}
        if t.contains(notice) {
            let i = choose|i: int| 0 <= i < d.len() && #[trigger] d[i] is Some && p(d[i]->0) == notice;
            assert(q[i] == d[i]);
            if q.last() is Some {
                let k = choose|k: int| 0 <= k < t.len() && t[k] == notice;
                assert(t.push(p(q.last()->0))[k] == notice);
            }
        }
        if q.last() is Some && p(q.last()->0) == notice {
            assert(t.push(p(q.last()->0))[t.len() as int] == notice);
        }
        if told(q, p).contains(notice) && q.last() is Some {
            let k = choose|k: int| 0 <= k < told(q, p).len() && told(q, p)[k] == notice;
            if k < t.len() {
                assert(t[k] == notice);
            }
        }
        if exists|i: int| 0 <= i < q.len() && #[trigger] q[i] is Some && p(q[i]->0) == notice {
            let i = choose|i: int| 0 <= i < q.len() && #[trigger] q[i] is Some && p(q[i]->0) == notice;
            if i < d.len() {
                assert(d[i] == q[i]);
            }
        }
    }
}

/// When a barrier is sent, exactly those who asked for that are told that it is about to be sent.
pub proof fn law_told_when_sent(notifiers: Seq<Notifier>, notice: Notice)
    ensures
        told(to_send_of(notifiers), send_notice()).contains(notice) <==> exists|i: int|
            0 <= i < notifiers.len() && (#[trigger] notifiers[i]).to_send is Some && notice
                == Notice::ToSend(notifiers[i].to_send->0),
{
    let q = to_send_of(notifiers);
    lemma_told(q, send_notice(), notice);
    assert forall|i: int| 0 <= i < q.len() implies #[trigger] q[i] == notifiers[i].to_send by {}
    if told(q, send_notice()).contains(notice) {
        let i = choose|i: int| 0 <= i < q.len() && #[trigger] q[i] is Some && send_notice()(q[i]->0) == notice;
        assert(notifiers[i].to_send == q[i]);
    }
    if exists|i: int|
        0 <= i < notifiers.len() && (#[trigger] notifiers[i]).to_send is Some && notice
            == Notice::ToSend(notifiers[i].to_send->0) {
        let i = choose|i: int|
            0 <= i < notifiers.len() && (#[trigger] notifiers[i]).to_send is Some && notice
                == Notice::ToSend(notifiers[i].to_send->0);
        assert(q[i] is Some && send_notice()(q[i]->0) == notice);
    }
}

/// When a barrier is collected, exactly those who do not wait for a checkpoint are told so; the
/// others are kept for the checkpoint, and those who wait for what the barrier started for its end.
pub proof fn law_told_when_collected(notifiers: Seq<Notifier>, notice: Notice)
    ensures
        told(no_checkpoint_of(notifiers), no_checkpoint_notice()).contains(notice) <==> exists|i: int|
            0 <= i < notifiers.len() && (#[trigger] notifiers[i]).collected_no_checkpoint is Some
                && notice == Notice::CollectedNoCheckpoint(
                notifiers[i].collected_no_checkpoint->0,
            ),
        checkpoint_of(notifiers).len() == notifiers.len(),
        collected(notifiers).len() == notifiers.len(),
        forall|i: int|
            0 <= i < notifiers.len() ==> #[trigger] checkpoint_of(notifiers)[i]
                == notifiers[i].collected_checkpoint,
        forall|i: int|
            0 <= i < notifiers.len() ==> {
                let n = #[trigger] collected(notifiers)[i];
                &&& n.finished == notifiers[i].finished
                &&& n.to_send == notifiers[i].to_send
                &&& n.collected_no_checkpoint is None
                &&& n.collected_checkpoint is None
            },
{
    let q = no_checkpoint_of(notifiers);
    let p = no_checkpoint_notice();
    lemma_told(q, p, notice);
    assert forall|i: int| 0 <= i < q.len() implies #[trigger] q[i]
        == notifiers[i].collected_no_checkpoint by {}
    if told(q, p).contains(notice) {
        let i = choose|i: int| 0 <= i < q.len() && #[trigger] q[i] is Some && p(q[i]->0) == notice;
        assert(notifiers[i].collected_no_checkpoint == q[i]);
    }
    if exists|i: int|
        0 <= i < notifiers.len() && (#[trigger] notifiers[i]).collected_no_checkpoint is Some
            && notice == Notice::CollectedNoCheckpoint(notifiers[i].collected_no_checkpoint->0) {
        let i = choose|i: int|
            0 <= i < notifiers.len() && (#[trigger] notifiers[i]).collected_no_checkpoint is Some
                && notice == Notice::CollectedNoCheckpoint(
                notifiers[i].collected_no_checkpoint->0,
            );
        assert(q[i] is Some && p(q[i]->0) == notice);
    }
}

/// Once a checkpoint is committed, exactly those who waited for it and those whose work is finished
/// are told, each of what they waited for.
pub proof fn law_told_when_committed(p: CheckpointPostModel, notice: Notice)
    ensures
        post_notices(p).contains(notice) <==> (exists|i: int|
            0 <= i < p.collect_notifiers_checkpoint.len()
                && #[trigger] p.collect_notifiers_checkpoint[i] is Some && notice
                == Notice::CollectedCheckpoint(p.collect_notifiers_checkpoint[i]->0)) || (exists|i: int|
            0 <= i < p.finish_notifiers.len() && (#[trigger] p.finish_notifiers[i]).finished is Some
                && notice == Notice::Finished(p.finish_notifiers[i].finished->0)),
{
    let a = p.collect_notifiers_checkpoint;
    let f = finished_of(p.finish_notifiers);
    lemma_told(a, checkpoint_notice(), notice);
    lemma_told(f, finished_notice(), notice);
    let x = told(a, checkpoint_notice());
    let y = told(f, finished_notice());
    assert((x + y).contains(notice) <==> x.contains(notice) || y.contains(notice)) by {
        if x.contains(notice) {
            let k = choose|k: int| 0 <= k < x.len() && x[k] == notice;
            assert((x + y)[k] == notice);
        }
        if y.contains(notice) {
            let k = choose|k: int| 0 <= k < y.len() && y[k] == notice;
            assert((x + y)[x.len() + k] == notice);
        }
    }
    assert forall|i: int| 0 <= i < f.len() implies #[trigger] f[i] == p.finish_notifiers[i].finished by {}
    if x.contains(notice) {
        let i = choose|i: int|
            0 <= i < a.len() && #[trigger] a[i] is Some && checkpoint_notice()(a[i]->0) == notice;
        assert(notice == Notice::CollectedCheckpoint(a[i]->0));
    }
    if y.contains(notice) {
        let i = choose|i: int|
            0 <= i < f.len() && #[trigger] f[i] is Some && finished_notice()(f[i]->0) == notice;
        assert(p.finish_notifiers[i].finished == f[i]);
    }
    if exists|i: int|
        0 <= i < a.len() && #[trigger] a[i] is Some && notice == Notice::CollectedCheckpoint(a[i]->0) {
        let i = choose|i: int|
            0 <= i < a.len() && #[trigger] a[i] is Some && notice == Notice::CollectedCheckpoint(
                a[i]->0,
            );
        assert(checkpoint_notice()(a[i]->0) == notice);
    }
    if exists|i: int|
        0 <= i < p.finish_notifiers.len() && (#[trigger] p.finish_notifiers[i]).finished is Some
            && notice == Notice::Finished(p.finish_notifiers[i].finished->0) {
        let i = choose|i: int|
            0 <= i < p.finish_notifiers.len() && (#[trigger] p.finish_notifiers[i]).finished is Some
                && notice == Notice::Finished(p.finish_notifiers[i].finished->0);
        assert(f[i] is Some && finished_notice()(f[i]->0) == notice);
    }
}

/// Who of `q` is told that it failed.
proof fn lemma_told_failed(q: Seq<Notifier>, notice: Notice)
    ensures
        told(checkpoint_of(q), failed_notice()).contains(notice) <==> exists|j: int|
            0 <= j < q.len() && (#[trigger] q[j]).collected_checkpoint is Some && notice
                == Notice::Failed(q[j].collected_checkpoint->0),
{
    let c = checkpoint_of(q);
    let p = failed_notice();
    lemma_told(c, p, notice);
    assert forall|i: int| 0 <= i < c.len() implies #[trigger] c[i] == q[i].collected_checkpoint by {}
    if told(c, p).contains(notice) {
        let i = choose|i: int| 0 <= i < c.len() && #[trigger] c[i] is Some && p(c[i]->0) == notice;
        assert(q[i].collected_checkpoint == c[i]);
    }
    if exists|j: int|
        0 <= j < q.len() && (#[trigger] q[j]).collected_checkpoint is Some && notice
            == Notice::Failed(q[j].collected_checkpoint->0) {
        let i = choose|j: int|
            0 <= j < q.len() && (#[trigger] q[j]).collected_checkpoint is Some && notice
                == Notice::Failed(q[j].collected_checkpoint->0);
        assert(c[i] is Some && p(c[i]->0) == notice);
    }
}

/// When barriers fail, exactly those who wait for the checkpoint of one of them are told that it
/// failed; recovery goes on from the epoch before the last of them.
pub proof fn law_told_when_failed(q: Seq<EpochNodeModel>, notice: Notice)
    ensures
        failure_notices(q).contains(notice) <==> exists|i: int, j: int|
            0 <= i < q.len() && 0 <= j < q[i].notifiers.len() && (
            #[trigger] q[i].notifiers[j]).collected_checkpoint is Some && notice == Notice::Failed(
                q[i].notifiers[j].collected_checkpoint->0,
            ),
        q.len() > 0 ==> failed_epoch(q) == q[q.len() - 1].command_ctx.prev_epoch,
        q.len() == 0 ==> failed_epoch(q) == INVALID_EPOCH,
{
    let p = |n: EpochNodeModel| told(checkpoint_of(n.notifiers), failed_notice());
    lemma_gather_contains(q, p, notice);
    if failure_notices(q).contains(notice) {
        let i = choose|i: int| 0 <= i < q.len() && p(#[trigger] q[i]).contains(notice);
        lemma_told_failed(q[i].notifiers, notice);
        let l = q[i].notifiers;
        let j = choose|j: int|
            0 <= j < l.len() && (#[trigger] l[j]).collected_checkpoint is Some && notice
                == Notice::Failed(l[j].collected_checkpoint->0);
        assert(q[i].notifiers[j].collected_checkpoint is Some);
    }
    if exists|i: int, j: int|
        0 <= i < q.len() && 0 <= j < q[i].notifiers.len() && (
        #[trigger] q[i].notifiers[j]).collected_checkpoint is Some && notice == Notice::Failed(
            q[i].notifiers[j].collected_checkpoint->0,
        ) {
        let (i, j) = choose|i: int, j: int|
            0 <= i < q.len() && 0 <= j < q[i].notifiers.len() && (
            #[trigger] q[i].notifiers[j]).collected_checkpoint is Some && notice == Notice::Failed(
                q[i].notifiers[j].collected_checkpoint->0,
            );
        lemma_told_failed(q[i].notifiers, notice);
        assert(p(q[i]).contains(notice));
    }
}

/// When the scheduled barriers are aborted, exactly those who wait for a checkpoint of one of them
/// are told that it failed.
pub proof fn law_told_when_aborted(q: Seq<ScheduledModel>, notice: Notice)
    ensures
        aborted(q).contains(notice) <==> exists|i: int, j: int|
            0 <= i < q.len() && 0 <= j < q[i].1.len() && (
            #[trigger] q[i].1[j]).collected_checkpoint is Some && notice == Notice::Failed(
                q[i].1[j].collected_checkpoint->0,
            ),
{
    let p = |s: ScheduledModel| told(checkpoint_of(s.1), failed_notice());
    lemma_gather_contains(q, p, notice);
    if aborted(q).contains(notice) {
        let i = choose|i: int| 0 <= i < q.len() && p(#[trigger] q[i]).contains(notice);
        lemma_told_failed(q[i].1, notice);
        let l = q[i].1;
        let j = choose|j: int|
            0 <= j < l.len() && (#[trigger] l[j]).collected_checkpoint is Some && notice
                == Notice::Failed(l[j].collected_checkpoint->0);
        assert(q[i].1[j].collected_checkpoint is Some);
    }
    if exists|i: int, j: int|
        0 <= i < q.len() && 0 <= j < q[i].1.len() && (
        #[trigger] q[i].1[j]).collected_checkpoint is Some && notice == Notice::Failed(
            q[i].1[j].collected_checkpoint->0,
        ) {
        let (i, j) = choose|i: int, j: int|
            0 <= i < q.len() && 0 <= j < q[i].1.len() && (
            #[trigger] q[i].1[j]).collected_checkpoint is Some && notice == Notice::Failed(
                q[i].1[j].collected_checkpoint->0,
            );
        lemma_told_failed(q[i].1, notice);
        assert(p(q[i]).contains(notice));
    }
}

/// Whoever runs a command waits for its checkpoint with the one sender and for its end with the
/// other, and the barrier that is scheduled for it tells both.
pub proof fn law_commands_are_awaited(commands: Seq<CommandModel>, senders: Seq<(u64, u64)>, i: int)
    requires
        senders.len() == commands.len(),
        0 <= i < commands.len(),
    ensures
        ({
            let s = scheduled_with(commands, senders)[i];
            let a = awaited(commands, senders)[i];
            &&& scheduled_with(commands, senders).len() == commands.len()
            &&& awaited(commands, senders).len() == commands.len()
            &&& s.0 == commands[i]
            &&& s.1.len() == 1
            &&& s.1[0].collected_checkpoint == Some(a.collect)
            &&& s.1[0].finished == Some(a.finish)
            &&& s.1[0].to_send is None
            &&& s.1[0].collected_no_checkpoint is None
            &&& a.collect == senders[i].0
            &&& a.finish == senders[i].1
            &&& a.is_create_mv <==> commands[i].kind == CommandKind::CreateMaterializedView
        }),
{
}

// ---------------------------------------------------------------------------
// Completion.
// ---------------------------------------------------------------------------

/// The barrier of the epoch is completed by the answers of the nodes, with a checkpoint only where
/// every node wrote one. Its context and who waits for it stay, and so do the other barriers.
pub proof fn law_answers_complete_the_barrier(
    q: Seq<EpochNodeModel>,
    k: int,
    prev_epoch: u64,
    resps: Seq<BarrierCompleteResponseModel>,
)
    requires
        0 <= k < q.len(),
        q[k].command_ctx.prev_epoch == prev_epoch,
        forall|i: int| 0 <= i < q.len() && i != k ==> (#[trigger] q[i]).command_ctx.prev_epoch != prev_epoch,
    ensures
        ({
            let p = completed_at(q, prev_epoch, resps);
            &&& p.len() == q.len()
            &&& p[k].state is Completed
            &&& p[k].state->Completed_0 == resps
            &&& p[k].state->Completed_1 <==> forall|i: int|
                0 <= i < resps.len() ==> (#[trigger] resps[i]).checkpoint
            &&& p[k].command_ctx == q[k].command_ctx
            &&& p[k].notifiers == q[k].notifiers
            &&& forall|i: int| 0 <= i < q.len() && i != k ==> #[trigger] p[i] == q[i]
        }),
{
    lemma_position(q, prev_epoch);
    let n = position_of(q, prev_epoch) as int;
    if n < q.len() {
        assert(q[n].command_ctx.prev_epoch == prev_epoch);
    } else {
        assert(q[k].command_ctx.prev_epoch != prev_epoch);
    }
}

/// An answer for an epoch of which no barrier is in flight changes nothing.
pub proof fn law_unknown_answers_change_nothing(
    q: Seq<EpochNodeModel>,
    prev_epoch: u64,
    resps: Seq<BarrierCompleteResponseModel>,
)
    requires
        forall|i: int| 0 <= i < q.len() ==> (#[trigger] q[i]).command_ctx.prev_epoch != prev_epoch,
    ensures
        completed_at(q, prev_epoch, resps) == q,
{
    lemma_position(q, prev_epoch);
    let n = position_of(q, prev_epoch) as int;
    if n < q.len() {
        assert(q[n].command_ctx.prev_epoch == prev_epoch);
    }
}

/// The worker that wrote a file.
proof fn lemma_workers_with(m: Map<u64, u32>, ssts: Seq<GroupedSst>, worker: u32, id: u64)
    ensures
        ({
            let r = workers_with(m, ssts, worker);
            let held = exists|j: int| 0 <= j < ssts.len() && (#[trigger] ssts[j]).sst_id == id;
            &&& r.contains_key(id) <==> m.contains_key(id) || held
            &&& held ==> r[id] == worker
            &&& !held && m.contains_key(id) ==> r[id] == m[id]
        }),
    decreases ssts.len(),
{
    if ssts.len() > 0 {
        let d = ssts.drop_last();
        lemma_workers_with(m, d, worker, id);
        assert(ssts[ssts.len() - 1] == ssts.last());
        assert forall|j: int| 0 <= j < d.len() implies #[trigger] d[j] == ssts[j] by {}
        if exists|j: int| 0 <= j < ssts.len() && (#[trigger] ssts[j]).sst_id == id {
            let j = choose|j: int| 0 <= j < ssts.len() && (#[trigger] ssts[j]).sst_id == id;
            if j < d.len() {
                assert(d[j].sst_id == id);
            }
        }
        if exists|j: int| 0 <= j < d.len() && (#[trigger] d[j]).sst_id == id {
            let j = choose|j: int| 0 <= j < d.len() && (#[trigger] d[j]).sst_id == id;
            assert(ssts[j].sst_id == id);
        }
    }
}

/// Some node of `resps` brought the file.
pub open spec fn brought(resps: Seq<BarrierCompleteResponseModel>, i: int, id: u64) -> bool {
    exists|j: int|
        0 <= j < resps[i].synced_sstables.len() && (#[trigger] resps[i].synced_sstables[j]).sst_id
            == id
}

/// A file is kept under the last node that brought it, and one that no node brought stays where it
/// was.
pub proof fn law_files_are_kept_under_their_node(
    m: Map<u64, u32>,
    resps: Seq<BarrierCompleteResponseModel>,
    i: int,
    id: u64,
)
    requires
        -1 <= i < resps.len(),
        i >= 0 ==> brought(resps, i, id),
        forall|k: int| i < k < resps.len() ==> !#[trigger] brought(resps, k, id),
    ensures
        i >= 0 ==> workers_of(m, resps).contains_key(id) && workers_of(m, resps)[id]
            == resps[i].worker_id,
        i < 0 ==> workers_of(m, resps).contains_key(id) == m.contains_key(id) && (m.contains_key(id)
            ==> workers_of(m, resps)[id] == m[id]),
    decreases resps.len(),
{
    if resps.len() > 0 {
        let d = resps.drop_last();
        let l = resps.len() - 1;
        assert forall|k: int| 0 <= k < d.len() implies #[trigger] d[k] == resps[k] by {}
        assert forall|k: int| 0 <= k < d.len() implies #[trigger] brought(d, k, id) == brought(
            resps,
            k,
            id,
        ) by {
            assert(d[k] == resps[k]);
        }
        lemma_workers_with(workers_of(m, d), resps.last().synced_sstables, resps.last().worker_id, id);
        assert(resps[l] == resps.last());
        if i < l {
            assert(!brought(resps, l, id));
            if i >= 0 {
                assert(brought(d, i, id));
            }
            law_files_are_kept_under_their_node(m, d, i, id);
            let s = resps.last().synced_sstables;
            if exists|j: int| 0 <= j < s.len() && (#[trigger] s[j]).sst_id == id {
                let j = choose|j: int| 0 <= j < s.len() && (#[trigger] s[j]).sst_id == id;
                assert(resps[l].synced_sstables[j].sst_id == id);
            }
        } else {
            let s = resps.last().synced_sstables;
            let j = choose|j: int|
                0 <= j < resps[i].synced_sstables.len() && (
                #[trigger] resps[i].synced_sstables[j]).sst_id == id;
            assert(s[j].sst_id == id);
        }
    }
}

/// A completed barrier is recorded behind those that wait to be committed: what they keep stays,
/// every file of its nodes is added, and the barriers are post-processed in the order in which they
/// were recorded.
pub proof fn law_completed_barrier_is_recorded(
    m: GlobalBarrierManagerModel,
    n: EpochNodeModel,
    collect: Seq<Option<u64>>,
    finished: Seq<Notifier>,
    sst: GroupedSst,
)
    requires
        n.state is Completed,
    ensures
        ({
            let c = m.checkpoint_control;
            let before = c.uncommitted_messages;
            let after = m.recorded(n, collect, finished);
            let posts = after.uncommitted_messages.uncommitted_checkpoint_post;
            let resps = n.state->Completed_0;
            &&& posts.len() == before.uncommitted_checkpoint_post.len() + 1
            &&& posts[0].command_contexts == n.command_ctx
            &&& posts[0].collect_notifiers_checkpoint == collect
            &&& posts[0].finish_notifiers == finished
            &&& posts.drop_first() == before.uncommitted_checkpoint_post
            &&& before.uncommitted_checkpoint_post.len() > 0 ==> posts.last()
                == before.uncommitted_checkpoint_post.last()
            &&& before.uncommitted_ssts.is_prefix_of(after.uncommitted_messages.uncommitted_ssts)
            &&& after.uncommitted_messages.uncommitted_ssts.contains(sst) <==> (
            before.uncommitted_ssts.contains(sst) || exists|i: int|
                0 <= i < resps.len() && (#[trigger] resps[i]).synced_sstables.contains(sst))
            &&& after.command_ctx_queue == c.command_ctx_queue
            &&& after.creating_tables == c.creating_tables
            &&& after.dropping_tables == c.dropping_tables
            &&& after.adding_actors == c.adding_actors
            &&& after.removing_actors == c.removing_actors
            &&& after.checkpoint_frequency == c.checkpoint_frequency
            &&& n.state->Completed_1 ==> after.num_distance_checkpoint == c.num_distance_checkpoint
            &&& collect.len() == 0 && finished.len() == 0 ==> after.num_distance_checkpoint
                == c.num_distance_checkpoint
        }),
{
    let before = m.checkpoint_control.uncommitted_messages;
    let after = m.recorded(n, collect, finished).uncommitted_messages;
    let resps = n.state->Completed_0;
    let f = |r: BarrierCompleteResponseModel| r.synced_sstables;
    lemma_gather_contains(resps, f, sst);
    assert(after.uncommitted_checkpoint_post.drop_first() =~= before.uncommitted_checkpoint_post);
    let a = before.uncommitted_ssts;
    let b = ssts_of(resps);
    assert((a + b).contains(sst) <==> a.contains(sst) || b.contains(sst)) by {
        if a.contains(sst) {
            let k = choose|k: int| 0 <= k < a.len() && a[k] == sst;
            assert((a + b)[k] == sst);
        }
        if b.contains(sst) {
            let k = choose|k: int| 0 <= k < b.len() && b[k] == sst;
            assert((a + b)[a.len() + k] == sst);
        }
    }
    assert(a =~= (a + b).subrange(0, a.len() as int));
    if b.contains(sst) {
        let i = choose|i: int| 0 <= i < resps.len() && f(#[trigger] resps[i]).contains(sst);
        assert(resps[i].synced_sstables.contains(sst));
    }
    if exists|i: int| 0 <= i < resps.len() && (#[trigger] resps[i]).synced_sstables.contains(sst) {
        let i = choose|i: int| 0 <= i < resps.len() && (#[trigger] resps[i]).synced_sstables.contains(sst);
        assert(f(resps[i]).contains(sst));
    }
}

/// The progress of a collected barrier is what its nodes brought back, and nothing else.
pub proof fn law_progress_is_brought_back(resps: Seq<BarrierCompleteResponseModel>, x: u64)
    ensures
        progress_of(resps).contains(x) <==> exists|i: int|
            0 <= i < resps.len() && (#[trigger] resps[i]).create_mview_progress.contains(x),
{
    let f = |r: BarrierCompleteResponseModel| r.create_mview_progress;
    lemma_gather_contains(resps, f, x);
    if progress_of(resps).contains(x) {
        let i = choose|i: int| 0 <= i < resps.len() && f(#[trigger] resps[i]).contains(x);
        assert(resps[i].create_mview_progress.contains(x));
    }
    if exists|i: int| 0 <= i < resps.len() && (#[trigger] resps[i]).create_mview_progress.contains(x) {
        let i = choose|i: int|
            0 <= i < resps.len() && (#[trigger] resps[i]).create_mview_progress.contains(x);
        assert(f(resps[i]).contains(x));
    }
}

/// An epoch that stands for none is not committed, and every other one is.
pub proof fn law_every_other_epoch_is_committed(epoch: u64)
    ensures
        crate::barrier::manager::valid_epoch(INVALID_EPOCH) is None,
        epoch != INVALID_EPOCH ==> crate::barrier::manager::valid_epoch(epoch) == Some(epoch),
{
}

/// At first no barrier is in flight, nothing is being changed or waits to be committed, and the next
/// checkpoint is as far away as checkpoints are apart.
pub proof fn law_nothing_is_in_flight_at_first(frequency: usize)
    ensures
        ({
            let c = CheckpointControlModel::fresh(frequency);
            &&& c.command_ctx_queue.len() == 0
            &&& c.creating_tables.is_empty()
            &&& c.dropping_tables.is_empty()
            &&& c.adding_actors.is_empty()
            &&& c.removing_actors.is_empty()
            &&& c.uncommitted_messages.uncommitted_checkpoint_post.len() == 0
            &&& c.uncommitted_messages.uncommitted_ssts.len() == 0
            &&& c.uncommitted_messages.uncommitted_work_ids.dom().is_empty()
            &&& c.num_distance_checkpoint == frequency
            &&& c.checkpoint_frequency == frequency
        }),
{
}

/// There is nothing to do exactly where no actor is sent a barrier and none is to collect it.
pub proof fn law_nothing_to_do_without_actors(info: BarrierActorInfoModel)
    ensures
        info.nothing_to_do() <==> (forall|node: u32| !#[trigger] info.actor_map_to_send.contains_key(node))
            && (forall|node: u32| !#[trigger] info.actor_map_to_collect.contains_key(node)),
{
    if (forall|node: u32| !#[trigger] info.actor_map_to_send.contains_key(node)) && (forall|node: u32|
        !#[trigger] info.actor_map_to_collect.contains_key(node)) {
        assert(info.actor_map_to_send =~= Map::empty());
        assert(info.actor_map_to_collect =~= Map::empty());
    }
}

/// Each barrier in flight counts once, and a completed one does not.
pub proof fn law_barriers_in_flight_are_counted(q: Seq<EpochNodeModel>, x: EpochNodeModel)
    ensures
        count_in_flight(q.push(x)) == count_in_flight(q) + if x.state is InFlight {
            1nat
        } else {
            0nat
        },
        count_in_flight(q) == 0 <==> forall|i: int|
            0 <= i < q.len() ==> !((#[trigger] q[i]).state is InFlight),
        count_in_flight(q) <= q.len(),
    decreases q.len(),
{
    assert(q.push(x).drop_last() =~= q);
    if q.len() > 0 {
        let d = q.drop_last();
        law_barriers_in_flight_are_counted(d, q.last());
        assert(d.push(q.last()) =~= q);
        assert forall|i: int| 0 <= i < d.len() implies #[trigger] d[i] == q[i] by {}
        assert(q[q.len() - 1] == q.last());
        if count_in_flight(q) == 0 {
            assert forall|i: int| 0 <= i < q.len() implies !((#[trigger] q[i]).state is InFlight) by {
                if i < d.len() {
                    assert(!(d[i].state is InFlight));
                }
            }
        }
        if forall|i: int| 0 <= i < q.len() ==> !((#[trigger] q[i]).state is InFlight) {
            assert forall|i: int| 0 <= i < d.len() implies !((#[trigger] d[i]).state is InFlight) by {
                assert(!(q[i].state is InFlight));
            }
        }
    }
}

/// A barrier can be sent exactly where fewer than allowed are in flight and the last one does not hold up
/// those behind it.
pub proof fn law_when_a_barrier_can_be_sent(c: CheckpointControlModel, limit: usize)
    ensures
        c.can_inject(limit) <==> count_in_flight(c.command_ctx_queue) < limit && (
        c.command_ctx_queue.len() > 0 ==> !c.command_ctx_queue[c.command_ctx_queue.len()
            - 1].command_ctx.command.should_pause_inject_barrier),
{
}

/// The barriers that are completed are the first ones, up to the first that is still in flight.
pub proof fn law_barriers_complete_in_order(q: Seq<EpochNodeModel>)
    ensures
        completed_head(q) <= q.len(),
        forall|i: int| 0 <= i < completed_head(q) ==> !((#[trigger] q[i]).state is InFlight),
        completed_head(q) < q.len() ==> q[completed_head(q) as int].state is InFlight,
    decreases q.len(),
{
    if q.len() > 0 && !in_flight(q[0]) {
        let d = q.drop_first();
        law_barriers_complete_in_order(d);
        assert forall|i: int| 0 <= i < completed_head(q) implies !((#[trigger] q[i]).state is InFlight) by {
            if i > 0 {
                assert(d[i - 1] == q[i]);
            }
        }
    }
}

} // verus!
