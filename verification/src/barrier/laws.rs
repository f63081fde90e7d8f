//! What holds of the barriers at all times.

use vstd::prelude::*;

use crate::barrier::control::{
    completed_at, completed_head, in_flight, lemma_completed_head, lemma_position,
    CheckpointControlModel, EpochNodeModel,
};
use crate::barrier::manager::{scheduled_with, GlobalBarrierManagerModel};
use crate::barrier::notifier::Notifier;
use crate::barrier::scheduled::ScheduledModel;
use crate::barrier::types::{
    BarrierActorInfoModel, BarrierCompleteResponseModel, CommandChangesModel, CommandModel,
};

verus! {

/// The changes of a command that were noted and are taken back leave no trace.
pub proof fn law_changes_taken_back(c: CheckpointControlModel, changes: CommandChangesModel)
    requires
        c.can_pre_resolve(changes),
        c.pre_resolved(changes).can_post_resolve(changes),
    ensures
        c.pre_resolved(changes).post_resolved(changes).notes(changes),
        c.pre_resolved(changes).post_resolved(changes).without(changes) == c,
{
    let after = c.pre_resolved(changes).post_resolved(changes).without(changes);
    assert(after.creating_tables =~= c.creating_tables);
    assert(after.dropping_tables =~= c.dropping_tables);
    assert(after.adding_actors =~= c.adding_actors);
    assert(after.removing_actors =~= c.removing_actors);
}

/// While a command is being resolved, a barrier reaches the actors that it adds and still reaches
/// the running ones that it removes; afterwards it does not reach those.
pub proof fn law_reach_of_actors(
    c: CheckpointControlModel,
    to_add: Set<u32>,
    to_remove: Set<u32>,
    table: u32,
    actor: u32,
)
    ensures
        ({
            let changes = CommandChangesModel::Actor { to_add, to_remove };
            let during = c.pre_resolved(changes);
            let after = during.post_resolved(changes);
            &&& to_add.contains(actor) ==> during.reaches(
                crate::barrier::types::ActorState::Inactive,
                table,
                actor,
            )
            &&& during.reaches(crate::barrier::types::ActorState::Running, table, actor)
                == c.reaches(crate::barrier::types::ActorState::Running, table, actor)
            &&& to_remove.contains(actor) ==> !after.reaches(
                crate::barrier::types::ActorState::Running,
                table,
                actor,
            )
        }),
{
}

// ---------------------------------------------------------------------------
// Noted changes.
// ---------------------------------------------------------------------------

/// Two commands do not change the same.
pub open spec fn apart(a: CommandChangesModel, b: CommandChangesModel) -> bool {
    match (a, b) {
        (CommandChangesModel::CreateTable(x), CommandChangesModel::CreateTable(y)) => x != y,
        (CommandChangesModel::DropTable(x), CommandChangesModel::DropTable(y)) => x != y,
        (
            CommandChangesModel::Actor { to_add: x, to_remove: u },
            CommandChangesModel::Actor { to_add: y, to_remove: v },
        ) => x.disjoint(y) && u.disjoint(v),
        _ => true,
    }
}

/// The changes of all commands in `q` are noted, and no two of them change the same.
pub open spec fn accounts_for(c: CheckpointControlModel, q: Seq<CommandChangesModel>) -> bool {
    &&& forall|i: int| 0 <= i < q.len() ==> c.notes(#[trigger] q[i])
    &&& forall|i: int, j: int|
        0 <= i < q.len() && 0 <= j < q.len() && i != j ==> apart(#[trigger] q[i], #[trigger] q[j])
}

/// A command that is resolved is accounted for with those before it.
pub proof fn law_accounted_after_resolve(
    c: CheckpointControlModel,
    q: Seq<CommandChangesModel>,
    changes: CommandChangesModel,
)
    requires
        accounts_for(c, q),
        c.can_pre_resolve(changes),
        c.pre_resolved(changes).can_post_resolve(changes),
    ensures
        accounts_for(c.pre_resolved(changes).post_resolved(changes), q.push(changes)),
{
    let after = c.pre_resolved(changes).post_resolved(changes);
    let p = q.push(changes);
    assert forall|i: int| 0 <= i < p.len() implies after.notes(#[trigger] p[i]) by {
        if i < q.len() {
            assert(p[i] == q[i]);
            assert(c.notes(q[i]));
        }
    }
    assert forall|i: int, j: int| 0 <= i < p.len() && 0 <= j < p.len() && i != j implies apart(
        #[trigger] p[i],
        #[trigger] p[j],
    ) by {
        if i < q.len() && j < q.len() {
            assert(apart(q[i], q[j]));
        } else if i < q.len() {
            assert(c.notes(q[i]));
        } else {
            assert(c.notes(q[j]));
        }
    }
}

/// Once the changes of one command are taken back, those of the others are still noted.
pub proof fn law_accounted_after_remove(
    c: CheckpointControlModel,
    q: Seq<CommandChangesModel>,
    k: int,
)
    requires
        accounts_for(c, q),
        0 <= k < q.len(),
    ensures
        accounts_for(c.without(q[k]), q.remove(k)),
{
    let after = c.without(q[k]);
    let p = q.remove(k);
    assert forall|i: int| 0 <= i < p.len() implies after.notes(#[trigger] p[i]) by {
        let j = if i < k {
            i
        } else {
            i + 1
        };
        assert(p[i] == q[j]);
        assert(c.notes(q[j]));
        assert(apart(q[j], q[k]));
    }
    assert forall|i: int, j: int| 0 <= i < p.len() && 0 <= j < p.len() && i != j implies apart(
        #[trigger] p[i],
        #[trigger] p[j],
    ) by {
        let a = if i < k {
            i
        } else {
            i + 1
        };
        let b = if j < k {
            j
        } else {
            j + 1
        };
        assert(p[i] == q[a]);
        assert(p[j] == q[b]);
        assert(apart(q[a], q[b]));
    }
}

/// The changes of the commands of barriers.
pub open spec fn changes_of(q: Seq<EpochNodeModel>) -> Seq<CommandChangesModel> {
    Seq::new(q.len(), |i: int| q[i].command_ctx.command.changes)
}

proof fn lemma_accounted_prefix(c: CheckpointControlModel, q: Seq<EpochNodeModel>, k: int)
    requires
        accounts_for(c, changes_of(q)),
        0 <= k <= q.len(),
    ensures
        accounts_for(c.without_all(q.take(k)), changes_of(q.skip(k))),
    decreases k,
{
    if k == 0 {
        assert(q.take(0) =~= Seq::empty());
        assert(q.skip(0) =~= q);
    } else {
        lemma_accounted_prefix(c, q, k - 1);
        let before = q.skip(k - 1);
        assert(q.take(k).drop_last() =~= q.take(k - 1));
        assert(q.take(k).last() == q[k - 1]);
        assert(changes_of(before)[0] == q[k - 1].command_ctx.command.changes);
        law_accounted_after_remove(c.without_all(q.take(k - 1)), changes_of(before), 0);
        assert(changes_of(before).remove(0) =~= changes_of(q.skip(k)));
    }
}

/// As long as the changes of the barriers in the queue are accounted for, the queue can be failed.
pub proof fn law_fail_is_allowed(c: CheckpointControlModel)
    requires
        accounts_for(c, changes_of(c.command_ctx_queue)),
    ensures
        c.notes_all(c.command_ctx_queue),
{
    let q = c.command_ctx_queue;
    assert forall|i: int| 0 <= i < q.len() implies #[trigger] c.notes_at(q, i) by {
        lemma_accounted_prefix(c, q, i);
        assert(changes_of(q.skip(i))[0] == q[i].command_ctx.command.changes);
    }
}

// ---------------------------------------------------------------------------
// Epochs.
// ---------------------------------------------------------------------------

/// The epochs of the barriers follow each other, and none is behind the last one that was sent.
pub open spec fn in_order(m: GlobalBarrierManagerModel) -> bool {
    let q = m.checkpoint_control.command_ctx_queue;
    &&& forall|i: int|
        0 <= i < q.len() ==> (#[trigger] q[i]).command_ctx.prev_epoch < q[i].command_ctx.curr_epoch
            && q[i].command_ctx.curr_epoch <= m.in_flight_prev_epoch
    &&& forall|i: int, j: int|
        0 <= i < j < q.len() ==> (#[trigger] q[i]).command_ctx.curr_epoch <= (
        #[trigger] q[j]).command_ctx.prev_epoch
}

/// A barrier that is sent keeps the epochs in order.
pub proof fn law_send_keeps_order(
    m: GlobalBarrierManagerModel,
    command: CommandModel,
    info: BarrierActorInfoModel,
    new_epoch: u64,
    notifiers: Seq<Notifier>,
)
    requires
        in_order(m),
        new_epoch > m.in_flight_prev_epoch,
    ensures
        in_order(m.after_send(m.next_context(command, info, new_epoch), notifiers)),
{
    let q = m.checkpoint_control.command_ctx_queue;
    let ctx = m.next_context(command, info, new_epoch);
    let after = m.after_send(ctx, notifiers);
    let p = after.checkpoint_control.command_ctx_queue;
    assert forall|i: int| 0 <= i < p.len() implies (#[trigger] p[i]).command_ctx.prev_epoch
        < p[i].command_ctx.curr_epoch && p[i].command_ctx.curr_epoch <= after.in_flight_prev_epoch by {
        if i < q.len() {
            assert(p[i] == q[i]);
        }
    }
    assert forall|i: int, j: int| 0 <= i < j < p.len() implies (
    #[trigger] p[i]).command_ctx.curr_epoch <= (#[trigger] p[j]).command_ctx.prev_epoch by {
        assert(p[i] == q[i]);
        if j < q.len() {
            assert(p[j] == q[j]);
        }
    }
}

/// A barrier that comes back keeps the epochs in order: the barriers that are handed out to be
/// committed are completed, their epochs ascend, and all of them are before those of the barriers
/// that stay; nothing is lost, and the first that stays is in flight.
pub proof fn law_complete_in_order(
    m: GlobalBarrierManagerModel,
    prev_epoch: u64,
    resps: Seq<BarrierCompleteResponseModel>,
)
    requires
        in_order(m),
    ensures
        ({
            let q = completed_at(m.checkpoint_control.command_ctx_queue, prev_epoch, resps);
            let n = completed_head(q) as int;
            let done = q.take(n);
            let rest = q.skip(n);
            &&& done + rest == q
            &&& q.len() == m.checkpoint_control.command_ctx_queue.len()
            &&& forall|i: int| 0 <= i < done.len() ==> (#[trigger] done[i]).state is Completed
            &&& forall|i: int, j: int|
                0 <= i < j < done.len() ==> (#[trigger] done[i]).command_ctx.prev_epoch < (
                #[trigger] done[j]).command_ctx.prev_epoch
            &&& forall|i: int, j: int|
                0 <= i < done.len() && 0 <= j < rest.len() ==> (
                #[trigger] done[i]).command_ctx.prev_epoch < (
                #[trigger] rest[j]).command_ctx.prev_epoch
            &&& rest.len() > 0 ==> in_flight(rest[0])
            &&& in_order(
                GlobalBarrierManagerModel {
                    checkpoint_control: CheckpointControlModel {
                        command_ctx_queue: rest,
                        ..m.checkpoint_control
                    },
                    ..m
                },
            )
        }),
{
    let old = m.checkpoint_control.command_ctx_queue;
    let q = completed_at(old, prev_epoch, resps);
    let n = completed_head(q) as int;
    let done = q.take(n);
    let rest = q.skip(n);
    lemma_position(old, prev_epoch);
    lemma_completed_head(q);
    assert(done + rest =~= q);
    assert forall|i: int| 0 <= i < q.len() implies (#[trigger] q[i]).command_ctx
        == old[i].command_ctx by {}
    assert forall|i: int| 0 <= i < done.len() implies (#[trigger] done[i]).state is Completed by {
        assert(done[i] == q[i]);
    }
    assert forall|i: int, j: int| 0 <= i < j < q.len() implies (
    #[trigger] q[i]).command_ctx.prev_epoch < (#[trigger] q[j]).command_ctx.prev_epoch by {
        assert(old[i].command_ctx.prev_epoch < old[i].command_ctx.curr_epoch);
        assert(old[i].command_ctx.curr_epoch <= old[j].command_ctx.prev_epoch);
    }
    assert forall|i: int, j: int| 0 <= i < j < done.len() implies (
    #[trigger] done[i]).command_ctx.prev_epoch < (#[trigger] done[j]).command_ctx.prev_epoch by {
        assert(done[i] == q[i] && done[j] == q[j]);
    }
    assert forall|i: int, j: int| 0 <= i < done.len() && 0 <= j < rest.len() implies (
    #[trigger] done[i]).command_ctx.prev_epoch < (#[trigger] rest[j]).command_ctx.prev_epoch by {
        assert(done[i] == q[i] && rest[j] == q[n + j]);
    }
    if rest.len() > 0 {
        assert(rest[0] == q[n]);
    }
    assert forall|i: int| 0 <= i < rest.len() implies (#[trigger] rest[i]).command_ctx
        == old[n + i].command_ctx by {
        assert(rest[i] == q[n + i]);
    }
}

// ---------------------------------------------------------------------------
// How often a checkpoint is written.
// ---------------------------------------------------------------------------

/// How far the next checkpoint is once `k` more barriers asked for one.
pub open spec fn distance_after(c: CheckpointControlModel, k: nat) -> nat
    decreases k,
{
    if k == 0 {
        c.num_distance_checkpoint as nat
    } else {
        let before = distance_after(c, (k - 1) as nat);
        if before == 0 {
            c.checkpoint_frequency as nat
        } else {
            (before - 1) as nat
        }
    }
}

/// While no command forces one, the next `num_distance_checkpoint` barriers write no checkpoint,
/// the one behind them does, and from there on every `checkpoint_frequency + 1`st does.
pub proof fn law_checkpoint_frequency(c: CheckpointControlModel, k: nat)
    ensures
        k <= c.num_distance_checkpoint ==> distance_after(c, k) == c.num_distance_checkpoint - k,
        k > c.num_distance_checkpoint ==> distance_after(c, k) == c.checkpoint_frequency - ((k
            - c.num_distance_checkpoint - 1) % (c.checkpoint_frequency + 1)),
    decreases k,
{
    if k > 0 {
        law_checkpoint_frequency(c, (k - 1) as nat);
        let f = c.checkpoint_frequency + 1;
        if k > c.num_distance_checkpoint + 1 {
            let x = k - c.num_distance_checkpoint - 2;
            vstd::arithmetic::div_mod::lemma_mod_bound(x, f);
            lemma_next_mod(x, f);
        } else if k == c.num_distance_checkpoint + 1 {
            vstd::arithmetic::div_mod::lemma_small_mod(0, f as nat);
        }
    }
}

/// Whoever waits for a checkpoint that a completed barrier did not write gets it with the next
/// barrier that is sent, whatever its command.
pub proof fn law_waiting_gets_checkpoint(
    m: GlobalBarrierManagerModel,
    n: EpochNodeModel,
    collect: Seq<Option<u64>>,
    finished: Seq<Notifier>,
    command: CommandModel,
    info: BarrierActorInfoModel,
    new_epoch: u64,
)
    requires
        n.state is Completed,
        !n.state->Completed_1,
        collect.len() > 0 || finished.len() > 0,
    ensures
        (GlobalBarrierManagerModel {
            checkpoint_control: m.recorded(n, collect, finished),
            ..m
        }).next_context(command, info, new_epoch).checkpoint,
{
}

/// The remainder of the next number.
proof fn lemma_next_mod(x: int, f: int)
    requires
        x >= 0,
        f > 0,
    ensures
        (x + 1) % f == if x % f == f - 1 {
            0
        } else {
            x % f + 1
        },
{
    let q = x / f;
    let r = x % f;
    vstd::arithmetic::div_mod::lemma_fundamental_div_mod(x, f);
    vstd::arithmetic::div_mod::lemma_mod_bound(x, f);
    if r == f - 1 {
        assert(x + 1 == (q + 1) * f + 0) by (nonlinear_arith)
            requires
                x == f * q + r,
                r == f - 1,
        ;
        vstd::arithmetic::div_mod::lemma_fundamental_div_mod_converse(x + 1, f, q + 1, 0);
    } else {
        assert(x + 1 == q * f + (r + 1)) by (nonlinear_arith)
            requires
                x == f * q + r,
        ;
        vstd::arithmetic::div_mod::lemma_fundamental_div_mod_converse(x + 1, f, q, r + 1);
    }
}

// ---------------------------------------------------------------------------
// Scheduled commands.
// ---------------------------------------------------------------------------

/// What is scheduled once `n` barriers were taken off the front.
pub open spec fn left_after(q: Seq<ScheduledModel>, n: nat) -> Seq<ScheduledModel>
    decreases n,
{
    if n == 0 {
        q
    } else {
        let before = left_after(q, (n - 1) as nat);
        if before.len() == 0 {
            before
        } else {
            before.skip(1)
        }
    }
}

/// Commands that are scheduled together are taken one directly behind the other, in their order,
/// after what was scheduled before them, whatever is scheduled later.
pub proof fn law_commands_run_continuously(
    q: Seq<ScheduledModel>,
    commands: Seq<CommandModel>,
    senders: Seq<(u64, u64)>,
    later: Seq<ScheduledModel>,
    k: nat,
)
    requires
        senders.len() == commands.len(),
        k < commands.len(),
    ensures
        ({
            let rest = left_after(q + scheduled_with(commands, senders) + later, q.len() + k);
            &&& rest.len() > 0
            &&& rest[0] == scheduled_with(commands, senders)[k as int]
            &&& rest[0].0 == commands[k as int]
        }),
{
    let all = q + scheduled_with(commands, senders) + later;
    lemma_left_after(all, q.len() + k);
    assert(all.skip((q.len() + k) as int)[0] == all[(q.len() + k) as int]);
}

/// Taking `n` barriers off the front leaves the rest.
proof fn lemma_left_after(q: Seq<ScheduledModel>, n: nat)
    requires
        n <= q.len(),
    ensures
        left_after(q, n) == q.skip(n as int),
    decreases n,
{
    if n == 0 {
        assert(q.skip(0) =~= q);
    } else {
        lemma_left_after(q, (n - 1) as nat);
        assert(q.skip(n - 1).skip(1) =~= q.skip(n as int));
    }
}

} // verus!
