//! The barriers that are in flight, and what they will change.

use std::collections::HashMap;
use std::collections::VecDeque;

use vstd::prelude::*;

use crate::barrier::notifier::{Notifier, Notifiers};
use crate::barrier::types::{
    ActorState, BarrierCompleteResponse, BarrierCompleteResponseModel, Command, CommandChanges,
    CommandChangesModel, CommandContext, CommandContextModel, GroupedSst,
};
use crate::util::id_map::{views, Entry};
use crate::util::id_set::IdSet;
use crate::util::lists::{gather, lemma_gather_push};

verus! {

/// The state of barrier.
pub enum BarrierEpochState {
    /// This barrier is current in-flight on the stream graph of compute nodes.
    InFlight,
    /// This barrier is completed. We use a bool to mark if this barrier needs to do checkpoint.
    Completed(Vec<BarrierCompleteResponse>, bool),
}

/// The mathematical model of [`BarrierEpochState`].
#[verifier::ext_equal]
pub enum BarrierEpochStateModel {
    InFlight,
    Completed(Seq<BarrierCompleteResponseModel>, bool),
}

impl View for BarrierEpochState {
    type V = BarrierEpochStateModel;

    open spec fn view(&self) -> BarrierEpochStateModel {
        match *self {
            BarrierEpochState::InFlight => BarrierEpochStateModel::InFlight,
            BarrierEpochState::Completed(resps, checkpoint) => BarrierEpochStateModel::Completed(
                views(resps@),
                checkpoint,
            ),
        }
    }
}

/// The state and message of this barrier, a node for concurrent checkpoint.
pub struct EpochNode {
    /// Whether this barrier is in-flight or completed.
    pub state: BarrierEpochState,
    /// Context of this command to generate barrier and do some post jobs.
    pub command_ctx: CommandContext,
    /// Notifiers of this barrier.
    pub notifiers: Notifiers,
}

/// The mathematical model of [`EpochNode`].
#[verifier::ext_equal]
pub struct EpochNodeModel {
    pub state: BarrierEpochStateModel,
    pub command_ctx: CommandContextModel,
    pub notifiers: Seq<Notifier>,
}

impl View for EpochNode {
    type V = EpochNodeModel;

    open spec fn view(&self) -> EpochNodeModel {
        EpochNodeModel {
            state: self.state@,
            command_ctx: self.command_ctx@,
            notifiers: self.notifiers@,
        }
    }
}

/// Post-processing information for barriers.
pub struct CheckpointPost {
    pub command_contexts: CommandContext,
    /// Who is told about collected with checkpoint.
    pub collect_notifiers_checkpoint: Vec<Option<u64>>,
    /// Who is told that a materialized view is created.
    pub finish_notifiers: Vec<Notifier>,
}

/// The mathematical model of [`CheckpointPost`].
#[verifier::ext_equal]
pub struct CheckpointPostModel {
    pub command_contexts: CommandContextModel,
    pub collect_notifiers_checkpoint: Seq<Option<u64>>,
    pub finish_notifiers: Seq<Notifier>,
}

impl View for CheckpointPost {
    type V = CheckpointPostModel;

    open spec fn view(&self) -> CheckpointPostModel {
        CheckpointPostModel {
            command_contexts: self.command_contexts@,
            collect_notifiers_checkpoint: self.collect_notifiers_checkpoint@,
            finish_notifiers: self.finish_notifiers@,
        }
    }
}

/// Post-processing information for barriers and previously uncommitted ssts
pub struct UncommittedMessages {
    pub uncommitted_checkpoint_post: VecDeque<CheckpointPost>,
    /// Ssts that need to commit with next checkpoint.
    pub uncommitted_ssts: Vec<GroupedSst>,
    /// The workers of the ssts that need to commit with next checkpoint.
    pub uncommitted_work_ids: HashMap<u64, u32>,
}

/// The mathematical model of [`UncommittedMessages`].
#[verifier::ext_equal]
pub struct UncommittedMessagesModel {
    pub uncommitted_checkpoint_post: Seq<CheckpointPostModel>,
    pub uncommitted_ssts: Seq<GroupedSst>,
    pub uncommitted_work_ids: Map<u64, u32>,
}

impl View for UncommittedMessages {
    type V = UncommittedMessagesModel;

    open spec fn view(&self) -> UncommittedMessagesModel {
        UncommittedMessagesModel {
            uncommitted_checkpoint_post: views(self.uncommitted_checkpoint_post@),
            uncommitted_ssts: self.uncommitted_ssts@,
            uncommitted_work_ids: self.uncommitted_work_ids@,
        }
    }
}

impl UncommittedMessagesModel {
    /// Nothing is uncommitted.
    pub open spec fn none() -> UncommittedMessagesModel {
        UncommittedMessagesModel {
            uncommitted_checkpoint_post: Seq::empty(),
            uncommitted_ssts: Seq::empty(),
            uncommitted_work_ids: Map::empty(),
        }
    }
}

impl Default for UncommittedMessages {
    fn default() -> (r: Self)
        ensures
            r@ == UncommittedMessagesModel::none(),
    {
        let r = UncommittedMessages {
            uncommitted_checkpoint_post: VecDeque::new(),
            uncommitted_ssts: Vec::new(),
            uncommitted_work_ids: HashMap::new(),
        };
        assert(r@ =~= UncommittedMessagesModel::none());
        r
    }
}

/// Controls the concurrent execution of commands.
pub struct CheckpointControl {
    /// Save the state and message of barrier in order.
    pub command_ctx_queue: VecDeque<EpochNode>,
    /// In addition to the actors with status `Running`. The barrier needs to send or collect the
    /// actors of these tables.
    pub creating_tables: IdSet,
    /// The barrier does not send or collect the actors of these tables, even if they are
    /// `Running`.
    pub dropping_tables: IdSet,
    /// In addition to the actors with status `Running`. The barrier needs to send or collect these
    /// actors.
    pub adding_actors: IdSet,
    /// The barrier does not send or collect these actors, even if they are `Running`.
    pub removing_actors: IdSet,
    /// Messages that needs to be completed or processed with checkpoints
    pub uncommitted_messages: UncommittedMessages,
    /// We will inject a barrier(checkpoint=true) after `num_distance_checkpoint`
    /// barrier(checkpoint = false)
    pub num_distance_checkpoint: usize,
    pub checkpoint_frequency: usize,
}

/// The mathematical model of [`CheckpointControl`].
#[verifier::ext_equal]
pub struct CheckpointControlModel {
    pub command_ctx_queue: Seq<EpochNodeModel>,
    pub creating_tables: Set<u32>,
    pub dropping_tables: Set<u32>,
    pub adding_actors: Set<u32>,
    pub removing_actors: Set<u32>,
    pub uncommitted_messages: UncommittedMessagesModel,
    pub num_distance_checkpoint: usize,
    pub checkpoint_frequency: usize,
}

impl View for CheckpointControl {
    type V = CheckpointControlModel;

    open spec fn view(&self) -> CheckpointControlModel {
        CheckpointControlModel {
            command_ctx_queue: views(self.command_ctx_queue@),
            creating_tables: self.creating_tables@,
            dropping_tables: self.dropping_tables@,
            adding_actors: self.adding_actors@,
            removing_actors: self.removing_actors@,
            uncommitted_messages: self.uncommitted_messages@,
            num_distance_checkpoint: self.num_distance_checkpoint,
            checkpoint_frequency: self.checkpoint_frequency,
        }
    }
}

// ---------------------------------------------------------------------------
// The changes of commands.
// ---------------------------------------------------------------------------

impl CheckpointControlModel {
    /// Nothing is in flight.
    pub open spec fn fresh(checkpoint_frequency: usize) -> CheckpointControlModel {
        CheckpointControlModel {
            command_ctx_queue: Seq::empty(),
            creating_tables: Set::empty(),
            dropping_tables: Set::empty(),
            adding_actors: Set::empty(),
            removing_actors: Set::empty(),
            uncommitted_messages: UncommittedMessagesModel::none(),
            num_distance_checkpoint: checkpoint_frequency,
            checkpoint_frequency,
        }
    }

    /// The command does not create or add what a command in flight creates, adds or drops.
    pub open spec fn can_pre_resolve(self, changes: CommandChangesModel) -> bool {
        match changes {
            CommandChangesModel::CreateTable(table) => !self.dropping_tables.contains(table)
                && !self.creating_tables.contains(table),
            CommandChangesModel::Actor { to_add, .. } => self.adding_actors.disjoint(to_add),
            _ => true,
        }
    }

    /// What the command will create and add is noted.
    pub open spec fn pre_resolved(self, changes: CommandChangesModel) -> CheckpointControlModel {
        match changes {
            CommandChangesModel::CreateTable(table) => CheckpointControlModel {
                creating_tables: self.creating_tables.insert(table),
                ..self
            },
            CommandChangesModel::Actor { to_add, .. } => CheckpointControlModel {
                adding_actors: self.adding_actors.union(to_add),
                ..self
            },
            _ => self,
        }
    }

    /// The command does not drop or remove what a command in flight drops, removes or creates.
    pub open spec fn can_post_resolve(self, changes: CommandChangesModel) -> bool {
        match changes {
            CommandChangesModel::DropTable(table) => !self.creating_tables.contains(table)
                && !self.dropping_tables.contains(table),
            CommandChangesModel::Actor { to_remove, .. } => self.removing_actors.disjoint(to_remove),
            _ => true,
        }
    }

    /// What the command will drop and remove is noted.
    pub open spec fn post_resolved(self, changes: CommandChangesModel) -> CheckpointControlModel {
        match changes {
            CommandChangesModel::DropTable(table) => CheckpointControlModel {
                dropping_tables: self.dropping_tables.insert(table),
                ..self
            },
            CommandChangesModel::Actor { to_remove, .. } => CheckpointControlModel {
                removing_actors: self.removing_actors.union(to_remove),
                ..self
            },
            _ => self,
        }
    }

    /// The changes of the command are noted.
    pub open spec fn notes(self, changes: CommandChangesModel) -> bool {
        match changes {
            CommandChangesModel::CreateTable(table) => self.creating_tables.contains(table),
            CommandChangesModel::DropTable(table) => self.dropping_tables.contains(table),
            CommandChangesModel::Actor { to_add, to_remove } => to_add.subset_of(
                self.adding_actors,
            ) && to_remove.subset_of(self.removing_actors),
            CommandChangesModel::Nothing => true,
        }
    }

    /// The changes of the command are no longer noted.
    pub open spec fn without(self, changes: CommandChangesModel) -> CheckpointControlModel {
        match changes {
            CommandChangesModel::CreateTable(table) => CheckpointControlModel {
                creating_tables: self.creating_tables.remove(table),
                ..self
            },
            CommandChangesModel::DropTable(table) => CheckpointControlModel {
                dropping_tables: self.dropping_tables.remove(table),
                ..self
            },
            CommandChangesModel::Actor { to_add, to_remove } => CheckpointControlModel {
                adding_actors: self.adding_actors.difference(to_add),
                removing_actors: self.removing_actors.difference(to_remove),
                ..self
            },
            CommandChangesModel::Nothing => self,
        }
    }

    /// The changes of the commands in `q` are no longer noted.
    pub open spec fn without_all(self, q: Seq<EpochNodeModel>) -> CheckpointControlModel
        decreases q.len(),
    {
        if q.len() == 0 {
            self
        } else {
            self.without_all(q.drop_last()).without(q.last().command_ctx.command.changes)
        }
    }

    /// The changes of the command at `i` are noted once those before it were taken back.
    pub open spec fn notes_at(self, q: Seq<EpochNodeModel>, i: int) -> bool {
        self.without_all(q.take(i)).notes(q[i].command_ctx.command.changes)
    }

    /// The changes of each command in `q` are noted once those before it were taken back.
    pub open spec fn notes_all(self, q: Seq<EpochNodeModel>) -> bool {
        forall|i: int| 0 <= i < q.len() ==> #[trigger] self.notes_at(q, i)
    }

    /// Barrier can be sent to and collected from an actor if:
    /// 1. The actor is Running and not being dropped or removed in rescheduling.
    /// 2. The actor is Inactive and belongs to a creating MV or adding in rescheduling.
    pub open spec fn reaches(self, s: ActorState, table_id: u32, actor_id: u32) -> bool {
        match s {
            ActorState::Inactive => self.creating_tables.contains(table_id)
                || self.adding_actors.contains(actor_id),
            ActorState::Running => !self.dropping_tables.contains(table_id)
                && !self.removing_actors.contains(actor_id),
        }
    }
}

impl CheckpointControl {
    pub fn new(checkpoint_frequency: usize) -> (r: CheckpointControl)
        ensures
            r@ == CheckpointControlModel::fresh(checkpoint_frequency),
    {
        let r = CheckpointControl {
            command_ctx_queue: VecDeque::new(),
            creating_tables: IdSet::new(),
            dropping_tables: IdSet::new(),
            adding_actors: IdSet::new(),
            removing_actors: IdSet::new(),
            uncommitted_messages: UncommittedMessages::default(),
            num_distance_checkpoint: checkpoint_frequency,
            checkpoint_frequency,
        };
        assert(r@ =~= CheckpointControlModel::fresh(checkpoint_frequency));
        r
    }

    /// Whether the barrier(checkpoint = true) should be injected. If true, reset
    /// `num_distance_checkpoint`
    pub fn try_get_checkpoint(&mut self) -> (r: bool)
        ensures
            r == (old(self)@.num_distance_checkpoint == 0),
            final(self)@ == (CheckpointControlModel {
                num_distance_checkpoint: if r {
                    old(self)@.checkpoint_frequency
                } else {
                    (old(self)@.num_distance_checkpoint - 1) as usize
                },
                ..old(self)@
            }),
    {
        if self.num_distance_checkpoint == 0 {
            self.num_distance_checkpoint = self.checkpoint_frequency;
            true
        } else {
            self.num_distance_checkpoint = self.num_distance_checkpoint - 1;
            false
        }
    }

    /// Make the `checkpoint` of the next barrier must be true
    pub fn inject_checkpoint_in_next_barrier(&mut self)
        ensures
            final(self)@ == (CheckpointControlModel { num_distance_checkpoint: 0, ..old(self)@ }),
    {
        self.num_distance_checkpoint = 0;
    }

    /// Whether what the command creates and adds is free.
    pub fn can_pre_resolve(&self, command: &Command) -> (r: bool)
        ensures
            r == self@.can_pre_resolve(command@.changes),
    {
        match &command.changes {
            CommandChanges::CreateTable(table) => !self.dropping_tables.contains(*table)
                && !self.creating_tables.contains(*table),
            CommandChanges::Actor { to_add, .. } => self.adding_actors.is_disjoint(to_add),
            _ => true,
        }
    }

    /// Before resolving the actors to be sent or collected, we should first record the newly
    /// created table and added actors into checkpoint control, so that `can_actor_send_or_collect`
    /// will return `true`.
    pub fn pre_resolve(&mut self, command: &Command)
        requires
            old(self)@.can_pre_resolve(command@.changes),
        ensures
            final(self)@ == old(self)@.pre_resolved(command@.changes),
    {
        match &command.changes {
            CommandChanges::CreateTable(table) => {
                self.creating_tables.insert(*table);
            },
            CommandChanges::Actor { to_add, .. } => {
                self.adding_actors.extend(to_add);
            },
            _ => {},
        }
    }

    /// Whether what the command drops and removes is free.
    pub fn can_post_resolve(&self, command: &Command) -> (r: bool)
        ensures
            r == self@.can_post_resolve(command@.changes),
    {
        match &command.changes {
            CommandChanges::DropTable(table) => !self.creating_tables.contains(*table)
                && !self.dropping_tables.contains(*table),
            CommandChanges::Actor { to_remove, .. } => self.removing_actors.is_disjoint(to_remove),
            _ => true,
        }
    }

    /// After resolving the actors to be sent or collected, we should remove the dropped table and
    /// removed actors from checkpoint control, so that `can_actor_send_or_collect` will return
    /// `false`.
    pub fn post_resolve(&mut self, command: &Command)
        requires
            old(self)@.can_post_resolve(command@.changes),
        ensures
            final(self)@ == old(self)@.post_resolved(command@.changes),
    {
        match &command.changes {
            CommandChanges::DropTable(table) => {
                self.dropping_tables.insert(*table);
            },
            CommandChanges::Actor { to_remove, .. } => {
                self.removing_actors.extend(to_remove);
            },
            _ => {},
        }
    }

    /// Barrier can be sent to and collected from an actor if:
    /// 1. The actor is Running and not being dropped or removed in rescheduling.
    /// 2. The actor is Inactive and belongs to a creating MV or adding in rescheduling.
    pub fn can_actor_send_or_collect(&self, s: ActorState, table_id: u32, actor_id: u32) -> (r: bool)
        ensures
            r == self@.reaches(s, table_id, actor_id),
    {
        let removing = self.dropping_tables.contains(table_id) || self.removing_actors.contains(
            actor_id,
        );
        let adding = self.creating_tables.contains(table_id) || self.adding_actors.contains(
            actor_id,
        );
        match s {
            ActorState::Inactive => adding,
            ActorState::Running => !removing,
        }
    }

    /// Whether the changes of a command are noted.
    pub fn has_changes(&self, changes: &CommandChanges) -> (r: bool)
        ensures
            r == self@.notes(changes@),
    {
        match changes {
            CommandChanges::CreateTable(table) => self.creating_tables.contains(*table),
            CommandChanges::DropTable(table) => self.dropping_tables.contains(*table),
            CommandChanges::Actor { to_add, to_remove } => self.adding_actors.is_superset(to_add)
                && self.removing_actors.is_superset(to_remove),
            CommandChanges::Nothing => true,
        }
    }

    /// After some command is committed, the changes will be applied to the meta store so we can
    /// remove the changes from checkpoint control.
    pub fn remove_changes(&mut self, changes: &CommandChanges)
        requires
            old(self)@.notes(changes@),
        ensures
            final(self)@ == old(self)@.without(changes@),
    {
        match changes {
            CommandChanges::CreateTable(table) => {
                self.creating_tables.remove(*table);
            },
            CommandChanges::DropTable(table) => {
                self.dropping_tables.remove(*table);
            },
            CommandChanges::Actor { to_add, to_remove } => {
                self.adding_actors.subtract(to_add);
                self.removing_actors.subtract(to_remove);
            },
            CommandChanges::Nothing => {},
        }
    }
}

// ---------------------------------------------------------------------------
// The queue.
// ---------------------------------------------------------------------------

/// The barrier is in flight.
pub open spec fn in_flight(n: EpochNodeModel) -> bool {
    n.state is InFlight
}

/// How many of the first `k` barriers are in flight.
pub open spec fn count_in_flight(q: Seq<EpochNodeModel>) -> nat
    decreases q.len(),
{
    if q.len() == 0 {
        0
    } else {
        count_in_flight(q.drop_last()) + if in_flight(q.last()) {
            1nat
        } else {
            0nat
        }
    }
}

/// The first barrier with this epoch, or the length of the queue.
pub open spec fn position_of(q: Seq<EpochNodeModel>, prev_epoch: u64) -> nat
    decreases q.len(),
{
    if q.len() == 0 {
        0
    } else {
        let before = position_of(q.drop_last(), prev_epoch);
        if before < q.len() - 1 || q.last().command_ctx.prev_epoch == prev_epoch {
            before
        } else {
            q.len()
        }
    }
}

/// How many barriers at the head of the queue are completed, without a gap.
pub open spec fn completed_head(q: Seq<EpochNodeModel>) -> nat
    decreases q.len(),
{
    if q.len() == 0 || in_flight(q[0]) {
        0
    } else {
        1 + completed_head(q.drop_first())
    }
}

/// All nodes wrote a checkpoint.
pub open spec fn all_checkpoint(resps: Seq<BarrierCompleteResponseModel>) -> bool {
    forall|i: int| 0 <= i < resps.len() ==> (#[trigger] resps[i]).checkpoint
}

/// The queue with the first barrier of this epoch completed.
pub open spec fn completed_at(
    q: Seq<EpochNodeModel>,
    prev_epoch: u64,
    resps: Seq<BarrierCompleteResponseModel>,
) -> Seq<EpochNodeModel> {
    let k = position_of(q, prev_epoch) as int;
    if k < q.len() {
        q.update(
            k,
            EpochNodeModel {
                state: BarrierEpochStateModel::Completed(resps, all_checkpoint(resps)),
                ..q[k]
            },
        )
    } else {
        q
    }
}

pub proof fn lemma_position(q: Seq<EpochNodeModel>, prev_epoch: u64)
    ensures
        position_of(q, prev_epoch) <= q.len(),
        position_of(q, prev_epoch) < q.len() ==> q[position_of(
            q,
            prev_epoch,
        ) as int].command_ctx.prev_epoch == prev_epoch,
        forall|i: int|
            0 <= i < position_of(q, prev_epoch) ==> (#[trigger] q[i]).command_ctx.prev_epoch
                != prev_epoch,
    decreases q.len(),
{
    if q.len() > 0 {
        let d = q.drop_last();
        lemma_position(d, prev_epoch);
        assert forall|i: int| 0 <= i < position_of(q, prev_epoch) implies (
        #[trigger] q[i]).command_ctx.prev_epoch != prev_epoch by {
            if i < d.len() {
                assert(d[i] == q[i]);
            }
        }
        if position_of(d, prev_epoch) < d.len() {
            let k = position_of(d, prev_epoch) as int;
            assert(d[k] == q[k]);
        }
    }
}

/// The first `completed_head(q)` barriers are completed, and the next one is in flight.
pub proof fn lemma_completed_head(q: Seq<EpochNodeModel>)
    ensures
        completed_head(q) <= q.len(),
        forall|i: int| 0 <= i < completed_head(q) ==> (#[trigger] q[i]).state is Completed,
        completed_head(q) < q.len() ==> in_flight(q[completed_head(q) as int]),
    decreases q.len(),
{
    if q.len() > 0 && !in_flight(q[0]) {
        let d = q.drop_first();
        lemma_completed_head(d);
        assert forall|i: int| 0 <= i < completed_head(q) implies (
        #[trigger] q[i]).state is Completed by {
            if i > 0 {
                assert(d[i - 1] == q[i]);
            }
        }
        if completed_head(d) < d.len() {
            let k = completed_head(d) as int;
            assert(d[k] == q[k + 1]);
        }
    }
}

impl CheckpointControlModel {
    /// The barrier is in the queue, in flight.
    pub open spec fn injected(self, ctx: CommandContextModel, notifiers: Seq<Notifier>) -> CheckpointControlModel {
        CheckpointControlModel {
            command_ctx_queue: self.command_ctx_queue.push(
                EpochNodeModel {
                    state: BarrierEpochStateModel::InFlight,
                    command_ctx: ctx,
                    notifiers,
                },
            ),
            ..self
        }
    }

    /// Fewer barriers than allowed are in flight, and the last one does not pause the others.
    pub open spec fn can_inject(self, in_flight_barrier_nums: usize) -> bool {
        let q = self.command_ctx_queue;
        &&& count_in_flight(q) < in_flight_barrier_nums
        &&& q.len() > 0 ==> !q.last().command_ctx.command.should_pause_inject_barrier
    }
}

impl CheckpointControl {
    /// How many barriers are in flight, and how many there are.
    pub fn update_barrier_nums_metrics(&self) -> (r: (usize, usize))
        ensures
            r.0 == count_in_flight(self@.command_ctx_queue),
            r.1 == self@.command_ctx_queue.len(),
    {
        let ghost q = views(self.command_ctx_queue@);
        let mut n: usize = 0;
        let mut i: usize = 0;
        assert(q.take(0) =~= Seq::empty());
        while i < self.command_ctx_queue.len()
            invariant
                i <= self.command_ctx_queue.len(),
                q == views(self.command_ctx_queue@),
                n == count_in_flight(q.take(i as int)),
                n <= i,
            decreases self.command_ctx_queue.len() - i,
        {
            proof {
                assert(q.take(i + 1).drop_last() =~= q.take(i as int));
                assert(q.take(i + 1).last() == self.command_ctx_queue@[i as int]@);
            }
            match &self.command_ctx_queue[i].state {
                BarrierEpochState::InFlight => {
                    n = n + 1;
                },
                BarrierEpochState::Completed(..) => {},
            }
            i = i + 1;
        }
        assert(q.take(i as int) =~= q);
        (n, self.command_ctx_queue.len())
    }

    /// Inject a `command_ctx` in `command_ctx_queue`, and its state is `InFlight`.
    pub fn inject(&mut self, command_ctx: CommandContext, notifiers: Notifiers)
        ensures
            final(self)@ == old(self)@.injected(command_ctx@, notifiers@),
    {
        let node = EpochNode { state: BarrierEpochState::InFlight, command_ctx, notifiers };
        self.command_ctx_queue.push_back(node);
        assert(views(self.command_ctx_queue@) =~= views(old(self).command_ctx_queue@).push(node@));
    }

    /// Pause inject barrier until True.
    pub fn can_inject_barrier(&self, in_flight_barrier_nums: usize) -> (r: bool)
        ensures
            r == self@.can_inject(in_flight_barrier_nums),
    {
        let (count, len) = self.update_barrier_nums_metrics();
        let in_flight_not_full = count < in_flight_barrier_nums;
        // Whether some command requires pausing concurrent barrier. If so, it must be the last one.
        let should_pause = if len > 0 {
            self.command_ctx_queue[len - 1].command_ctx.command.should_pause_inject_barrier
        } else {
            false
        };
        in_flight_not_full && !should_pause
    }

    /// The first barrier with this epoch, or the length of the queue.
    fn find(&self, prev_epoch: u64) -> (r: usize)
        ensures
            r == position_of(self@.command_ctx_queue, prev_epoch),
    {
        let ghost q = views(self.command_ctx_queue@);
        let mut i: usize = 0;
        assert(q.take(0) =~= Seq::empty());
        while i < self.command_ctx_queue.len()
            invariant
                i <= self.command_ctx_queue.len(),
                q == views(self.command_ctx_queue@),
                position_of(q.take(i as int), prev_epoch) == i,
            decreases self.command_ctx_queue.len() - i,
        {
            proof {
                assert(q.take(i + 1).drop_last() =~= q.take(i as int));
                assert(q.take(i + 1).last() == self.command_ctx_queue@[i as int]@);
            }
            if self.command_ctx_queue[i].command_ctx.prev_epoch == prev_epoch {
                proof {
                    lemma_position_early(q, i + 1, prev_epoch);
                }
                return i;
            }
            i = i + 1;
        }
        assert(q.take(i as int) =~= q);
        i
    }

    /// Takes the completed barriers out of the head of the queue.
    fn drain_completed(&mut self) -> (r: Vec<EpochNode>)
        ensures
            ({
                let q = old(self)@.command_ctx_queue;
                let n = completed_head(q) as int;
                &&& views(r@) == q.take(n)
                &&& final(self)@ == (CheckpointControlModel {
                    command_ctx_queue: q.skip(n),
                    ..old(self)@
                })
            }),
    {
        let ghost q = self@.command_ctx_queue;
        let ghost n = completed_head(q) as int;
        let mut nodes: Vec<EpochNode> = Vec::new();
        proof {
            lemma_completed_head(q);
            assert(views(nodes@) =~= q.take(0));
            assert(q.skip(0) =~= q);
        }
        loop
            invariant_except_break
                nodes@.len() <= n,
                q == old(self)@.command_ctx_queue,
                n == completed_head(q),
                views(nodes@) == q.take(nodes@.len() as int),
                self@ == (CheckpointControlModel {
                    command_ctx_queue: q.skip(nodes@.len() as int),
                    ..old(self)@
                }),
            invariant
                q == old(self)@.command_ctx_queue,
                n == completed_head(q),
                n <= q.len(),
                forall|i: int| 0 <= i < n ==> (#[trigger] q[i]).state is Completed,
                n < q.len() ==> in_flight(q[n]),
            ensures
                views(nodes@) == q.take(n),
                self@ == (CheckpointControlModel { command_ctx_queue: q.skip(n), ..old(self)@ }),
            decreases n - nodes@.len(),
        {
            let ghost k = nodes@.len() as int;
            let head_done = if self.command_ctx_queue.len() > 0 {
                assert(self@.command_ctx_queue.len() == self.command_ctx_queue@.len());
                assert(self@.command_ctx_queue[0] == self.command_ctx_queue@[0]@);
                assert(q.skip(k)[0] == q[k]);
                match &self.command_ctx_queue[0].state {
                    BarrierEpochState::InFlight => false,
                    BarrierEpochState::Completed(..) => true,
                }
            } else {
                assert(self@.command_ctx_queue.len() == 0);
                assert(q.skip(k).len() == 0);
                false
            };
            if !head_done {
                assert(k == n);
                break;
            }
            let ghost rest = self.command_ctx_queue@;
            match self.command_ctx_queue.pop_front() {
                Some(node) => {
                    let ghost before = nodes@;
                    nodes.push(node);
                    proof {
                        assert(k < n);
                        assert(views(nodes@) =~= views(before).push(q[k]));
                        assert(views(nodes@) =~= q.take(k + 1));
                        lemma_rest(rest, q, k);
                    }
                },
                None => {},
            }
        }
        nodes
    }

    /// Change the state of this `prev_epoch` to `Complete`. Return continuous nodes
    /// with `Complete` starting from first node [`Complete`..`InFlight`) and remove them.
    pub fn complete(&mut self, prev_epoch: u64, result: Vec<BarrierCompleteResponse>) -> (r: Vec<
        EpochNode,
    >)
        requires
            ({
                let q = old(self)@.command_ctx_queue;
                let k = position_of(q, prev_epoch) as int;
                k < q.len() ==> in_flight(q[k])
            }),
        ensures
            ({
                let q = completed_at(
                    old(self)@.command_ctx_queue,
                    prev_epoch,
                    views(result@),
                );
                let n = completed_head(q) as int;
                &&& views(r@) == q.take(n)
                &&& final(self)@ == (CheckpointControlModel {
                    command_ctx_queue: q.skip(n),
                    ..old(self)@
                })
            }),
    {
        let ghost q = self@.command_ctx_queue;
        let k: usize = self.find(prev_epoch);
        if k < self.command_ctx_queue.len() {
            let checkpoint = all_written(&result);
            let ghost before = self.command_ctx_queue@;
            match self.command_ctx_queue.remove(k) {
                Some(node) => {
                    let done = EpochNode {
                        state: BarrierEpochState::Completed(result, checkpoint),
                        command_ctx: node.command_ctx,
                        notifiers: node.notifiers,
                    };
                    self.command_ctx_queue.insert(k, done);
                    proof {
                        let after = before.remove(k as int).insert(k as int, done);
                        assert(after =~= before.update(k as int, done));
                        assert(views(after) =~= completed_at(q, prev_epoch, views(result@)));
                    }
                },
                None => {},
            }
        }
        assert(self@.command_ctx_queue =~= completed_at(q, prev_epoch, views(result@)));
        self.drain_completed()
    }

    /// Whether the changes of all barriers in the queue are noted, so that it can be failed.
    pub fn can_fail(&self) -> (r: bool)
        ensures
            r == self@.notes_all(self@.command_ctx_queue),
    {
        let ghost q = views(self.command_ctx_queue@);
        let mut rest = CheckpointControl {
            command_ctx_queue: VecDeque::new(),
            creating_tables: self.creating_tables.duplicate(),
            dropping_tables: self.dropping_tables.duplicate(),
            adding_actors: self.adding_actors.duplicate(),
            removing_actors: self.removing_actors.duplicate(),
            uncommitted_messages: UncommittedMessages::default(),
            num_distance_checkpoint: self.num_distance_checkpoint,
            checkpoint_frequency: self.checkpoint_frequency,
        };
        let ghost c = self@;
        let mut i: usize = 0;
        assert(q.take(0) =~= Seq::empty());
        while i < self.command_ctx_queue.len()
            invariant
                i <= self.command_ctx_queue.len(),
                c == self@,
                q == views(self.command_ctx_queue@),
                q == c.command_ctx_queue,
                same_changes(rest@, c.without_all(q.take(i as int))),
                forall|j: int| 0 <= j < i ==> #[trigger] c.notes_at(q, j),
            decreases self.command_ctx_queue.len() - i,
        {
            let changes = &self.command_ctx_queue[i].command_ctx.command.changes;
            proof {
                assert(q[i as int] == self.command_ctx_queue@[i as int]@);
                assert(q.take(i + 1).drop_last() =~= q.take(i as int));
                assert(q.take(i + 1).last() == q[i as int]);
            }
            if !rest.has_changes(changes) {
                assert(!c.notes_at(q, i as int));
                return false;
            }
            assert(c.notes_at(q, i as int));
            rest.remove_changes(changes);
            i = i + 1;
        }
        true
    }

    /// Remove all nodes from queue and return them.
    pub fn fail(&mut self) -> (r: Vec<EpochNode>)
        requires
            old(self)@.notes_all(old(self)@.command_ctx_queue),
        ensures
            views(r@) == old(self)@.command_ctx_queue,
            final(self)@ == (CheckpointControlModel {
                command_ctx_queue: Seq::empty(),
                ..old(self)@.without_all(old(self)@.command_ctx_queue)
            }),
    {
        let ghost c = self@;
        let ghost q = c.command_ctx_queue;
        let mut nodes: Vec<EpochNode> = Vec::new();
        proof {
            assert(q.take(0) =~= Seq::empty());
            assert(q.skip(0) =~= q);
            assert(views(nodes@) =~= q.take(0));
        }
        while self.command_ctx_queue.len() > 0
            invariant
                c == old(self)@,
                q == c.command_ctx_queue,
                c.notes_all(q),
                nodes@.len() <= q.len(),
                views(nodes@) == q.take(nodes@.len() as int),
                self@ == (CheckpointControlModel {
                    command_ctx_queue: q.skip(nodes@.len() as int),
                    ..c.without_all(q.take(nodes@.len() as int))
                }),
            decreases q.len() - nodes@.len(),
        {
            let ghost k = nodes@.len() as int;
            let ghost rest = self.command_ctx_queue@;
            assert(self@.command_ctx_queue[0] == rest[0]@);
            assert(q.skip(k).len() > 0);
            match self.command_ctx_queue.pop_front() {
                Some(node) => {
                    proof {
                        assert(node@ == q[k]);
                        assert(c.notes_at(q, k));
                        lemma_without_all_keeps(c, q.take(k));
                        lemma_rest(rest, q, k);
                        assert(self@.notes(node@.command_ctx.command.changes));
                        assert(q.take(k + 1).drop_last() =~= q.take(k));
                        assert(q.take(k + 1).last() == q[k]);
                    }
                    self.remove_changes(&node.command_ctx.command.changes);
                    let ghost before = nodes@;
                    nodes.push(node);
                    proof {
                        assert(views(nodes@) =~= views(before).push(q[k]));
                        assert(views(nodes@) =~= q.take(k + 1));
                    }
                },
                None => {},
            }
        }
        proof {
            assert(views(self.command_ctx_queue@).len() == 0);
            assert(q.skip(nodes@.len() as int).len() == 0);
            assert(q.take(nodes@.len() as int) =~= q);
            assert(self@.command_ctx_queue =~= Seq::empty());
        }
        nodes
    }
}

/// What is left of a queue once its head is taken.
proof fn lemma_rest(rest: Seq<EpochNode>, q: Seq<EpochNodeModel>, k: int)
    requires
        0 <= k < q.len(),
        views(rest) == q.skip(k),
    ensures
        views(rest.subrange(1, rest.len() as int)) == q.skip(k + 1),
{
    let r = rest.subrange(1, rest.len() as int);
    assert(views(rest).len() == rest.len());
    assert forall|i: int| 0 <= i < r.len() implies views(r)[i] == q.skip(k + 1)[i] by {
        assert(r[i] == rest[i + 1]);
        assert(views(rest)[i + 1] == q.skip(k)[i + 1]);
    }
    assert(views(r) =~= q.skip(k + 1));
}

/// The same changes are noted.
pub open spec fn same_changes(a: CheckpointControlModel, b: CheckpointControlModel) -> bool {
    &&& a.creating_tables == b.creating_tables
    &&& a.dropping_tables == b.dropping_tables
    &&& a.adding_actors == b.adding_actors
    &&& a.removing_actors == b.removing_actors
}

/// Taking changes back leaves the rest alone.
proof fn lemma_without_all_keeps(c: CheckpointControlModel, q: Seq<EpochNodeModel>)
    ensures
        c.without_all(q).command_ctx_queue == c.command_ctx_queue,
        c.without_all(q).uncommitted_messages == c.uncommitted_messages,
        c.without_all(q).num_distance_checkpoint == c.num_distance_checkpoint,
        c.without_all(q).checkpoint_frequency == c.checkpoint_frequency,
    decreases q.len(),
{
    if q.len() > 0 {
        lemma_without_all_keeps(c, q.drop_last());
    }
}

proof fn lemma_position_early(q: Seq<EpochNodeModel>, k: int, prev_epoch: u64)
    requires
        0 < k <= q.len(),
        position_of(q.take(k), prev_epoch) < k,
    ensures
        position_of(q, prev_epoch) == position_of(q.take(k), prev_epoch),
    decreases q.len() - k,
{
    if k < q.len() {
        assert(q.take(k + 1).drop_last() =~= q.take(k));
        lemma_position_early(q, k + 1, prev_epoch);
    } else {
        assert(q.take(k) =~= q);
    }
}

/// Whether all nodes wrote a checkpoint.
fn all_written(resps: &Vec<BarrierCompleteResponse>) -> (r: bool)
    ensures
        r == all_checkpoint(views(resps@)),
{
    let mut i: usize = 0;
    while i < resps.len()
        invariant
            i <= resps.len(),
            forall|k: int| 0 <= k < i ==> (#[trigger] resps@[k])@.checkpoint,
        decreases resps.len() - i,
    {
        if !resps[i].checkpoint {
            assert(!views(resps@)[i as int].checkpoint);
            return false;
        }
        i = i + 1;
    }
    true
}

// ---------------------------------------------------------------------------
// What is not committed yet.
// ---------------------------------------------------------------------------

/// The files that the nodes wrote.
pub open spec fn ssts_of(resps: Seq<BarrierCompleteResponseModel>) -> Seq<GroupedSst> {
    gather(resps, |r: BarrierCompleteResponseModel| r.synced_sstables)
}

/// The workers with the files in `ssts` written by `worker_id`.
pub open spec fn workers_with(m: Map<u64, u32>, ssts: Seq<GroupedSst>, worker_id: u32) -> Map<u64, u32>
    decreases ssts.len(),
{
    if ssts.len() == 0 {
        m
    } else {
        workers_with(m, ssts.drop_last(), worker_id).insert(ssts.last().sst_id, worker_id)
    }
}

/// The workers with the files that the nodes wrote.
pub open spec fn workers_of(m: Map<u64, u32>, resps: Seq<BarrierCompleteResponseModel>) -> Map<u64, u32>
    decreases resps.len(),
{
    if resps.len() == 0 {
        m
    } else {
        workers_with(
            workers_of(m, resps.drop_last()),
            resps.last().synced_sstables,
            resps.last().worker_id,
        )
    }
}

impl UncommittedMessagesModel {
    /// The messages with what the nodes brought back for one more barrier.
    pub open spec fn with_response(
        self,
        resps: Seq<BarrierCompleteResponseModel>,
        post: CheckpointPostModel,
    ) -> UncommittedMessagesModel {
        UncommittedMessagesModel {
            uncommitted_checkpoint_post: seq![post] + self.uncommitted_checkpoint_post,
            uncommitted_ssts: self.uncommitted_ssts + ssts_of(resps),
            uncommitted_work_ids: workers_of(self.uncommitted_work_ids, resps),
        }
    }
}

impl UncommittedMessages {
    fn add_ssts(&mut self, resp: &BarrierCompleteResponse)
        ensures
            final(self)@ == (UncommittedMessagesModel {
                uncommitted_ssts: old(self)@.uncommitted_ssts + resp@.synced_sstables,
                uncommitted_work_ids: workers_with(
                    old(self)@.uncommitted_work_ids,
                    resp@.synced_sstables,
                    resp@.worker_id,
                ),
                ..old(self)@
            }),
    {
        let ghost before = self@;
        let ghost q = resp.synced_sstables@;
        let mut i: usize = 0;
        proof {
            assert(q.take(0) =~= Seq::empty());
            assert(before.uncommitted_ssts + q.take(0) =~= before.uncommitted_ssts);
        }
        while i < resp.synced_sstables.len()
            invariant
                i <= resp.synced_sstables.len(),
                q == resp.synced_sstables@,
                self@ == (UncommittedMessagesModel {
                    uncommitted_ssts: before.uncommitted_ssts + q.take(i as int),
                    uncommitted_work_ids: workers_with(
                        before.uncommitted_work_ids,
                        q.take(i as int),
                        resp.worker_id,
                    ),
                    ..before
                }),
            decreases resp.synced_sstables.len() - i,
        {
            let sst = resp.synced_sstables[i];
            self.uncommitted_work_ids.insert(sst.sst_id, resp.worker_id);
            self.uncommitted_ssts.push(sst);
            proof {
                assert(q.take(i + 1).drop_last() =~= q.take(i as int));
                assert(q.take(i + 1).last() == sst);
                assert(self.uncommitted_ssts@ =~= before.uncommitted_ssts + q.take(i + 1));
            }
            i = i + 1;
        }
        assert(q.take(i as int) =~= q);
    }
}

impl CheckpointControl {
    pub fn add_uncommitted_messages(
        &mut self,
        resps: &Vec<BarrierCompleteResponse>,
        checkpoint_post: CheckpointPost,
    )
        ensures
            final(self)@ == (CheckpointControlModel {
                uncommitted_messages: old(self)@.uncommitted_messages.with_response(
                    views(resps@),
                    checkpoint_post@,
                ),
                ..old(self)@
            }),
    {
        let ghost c = self@;
        let ghost m = c.uncommitted_messages;
        let ghost q = views(resps@);
        let ghost p = |r: BarrierCompleteResponseModel| r.synced_sstables;
        let mut i: usize = 0;
        proof {
            assert(q.take(0) =~= Seq::empty());
            assert(m.uncommitted_ssts + Seq::<GroupedSst>::empty() =~= m.uncommitted_ssts);
        }
        while i < resps.len()
            invariant
                i <= resps.len(),
                q == views(resps@),
                p == (|r: BarrierCompleteResponseModel| r.synced_sstables),
                m == c.uncommitted_messages,
                self@ == (CheckpointControlModel {
                    uncommitted_messages: UncommittedMessagesModel {
                        uncommitted_ssts: m.uncommitted_ssts + gather(q.take(i as int), p),
                        uncommitted_work_ids: workers_of(
                            m.uncommitted_work_ids,
                            q.take(i as int),
                        ),
                        ..m
                    },
                    ..c
                }),
            decreases resps.len() - i,
        {
            proof {
                assert(q[i as int] == resps@[i as int]@);
                assert(q.take(i + 1) =~= q.take(i as int).push(q[i as int]));
                assert(q.take(i + 1).drop_last() =~= q.take(i as int));
                lemma_gather_push(q.take(i as int), q[i as int], p);
            }
            self.uncommitted_messages.add_ssts(&resps[i]);
            assert(self@.uncommitted_messages.uncommitted_ssts =~= m.uncommitted_ssts + gather(
                q.take(i + 1),
                p,
            ));
            i = i + 1;
        }
        assert(q.take(i as int) =~= q);
        let ghost before = self.uncommitted_messages.uncommitted_checkpoint_post@;
        self.uncommitted_messages.uncommitted_checkpoint_post.push_front(checkpoint_post);
        assert(views(seq![checkpoint_post] + before) =~= seq![checkpoint_post@] + views(before));
    }

    pub fn get_uncommitted_messages(&mut self) -> (r: UncommittedMessages)
        ensures
            r@ == old(self)@.uncommitted_messages,
            final(self)@ == (CheckpointControlModel {
                uncommitted_messages: UncommittedMessagesModel::none(),
                ..old(self)@
            }),
    {
        let mut r = UncommittedMessages::default();
        std::mem::swap(&mut r, &mut self.uncommitted_messages);
        r
    }
}

} // verus!
