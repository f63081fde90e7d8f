//! The decisions of the barrier manager. Whoever runs it sends what is asked for here, waits, and
//! hands back what came of it.

use vstd::prelude::*;

use uuid::Uuid;

use crate::barrier::control::{
    completed_at, completed_head, in_flight, position_of, BarrierEpochState, CheckpointControl,
    CheckpointControlModel, CheckpointPost, CheckpointPostModel, EpochNode, EpochNodeModel,
    UncommittedMessages, UncommittedMessagesModel,
};
use crate::barrier::notifier::{
    checkpoint_notice, checkpoint_of, collected, failed_notice, finish_senders, finished_notice,
    finished_of, no_checkpoint_notice, no_checkpoint_of, send_notice, take_collected, take_to_send,
    tell, to_send_of, told, without_to_send, Notice, Notifier, Notifiers,
};
use crate::barrier::scheduled::{
    checkpoint_senders, scheduled_views, tell_failed, ScheduledBarriers, ScheduledModel,
};
use crate::barrier::types::{
    ActorLocation, BarrierActorInfo, BarrierActorInfoModel, BarrierCompleteRequest,
    BarrierCompleteResponseModel, Command, CommandContext, CommandContextModel, CommandKind,
    CommandModel, InjectBarrierRequest, InjectBarrierRequestModel,
};
use crate::util::groups::{group_at, grouped, lemma_grouped_push, push_at};
use crate::util::id_map::{copy_all, views, Entry, IdMap};
use crate::util::id_set::IdSet;
use crate::util::ids::{listing, lists};
use crate::util::lists::{gather, lemma_gather_push, List};

verus! {

/// No epoch.
pub const INVALID_EPOCH: u64 = 0;

/// Sends barriers to all registered compute nodes and collect them, with monotonic increasing
/// epoch numbers.
pub struct GlobalBarrierManager {
    /// Enable recovery or not when failover.
    pub enable_recovery: bool,
    /// The queue of scheduled barriers.
    pub scheduled_barriers: ScheduledBarriers,
    /// The max barrier nums in flight
    pub in_flight_barrier_nums: usize,
    /// The barriers in flight.
    pub checkpoint_control: CheckpointControl,
    /// The epoch of the last barrier that was sent.
    pub in_flight_prev_epoch: u64,
}

/// The mathematical model of [`GlobalBarrierManager`].
#[verifier::ext_equal]
pub struct GlobalBarrierManagerModel {
    pub enable_recovery: bool,
    pub scheduled_barriers: Seq<ScheduledModel>,
    pub in_flight_barrier_nums: usize,
    pub checkpoint_control: CheckpointControlModel,
    pub in_flight_prev_epoch: u64,
}

impl View for GlobalBarrierManager {
    type V = GlobalBarrierManagerModel;

    open spec fn view(&self) -> GlobalBarrierManagerModel {
        GlobalBarrierManagerModel {
            enable_recovery: self.enable_recovery,
            scheduled_barriers: self.scheduled_barriers@,
            in_flight_barrier_nums: self.in_flight_barrier_nums,
            checkpoint_control: self.checkpoint_control@,
            in_flight_prev_epoch: self.in_flight_prev_epoch,
        }
    }
}

// ---------------------------------------------------------------------------
// What to do next.
// ---------------------------------------------------------------------------

/// What the manager does next.
#[derive(Debug, Clone, Copy, PartialEq, Eq, Structural)]
pub enum RunAction {
    /// Stop.
    Stop,
    /// Handle a barrier that came back.
    Complete,
    /// Send a barrier.
    Send,
    /// Wait for one of these to happen.
    Wait,
}

impl GlobalBarrierManagerModel {
    /// What comes next: to stop comes before all, then what came back, and a barrier is sent only
    /// where one may be injected and one is scheduled or due.
    pub open spec fn next_action(self, shutdown: bool, completed: bool, ticked: bool) -> RunAction {
        if shutdown {
            RunAction::Stop
        } else if completed {
            RunAction::Complete
        } else if self.checkpoint_control.can_inject(self.in_flight_barrier_nums) && (
        self.scheduled_barriers.len() > 0 || ticked) {
            RunAction::Send
        } else {
            RunAction::Wait
        }
    }
}

impl GlobalBarrierManager {
    /// Create a new [`GlobalBarrierManager`].
    pub fn new(
        enable_recovery: bool,
        in_flight_barrier_nums: usize,
        checkpoint_frequency: usize,
        in_flight_prev_epoch: u64,
    ) -> (r: GlobalBarrierManager)
        ensures
            r@ == (GlobalBarrierManagerModel {
                enable_recovery,
                scheduled_barriers: Seq::empty(),
                in_flight_barrier_nums,
                checkpoint_control: CheckpointControlModel::fresh(checkpoint_frequency),
                in_flight_prev_epoch,
            }),
    {
        GlobalBarrierManager {
            enable_recovery,
            scheduled_barriers: ScheduledBarriers::new(),
            in_flight_barrier_nums,
            checkpoint_control: CheckpointControl::new(checkpoint_frequency),
            in_flight_prev_epoch,
        }
    }

    /// What to do next, told what has happened: whether the manager is to stop, whether a barrier
    /// came back, and whether the interval is over.
    pub fn run(&self, shutdown: bool, completed: bool, ticked: bool) -> (r: RunAction)
        ensures
            r == self@.next_action(shutdown, completed, ticked),
    {
        if shutdown {
            RunAction::Stop
        } else if completed {
            RunAction::Complete
        } else if self.checkpoint_control.can_inject_barrier(self.in_flight_barrier_nums) && (
        self.scheduled_barriers.wait_one() || ticked) {
            RunAction::Send
        } else {
            RunAction::Wait
        }
    }
}

// ---------------------------------------------------------------------------
// Sending a barrier.
// ---------------------------------------------------------------------------

/// The actors of each worker that a barrier is collected from.
pub open spec fn collected_pairs(c: CheckpointControlModel, q: Seq<ActorLocation>) -> Seq<(u32, u32)>
    decreases q.len(),
{
    if q.len() == 0 {
        Seq::empty()
    } else {
        let before = collected_pairs(c, q.drop_last());
        let a = q.last();
        if c.reaches(a.state, a.table_id, a.actor_id) {
            before.push((a.worker_id, a.actor_id))
        } else {
            before
        }
    }
}

/// The actors of each worker that a barrier is sent to: those at which barriers are injected.
pub open spec fn sent_pairs(c: CheckpointControlModel, q: Seq<ActorLocation>) -> Seq<(u32, u32)>
    decreases q.len(),
{
    if q.len() == 0 {
        Seq::empty()
    } else {
        let before = sent_pairs(c, q.drop_last());
        let a = q.last();
        if c.reaches(a.state, a.table_id, a.actor_id) && a.injectable {
            before.push((a.worker_id, a.actor_id))
        } else {
            before
        }
    }
}

/// The nodes, and the actors on them that a barrier reaches.
pub open spec fn resolved_info(c: CheckpointControlModel, nodes: Set<u32>, q: Seq<ActorLocation>) -> BarrierActorInfoModel {
    BarrierActorInfoModel {
        nodes,
        actor_map_to_send: grouped(sent_pairs(c, q)),
        actor_map_to_collect: grouped(collected_pairs(c, q)),
    }
}

impl BarrierActorInfoModel {
    /// No actor is reached.
    pub open spec fn nothing_to_do(self) -> bool {
        self.actor_map_to_send == Map::<u32, Seq<u32>>::empty() && self.actor_map_to_collect
            == Map::<u32, Seq<u32>>::empty()
    }
}

fn is_empty(m: &IdMap<List<u32>>) -> (r: bool)
    ensures
        r == (m@ == Map::<u32, Seq<u32>>::empty()),
{
    let ids = m.ids();
    if ids.len() == 0 {
        assert(m@ =~= Map::<u32, Seq<u32>>::empty()) by {
            assert forall|id: u32| !m@.contains_key(id) by {
                assert(ids@.contains(id) <==> m@.dom().contains(id));
            }
        }
        true
    } else {
        assert(ids@.contains(ids@[0]));
        assert(m@.contains_key(ids@[0]));
        false
    }
}

impl BarrierActorInfo {
    /// Check if there is nothing to do.
    pub fn nothing_to_do(&self) -> (r: bool)
        ensures
            r == self@.nothing_to_do(),
    {
        is_empty(&self.actor_map_to_send) && is_empty(&self.actor_map_to_collect)
    }

    fn ids_at(m: &IdMap<List<u32>>, node: u32) -> (r: Vec<u32>)
        ensures
            r@ == group_at(m@, node),
    {
        match m.get(node) {
            Some(list) => {
                let r = copy_all(&list.items);
                assert(r@ =~= list@);
                r
            },
            None => {
                let r: Vec<u32> = Vec::new();
                assert(r@ =~= Seq::<u32>::empty());
                r
            },
        }
    }

    pub fn actor_ids_to_send(&self, node: u32) -> (r: Vec<u32>)
        ensures
            r@ == group_at(self@.actor_map_to_send, node),
    {
        Self::ids_at(&self.actor_map_to_send, node)
    }

    pub fn actor_ids_to_collect(&self, node: u32) -> (r: Vec<u32>)
        ensures
            r@ == group_at(self@.actor_map_to_collect, node),
    {
        Self::ids_at(&self.actor_map_to_collect, node)
    }
}

/// What was done about a barrier.
pub enum Sent {
    /// There is no actor to send it to: these are told so.
    Nothing(Vec<Notice>),
    /// It is in flight with this context: these are told so.
    Barrier(CommandContext, Vec<Notice>),
}

impl GlobalBarrierManagerModel {
    /// The context of the next barrier. A command that is not plain forces a checkpoint.
    pub open spec fn next_context(
        self,
        command: CommandModel,
        info: BarrierActorInfoModel,
        new_epoch: u64,
    ) -> CommandContextModel {
        CommandContextModel {
            info,
            prev_epoch: self.in_flight_prev_epoch,
            curr_epoch: new_epoch,
            command,
            checkpoint: command.kind != CommandKind::Plain
                || self.checkpoint_control.num_distance_checkpoint == 0,
        }
    }

    /// The state once the barrier with this context is in flight.
    pub open spec fn after_send(self, ctx: CommandContextModel, notifiers: Seq<Notifier>) -> GlobalBarrierManagerModel {
        let c = self.checkpoint_control;
        GlobalBarrierManagerModel {
            in_flight_prev_epoch: ctx.curr_epoch,
            checkpoint_control: (CheckpointControlModel {
                num_distance_checkpoint: if ctx.checkpoint {
                    c.checkpoint_frequency
                } else {
                    (c.num_distance_checkpoint - 1) as usize
                },
                ..c
            }).injected(ctx, without_to_send(notifiers)),
            ..self
        }
    }
}

impl GlobalBarrierManager {
    /// Takes the next scheduled barrier, or a default checkpoint barrier.
    pub fn next_barrier(&mut self) -> (r: (Command, Notifiers))
        ensures
            if old(self)@.scheduled_barriers.len() == 0 {
                &&& (r.0@, r.1@) == (CommandModel::checkpoint(), Seq::<Notifier>::empty())
                &&& final(self)@ == old(self)@
            } else {
                &&& (r.0@, r.1@) == old(self)@.scheduled_barriers[0]
                &&& final(self)@ == (GlobalBarrierManagerModel {
                    scheduled_barriers: old(self)@.scheduled_barriers.skip(1),
                    ..old(self)@
                })
            },
    {
        self.scheduled_barriers.pop_or_default()
    }

    /// Resolve actor information from the running compute nodes, all actors and the changes of the
    /// command. What the command creates is reached by its barrier already, and what it drops is
    /// reached by it still.
    pub fn resolve_actor_info(
        &mut self,
        command: &Command,
        nodes: IdSet,
        actors: &Vec<ActorLocation>,
    ) -> (r: BarrierActorInfo)
        requires
            old(self)@.checkpoint_control.can_pre_resolve(command@.changes),
            old(self)@.checkpoint_control.pre_resolved(command@.changes).can_post_resolve(
                command@.changes,
            ),
        ensures
            r@ == resolved_info(
                old(self)@.checkpoint_control.pre_resolved(command@.changes),
                nodes@,
                actors@,
            ),
            final(self)@ == (GlobalBarrierManagerModel {
                checkpoint_control: old(self)@.checkpoint_control.pre_resolved(
                    command@.changes,
                ).post_resolved(command@.changes),
                ..old(self)@
            }),
    {
        self.checkpoint_control.pre_resolve(command);
        let ghost c = self.checkpoint_control@;
        let mut to_collect: IdMap<List<u32>> = IdMap::new();
        let mut to_send: IdMap<List<u32>> = IdMap::new();
        let mut i: usize = 0;
        assert(actors@.take(0) =~= Seq::empty());
        while i < actors.len()
            invariant
                i <= actors.len(),
                c == self.checkpoint_control@,
                to_collect@ == grouped(collected_pairs(c, actors@.take(i as int))),
                to_send@ == grouped(sent_pairs(c, actors@.take(i as int))),
                self@ == (GlobalBarrierManagerModel {
                    checkpoint_control: old(self)@.checkpoint_control.pre_resolved(
                        command@.changes,
                    ),
                    ..old(self)@
                }),
            decreases actors.len() - i,
        {
            let a = actors[i];
            proof {
                assert(actors@.take(i + 1).drop_last() =~= actors@.take(i as int));
                assert(actors@.take(i + 1).last() == a);
                lemma_grouped_push(
                    Map::empty(),
                    collected_pairs(c, actors@.take(i as int)),
                    (a.worker_id, a.actor_id),
                );
                lemma_grouped_push(
                    Map::empty(),
                    sent_pairs(c, actors@.take(i as int)),
                    (a.worker_id, a.actor_id),
                );
            }
            if self.checkpoint_control.can_actor_send_or_collect(a.state, a.table_id, a.actor_id) {
                push_at(&mut to_collect, a.worker_id, a.actor_id);
                if a.injectable {
                    push_at(&mut to_send, a.worker_id, a.actor_id);
                }
            }
            i = i + 1;
        }
        assert(actors@.take(i as int) =~= actors@);
        self.checkpoint_control.post_resolve(command);
        BarrierActorInfo { nodes, actor_map_to_send: to_send, actor_map_to_collect: to_collect }
    }

    /// Puts the next barrier in flight. When there's no actors exist in the cluster, we don't need
    /// to send the barrier.
    pub fn send_barrier(
        &mut self,
        command: Command,
        notifiers: Notifiers,
        info: BarrierActorInfo,
        new_epoch: u64,
    ) -> (r: Sent)
        requires
            new_epoch > old(self)@.in_flight_prev_epoch,
        ensures
            if info@.nothing_to_do() {
                &&& final(self)@ == old(self)@
                &&& r is Nothing
                &&& r->Nothing_0@ == told(to_send_of(notifiers@), send_notice()) + told(
                    checkpoint_of(notifiers@),
                    checkpoint_notice(),
                )
            } else {
                let ctx = old(self)@.next_context(command@, info@, new_epoch);
                &&& r is Barrier
                &&& r->Barrier_0@ == ctx
                &&& r->Barrier_1@ == told(to_send_of(notifiers@), send_notice())
                &&& final(self)@ == old(self)@.after_send(ctx, notifiers@)
            },
    {
        let mut notices: Vec<Notice> = Vec::new();
        let mut list = notifiers.into_vec();
        let ghost all = list@;
        let senders = take_to_send(&mut list);
        let f = |x: u64| -> (n: Notice)
            ensures
                n == Notice::ToSend(x),
        {
            Notice::ToSend(x)
        };
        tell(&senders, f, Ghost(send_notice()), &mut notices);
        assert(notices@ =~= told(to_send_of(all), send_notice()));
        if info.nothing_to_do() {
            let senders = checkpoint_senders(&list);
            assert(senders@ =~= checkpoint_of(all));
            let f = |x: u64| -> (n: Notice)
                ensures
                    n == Notice::CollectedCheckpoint(x),
            {
                Notice::CollectedCheckpoint(x)
            };
            tell(&senders, f, Ghost(checkpoint_notice()), &mut notices);
            return Sent::Nothing(notices);
        }
        let prev_epoch: u64 = self.in_flight_prev_epoch;
        self.in_flight_prev_epoch = new_epoch;
        if command.kind != CommandKind::Plain {
            self.checkpoint_control.inject_checkpoint_in_next_barrier();
        }
        let checkpoint = self.checkpoint_control.try_get_checkpoint();
        let ctx = CommandContext { info, prev_epoch, curr_epoch: new_epoch, command, checkpoint };
        self.checkpoint_control.inject(ctx.duplicate(), Notifiers::of(list));
        Sent::Barrier(ctx, notices)
    }
}

// ---------------------------------------------------------------------------
// What is asked of the compute nodes.
// ---------------------------------------------------------------------------

/// The form of a random identifier: five groups of digits with a hyphen between two of them, of
/// which the third starts with a `4`.
pub open spec fn is_request_id(s: Seq<char>) -> bool {
    s.len() == 36 && s[8] == '-' && s[13] == '-' && s[14] == '4' && s[18] == '-' && s[23] == '-'
}

/// Calls `uuid::Uuid::new_v4` and `to_string` on what it gives: the text has hyphens after 8, 12,
/// 16 and 20 of its 32 digits, and the 13th digit, which tells the version, is a `4`. The other
/// digits are random.
#[verifier::external_body]
fn new_request_id() -> (r: String)
    ensures
        is_request_id(r@),
{
    Uuid::new_v4().to_string()
}

impl CommandContextModel {
    /// A barrier has to be collected from the node.
    pub open spec fn needs(self, node: u32) -> bool {
        group_at(self.info.actor_map_to_collect, node).len() > 0
    }

    /// The nodes that a barrier has to be collected from, in ascending order.
    pub open spec fn needed_nodes(self) -> Seq<u32> {
        listing(self.info.nodes).filter(|node: u32| self.needs(node))
    }

    /// What the node is asked to inject.
    pub open spec fn inject_request(self, node: u32, request_id: Seq<char>) -> InjectBarrierRequestModel {
        InjectBarrierRequestModel {
            request_id,
            curr_epoch: self.curr_epoch,
            prev_epoch: self.prev_epoch,
            checkpoint: self.checkpoint,
            command_id: self.command.id,
            actor_ids_to_send: group_at(self.info.actor_map_to_send, node),
            actor_ids_to_collect: group_at(self.info.actor_map_to_collect, node),
        }
    }
}

impl CommandContext {
    /// What the node is asked to inject, under the identifier `request_id`.
    pub fn inject_request(&self, node: u32, request_id: String) -> (r: InjectBarrierRequest)
        ensures
            r@ == self@.inject_request(node, request_id@),
    {
        InjectBarrierRequest {
            request_id,
            curr_epoch: self.curr_epoch,
            prev_epoch: self.prev_epoch,
            checkpoint: self.checkpoint,
            command_id: self.command.id,
            actor_ids_to_send: self.info.actor_ids_to_send(node),
            actor_ids_to_collect: self.info.actor_ids_to_collect(node),
        }
    }

    /// The nodes that a barrier has to be collected from, in ascending order.
    pub fn needed_nodes(&self) -> (r: Vec<u32>)
        ensures
            r@ == self@.needed_nodes(),
    {
        let ghost p = |node: u32| self@.needs(node);
        let nodes = self.info.nodes.ids();
        let mut r: Vec<u32> = Vec::new();
        let mut i: usize = 0;
        proof {
            reveal(Seq::filter);
            assert(nodes@.take(0) =~= Seq::empty());
        }
        while i < nodes.len()
            invariant
                i <= nodes.len(),
                p == (|node: u32| self@.needs(node)),
                r@ == nodes@.take(i as int).filter(p),
            decreases nodes.len() - i,
        {
            proof {
                reveal(Seq::filter);
                assert(nodes@.take(i + 1).drop_last() =~= nodes@.take(i as int));
                assert(nodes@.take(i + 1).last() == nodes@[i as int]);
            }
            if self.info.actor_ids_to_collect(nodes[i]).len() > 0 {
                r.push(nodes[i]);
            }
            i = i + 1;
        }
        assert(nodes@.take(i as int) =~= nodes@);
        r
    }
}

impl GlobalBarrierManager {
    /// What each compute node with actors to collect from is asked to inject. A node without such
    /// actors must not have actors to send to either.
    pub fn inject_barrier(command_context: &CommandContext) -> (r: Vec<(u32, InjectBarrierRequest)>)
        requires
            forall|node: u32|
                command_context@.info.nodes.contains(node) && !#[trigger] command_context@.needs(node)
                    ==> group_at(command_context@.info.actor_map_to_send, node).len() == 0,
        ensures
            r@.len() == command_context@.needed_nodes().len(),
            forall|i: int|
                0 <= i < r@.len() ==> {
                    let node = command_context@.needed_nodes()[i];
                    let request = (#[trigger] r@[i]).1@;
                    &&& r@[i].0 == node
                    &&& request == command_context@.inject_request(node, request.request_id)
                    &&& is_request_id(request.request_id)
                    &&& r@[i].1.curr_epoch == command_context.curr_epoch
                    &&& r@[i].1.prev_epoch == command_context.prev_epoch
                    &&& r@[i].1.checkpoint == command_context.checkpoint
                    &&& r@[i].1.command_id == command_context.command.id
                    &&& r@[i].1.actor_ids_to_send@ == group_at(
                        command_context.info.actor_map_to_send@,
                        node,
                    )
                    &&& r@[i].1.actor_ids_to_collect@ == group_at(
                        command_context.info.actor_map_to_collect@,
                        node,
                    )
                },
    {
        let nodes = command_context.needed_nodes();
        let mut r: Vec<(u32, InjectBarrierRequest)> = Vec::new();
        let mut i: usize = 0;
        while i < nodes.len()
            invariant
                i <= nodes.len(),
                nodes@ == command_context@.needed_nodes(),
                r@.len() == i,
                forall|k: int|
                    0 <= k < i ==> {
                        let request = (#[trigger] r@[k]).1@;
                        &&& r@[k].0 == nodes@[k]
                        &&& request == command_context@.inject_request(
                            nodes@[k],
                            request.request_id,
                        )
                        &&& is_request_id(request.request_id)
                    },
            decreases nodes.len() - i,
        {
            let node: u32 = nodes[i];
            r.push((node, command_context.inject_request(node, new_request_id())));
            i = i + 1;
        }
        r
    }

    /// What each compute node with actors to collect from is asked once the barrier is injected.
    pub fn collect_barrier(command_context: &CommandContext) -> (r: Vec<
        (u32, BarrierCompleteRequest),
    >)
        ensures
            r@.len() == command_context@.needed_nodes().len(),
            forall|i: int|
                0 <= i < r@.len() ==> {
                    &&& (#[trigger] r@[i]).0 == command_context@.needed_nodes()[i]
                    &&& r@[i].1@.prev_epoch == command_context@.prev_epoch
                    &&& is_request_id(r@[i].1@.request_id)
                },
    {
        let nodes = command_context.needed_nodes();
        let mut r: Vec<(u32, BarrierCompleteRequest)> = Vec::new();
        let mut i: usize = 0;
        while i < nodes.len()
            invariant
                i <= nodes.len(),
                nodes@ == command_context@.needed_nodes(),
                r@.len() == i,
                forall|k: int|
                    0 <= k < i ==> {
                        &&& (#[trigger] r@[k]).0 == nodes@[k]
                        &&& r@[k].1@.prev_epoch == command_context@.prev_epoch
                        &&& is_request_id(r@[k].1@.request_id)
                    },
            decreases nodes.len() - i,
        {
            r.push(
                (
                    nodes[i],
                    BarrierCompleteRequest {
                        request_id: new_request_id(),
                        prev_epoch: command_context.prev_epoch,
                    },
                ),
            );
            i = i + 1;
        }
        r
    }
}

// ---------------------------------------------------------------------------
// A barrier came back.
// ---------------------------------------------------------------------------

/// What is done with a completed barrier first: who is told, and what the progress of the
/// materialized views is updated with.
pub struct CollectStep {
    pub notices: Vec<Notice>,
    /// Who is told once a checkpoint is committed.
    pub collect_notifiers_checkpoint: Vec<Option<u64>>,
    /// The epoch, the actors and the notifiers of the view that is created.
    pub epoch: u64,
    pub actors: IdSet,
    pub notifiers: Vec<Notifier>,
    /// The progress that the nodes brought back.
    pub progress: Vec<u64>,
}

/// The progress that the nodes brought back.
pub open spec fn progress_of(resps: Seq<BarrierCompleteResponseModel>) -> Seq<u64> {
    gather(resps, |r: BarrierCompleteResponseModel| r.create_mview_progress)
}

/// What has to be committed for a completed barrier.
pub enum CommitStep {
    /// A checkpoint: the epoch is committed with the files, unless there is none, and then the
    /// barriers are post-processed.
    Commit(Option<u64>, UncommittedMessages),
    /// No checkpoint: the current epoch is updated.
    UpdateCurrentEpoch(u64),
    /// No checkpoint, and no epoch.
    Nothing,
}

/// The epoch, where there is one.
pub open spec fn valid_epoch(epoch: u64) -> Option<u64> {
    if epoch != INVALID_EPOCH {
        Some(epoch)
    } else {
        None
    }
}

/// What is told once a barrier is post-processed: first that it is collected, then that what it
/// started is finished.
pub open spec fn post_notices(p: CheckpointPostModel) -> Seq<Notice> {
    told(p.collect_notifiers_checkpoint, checkpoint_notice()) + told(
        finished_of(p.finish_notifiers),
        finished_notice(),
    )
}

/// What is told when the barriers in `q` have failed.
pub open spec fn failure_notices(q: Seq<EpochNodeModel>) -> Seq<Notice> {
    gather(q, |n: EpochNodeModel| told(checkpoint_of(n.notifiers), failed_notice()))
}

/// The epoch that recovery starts from: that of the last barrier that has failed.
pub open spec fn failed_epoch(q: Seq<EpochNodeModel>) -> u64 {
    if q.len() > 0 {
        q.last().command_ctx.prev_epoch
    } else {
        INVALID_EPOCH
    }
}

fn gather_progress(resps: &Vec<crate::barrier::types::BarrierCompleteResponse>) -> (r: Vec<u64>)
    ensures
        r@ == progress_of(views(resps@)),
{
    let ghost q = views(resps@);
    let ghost p = |r: BarrierCompleteResponseModel| r.create_mview_progress;
    let mut r: Vec<u64> = Vec::new();
    let mut i: usize = 0;
    assert(q.take(0) =~= Seq::empty());
    while i < resps.len()
        invariant
            i <= resps.len(),
            q == views(resps@),
            p == (|r: BarrierCompleteResponseModel| r.create_mview_progress),
            r@ == gather(q.take(i as int), p),
        decreases resps.len() - i,
    {
        proof {
            assert(q[i as int] == resps@[i as int]@);
            assert(q.take(i + 1) =~= q.take(i as int).push(q[i as int]));
            lemma_gather_push(q.take(i as int), q[i as int], p);
        }
        let mut more = copy_all(&resps[i].create_mview_progress);
        r.append(&mut more);
        i = i + 1;
    }
    assert(q.take(i as int) =~= q);
    r
}

/// The lists of `lists`, one behind the other.
fn flatten(lists: Vec<Vec<Notifier>>) -> (r: Vec<Notifier>)
    ensures
        r@ == gather(lists@, |l: Vec<Notifier>| l@),
{
    let ghost p = |l: Vec<Notifier>| l@;
    let mut r: Vec<Notifier> = Vec::new();
    let mut i: usize = 0;
    assert(lists@.take(0) =~= Seq::empty());
    while i < lists.len()
        invariant
            i <= lists.len(),
            p == (|l: Vec<Notifier>| l@),
            r@ == gather(lists@.take(i as int), p),
        decreases lists.len() - i,
    {
        proof {
            assert(lists@.take(i + 1) =~= lists@.take(i as int).push(lists@[i as int]));
            lemma_gather_push(lists@.take(i as int), lists@[i as int], p);
        }
        let mut more = copy_all(&lists[i]);
        r.append(&mut more);
        i = i + 1;
    }
    assert(lists@.take(i as int) =~= lists@);
    r
}

impl EpochNode {
    /// Starts on a completed barrier: takes its notifiers, tells that it is collected without a
    /// checkpoint, and hands out what the progress of the materialized views is updated with.
    pub fn collect(&mut self) -> (r: CollectStep)
        requires
            old(self)@.state is Completed,
        ensures
            ({
                let n = old(self)@;
                &&& r.notices@ == told(no_checkpoint_of(n.notifiers), no_checkpoint_notice())
                &&& r.collect_notifiers_checkpoint@ == checkpoint_of(n.notifiers)
                &&& r.epoch == n.command_ctx.curr_epoch
                &&& r.actors@ == n.command_ctx.command.actors_to_track
                &&& r.notifiers@ == collected(n.notifiers)
                &&& r.progress@ == progress_of(n.state->Completed_0)
                &&& final(self)@ == (EpochNodeModel { notifiers: Seq::empty(), ..n })
            }),
    {
        let mut notifiers = Notifiers::none();
        std::mem::swap(&mut notifiers, &mut self.notifiers);
        let mut list = notifiers.into_vec();
        let (no_checkpoint, checkpoint) = take_collected(&mut list);
        let mut notices: Vec<Notice> = Vec::new();
        let f = |x: u64| -> (n: Notice)
            ensures
                n == Notice::CollectedNoCheckpoint(x),
        {
            Notice::CollectedNoCheckpoint(x)
        };
        tell(&no_checkpoint, f, Ghost(no_checkpoint_notice()), &mut notices);
        assert(notices@ =~= told(no_checkpoint@, no_checkpoint_notice()));
        let progress = match &self.state {
            BarrierEpochState::Completed(resps, _) => gather_progress(resps),
            BarrierEpochState::InFlight => Vec::new(),
        };
        CollectStep {
            notices,
            collect_notifiers_checkpoint: checkpoint,
            epoch: self.command_ctx.curr_epoch,
            actors: self.command_ctx.command.actors_to_track.duplicate(),
            notifiers: list,
            progress,
        }
    }
}

impl GlobalBarrierManagerModel {
    /// The checkpoint control once a completed barrier is recorded, before anything is committed.
    /// Where someone waits for a checkpoint and this barrier wrote none, the next barrier writes
    /// one.
    pub open spec fn recorded(
        self,
        n: EpochNodeModel,
        collect: Seq<Option<u64>>,
        finished: Seq<Notifier>,
    ) -> CheckpointControlModel {
        let c = self.checkpoint_control;
        let forced = (finished.len() > 0 || collect.len() > 0) && !n.state->Completed_1;
        CheckpointControlModel {
            num_distance_checkpoint: if forced {
                0
            } else {
                c.num_distance_checkpoint
            },
            uncommitted_messages: c.uncommitted_messages.with_response(
                n.state->Completed_0,
                CheckpointPostModel {
                    command_contexts: n.command_ctx,
                    collect_notifiers_checkpoint: collect,
                    finish_notifiers: finished,
                },
            ),
            ..c
        }
    }
}

impl GlobalBarrierManager {
    /// Change the state of this `prev_epoch` to `Complete` and hand out the barriers that can be
    /// committed, in order.
    pub fn barrier_complete(
        &mut self,
        prev_epoch: u64,
        result: Vec<crate::barrier::types::BarrierCompleteResponse>,
    ) -> (r: Vec<EpochNode>)
        requires
            ({
                let q = old(self)@.checkpoint_control.command_ctx_queue;
                let k = position_of(q, prev_epoch) as int;
                k < q.len() ==> in_flight(q[k])
            }),
        ensures
            ({
                let q = completed_at(
                    old(self)@.checkpoint_control.command_ctx_queue,
                    prev_epoch,
                    views(result@),
                );
                let n = completed_head(q) as int;
                &&& views(r@) == q.take(n)
                &&& final(self)@ == (GlobalBarrierManagerModel {
                    checkpoint_control: CheckpointControlModel {
                        command_ctx_queue: q.skip(n),
                        ..old(self)@.checkpoint_control
                    },
                    ..old(self)@
                })
            }),
    {
        self.checkpoint_control.complete(prev_epoch, result)
    }

    /// Records a completed barrier, and tells what has to be committed. `finish_notifiers` are
    /// those that the progress of the materialized views has handed out.
    pub fn complete_barriers(
        &mut self,
        node: &EpochNode,
        collect_notifiers_checkpoint: Vec<Option<u64>>,
        finish_notifiers: Vec<Vec<Notifier>>,
    ) -> (r: CommitStep)
        requires
            node@.state is Completed,
        ensures
            ({
                let c = old(self)@.recorded(
                    node@,
                    collect_notifiers_checkpoint@,
                    gather(finish_notifiers@, |l: Vec<Notifier>| l@),
                );
                let epoch = node@.command_ctx.prev_epoch;
                if node@.state->Completed_1 {
                    &&& r is Commit
                    &&& r->Commit_0 == valid_epoch(epoch)
                    &&& r->Commit_1@ == c.uncommitted_messages
                    &&& final(self)@ == (GlobalBarrierManagerModel {
                        checkpoint_control: CheckpointControlModel {
                            uncommitted_messages: UncommittedMessagesModel::none(),
                            ..c
                        },
                        ..old(self)@
                    })
                } else {
                    &&& final(self)@ == (GlobalBarrierManagerModel {
                        checkpoint_control: c,
                        ..old(self)@
                    })
                    &&& match valid_epoch(epoch) {
                        Some(epoch) => r is UpdateCurrentEpoch && r->UpdateCurrentEpoch_0 == epoch,
                        None => r is Nothing,
                    }
                }
            }),
    {
        let prev_epoch: u64 = node.command_ctx.prev_epoch;
        match &node.state {
            BarrierEpochState::Completed(resps, checkpoint) => {
                let finish_notifiers = flatten(finish_notifiers);
                // Whoever waits for a checkpoint that this barrier did not write gets it with the
                // next one.
                if (finish_notifiers.len() > 0 || collect_notifiers_checkpoint.len() > 0)
                    && !*checkpoint {
                    self.checkpoint_control.inject_checkpoint_in_next_barrier();
                }
                self.checkpoint_control.add_uncommitted_messages(
                    resps,
                    CheckpointPost {
                        command_contexts: node.command_ctx.duplicate(),
                        collect_notifiers_checkpoint,
                        finish_notifiers,
                    },
                );
                // If no checkpoint, we can't notify collection completion
                if *checkpoint {
                    let messages = self.checkpoint_control.get_uncommitted_messages();
                    let epoch = if prev_epoch != INVALID_EPOCH {
                        Some(prev_epoch)
                    } else {
                        None
                    };
                    CommitStep::Commit(epoch, messages)
                } else if prev_epoch != INVALID_EPOCH {
                    CommitStep::UpdateCurrentEpoch(prev_epoch)
                } else {
                    CommitStep::Nothing
                }
            },
            BarrierEpochState::InFlight => CommitStep::Nothing,
        }
    }

    /// Takes the next barrier to be post-processed, the oldest first, and its changes back.
    pub fn next_post(&mut self, messages: &mut UncommittedMessages) -> (r: Option<CheckpointPost>)
        requires
            ({
                let posts = old(messages)@.uncommitted_checkpoint_post;
                posts.len() > 0 ==> old(self)@.checkpoint_control.notes(
                    posts.last().command_contexts.command.changes,
                )
            }),
        ensures
            ({
                let posts = old(messages)@.uncommitted_checkpoint_post;
                if posts.len() == 0 {
                    &&& r is None
                    &&& final(self)@ == old(self)@
                    &&& final(messages)@ == old(messages)@
                } else {
                    &&& r is Some
                    &&& r->0@ == posts.last()
                    &&& final(messages)@ == (UncommittedMessagesModel {
                        uncommitted_checkpoint_post: posts.drop_last(),
                        ..old(messages)@
                    })
                    &&& final(self)@ == (GlobalBarrierManagerModel {
                        checkpoint_control: old(self)@.checkpoint_control.without(
                            posts.last().command_contexts.command.changes,
                        ),
                        ..old(self)@
                    })
                }
            }),
    {
        let ghost before = messages.uncommitted_checkpoint_post@;
        match messages.uncommitted_checkpoint_post.pop_back() {
            Some(post) => {
                proof {
                    assert(views(before).last() == post@);
                    assert(views(messages.uncommitted_checkpoint_post@) =~= views(
                        before,
                    ).drop_last());
                }
                self.checkpoint_control.remove_changes(&post.command_contexts.command.changes);
                Some(post)
            },
            None => None,
        }
    }

    /// A barrier is post-processed: tells first that it is collected, then that what it started is
    /// finished.
    pub fn post_collected(post: CheckpointPost) -> (r: Vec<Notice>)
        ensures
            r@ == post_notices(post@),
    {
        let mut notices: Vec<Notice> = Vec::new();
        let f = |x: u64| -> (n: Notice)
            ensures
                n == Notice::CollectedCheckpoint(x),
        {
            Notice::CollectedCheckpoint(x)
        };
        tell(&post.collect_notifiers_checkpoint, f, Ghost(checkpoint_notice()), &mut notices);
        let senders = finish_senders(&post.finish_notifiers);
        let f = |x: u64| -> (n: Notice)
            ensures
                n == Notice::Finished(x),
        {
            Notice::Finished(x)
        };
        tell(&senders, f, Ghost(finished_notice()), &mut notices);
        assert(notices@ =~= post_notices(post@));
        notices
    }

    /// A barrier could not be committed: all barriers from it on have failed, those in the queue
    /// too.
    pub fn barrier_complete_and_commit(&mut self, complete_nodes: Vec<EpochNode>, index: usize) -> (r:
        Vec<EpochNode>)
        requires
            index <= complete_nodes@.len(),
            old(self)@.checkpoint_control.notes_all(
                old(self)@.checkpoint_control.command_ctx_queue,
            ),
        ensures
            views(r@) == views(complete_nodes@).skip(index as int)
                + old(self)@.checkpoint_control.command_ctx_queue,
            final(self)@ == (GlobalBarrierManagerModel {
                checkpoint_control: CheckpointControlModel {
                    command_ctx_queue: Seq::empty(),
                    ..old(self)@.checkpoint_control.without_all(
                        old(self)@.checkpoint_control.command_ctx_queue,
                    )
                },
                ..old(self)@
            }),
    {
        let mut complete_nodes = complete_nodes;
        let mut failed = complete_nodes.split_off(index);
        let ghost first = failed@;
        let mut rest = self.checkpoint_control.fail();
        let ghost second = rest@;
        failed.append(&mut rest);
        assert(views(failed@) =~= views(first) + views(second));
        assert(views(failed@) =~= views(complete_nodes@ + first).skip(index as int)
            + views(second));
        failed
    }

    /// The barriers have failed: tells so, and gives the epoch that recovery starts from.
    pub fn do_recovery(fail_nodes: Vec<EpochNode>) -> (r: (Vec<Notice>, u64))
        ensures
            r.0@ == failure_notices(views(fail_nodes@)),
            r.1 == failed_epoch(views(fail_nodes@)),
    {
        let ghost q = views(fail_nodes@);
        let ghost p = |n: EpochNodeModel| told(checkpoint_of(n.notifiers), failed_notice());
        let mut notices: Vec<Notice> = Vec::new();
        let mut nodes = fail_nodes;
        let ghost all = nodes@;
        let mut new_epoch: u64 = INVALID_EPOCH;
        let len: usize = nodes.len();
        if len > 0 {
            new_epoch = nodes[len - 1].command_ctx.prev_epoch;
            assert(q.last() == nodes@[len - 1]@);
        }
        let ghost mut k: int = 0;
        assert(q.take(0) =~= Seq::empty());
        assert(all.skip(0) =~= all);
        while nodes.len() > 0
            invariant
                0 <= k <= q.len(),
                q == views(all),
                p == (|n: EpochNodeModel| told(checkpoint_of(n.notifiers), failed_notice())),
                nodes@ == all.skip(k),
                notices@ == gather(q.take(k), p),
            decreases nodes.len(),
        {
            let node = nodes.remove(0);
            proof {
                assert(node == all[k]);
                assert(q[k] == node@);
                assert(q.take(k + 1) =~= q.take(k).push(q[k]));
                lemma_gather_push(q.take(k), q[k], p);
                assert(nodes@ =~= all.skip(k + 1));
            }
            tell_failed(node.notifiers, &mut notices);
            proof {
                k = k + 1;
            }
        }
        assert(k == q.len());
        assert(q.take(k) =~= q);
        (notices, new_epoch)
    }

    /// Recovery is over: the next barrier follows this epoch.
    pub fn recovered(&mut self, new_epoch: u64)
        ensures
            final(self)@ == (GlobalBarrierManagerModel {
                in_flight_prev_epoch: new_epoch,
                ..old(self)@
            }),
    {
        self.in_flight_prev_epoch = new_epoch;
    }
}

// ---------------------------------------------------------------------------
// Scheduling.
// ---------------------------------------------------------------------------

/// Who is told what of a scheduled command.
#[derive(Debug, Clone, Copy, PartialEq, Eq, Structural)]
pub struct Awaited {
    /// Told when the barrier is collected or has failed.
    pub collect: u64,
    /// Told when the command is finished.
    pub finish: u64,
    /// The command creates a materialized view: a snapshot is pinned until it is finished.
    pub is_create_mv: bool,
}

/// Who is told what of the command at `i`.
pub open spec fn awaited(q: Seq<CommandModel>, senders: Seq<(u64, u64)>) -> Seq<Awaited> {
    Seq::new(
        q.len(),
        |i: int|
            Awaited {
                collect: senders[i].0,
                finish: senders[i].1,
                is_create_mv: q[i].kind == CommandKind::CreateMaterializedView,
            },
    )
}

/// The commands as they are scheduled.
pub open spec fn scheduled_with(q: Seq<CommandModel>, senders: Seq<(u64, u64)>) -> Seq<ScheduledModel> {
    Seq::new(
        q.len(),
        |i: int|
            (
                q[i],
                seq![
                    Notifier {
                        collected_checkpoint: Some(senders[i].0),
                        finished: Some(senders[i].1),
                        ..Notifier::silent()
                    },
                ],
            ),
    )
}

impl GlobalBarrierManager {
    /// Schedules multiple commands, one behind the other, and hands out whom to wait for. It's
    /// ensured that multiple commands is executed continuously and atomically. Tells too whether
    /// those that wait for a scheduled barrier are to be woken.
    pub fn run_multiple_commands(&mut self, commands: Vec<Command>, senders: &Vec<(u64, u64)>) -> (r: (
        Vec<Awaited>,
        bool,
    ))
        requires
            senders@.len() == commands@.len(),
        ensures
            r.0@ == awaited(views(commands@), senders@),
            r.1 == (old(self)@.scheduled_barriers.len() == 0 && commands@.len() > 0),
            final(self)@ == (GlobalBarrierManagerModel {
                scheduled_barriers: old(self)@.scheduled_barriers + scheduled_with(
                    views(commands@),
                    senders@,
                ),
                ..old(self)@
            }),
    {
        let ghost q = views(commands@);
        let mut contexts: Vec<Awaited> = Vec::new();
        let mut scheduleds: Vec<(Command, Notifiers)> = Vec::new();
        let mut i: usize = 0;
        while i < commands.len()
            invariant
                i <= commands.len(),
                q == views(commands@),
                senders@.len() == commands@.len(),
                contexts@ == awaited(q, senders@).take(i as int),
                scheduled_views(scheduleds@) == scheduled_with(q, senders@).take(i as int),
            decreases commands.len() - i,
        {
            let (collect, finish) = senders[i];
            let command = commands[i].duplicate();
            assert(command@ == q[i as int]);
            contexts.push(
                Awaited {
                    collect,
                    finish,
                    is_create_mv: command.kind == CommandKind::CreateMaterializedView,
                },
            );
            let mut list: Vec<Notifier> = Vec::new();
            list.push(
                Notifier {
                    to_send: None,
                    collected_no_checkpoint: None,
                    collected_checkpoint: Some(collect),
                    finished: Some(finish),
                },
            );
            let ghost before = scheduleds@;
            assert(list@ =~= scheduled_with(q, senders@)[i as int].1);
            scheduleds.push((command, Notifiers::of(list)));
            proof {
                assert(contexts@ =~= awaited(q, senders@).take(i + 1));
                assert(scheduled_views(scheduleds@) =~= scheduled_views(before).push(
                    scheduled_with(q, senders@)[i as int],
                ));
                assert(scheduled_views(scheduleds@) =~= scheduled_with(q, senders@).take(i + 1));
            }
            i = i + 1;
        }
        proof {
            assert(contexts@ =~= awaited(q, senders@));
            assert(scheduled_views(scheduleds@) =~= scheduled_with(q, senders@));
            assert(scheduleds@.len() == scheduled_views(scheduleds@).len());
        }
        let woken = self.scheduled_barriers.push(scheduleds);
        (contexts, woken)
    }

    /// Schedules a command.
    pub fn run_command(&mut self, command: Command, sender: (u64, u64)) -> (r: (Vec<Awaited>, bool))
        ensures
            r.0@ == awaited(seq![command@], seq![sender]),
            r.1 == (old(self)@.scheduled_barriers.len() == 0),
            final(self)@ == (GlobalBarrierManagerModel {
                scheduled_barriers: old(self)@.scheduled_barriers + scheduled_with(
                    seq![command@],
                    seq![sender],
                ),
                ..old(self)@
            }),
    {
        let mut commands: Vec<Command> = Vec::new();
        let mut senders: Vec<(u64, u64)> = Vec::new();
        commands.push(command);
        senders.push(sender);
        assert(views(commands@) =~= seq![command@]);
        assert(senders@ =~= seq![sender]);
        self.run_multiple_commands(commands, &senders)
    }

    /// Has `sender` told when the next barrier is collected, with or without a checkpoint. Note
    /// that the barrier flowing in our stream graph is ignored, if exists. Tells whether those that
    /// wait for a scheduled barrier are to be woken.
    pub fn wait_for_next_barrier_to_collect(&mut self, checkpoint: bool, sender: u64) -> (r: bool)
        ensures
            r == (old(self)@.scheduled_barriers.len() == 0),
            ({
                let notifier = if checkpoint {
                    Notifier { collected_checkpoint: Some(sender), ..Notifier::silent() }
                } else {
                    Notifier { collected_no_checkpoint: Some(sender), ..Notifier::silent() }
                };
                let q = old(self)@.scheduled_barriers;
                final(self)@ == (GlobalBarrierManagerModel {
                    scheduled_barriers: if q.len() == 0 {
                        seq![(CommandModel::checkpoint(), seq![notifier])]
                    } else {
                        q.update(0, (q[0].0, q[0].1 + seq![notifier]))
                    },
                    ..old(self)@
                })
            }),
    {
        let mut list: Vec<Notifier> = Vec::new();
        if checkpoint {
            list.push(
                Notifier {
                    to_send: None,
                    collected_no_checkpoint: None,
                    collected_checkpoint: Some(sender),
                    finished: None,
                },
            );
        } else {
            list.push(
                Notifier {
                    to_send: None,
                    collected_no_checkpoint: Some(sender),
                    collected_checkpoint: None,
                    finished: None,
                },
            );
        }
        let ghost notifier = list@[0];
        assert(list@ =~= seq![notifier]);
        self.scheduled_barriers.attach_notifiers(list)
    }
}

} // verus!
