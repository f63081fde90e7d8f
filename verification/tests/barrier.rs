use streaming_meta::barrier::control::{CheckpointControl, EpochNode};
use streaming_meta::barrier::manager::{CommitStep, GlobalBarrierManager, RunAction, Sent};
use streaming_meta::barrier::notifier::Notice;
use streaming_meta::barrier::scheduled::ScheduledBarriers;
use streaming_meta::barrier::types::{
    ActorLocation, ActorState, BarrierCompleteResponse, Command, CommandChanges, CommandContext, CommandKind, GroupedSst,
};
use streaming_meta::util::id_map::Entry;
use streaming_meta::util::id_set::IdSet;

fn set(ids: &[u32]) -> IdSet {
    let mut r = IdSet::new();
    for id in ids {
        r.insert(*id);
    }
    r
}

fn command(id: u64, kind: CommandKind, changes: CommandChanges) -> Command {
    Command { id, kind, changes, should_pause_inject_barrier: false, actors_to_track: IdSet::new() }
}

fn actor(actor_id: u32, table_id: u32, worker_id: u32, state: ActorState, injectable: bool) -> ActorLocation {
    ActorLocation { actor_id, table_id, worker_id, state, injectable }
}

fn actors() -> Vec<ActorLocation> {
    vec![
        actor(1, 10, 1, ActorState::Running, true),
        actor(2, 10, 2, ActorState::Running, false),
        actor(3, 20, 2, ActorState::Inactive, true),
    ]
}

fn response(worker_id: u32, checkpoint: bool, ssts: &[u64]) -> BarrierCompleteResponse {
    BarrierCompleteResponse {
        worker_id,
        checkpoint,
        synced_sstables: ssts.iter().map(|id| GroupedSst { compaction_group_id: 2, sst_id: *id }).collect(),
        create_mview_progress: vec![worker_id as u64 + 100],
    }
}

/// Sends the next scheduled barrier.
fn send(m: &mut GlobalBarrierManager, new_epoch: u64) -> (CommandContext, Vec<Notice>) {
    let (command, notifiers) = m.next_barrier();
    let info = m.resolve_actor_info(&command, set(&[1, 2, 3]), &actors());
    match m.send_barrier(command, notifiers, info, new_epoch) {
        Sent::Barrier(ctx, notices) => (ctx, notices),
        Sent::Nothing(_) => panic!("nothing was sent"),
    }
}

#[test]
fn checkpoint_every_so_many_barriers() {
    let mut c = CheckpointControl::new(2);
    let got: Vec<bool> = (0..7).map(|_| c.try_get_checkpoint()).collect();
    assert_eq!(got, vec![false, false, true, false, false, true, false]);
    c.inject_checkpoint_in_next_barrier();
    assert!(c.try_get_checkpoint());
}

#[test]
fn changes_are_noted_and_taken_back() {
    let mut c = CheckpointControl::new(1);
    let create = command(1, CommandKind::CreateMaterializedView, CommandChanges::CreateTable(20));
    assert!(!c.can_actor_send_or_collect(ActorState::Inactive, 20, 3));
    assert!(c.can_pre_resolve(&create));
    c.pre_resolve(&create);
    assert!(c.can_actor_send_or_collect(ActorState::Inactive, 20, 3));
    assert!(!c.can_pre_resolve(&create));
    let drop_same = command(2, CommandKind::Other, CommandChanges::DropTable(20));
    assert!(!c.can_post_resolve(&drop_same));
    assert!(c.has_changes(&create.changes));
    c.remove_changes(&create.changes);
    assert!(!c.has_changes(&create.changes));

    let reschedule = command(3, CommandKind::Other, CommandChanges::Actor { to_add: set(&[7]), to_remove: set(&[1]) });
    c.pre_resolve(&reschedule);
    assert!(c.can_actor_send_or_collect(ActorState::Inactive, 99, 7));
    assert!(c.can_actor_send_or_collect(ActorState::Running, 10, 1));
    c.post_resolve(&reschedule);
    assert!(!c.can_actor_send_or_collect(ActorState::Running, 10, 1));
    c.remove_changes(&reschedule.changes);
    assert!(c.can_actor_send_or_collect(ActorState::Running, 10, 1));
}

#[test]
fn what_comes_next() {
    let mut m = GlobalBarrierManager::new(true, 1, 10, 5);
    assert_eq!(m.run(true, true, true), RunAction::Stop);
    assert_eq!(m.run(false, true, true), RunAction::Complete);
    assert_eq!(m.run(false, false, true), RunAction::Send);
    assert_eq!(m.run(false, false, false), RunAction::Wait);
    m.run_command(command(1, CommandKind::Plain, CommandChanges::Nothing), (1, 2));
    assert_eq!(m.run(false, false, false), RunAction::Send);
    send(&mut m, 6);
    // one barrier is in flight, which is all that is allowed
    assert_eq!(m.run(false, false, true), RunAction::Wait);
}

#[test]
fn a_barrier_without_actors_is_not_sent() {
    let mut m = GlobalBarrierManager::new(true, 4, 10, 5);
    m.run_command(Command::checkpoint(), (8, 9));
    let (command, notifiers) = m.next_barrier();
    let info = m.resolve_actor_info(&command, set(&[1]), &vec![]);
    assert!(info.nothing_to_do());
    match m.send_barrier(command, notifiers, info, 6) {
        Sent::Nothing(notices) => assert_eq!(notices, vec![Notice::CollectedCheckpoint(8)]),
        Sent::Barrier(..) => panic!("a barrier was sent"),
    }
    assert_eq!(m.in_flight_prev_epoch, 5);
}

#[test]
fn requests_to_the_nodes() {
    let mut m = GlobalBarrierManager::new(true, 4, 10, 5);
    let create = command(77, CommandKind::CreateMaterializedView, CommandChanges::CreateTable(20));
    m.run_command(create, (1, 2));
    let (ctx, _) = send(&mut m, 6);
    assert_eq!((ctx.prev_epoch, ctx.curr_epoch), (5, 6));
    // not a plain command, so a checkpoint is forced
    assert!(ctx.checkpoint);
    assert_eq!(ctx.needed_nodes(), vec![1, 2]);
    let requests = GlobalBarrierManager::inject_barrier(&ctx);
    assert_eq!(requests.iter().map(|r| r.0).collect::<Vec<_>>(), vec![1, 2]);
    assert_eq!(requests[0].1.actor_ids_to_send, vec![1]);
    assert_eq!(requests[1].1.actor_ids_to_send, vec![3]);
    assert_eq!(requests[1].1.actor_ids_to_collect, vec![2, 3]);
    assert_eq!(requests[1].1.command_id, 77);
    let ids: Vec<&String> = requests.iter().map(|r| &r.1.request_id).collect();
    assert_ne!(ids[0], ids[1]);
    for id in ids {
        assert_eq!(id.len(), 36);
        let groups: Vec<usize> = id.split('-').map(|g| g.len()).collect();
        assert_eq!(groups, vec![8, 4, 4, 4, 12]);
        assert_eq!(&id[14..15], "4");
    }
    let collects = GlobalBarrierManager::collect_barrier(&ctx);
    assert_eq!(collects.iter().map(|c| (c.0, c.1.prev_epoch)).collect::<Vec<_>>(), vec![(1, 5), (2, 5)]);
}

fn two_in_flight() -> GlobalBarrierManager {
    let mut m = GlobalBarrierManager::new(true, 4, 10, 5);
    m.run_command(command(1, CommandKind::CreateMaterializedView, CommandChanges::CreateTable(20)), (1, 2));
    m.run_command(command(2, CommandKind::Plain, CommandChanges::Nothing), (3, 4));
    let (first, _) = send(&mut m, 6);
    let (second, _) = send(&mut m, 7);
    assert!(first.checkpoint && !second.checkpoint);
    m
}

#[test]
fn barriers_are_completed_in_order() {
    let mut m = two_in_flight();
    assert_eq!(m.checkpoint_control.update_barrier_nums_metrics(), (2, 2));
    // the second one comes back first and has to wait
    assert!(m.barrier_complete(6, vec![response(1, false, &[11])]).is_empty());
    assert_eq!(m.checkpoint_control.update_barrier_nums_metrics(), (1, 2));
    let mut nodes = m.barrier_complete(5, vec![response(1, true, &[9]), response(2, true, &[10])]);
    assert_eq!(nodes.iter().map(|n| n.command_ctx.prev_epoch).collect::<Vec<_>>(), vec![5, 6]);
    assert_eq!(m.checkpoint_control.update_barrier_nums_metrics(), (0, 0));

    // the first one wrote a checkpoint
    let first = &mut nodes[0];
    let step = first.collect();
    assert!(step.notices.is_empty());
    assert_eq!(step.collect_notifiers_checkpoint, vec![Some(1)]);
    assert_eq!(step.epoch, 6);
    assert_eq!(step.progress, vec![101, 102]);
    let mut messages = match m.complete_barriers(first, step.collect_notifiers_checkpoint, vec![]) {
        CommitStep::Commit(epoch, messages) => {
            assert_eq!(epoch, Some(5));
            messages
        }
        _ => panic!("a checkpoint is committed"),
    };
    assert_eq!(messages.uncommitted_ssts.iter().map(|sst| sst.sst_id).collect::<Vec<_>>(), vec![9, 10]);
    assert_eq!(messages.uncommitted_work_ids[&10], 2);
    // who waited for a checkpoint has got it
    assert_eq!(m.checkpoint_control.num_distance_checkpoint, 9);
    let post = m.next_post(&mut messages).unwrap();
    assert!(!m.checkpoint_control.has_changes(&CommandChanges::CreateTable(20)));
    assert_eq!(GlobalBarrierManager::post_collected(post), vec![Notice::CollectedCheckpoint(1)]);
    assert!(m.next_post(&mut messages).is_none());

    // the second one did not
    let second = &mut nodes[1];
    let step = second.collect();
    assert_eq!(step.collect_notifiers_checkpoint, vec![Some(3)]);
    match m.complete_barriers(second, step.collect_notifiers_checkpoint, vec![]) {
        CommitStep::UpdateCurrentEpoch(epoch) => assert_eq!(epoch, 6),
        _ => panic!("only the current epoch is updated"),
    }
    assert_eq!(m.checkpoint_control.uncommitted_messages.uncommitted_ssts.len(), 1);
    // someone waits for a checkpoint, so the next barrier writes one
    assert_eq!(m.checkpoint_control.num_distance_checkpoint, 0);
    m.run_command(command(3, CommandKind::Plain, CommandChanges::Nothing), (5, 6));
    let (third, _) = send(&mut m, 8);
    assert!(third.checkpoint);
}

#[test]
fn a_barrier_without_an_epoch_is_not_committed() {
    let mut m = GlobalBarrierManager::new(true, 4, 10, 0);
    m.run_command(command(2, CommandKind::Plain, CommandChanges::Nothing), (3, 4));
    send(&mut m, 7);
    let mut nodes = m.barrier_complete(0, vec![response(1, false, &[])]);
    let step = nodes[0].collect();
    assert!(matches!(m.complete_barriers(&nodes[0], step.collect_notifiers_checkpoint, vec![]), CommitStep::Nothing));
}

#[test]
fn failure_tells_all_and_forgets_changes() {
    let mut m = two_in_flight();
    assert!(m.checkpoint_control.can_fail());
    let failed: Vec<EpochNode> = m.barrier_complete_and_commit(vec![], 0);
    assert_eq!(failed.len(), 2);
    assert!(!m.checkpoint_control.has_changes(&CommandChanges::CreateTable(20)));
    let (notices, epoch) = GlobalBarrierManager::do_recovery(failed);
    assert_eq!(notices, vec![Notice::Failed(1), Notice::Failed(3)]);
    assert_eq!(epoch, 6);
    m.recovered(50);
    assert_eq!(m.in_flight_prev_epoch, 50);
    assert_eq!(GlobalBarrierManager::do_recovery(vec![]), (vec![], 0));
}

#[test]
fn failing_after_some_were_committed() {
    let mut m = two_in_flight();
    m.barrier_complete(6, vec![response(1, false, &[])]);
    let nodes = m.barrier_complete(5, vec![response(1, true, &[])]);
    let failed = m.barrier_complete_and_commit(nodes, 1);
    assert_eq!(failed.iter().map(|n| n.command_ctx.prev_epoch).collect::<Vec<_>>(), vec![6]);
}

#[test]
fn a_pausing_command_stops_injection() {
    let mut m = GlobalBarrierManager::new(true, 4, 10, 5);
    let mut pausing = command(1, CommandKind::Other, CommandChanges::Nothing);
    pausing.should_pause_inject_barrier = true;
    m.run_command(pausing, (1, 2));
    send(&mut m, 6);
    assert!(!m.checkpoint_control.can_inject_barrier(4));
    m.barrier_complete(5, vec![response(1, true, &[])]);
    assert!(m.checkpoint_control.can_inject_barrier(4));
    assert!(!m.checkpoint_control.can_inject_barrier(0));
}

#[test]
fn waiting_for_the_next_barrier() {
    let mut m = GlobalBarrierManager::new(true, 4, 10, 5);
    assert!(m.wait_for_next_barrier_to_collect(true, 30));
    assert!(!m.wait_for_next_barrier_to_collect(false, 31));
    let (ctx, notices) = send(&mut m, 6);
    assert!(notices.is_empty());
    assert_eq!(ctx.command, Command::checkpoint().duplicate());
    let mut nodes = m.barrier_complete(5, vec![response(1, true, &[])]);
    let step = nodes[0].collect();
    assert_eq!(step.notices, vec![Notice::CollectedNoCheckpoint(31)]);
    assert_eq!(step.collect_notifiers_checkpoint, vec![Some(30), None]);
    // the notifiers are handed out once
    assert!(nodes[0].collect().collect_notifiers_checkpoint.is_empty());
}

#[test]
fn scheduled_barriers_keep_their_order() {
    let mut m = GlobalBarrierManager::new(true, 4, 10, 5);
    let commands = vec![
        command(1, CommandKind::CreateMaterializedView, CommandChanges::CreateTable(9)),
        command(2, CommandKind::Plain, CommandChanges::Nothing),
    ];
    let (awaited, woken) = m.run_multiple_commands(commands, &vec![(1, 2), (3, 4)]);
    assert!(woken);
    assert_eq!(awaited.iter().map(|a| (a.collect, a.finish, a.is_create_mv)).collect::<Vec<_>>(), vec![(1, 2, true), (3, 4, false)]);
    let (_, woken) = m.run_command(command(3, CommandKind::Plain, CommandChanges::Nothing), (5, 6));
    assert!(!woken);
    assert_eq!(m.next_barrier().0.id, 1);
    assert_eq!(m.next_barrier().0.id, 2);
    assert_eq!(m.next_barrier().0.id, 3);
    assert_eq!(m.next_barrier().0, Command::checkpoint());

    m.run_command(command(4, CommandKind::Plain, CommandChanges::Nothing), (7, 8));
    assert_eq!(m.scheduled_barriers.abort(), vec![Notice::Failed(7)]);
    assert!(!m.scheduled_barriers.wait_one());

    let mut q = ScheduledBarriers::new();
    assert!(q.attach_notifiers(vec![]));
    let first = q.pop_or_default();
    assert!(q.push(vec![first]));
    assert!(q.wait_one());
}

#[test]
fn finished_views_are_told_after_the_checkpoint() {
    let mut m = two_in_flight();
    let mut nodes = m.barrier_complete(5, vec![response(1, true, &[])]);
    let step = nodes[0].collect();
    // the progress hands the notifiers of the finished view back
    let mut finished = Vec::new();
    finished.push(streaming_meta::barrier::notifier::Notifier {
        to_send: None,
        collected_no_checkpoint: None,
        collected_checkpoint: None,
        finished: Some(2),
    });
    match m.complete_barriers(&nodes[0], step.collect_notifiers_checkpoint, vec![finished]) {
        CommitStep::Commit(_, mut messages) => {
            let post = m.next_post(&mut messages).unwrap();
            assert_eq!(GlobalBarrierManager::post_collected(post), vec![Notice::CollectedCheckpoint(1), Notice::Finished(2)]);
        }
        _ => panic!("a checkpoint is committed"),
    }
}
