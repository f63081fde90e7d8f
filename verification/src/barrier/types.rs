//! Commands, and what barriers carry and bring back.

use vstd::prelude::*;

use crate::util::id_map::{copy_all, Entry, IdMap};
use crate::util::id_set::IdSet;
use crate::util::lists::List;

verus! {

/// What a command is, as far as the barriers treat it on its own.
#[derive(Debug, Clone, Copy, PartialEq, Eq, Structural)]
pub enum CommandKind {
    Plain,
    CreateMaterializedView,
    Other,
}

/// Changes to the actors to be sent or collected after this command is committed.
///
/// Since the checkpoints might be concurrent, the meta store of table fragments is only updated
/// after the command is committed. When resolving the actor info for those commands after this
/// command, this command might be in-flight and the changes are not yet committed, so we need to
/// record these uncommitted changes and assume they will be eventually successful.
#[derive(Debug, PartialEq, Eq)]
pub enum CommandChanges {
    /// This table will be dropped.
    DropTable(u32),
    /// This table will be created.
    CreateTable(u32),
    /// Some actors will be added or removed.
    Actor { to_add: IdSet, to_remove: IdSet },
    /// No changes.
    Nothing,
}

/// The mathematical model of [`CommandChanges`].
#[verifier::ext_equal]
pub enum CommandChangesModel {
    DropTable(u32),
    CreateTable(u32),
    Actor { to_add: Set<u32>, to_remove: Set<u32> },
    Nothing,
}

impl View for CommandChanges {
    type V = CommandChangesModel;

    open spec fn view(&self) -> CommandChangesModel {
        match *self {
            CommandChanges::DropTable(table) => CommandChangesModel::DropTable(table),
            CommandChanges::CreateTable(table) => CommandChangesModel::CreateTable(table),
            CommandChanges::Actor { to_add, to_remove } => CommandChangesModel::Actor {
                to_add: to_add@,
                to_remove: to_remove@,
            },
            CommandChanges::Nothing => CommandChangesModel::Nothing,
        }
    }
}

impl Entry for CommandChanges {
    fn duplicate(&self) -> (r: Self) {
        match self {
            CommandChanges::DropTable(table) => CommandChanges::DropTable(*table),
            CommandChanges::CreateTable(table) => CommandChanges::CreateTable(*table),
            CommandChanges::Actor { to_add, to_remove } => CommandChanges::Actor {
                to_add: to_add.duplicate(),
                to_remove: to_remove.duplicate(),
            },
            CommandChanges::Nothing => CommandChanges::Nothing,
        }
    }
}

/// A command that a barrier carries, known by the number `id`.
#[derive(Debug, PartialEq, Eq)]
pub struct Command {
    pub id: u64,
    pub kind: CommandKind,
    pub changes: CommandChanges,
    pub should_pause_inject_barrier: bool,
    pub actors_to_track: IdSet,
}

/// The mathematical model of [`Command`].
#[verifier::ext_equal]
pub struct CommandModel {
    pub id: u64,
    pub kind: CommandKind,
    pub changes: CommandChangesModel,
    pub should_pause_inject_barrier: bool,
    pub actors_to_track: Set<u32>,
}

impl View for Command {
    type V = CommandModel;

    open spec fn view(&self) -> CommandModel {
        CommandModel {
            id: self.id,
            kind: self.kind,
            changes: self.changes@,
            should_pause_inject_barrier: self.should_pause_inject_barrier,
            actors_to_track: self.actors_to_track@,
        }
    }
}

impl Entry for Command {
    fn duplicate(&self) -> (r: Self) {
        Command {
            id: self.id,
            kind: self.kind,
            changes: self.changes.duplicate(),
            should_pause_inject_barrier: self.should_pause_inject_barrier,
            actors_to_track: self.actors_to_track.duplicate(),
        }
    }
}

impl CommandModel {
    /// The command of a barrier that changes nothing.
    pub open spec fn checkpoint() -> CommandModel {
        CommandModel {
            id: 0,
            kind: CommandKind::Plain,
            changes: CommandChangesModel::Nothing,
            should_pause_inject_barrier: false,
            actors_to_track: Set::empty(),
        }
    }
}

impl Command {
    /// The command of a barrier that changes nothing.
    pub fn checkpoint() -> (r: Command)
        ensures
            r@ == CommandModel::checkpoint(),
    {
        Command {
            id: 0,
            kind: CommandKind::Plain,
            changes: CommandChanges::Nothing,
            should_pause_inject_barrier: false,
            actors_to_track: IdSet::new(),
        }
    }
}

/// The compute nodes, and the actors on them that a barrier is sent to and collected from.
#[derive(Debug, PartialEq, Eq)]
pub struct BarrierActorInfo {
    pub nodes: IdSet,
    pub actor_map_to_send: IdMap<List<u32>>,
    pub actor_map_to_collect: IdMap<List<u32>>,
}

/// The mathematical model of [`BarrierActorInfo`].
#[verifier::ext_equal]
pub struct BarrierActorInfoModel {
    pub nodes: Set<u32>,
    pub actor_map_to_send: Map<u32, Seq<u32>>,
    pub actor_map_to_collect: Map<u32, Seq<u32>>,
}

impl View for BarrierActorInfo {
    type V = BarrierActorInfoModel;

    open spec fn view(&self) -> BarrierActorInfoModel {
        BarrierActorInfoModel {
            nodes: self.nodes@,
            actor_map_to_send: self.actor_map_to_send@,
            actor_map_to_collect: self.actor_map_to_collect@,
        }
    }
}

impl Entry for BarrierActorInfo {
    fn duplicate(&self) -> (r: Self) {
        BarrierActorInfo {
            nodes: self.nodes.duplicate(),
            actor_map_to_send: self.actor_map_to_send.duplicate(),
            actor_map_to_collect: self.actor_map_to_collect.duplicate(),
        }
    }
}

/// What a barrier is made of.
#[derive(Debug, PartialEq, Eq)]
pub struct CommandContext {
    pub info: BarrierActorInfo,
    pub prev_epoch: u64,
    pub curr_epoch: u64,
    pub command: Command,
    pub checkpoint: bool,
}

/// The mathematical model of [`CommandContext`].
#[verifier::ext_equal]
pub struct CommandContextModel {
    pub info: BarrierActorInfoModel,
    pub prev_epoch: u64,
    pub curr_epoch: u64,
    pub command: CommandModel,
    pub checkpoint: bool,
}

impl View for CommandContext {
    type V = CommandContextModel;

    open spec fn view(&self) -> CommandContextModel {
        CommandContextModel {
            info: self.info@,
            prev_epoch: self.prev_epoch,
            curr_epoch: self.curr_epoch,
            command: self.command@,
            checkpoint: self.checkpoint,
        }
    }
}

impl Entry for CommandContext {
    fn duplicate(&self) -> (r: Self) {
        CommandContext {
            info: self.info.duplicate(),
            prev_epoch: self.prev_epoch,
            curr_epoch: self.curr_epoch,
            command: self.command.duplicate(),
            checkpoint: self.checkpoint,
        }
    }
}

/// A file of the storage, with the group that it is compacted in.
#[derive(Debug, Clone, Copy, PartialEq, Eq, Structural)]
pub struct GroupedSst {
    pub compaction_group_id: u64,
    pub sst_id: u64,
}

/// What a compute node brings back once it has collected a barrier. Progress is known by a number.
#[derive(Debug, PartialEq, Eq)]
pub struct BarrierCompleteResponse {
    pub worker_id: u32,
    pub checkpoint: bool,
    pub synced_sstables: Vec<GroupedSst>,
    pub create_mview_progress: Vec<u64>,
}

/// The mathematical model of [`BarrierCompleteResponse`].
#[verifier::ext_equal]
pub struct BarrierCompleteResponseModel {
    pub worker_id: u32,
    pub checkpoint: bool,
    pub synced_sstables: Seq<GroupedSst>,
    pub create_mview_progress: Seq<u64>,
}

impl View for BarrierCompleteResponse {
    type V = BarrierCompleteResponseModel;

    open spec fn view(&self) -> BarrierCompleteResponseModel {
        BarrierCompleteResponseModel {
            worker_id: self.worker_id,
            checkpoint: self.checkpoint,
            synced_sstables: self.synced_sstables@,
            create_mview_progress: self.create_mview_progress@,
        }
    }
}

impl Entry for BarrierCompleteResponse {
    fn duplicate(&self) -> (r: Self) {
        BarrierCompleteResponse {
            worker_id: self.worker_id,
            checkpoint: self.checkpoint,
            synced_sstables: copy_all(&self.synced_sstables),
            create_mview_progress: copy_all(&self.create_mview_progress),
        }
    }
}

/// Asks a compute node to inject a barrier.
#[derive(Debug, PartialEq, Eq)]
pub struct InjectBarrierRequest {
    pub request_id: String,
    pub curr_epoch: u64,
    pub prev_epoch: u64,
    pub checkpoint: bool,
    pub command_id: u64,
    pub actor_ids_to_send: Vec<u32>,
    pub actor_ids_to_collect: Vec<u32>,
}

/// The mathematical model of [`InjectBarrierRequest`].
#[verifier::ext_equal]
pub struct InjectBarrierRequestModel {
    pub request_id: Seq<char>,
    pub curr_epoch: u64,
    pub prev_epoch: u64,
    pub checkpoint: bool,
    pub command_id: u64,
    pub actor_ids_to_send: Seq<u32>,
    pub actor_ids_to_collect: Seq<u32>,
}

impl View for InjectBarrierRequest {
    type V = InjectBarrierRequestModel;

    open spec fn view(&self) -> InjectBarrierRequestModel {
        InjectBarrierRequestModel {
            request_id: self.request_id@,
            curr_epoch: self.curr_epoch,
            prev_epoch: self.prev_epoch,
            checkpoint: self.checkpoint,
            command_id: self.command_id,
            actor_ids_to_send: self.actor_ids_to_send@,
            actor_ids_to_collect: self.actor_ids_to_collect@,
        }
    }
}

impl Entry for InjectBarrierRequest {
    fn duplicate(&self) -> (r: Self) {
        InjectBarrierRequest {
            request_id: self.request_id.clone(),
            curr_epoch: self.curr_epoch,
            prev_epoch: self.prev_epoch,
            checkpoint: self.checkpoint,
            command_id: self.command_id,
            actor_ids_to_send: copy_all(&self.actor_ids_to_send),
            actor_ids_to_collect: copy_all(&self.actor_ids_to_collect),
        }
    }
}

/// Asks a compute node to tell when it has collected a barrier.
#[derive(Debug, PartialEq, Eq)]
pub struct BarrierCompleteRequest {
    pub request_id: String,
    pub prev_epoch: u64,
}

/// The mathematical model of [`BarrierCompleteRequest`].
#[verifier::ext_equal]
pub struct BarrierCompleteRequestModel {
    pub request_id: Seq<char>,
    pub prev_epoch: u64,
}

impl View for BarrierCompleteRequest {
    type V = BarrierCompleteRequestModel;

    open spec fn view(&self) -> BarrierCompleteRequestModel {
        BarrierCompleteRequestModel {
            request_id: self.request_id@,
            prev_epoch: self.prev_epoch,
        }
    }
}

impl Entry for BarrierCompleteRequest {
    fn duplicate(&self) -> (r: Self) {
        BarrierCompleteRequest {
            request_id: self.request_id.clone(),
            prev_epoch: self.prev_epoch,
        }
    }
}

/// Whether an actor runs.
#[derive(Debug, Clone, Copy, PartialEq, Eq, Structural)]
pub enum ActorState {
    Inactive,
    Running,
}

/// An actor, where it runs and what it belongs to.
#[derive(Debug, Clone, Copy, PartialEq, Eq, Structural)]
pub struct ActorLocation {
    pub actor_id: u32,
    pub table_id: u32,
    pub worker_id: u32,
    pub state: ActorState,
    /// Whether barriers are injected at this actor.
    pub injectable: bool,
}

} // verus!
