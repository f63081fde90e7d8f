//! Fragments of streaming jobs and their actors, as they run and as they are stored.

use vstd::prelude::*;

use crate::fragment::tree::{StreamNode, StreamNodeModel};
use crate::util::id_map::{
    copy_all, duplicate_all, duplicate_opt, opt_view, views, Entry, IdMap,
};
use crate::util::lists::List;

verus! {

/// How the rows of a fragment are spread over its actors.
#[derive(Debug, Clone, Copy, PartialEq, Eq, Structural)]
pub enum DistributionType {
    Single,
    Hash,
}

/// Whether an actor runs.
#[derive(Debug, Clone, Copy, PartialEq, Eq, Structural)]
pub enum ActorState {
    Inactive,
    Running,
}

/// How an actor spreads its rows over its downstream actors.
#[derive(Debug, Clone, Copy, PartialEq, Eq, Structural)]
pub enum DispatcherType {
    Hash,
    Broadcast,
    Simple,
    NoShuffle,
}

/// How far the creation of a streaming job has come.
#[derive(Debug, Clone, Copy, PartialEq, Eq, Structural)]
pub enum JobStatus {
    Initial,
    Creating,
    Created,
}

/// How many actors a streaming job is meant to have.
#[derive(Debug, Clone, Copy, PartialEq, Eq, Structural)]
pub enum StreamingParallelism {
    Adaptive,
    Fixed(usize),
    Custom,
}

/// A place on a worker on which an actor can run.
#[derive(Debug, PartialEq, Eq)]
pub struct ParallelUnit {
    pub id: u32,
    pub worker_node_id: u32,
}

/// The mathematical model of [`ParallelUnit`].
#[verifier::ext_equal]
pub struct ParallelUnitModel {
    pub id: u32,
    pub worker_node_id: u32,
}

impl View for ParallelUnit {
    type V = ParallelUnitModel;

    open spec fn view(&self) -> ParallelUnitModel {
        ParallelUnitModel {
            id: self.id,
            worker_node_id: self.worker_node_id,
        }
    }
}

impl Entry for ParallelUnit {
    fn duplicate(&self) -> (r: Self) {
        ParallelUnit {
            id: self.id,
            worker_node_id: self.worker_node_id,
        }
    }
}

impl ParallelUnitModel {
    /// All fields at their default.
    pub open spec fn blank() -> ParallelUnitModel {
        ParallelUnitModel {
            id: 0,
            worker_node_id: 0,
        }
    }
}

impl Default for ParallelUnit {
    fn default() -> (r: Self)
        ensures
            r@ == ParallelUnitModel::blank(),
    {
        let r = ParallelUnit {
            id: 0,
            worker_node_id: 0,
        };
        assert(r@ =~= ParallelUnitModel::blank());
        r
    }
}

/// Where an actor runs, and whether it does.
#[derive(Debug, PartialEq, Eq)]
pub struct ActorStatus {
    pub parallel_unit: Option<ParallelUnit>,
    pub state: ActorState,
}

/// The mathematical model of [`ActorStatus`].
#[verifier::ext_equal]
pub struct ActorStatusModel {
    pub parallel_unit: Option<ParallelUnitModel>,
    pub state: ActorState,
}

impl View for ActorStatus {
    type V = ActorStatusModel;

    open spec fn view(&self) -> ActorStatusModel {
        ActorStatusModel {
            parallel_unit: opt_view(self.parallel_unit),
            state: self.state,
        }
    }
}

impl Entry for ActorStatus {
    fn duplicate(&self) -> (r: Self) {
        ActorStatus {
            parallel_unit: duplicate_opt(&self.parallel_unit),
            state: self.state,
        }
    }
}

/// A part of an external source.
#[derive(Debug, PartialEq, Eq)]
pub struct ConnectorSplit {
    pub split_type: String,
    pub encoded_split: Vec<u8>,
}

/// The mathematical model of [`ConnectorSplit`].
#[verifier::ext_equal]
pub struct ConnectorSplitModel {
    pub split_type: Seq<char>,
    pub encoded_split: Seq<u8>,
}

impl View for ConnectorSplit {
    type V = ConnectorSplitModel;

    open spec fn view(&self) -> ConnectorSplitModel {
        ConnectorSplitModel {
            split_type: self.split_type@,
            encoded_split: self.encoded_split@,
        }
    }
}

impl Entry for ConnectorSplit {
    fn duplicate(&self) -> (r: Self) {
        ConnectorSplit {
            split_type: self.split_type.clone(),
            encoded_split: copy_all(&self.encoded_split),
        }
    }
}

impl ConnectorSplitModel {
    /// All fields at their default.
    pub open spec fn blank() -> ConnectorSplitModel {
        ConnectorSplitModel {
            split_type: Seq::empty(),
            encoded_split: Seq::empty(),
        }
    }
}

impl Default for ConnectorSplit {
    fn default() -> (r: Self)
        ensures
            r@ == ConnectorSplitModel::blank(),
    {
        let r = ConnectorSplit {
            split_type: String::new(),
            encoded_split: Vec::new(),
        };
        assert(r@ =~= ConnectorSplitModel::blank());
        r
    }
}

/// What expressions are evaluated with.
#[derive(Debug, PartialEq, Eq)]
pub struct ExprContext {
    pub time_zone: String,
}

/// The mathematical model of [`ExprContext`].
#[verifier::ext_equal]
pub struct ExprContextModel {
    pub time_zone: Seq<char>,
}

impl View for ExprContext {
    type V = ExprContextModel;

    open spec fn view(&self) -> ExprContextModel {
        ExprContextModel {
            time_zone: self.time_zone@,
        }
    }
}

impl Entry for ExprContext {
    fn duplicate(&self) -> (r: Self) {
        ExprContext {
            time_zone: self.time_zone.clone(),
        }
    }
}

impl ExprContextModel {
    /// All fields at their default.
    pub open spec fn blank() -> ExprContextModel {
        ExprContextModel {
            time_zone: Seq::empty(),
        }
    }
}

impl Default for ExprContext {
    fn default() -> (r: Self)
        ensures
            r@ == ExprContextModel::blank(),
    {
        let r = ExprContext {
            time_zone: String::new(),
        };
        assert(r@ =~= ExprContextModel::blank());
        r
    }
}

/// The actor of each virtual node, run-length encoded.
#[derive(Debug, PartialEq, Eq)]
pub struct ActorMapping {
    pub original_indices: Vec<u32>,
    pub data: Vec<u32>,
}

/// The mathematical model of [`ActorMapping`].
#[verifier::ext_equal]
pub struct ActorMappingModel {
    pub original_indices: Seq<u32>,
    pub data: Seq<u32>,
}

impl View for ActorMapping {
    type V = ActorMappingModel;

    open spec fn view(&self) -> ActorMappingModel {
        ActorMappingModel {
            original_indices: self.original_indices@,
            data: self.data@,
        }
    }
}

impl Entry for ActorMapping {
    fn duplicate(&self) -> (r: Self) {
        ActorMapping {
            original_indices: copy_all(&self.original_indices),
            data: copy_all(&self.data),
        }
    }
}

impl ActorMappingModel {
    /// All fields at their default.
    pub open spec fn blank() -> ActorMappingModel {
        ActorMappingModel {
            original_indices: Seq::empty(),
            data: Seq::empty(),
        }
    }
}

impl Default for ActorMapping {
    fn default() -> (r: Self)
        ensures
            r@ == ActorMappingModel::blank(),
    {
        let r = ActorMapping {
            original_indices: Vec::new(),
            data: Vec::new(),
        };
        assert(r@ =~= ActorMappingModel::blank());
        r
    }
}

/// The parallel unit of each virtual node, run-length encoded.
#[derive(Debug, PartialEq, Eq)]
pub struct VnodeMapping {
    pub original_indices: Vec<u32>,
    pub data: Vec<u32>,
}

/// The mathematical model of [`VnodeMapping`].
#[verifier::ext_equal]
pub struct VnodeMappingModel {
    pub original_indices: Seq<u32>,
    pub data: Seq<u32>,
}

impl View for VnodeMapping {
    type V = VnodeMappingModel;

    open spec fn view(&self) -> VnodeMappingModel {
        VnodeMappingModel {
            original_indices: self.original_indices@,
            data: self.data@,
        }
    }
}

impl Entry for VnodeMapping {
    fn duplicate(&self) -> (r: Self) {
        VnodeMapping {
            original_indices: copy_all(&self.original_indices),
            data: copy_all(&self.data),
        }
    }
}

impl VnodeMappingModel {
    /// All fields at their default.
    pub open spec fn blank() -> VnodeMappingModel {
        VnodeMappingModel {
            original_indices: Seq::empty(),
            data: Seq::empty(),
        }
    }
}

impl Default for VnodeMapping {
    fn default() -> (r: Self)
        ensures
            r@ == VnodeMappingModel::blank(),
    {
        let r = VnodeMapping {
            original_indices: Vec::new(),
            data: Vec::new(),
        };
        assert(r@ =~= VnodeMappingModel::blank());
        r
    }
}

/// The virtual nodes of an actor.
#[derive(Debug, PartialEq, Eq)]
pub struct VnodeBitmap {
    pub num_bits: u32,
    pub body: Vec<u8>,
}

/// The mathematical model of [`VnodeBitmap`].
#[verifier::ext_equal]
pub struct VnodeBitmapModel {
    pub num_bits: u32,
    pub body: Seq<u8>,
}

impl View for VnodeBitmap {
    type V = VnodeBitmapModel;

    open spec fn view(&self) -> VnodeBitmapModel {
        VnodeBitmapModel {
            num_bits: self.num_bits,
            body: self.body@,
        }
    }
}

impl Entry for VnodeBitmap {
    fn duplicate(&self) -> (r: Self) {
        VnodeBitmap {
            num_bits: self.num_bits,
            body: copy_all(&self.body),
        }
    }
}

impl VnodeBitmapModel {
    /// All fields at their default.
    pub open spec fn blank() -> VnodeBitmapModel {
        VnodeBitmapModel {
            num_bits: 0,
            body: Seq::empty(),
        }
    }
}

impl Default for VnodeBitmap {
    fn default() -> (r: Self)
        ensures
            r@ == VnodeBitmapModel::blank(),
    {
        let r = VnodeBitmap {
            num_bits: 0,
            body: Vec::new(),
        };
        assert(r@ =~= VnodeBitmapModel::blank());
        r
    }
}

/// How the rows of an actor are sent on.
#[derive(Debug, PartialEq, Eq)]
pub struct Dispatcher {
    pub dispatcher_type: DispatcherType,
    pub dist_key_indices: Vec<u32>,
    pub output_indices: Vec<u32>,
    pub hash_mapping: Option<ActorMapping>,
    pub dispatcher_id: u64,
    pub downstream_actor_id: Vec<u32>,
    pub downstream_table_name: Option<String>,
}

/// The mathematical model of [`Dispatcher`].
#[verifier::ext_equal]
pub struct DispatcherModel {
    pub dispatcher_type: DispatcherType,
    pub dist_key_indices: Seq<u32>,
    pub output_indices: Seq<u32>,
    pub hash_mapping: Option<ActorMappingModel>,
    pub dispatcher_id: u64,
    pub downstream_actor_id: Seq<u32>,
    pub downstream_table_name: Option<Seq<char>>,
}

impl View for Dispatcher {
    type V = DispatcherModel;

    open spec fn view(&self) -> DispatcherModel {
        DispatcherModel {
            dispatcher_type: self.dispatcher_type,
            dist_key_indices: self.dist_key_indices@,
            output_indices: self.output_indices@,
            hash_mapping: opt_view(self.hash_mapping),
            dispatcher_id: self.dispatcher_id,
            downstream_actor_id: self.downstream_actor_id@,
            downstream_table_name: opt_view(self.downstream_table_name),
        }
    }
}

impl Entry for Dispatcher {
    fn duplicate(&self) -> (r: Self) {
        Dispatcher {
            dispatcher_type: self.dispatcher_type,
            dist_key_indices: copy_all(&self.dist_key_indices),
            output_indices: copy_all(&self.output_indices),
            hash_mapping: duplicate_opt(&self.hash_mapping),
            dispatcher_id: self.dispatcher_id,
            downstream_actor_id: copy_all(&self.downstream_actor_id),
            downstream_table_name: duplicate_opt(&self.downstream_table_name),
        }
    }
}

/// An actor as it runs.
#[derive(Debug, PartialEq, Eq)]
pub struct StreamActor {
    pub actor_id: u32,
    pub fragment_id: u32,
    pub nodes: Option<StreamNode>,
    pub dispatcher: Vec<Dispatcher>,
    pub upstream_actor_id: Vec<u32>,
    pub vnode_bitmap: Option<VnodeBitmap>,
    pub mview_definition: String,
    pub expr_context: Option<ExprContext>,
}

/// The mathematical model of [`StreamActor`].
#[verifier::ext_equal]
pub struct StreamActorModel {
    pub actor_id: u32,
    pub fragment_id: u32,
    pub nodes: Option<StreamNodeModel>,
    pub dispatcher: Seq<DispatcherModel>,
    pub upstream_actor_id: Seq<u32>,
    pub vnode_bitmap: Option<VnodeBitmapModel>,
    pub mview_definition: Seq<char>,
    pub expr_context: Option<ExprContextModel>,
}

impl View for StreamActor {
    type V = StreamActorModel;

    open spec fn view(&self) -> StreamActorModel {
        StreamActorModel {
            actor_id: self.actor_id,
            fragment_id: self.fragment_id,
            nodes: opt_view(self.nodes),
            dispatcher: views(self.dispatcher@),
            upstream_actor_id: self.upstream_actor_id@,
            vnode_bitmap: opt_view(self.vnode_bitmap),
            mview_definition: self.mview_definition@,
            expr_context: opt_view(self.expr_context),
        }
    }
}

impl Entry for StreamActor {
    fn duplicate(&self) -> (r: Self) {
        StreamActor {
            actor_id: self.actor_id,
            fragment_id: self.fragment_id,
            nodes: duplicate_opt(&self.nodes),
            dispatcher: duplicate_all(&self.dispatcher),
            upstream_actor_id: copy_all(&self.upstream_actor_id),
            vnode_bitmap: duplicate_opt(&self.vnode_bitmap),
            mview_definition: self.mview_definition.clone(),
            expr_context: duplicate_opt(&self.expr_context),
        }
    }
}

/// A fragment as it runs.
#[derive(Debug, PartialEq, Eq)]
pub struct Fragment {
    pub fragment_id: u32,
    pub fragment_type_mask: u32,
    pub distribution_type: DistributionType,
    pub actors: Vec<StreamActor>,
    pub vnode_mapping: Option<VnodeMapping>,
    pub state_table_ids: Vec<u32>,
    pub upstream_fragment_ids: Vec<u32>,
}

/// The mathematical model of [`Fragment`].
#[verifier::ext_equal]
pub struct FragmentModel {
    pub fragment_id: u32,
    pub fragment_type_mask: u32,
    pub distribution_type: DistributionType,
    pub actors: Seq<StreamActorModel>,
    pub vnode_mapping: Option<VnodeMappingModel>,
    pub state_table_ids: Seq<u32>,
    pub upstream_fragment_ids: Seq<u32>,
}

impl View for Fragment {
    type V = FragmentModel;

    open spec fn view(&self) -> FragmentModel {
        FragmentModel {
            fragment_id: self.fragment_id,
            fragment_type_mask: self.fragment_type_mask,
            distribution_type: self.distribution_type,
            actors: views(self.actors@),
            vnode_mapping: opt_view(self.vnode_mapping),
            state_table_ids: self.state_table_ids@,
            upstream_fragment_ids: self.upstream_fragment_ids@,
        }
    }
}

impl Entry for Fragment {
    fn duplicate(&self) -> (r: Self) {
        Fragment {
            fragment_id: self.fragment_id,
            fragment_type_mask: self.fragment_type_mask,
            distribution_type: self.distribution_type,
            actors: duplicate_all(&self.actors),
            vnode_mapping: duplicate_opt(&self.vnode_mapping),
            state_table_ids: copy_all(&self.state_table_ids),
            upstream_fragment_ids: copy_all(&self.upstream_fragment_ids),
        }
    }
}

/// A fragment as it is stored.
#[derive(Debug, PartialEq, Eq)]
pub struct StoredFragment {
    pub fragment_id: u32,
    pub job_id: u32,
    pub fragment_type_mask: u32,
    pub distribution_type: DistributionType,
    pub stream_node: StreamNode,
    pub vnode_mapping: VnodeMapping,
    pub state_table_ids: Vec<u32>,
    pub upstream_fragment_id: Vec<u32>,
}

/// The mathematical model of [`StoredFragment`].
#[verifier::ext_equal]
pub struct StoredFragmentModel {
    pub fragment_id: u32,
    pub job_id: u32,
    pub fragment_type_mask: u32,
    pub distribution_type: DistributionType,
    pub stream_node: StreamNodeModel,
    pub vnode_mapping: VnodeMappingModel,
    pub state_table_ids: Seq<u32>,
    pub upstream_fragment_id: Seq<u32>,
}

impl View for StoredFragment {
    type V = StoredFragmentModel;

    open spec fn view(&self) -> StoredFragmentModel {
        StoredFragmentModel {
            fragment_id: self.fragment_id,
            job_id: self.job_id,
            fragment_type_mask: self.fragment_type_mask,
            distribution_type: self.distribution_type,
            stream_node: self.stream_node@,
            vnode_mapping: self.vnode_mapping@,
            state_table_ids: self.state_table_ids@,
            upstream_fragment_id: self.upstream_fragment_id@,
        }
    }
}

impl Entry for StoredFragment {
    fn duplicate(&self) -> (r: Self) {
        StoredFragment {
            fragment_id: self.fragment_id,
            job_id: self.job_id,
            fragment_type_mask: self.fragment_type_mask,
            distribution_type: self.distribution_type,
            stream_node: self.stream_node.duplicate(),
            vnode_mapping: self.vnode_mapping.duplicate(),
            state_table_ids: copy_all(&self.state_table_ids),
            upstream_fragment_id: copy_all(&self.upstream_fragment_id),
        }
    }
}

/// An actor as it is stored.
#[derive(Debug, PartialEq, Eq)]
pub struct StoredActor {
    pub actor_id: u32,
    pub fragment_id: u32,
    pub status: ActorState,
    pub splits: Option<List<ConnectorSplit>>,
    pub parallel_unit_id: u32,
    pub worker_id: u32,
    pub upstream_actor_ids: IdMap<List<u32>>,
    pub vnode_bitmap: Option<VnodeBitmap>,
    pub expr_context: ExprContext,
}

/// The mathematical model of [`StoredActor`].
#[verifier::ext_equal]
pub struct StoredActorModel {
    pub actor_id: u32,
    pub fragment_id: u32,
    pub status: ActorState,
    pub splits: Option<Seq<ConnectorSplitModel>>,
    pub parallel_unit_id: u32,
    pub worker_id: u32,
    pub upstream_actor_ids: Map<u32, Seq<u32>>,
    pub vnode_bitmap: Option<VnodeBitmapModel>,
    pub expr_context: ExprContextModel,
}

impl View for StoredActor {
    type V = StoredActorModel;

    open spec fn view(&self) -> StoredActorModel {
        StoredActorModel {
            actor_id: self.actor_id,
            fragment_id: self.fragment_id,
            status: self.status,
            splits: opt_view(self.splits),
            parallel_unit_id: self.parallel_unit_id,
            worker_id: self.worker_id,
            upstream_actor_ids: self.upstream_actor_ids@,
            vnode_bitmap: opt_view(self.vnode_bitmap),
            expr_context: self.expr_context@,
        }
    }
}

impl Entry for StoredActor {
    fn duplicate(&self) -> (r: Self) {
        StoredActor {
            actor_id: self.actor_id,
            fragment_id: self.fragment_id,
            status: self.status,
            splits: duplicate_opt(&self.splits),
            parallel_unit_id: self.parallel_unit_id,
            worker_id: self.worker_id,
            upstream_actor_ids: self.upstream_actor_ids.duplicate(),
            vnode_bitmap: duplicate_opt(&self.vnode_bitmap),
            expr_context: self.expr_context.duplicate(),
        }
    }
}

/// A dispatcher as it is stored, with the actor that it belongs to.
#[derive(Debug, PartialEq, Eq)]
pub struct StoredDispatcher {
    pub actor_id: u32,
    pub dispatcher: Dispatcher,
}

/// The mathematical model of [`StoredDispatcher`].
#[verifier::ext_equal]
pub struct StoredDispatcherModel {
    pub actor_id: u32,
    pub dispatcher: DispatcherModel,
}

impl View for StoredDispatcher {
    type V = StoredDispatcherModel;

    open spec fn view(&self) -> StoredDispatcherModel {
        StoredDispatcherModel {
            actor_id: self.actor_id,
            dispatcher: self.dispatcher@,
        }
    }
}

impl Entry for StoredDispatcher {
    fn duplicate(&self) -> (r: Self) {
        StoredDispatcher {
            actor_id: self.actor_id,
            dispatcher: self.dispatcher.duplicate(),
        }
    }
}

/// What the expressions of a job are evaluated with.
#[derive(Debug, PartialEq, Eq)]
pub struct StreamContext {
    pub timezone: String,
}

/// The mathematical model of [`StreamContext`].
#[verifier::ext_equal]
pub struct StreamContextModel {
    pub timezone: Seq<char>,
}

impl View for StreamContext {
    type V = StreamContextModel;

    open spec fn view(&self) -> StreamContextModel {
        StreamContextModel {
            timezone: self.timezone@,
        }
    }
}

impl Entry for StreamContext {
    fn duplicate(&self) -> (r: Self) {
        StreamContext {
            timezone: self.timezone.clone(),
        }
    }
}

impl StreamContextModel {
    /// All fields at their default.
    pub open spec fn blank() -> StreamContextModel {
        StreamContextModel {
            timezone: Seq::empty(),
        }
    }
}

impl Default for StreamContext {
    fn default() -> (r: Self)
        ensures
            r@ == StreamContextModel::blank(),
    {
        let r = StreamContext {
            timezone: String::new(),
        };
        assert(r@ =~= StreamContextModel::blank());
        r
    }
}

/// The fragments of a streaming job.
#[derive(Debug, PartialEq, Eq)]
pub struct TableFragments {
    pub table_id: u32,
    pub state: JobStatus,
    pub fragments: IdMap<Fragment>,
    pub actor_status: IdMap<ActorStatus>,
    pub actor_splits: IdMap<List<ConnectorSplit>>,
    pub ctx: Option<StreamContext>,
    pub parallelism: Option<StreamingParallelism>,
}

/// The mathematical model of [`TableFragments`].
#[verifier::ext_equal]
pub struct TableFragmentsModel {
    pub table_id: u32,
    pub state: JobStatus,
    pub fragments: Map<u32, FragmentModel>,
    pub actor_status: Map<u32, ActorStatusModel>,
    pub actor_splits: Map<u32, Seq<ConnectorSplitModel>>,
    pub ctx: Option<StreamContextModel>,
    pub parallelism: Option<StreamingParallelism>,
}

impl View for TableFragments {
    type V = TableFragmentsModel;

    open spec fn view(&self) -> TableFragmentsModel {
        TableFragmentsModel {
            table_id: self.table_id,
            state: self.state,
            fragments: self.fragments@,
            actor_status: self.actor_status@,
            actor_splits: self.actor_splits@,
            ctx: opt_view(self.ctx),
            parallelism: self.parallelism,
        }
    }
}

impl Entry for TableFragments {
    fn duplicate(&self) -> (r: Self) {
        TableFragments {
            table_id: self.table_id,
            state: self.state,
            fragments: self.fragments.duplicate(),
            actor_status: self.actor_status.duplicate(),
            actor_splits: self.actor_splits.duplicate(),
            ctx: duplicate_opt(&self.ctx),
            parallelism: self.parallelism,
        }
    }
}

} // verus!
