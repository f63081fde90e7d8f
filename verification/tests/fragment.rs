use std::collections::BTreeMap;

use streaming_meta::catalog::error::{CatalogKind, MetaError};
use streaming_meta::catalog::notify::Operation;
use streaming_meta::fragment::controller::CatalogController;
use streaming_meta::fragment::flags::{MVIEW, NOW, SINK, SOURCE, SOURCE_SCAN, STREAM_SCAN};
use streaming_meta::fragment::jobs::{JobInfo, JobRows};
use streaming_meta::fragment::migrate::{FragmentWorkerSlotMapping, LocalNotification, WorkerSlotMapping};
use streaming_meta::fragment::rows::{ActorRow, ParallelismRow, SinkActorRow, UpstreamRow};
use streaming_meta::fragment::tree::{MergeNode, NodeBody, StreamNode};
use streaming_meta::fragment::types::{
    ActorState, ActorStatus, ConnectorSplit, Dispatcher, DispatcherType, DistributionType,
    ExprContext, Fragment, JobStatus, ParallelUnit, StoredActor, StoredDispatcher, StoredFragment,
    StreamActor, StreamContext, StreamingParallelism, TableFragments, VnodeBitmap, VnodeMapping,
};
use streaming_meta::util::id_map::{Entry, IdMap};
use streaming_meta::util::id_set::IdSet;
use streaming_meta::util::lists::List;

const TEST_FRAGMENT_ID: u32 = 1;

const TEST_UPSTREAM_FRAGMENT_ID: u32 = 2;

const TEST_JOB_ID: u32 = 1;

const TEST_STATE_TABLE_ID: u32 = 1000;

fn generate_parallel_units(count: u32) -> Vec<ParallelUnit> {
    (0..count)
        .map(|parallel_unit_id| ParallelUnit { id: parallel_unit_id, worker_node_id: 0 })
        .collect()
}

fn generate_dispatchers_for_actor(actor_id: u32) -> Vec<Dispatcher> {
    vec![Dispatcher {
        dispatcher_type: DispatcherType::Hash,
        dist_key_indices: vec![],
        output_indices: vec![],
        hash_mapping: None,
        dispatcher_id: actor_id as u64,
        downstream_actor_id: vec![actor_id],
        downstream_table_name: None,
    }]
}

fn generate_upstream_actor_ids_for_actor(actor_id: u32) -> BTreeMap<u32, Vec<u32>> {
    let mut upstream_actor_ids = BTreeMap::new();
    upstream_actor_ids.insert(TEST_UPSTREAM_FRAGMENT_ID, vec![actor_id + 100]);
    upstream_actor_ids.insert(TEST_UPSTREAM_FRAGMENT_ID + 1, vec![actor_id + 200]);
    upstream_actor_ids
}

fn merge(upstream_fragment_id: u32, upstream_actor_id: Vec<u32>) -> StreamNode {
    node(NodeBody::Merge(MergeNode { upstream_actor_id, upstream_fragment_id, upstream_dispatcher_type: 0 }), vec![])
}

fn node(node_body: NodeBody, input: Vec<StreamNode>) -> StreamNode {
    StreamNode { operator_id: 0, input, identity: String::new(), node_body }
}

fn generate_merger_stream_node(actor_upstream_actor_ids: &BTreeMap<u32, Vec<u32>>) -> StreamNode {
    let mut input = vec![];
    for (upstream_fragment_id, upstream_actor_ids) in actor_upstream_actor_ids {
        input.push(merge(*upstream_fragment_id, upstream_actor_ids.clone()));
    }
    node(NodeBody::Union, input)
}

/// 256 virtual nodes over three units, in runs.
fn vnode_mapping() -> VnodeMapping {
    VnodeMapping { original_indices: vec![85, 170, 255], data: vec![0, 1, 2] }
}

fn vnode_bitmap(unit: u32) -> VnodeBitmap {
    let (from, to) = [(0, 86), (86, 171), (171, 256)][unit as usize];
    let body = (0..32)
        .map(|byte| (0..8).fold(0u8, |b, bit| if (from..to).contains(&(byte * 8 + bit)) { b | 1 << bit } else { b }))
        .collect();
    VnodeBitmap { num_bits: 256, body }
}

fn id_map<T: Entry>(pairs: Vec<(u32, T)>) -> IdMap<T> {
    let mut m = IdMap::new();
    for (k, v) in pairs {
        m.insert(k, v);
    }
    m
}

fn links(m: &BTreeMap<u32, Vec<u32>>) -> IdMap<List<u32>> {
    id_map(m.iter().map(|(k, v)| (*k, List { items: v.clone() })).collect())
}

fn new_york() -> ExprContext {
    ExprContext { time_zone: String::from("America/New_York") }
}

fn relink(node: &mut StreamNode, upstreams: &BTreeMap<u32, Vec<u32>>) {
    if let NodeBody::Merge(m) = &mut node.node_body {
        m.upstream_actor_id = upstreams[&m.upstream_fragment_id].clone();
    }
    for child in &mut node.input {
        relink(child, upstreams);
    }
}

fn check_fragment_template(fragment: &StoredFragment, actors: &[StreamActor], upstream_actor_ids: &BTreeMap<u32, BTreeMap<u32, Vec<u32>>>) {
    for actor in actors {
        let mut template_node = fragment.stream_node.duplicate();
        relink(&mut template_node, &upstream_actor_ids[&actor.actor_id]);
        assert_eq!(actor.nodes, Some(template_node));
    }
}

fn check_links(node: &StreamNode, upstreams: &IdMap<List<u32>>) {
    if let NodeBody::Merge(m) = &node.node_body {
        assert_eq!(upstreams.get(m.upstream_fragment_id).unwrap().items, m.upstream_actor_id);
    }
    for child in &node.input {
        check_links(child, upstreams);
    }
}

fn check_actors(
    actors: &[StoredActor],
    actor_dispatchers: &IdMap<List<StoredDispatcher>>,
    pb_actors: &[StreamActor],
    pb_actor_splits: &IdMap<List<ConnectorSplit>>,
) {
    assert_eq!(actors.len(), pb_actors.len());
    for (actor, pb_actor) in actors.iter().zip(pb_actors) {
        assert_eq!(actor.actor_id, pb_actor.actor_id);
        assert_eq!(actor.fragment_id, pb_actor.fragment_id);
        assert_eq!(actor.parallel_unit_id, pb_actor.actor_id);
        let flat: Vec<u32> = actor
            .upstream_actor_ids
            .ids()
            .iter()
            .flat_map(|k| actor.upstream_actor_ids.get(*k).unwrap().items.clone())
            .collect();
        assert_eq!(flat, pb_actor.upstream_actor_id);
        let stored = &actor_dispatchers.get(actor.actor_id).unwrap().items;
        assert_eq!(stored.len(), pb_actor.dispatcher.len());
        for (stored, dispatcher) in stored.iter().zip(&pb_actor.dispatcher) {
            assert_eq!(&stored.dispatcher, dispatcher);
        }
        assert_eq!(actor.vnode_bitmap, pb_actor.vnode_bitmap);
        assert_eq!(pb_actor.mview_definition, "");
        check_links(pb_actor.nodes.as_ref().unwrap(), &actor.upstream_actor_ids);
        assert_eq!(actor.status, ActorState::Running);
        assert_eq!(actor.splits.as_ref(), pb_actor_splits.get(pb_actor.actor_id));
        assert_eq!(Some(&actor.expr_context), pb_actor.expr_context.as_ref());
    }
}

fn check_fragment(fragment: &StoredFragment, pb_fragment: &Fragment) {
    assert_eq!(pb_fragment.fragment_id, TEST_FRAGMENT_ID);
    assert_eq!(pb_fragment.fragment_type_mask, fragment.fragment_type_mask);
    assert_eq!(pb_fragment.distribution_type, fragment.distribution_type);
    assert_eq!(pb_fragment.vnode_mapping.as_ref().unwrap(), &fragment.vnode_mapping);
    assert_eq!(pb_fragment.upstream_fragment_ids, fragment.upstream_fragment_id);
    assert_eq!(pb_fragment.state_table_ids, fragment.state_table_ids);
}

fn upstreams(actor_count: u32) -> BTreeMap<u32, BTreeMap<u32, Vec<u32>>> {
    (0..actor_count).map(|id| (id, generate_upstream_actor_ids_for_actor(id))).collect()
}

fn running_fragment() -> (Fragment, IdMap<ActorStatus>) {
    let units = generate_parallel_units(3);
    let upstream_actor_ids = upstreams(3);
    let actors = (0..3)
        .map(|actor_id| {
            let own = &upstream_actor_ids[&actor_id];
            StreamActor {
                actor_id,
                fragment_id: TEST_FRAGMENT_ID,
                nodes: Some(generate_merger_stream_node(own)),
                dispatcher: generate_dispatchers_for_actor(actor_id),
                upstream_actor_id: own.values().flatten().copied().collect(),
                vnode_bitmap: Some(vnode_bitmap(actor_id)),
                mview_definition: String::new(),
                expr_context: Some(new_york()),
            }
        })
        .collect();
    let fragment = Fragment {
        fragment_id: TEST_FRAGMENT_ID,
        fragment_type_mask: SOURCE,
        distribution_type: DistributionType::Hash,
        actors,
        vnode_mapping: Some(vnode_mapping()),
        state_table_ids: vec![TEST_STATE_TABLE_ID],
        upstream_fragment_ids: upstream_actor_ids.values().flat_map(|m| m.keys().copied()).collect(),
    };
    let status = id_map(
        units
            .into_iter()
            .map(|unit| (unit.id, ActorStatus { parallel_unit: Some(unit), state: ActorState::Running }))
            .collect(),
    );
    (fragment, status)
}

#[test]
fn test_extract_fragment() {
    let upstream_actor_ids = upstreams(3);
    let (pb_fragment, pb_actor_status) = running_fragment();
    let pb_actor_splits = IdMap::new();
    let (fragment, actors, actor_dispatchers) = CatalogController::extract_fragment_and_actors(
        TEST_JOB_ID,
        pb_fragment.duplicate(),
        &pb_actor_status,
        &pb_actor_splits,
    )
    .unwrap();
    check_fragment_template(&fragment, &pb_fragment.actors, &upstream_actor_ids);
    check_fragment(&fragment, &pb_fragment);
    check_actors(&actors, &actor_dispatchers, &pb_fragment.actors, &pb_actor_splits);
    assert_eq!(fragment.job_id, TEST_JOB_ID);
    // the template names no actor
    assert_eq!(fragment.stream_node, node(NodeBody::Union, vec![merge(2, vec![]), merge(3, vec![])]));
}

fn dummy_split() -> ConnectorSplit {
    ConnectorSplit { split_type: "dummy".to_string(), encoded_split: vec![] }
}

fn stored_actor(actor_id: u32, own: &BTreeMap<u32, Vec<u32>>) -> StoredActor {
    StoredActor {
        actor_id,
        fragment_id: TEST_FRAGMENT_ID,
        status: ActorState::Running,
        splits: Some(List { items: vec![dummy_split()] }),
        parallel_unit_id: actor_id,
        worker_id: 0,
        upstream_actor_ids: links(own),
        vnode_bitmap: Some(vnode_bitmap(actor_id)),
        expr_context: new_york(),
    }
}

fn stored_fragment() -> StoredFragment {
    let template: BTreeMap<u32, Vec<u32>> =
        generate_upstream_actor_ids_for_actor(0).into_keys().map(|k| (k, vec![])).collect();
    StoredFragment {
        fragment_id: TEST_FRAGMENT_ID,
        job_id: TEST_JOB_ID,
        fragment_type_mask: 0,
        distribution_type: DistributionType::Hash,
        stream_node: generate_merger_stream_node(&template),
        vnode_mapping: vnode_mapping(),
        state_table_ids: vec![TEST_STATE_TABLE_ID],
        upstream_fragment_id: vec![],
    }
}

fn stored_actors() -> Vec<StoredActor> {
    (0..3).map(|id| stored_actor(id, &generate_upstream_actor_ids_for_actor(id))).collect()
}

fn stored_dispatchers() -> IdMap<List<StoredDispatcher>> {
    id_map(
        (0..3)
            .map(|actor_id| {
                let items = generate_dispatchers_for_actor(actor_id)
                    .into_iter()
                    .map(|dispatcher| StoredDispatcher { actor_id, dispatcher })
                    .collect();
                (actor_id, List { items })
            })
            .collect(),
    )
}

fn copies<T: Entry>(v: &[T]) -> Vec<T> {
    v.iter().map(|x| x.duplicate()).collect()
}

#[test]
fn test_compose_fragment() {
    let parallel_units = generate_parallel_units(3);
    let upstream_actor_ids = upstreams(3);
    let actors = stored_actors();
    let actor_dispatchers = stored_dispatchers();
    let fragment = stored_fragment();
    let (pb_fragment, pb_actor_status, pb_actor_splits) =
        CatalogController::compose_fragment(fragment.duplicate(), copies(&actors), actor_dispatchers.duplicate()).unwrap();

    assert_eq!(pb_actor_status.len(), 3);
    assert_eq!(pb_actor_splits.len(), 3);
    for actor_id in pb_actor_status.ids() {
        let parallel_unit_id = parallel_units[actor_id as usize].id;
        let status = pb_actor_status.get(actor_id).unwrap();
        assert_eq!(parallel_unit_id, status.parallel_unit.as_ref().unwrap().id);
    }
    check_fragment_template(&fragment, &pb_fragment.actors, &upstream_actor_ids);
    check_fragment(&fragment, &pb_fragment);
    check_actors(&actors, &actor_dispatchers, &pb_fragment.actors, &pb_actor_splits);
}

#[test]
fn compose_gives_back_what_was_extracted() {
    let (pb_fragment, status) = running_fragment();
    let (fragment, actors, dispatchers) =
        CatalogController::extract_fragment_and_actors(TEST_JOB_ID, pb_fragment.duplicate(), &status, &IdMap::new()).unwrap();
    let (back, back_status, splits) = CatalogController::compose_fragment(fragment, actors, dispatchers).unwrap();
    assert_eq!(back, pb_fragment);
    assert_eq!(back_status, status);
    assert_eq!(splits.len(), 0);
}

#[test]
fn what_storing_a_fragment_presumes() {
    let none = IdMap::new();
    let (pb_fragment, status) = running_fragment();
    assert!(CatalogController::can_extract(&pb_fragment, &status, &none));

    let (mut f, status) = running_fragment();
    f.actors[1].expr_context = None;
    assert!(!CatalogController::can_extract(&f, &status, &none));
    // the actor before it is refused
    f.actors[0].nodes = None;
    f.actors.swap(0, 2);
    f.actors.swap(1, 2);
    assert!(CatalogController::can_extract(&f, &status, &none));
    let r = CatalogController::extract_fragment_and_actors(TEST_JOB_ID, f, &status, &none);
    assert_eq!(r.err().unwrap(), MetaError::NodesEmpty);

    let (mut f, status) = running_fragment();
    f.actors[1].upstream_actor_id.push(999);
    assert!(!CatalogController::can_extract(&f, &status, &none));
    let (mut f, status) = running_fragment();
    f.vnode_mapping = None;
    assert!(!CatalogController::can_extract(&f, &status, &none));
    let (mut f, status) = running_fragment();
    f.actors.clear();
    assert!(!CatalogController::can_extract(&f, &status, &none));
}

#[test]
fn extract_refuses_missing_nodes_and_status() {
    let (mut pb_fragment, status) = running_fragment();
    pb_fragment.actors[1].nodes = None;
    let r = CatalogController::extract_fragment_and_actors(TEST_JOB_ID, pb_fragment, &status, &IdMap::new());
    assert_eq!(r.err().unwrap(), MetaError::NodesEmpty);

    let (pb_fragment, mut status) = running_fragment();
    status.remove(2);
    let r = CatalogController::extract_fragment_and_actors(TEST_JOB_ID, pb_fragment, &status, &IdMap::new());
    assert!(matches!(r.err().unwrap(), MetaError::ActorStatusMissing(..)));
}

#[test]
fn compose_refuses_an_actor_of_another_fragment() {
    let mut actors = stored_actors();
    actors[2].fragment_id = 9;
    let r = CatalogController::compose_fragment(stored_fragment(), actors, stored_dispatchers());
    assert!(matches!(r.err().unwrap(), MetaError::FragmentMismatch(..)));
}

fn job_info(job_id: u32) -> JobInfo {
    JobInfo {
        job_id,
        job_status: JobStatus::Created,
        timezone: Some("Europe/Berlin".to_string()),
        parallelism: StreamingParallelism::Fixed(3),
    }
}

#[test]
fn table_fragments_of_jobs() {
    let rows = || vec![(stored_fragment(), stored_actors())];
    let t = CatalogController::get_job_fragments_by_id(TEST_JOB_ID, &Some(job_info(1)), rows(), stored_dispatchers()).unwrap();
    assert_eq!(t.table_id, 1);
    assert_eq!(t.state, JobStatus::Created);
    assert_eq!(t.ctx, Some(StreamContext { timezone: "Europe/Berlin".to_string() }));
    assert_eq!(t.parallelism, Some(StreamingParallelism::Fixed(3)));
    assert_eq!(t.fragments.ids(), vec![1]);
    assert_eq!(t.fragments.get(1).unwrap().actors[2].dispatcher[0].dispatcher_id, 2);

    let missing = CatalogController::get_job_fragments_by_id(7, &None, rows(), stored_dispatchers());
    assert_eq!(missing.err().unwrap(), MetaError::JobMissing(7));

    let jobs = vec![JobRows { job: job_info(1), fragment_actors: rows(), actor_dispatchers: stored_dispatchers() }];
    let all = CatalogController::table_fragments(&jobs).unwrap();
    assert_eq!(all.get(1), Some(&t));

    // all fragments of the job, and back
    assert!(CatalogController::can_extract_all(&t));
    let mut broken = t.duplicate();
    let mut fragment = broken.fragments.remove(broken.fragments.ids()[0]).unwrap();
    fragment.vnode_mapping = None;
    broken.fragments.insert(fragment.fragment_id, fragment);
    assert!(!CatalogController::can_extract_all(&broken));
    let stored = CatalogController::extract_fragment_and_actors_from_table_fragments(t.duplicate()).unwrap();
    let again: TableFragments = CatalogController::compose_table_fragments(
        1,
        JobStatus::Created,
        Some(StreamContext { timezone: "Europe/Berlin".to_string() }),
        stored,
        StreamingParallelism::Fixed(3),
    )
    .unwrap();
    assert_eq!(again, t);
}

#[test]
fn node_actors_by_worker() {
    let mut actors = stored_actors();
    actors[1].worker_id = 5;
    let nodes = CatalogController::all_node_actors(vec![(stored_fragment(), actors)], stored_dispatchers()).unwrap();
    assert_eq!(nodes.ids(), vec![0, 5]);
    let of_zero: Vec<u32> = nodes.get(0).unwrap().items.iter().map(|a| a.actor_id).collect();
    assert_eq!(of_zero, vec![0, 2]);
    assert_eq!(nodes.get(5).unwrap().items[0].dispatcher.len(), 1);
}

#[test]
fn inactive_actors_are_left_out() {
    let mut actors = stored_actors();
    let own = actors[0].fragment_id;
    actors[0].status = ActorState::Running;
    actors[1].status = ActorState::Inactive;
    actors[2].status = ActorState::Running;
    let fragments = vec![fragment_of(own + 1, 1, MVIEW), fragment_of(own, 1, MVIEW)];
    let ids = |pairs: &Vec<(StoredFragment, Vec<StoredActor>)>| -> Vec<(u32, Vec<u32>)> {
        pairs.iter().map(|(f, q)| (f.fragment_id, q.iter().map(|a| a.actor_id).collect())).collect()
    };
    let all = CatalogController::fragments_with_actors(&fragments, &actors, true);
    assert_eq!(ids(&all), vec![(own + 1, vec![]), (own, vec![0, 1, 2])]);
    let running = CatalogController::fragments_with_actors(&fragments, &actors, false);
    assert_eq!(ids(&running), vec![(own, vec![0, 2])]);

    let nodes = CatalogController::all_node_actors(running, stored_dispatchers()).unwrap();
    let on_nodes: Vec<u32> = nodes.values().iter().flat_map(|q| q.items.iter().map(|a| a.actor_id)).collect();
    assert_eq!(on_nodes, vec![0, 2]);
}

fn fragment_of(fragment_id: u32, job_id: u32, fragment_type_mask: u32) -> StoredFragment {
    StoredFragment { fragment_id, job_id, fragment_type_mask, ..stored_fragment() }
}

#[test]
fn mview_and_chain_fragments() {
    let fragments = vec![fragment_of(1, 1, MVIEW), fragment_of(8, 1, SOURCE), fragment_of(0, 5, SOURCE)];
    let (actors, dispatchers) = (stored_actors(), stored_dispatchers());
    let f = CatalogController::get_mview_fragment(1, &fragments, &actors, &dispatchers).unwrap();
    assert_eq!((f.fragment_id, f.actors.len()), (1, 3));
    let dispatches = CatalogController::downstream_dispatches(&f);
    assert_eq!(dispatches.ids(), vec![0]);
    assert_eq!(dispatches.get(0).unwrap().dispatcher_type, DispatcherType::Hash);
    let none = CatalogController::get_mview_fragment(5, &fragments, &actors, &dispatchers);
    assert_eq!(none.err().unwrap(), MetaError::MviewFragmentMissing(5));

    let chain = CatalogController::get_downstream_chain_fragments(1, &fragments, &actors, &dispatchers).unwrap();
    assert_eq!(chain.len(), 1);
    assert_eq!(&chain[0].0, dispatches.get(0).unwrap());
    assert_eq!((chain[0].1.fragment_id, chain[0].1.actors.len()), (0, 0));
    let none = CatalogController::get_downstream_chain_fragments(5, &fragments, &actors, &dispatchers);
    assert_eq!(none.err().unwrap(), MetaError::MviewFragmentMissing(5));
    let alone = vec![fragment_of(1, 1, MVIEW)];
    let none = CatalogController::get_downstream_chain_fragments(1, &alone, &actors, &dispatchers);
    assert_eq!(none.err().unwrap(), MetaError::FragmentMissing(0));
}

#[test]
fn upstream_roots_prefer_materialized_views() {
    let fragments = vec![
        fragment_of(11, 1, SOURCE),
        fragment_of(1, 1, MVIEW),
        fragment_of(3, 2, SOURCE),
        fragment_of(4, 2, SOURCE),
        fragment_of(5, 3, NOW),
        fragment_of(6, 4, MVIEW),
    ];
    let (actors, dispatchers) = (stored_actors(), stored_dispatchers());
    let roots = CatalogController::get_upstream_root_fragments(&vec![1, 2, 3], &fragments, &actors, &dispatchers).unwrap();
    assert_eq!(roots.ids(), vec![1, 2]);
    assert_eq!((roots.get(1).unwrap().fragment_id, roots.get(1).unwrap().actors.len()), (1, 3));
    assert_eq!(roots.get(2).unwrap().fragment_id, 3);
}

#[test]
fn upstream_jobs_are_counted() {
    let row = |job_id, fragment_type_mask, upstream_fragment_id| UpstreamRow { job_id, fragment_type_mask, upstream_fragment_id };
    let rows = vec![
        row(10, STREAM_SCAN, vec![1, 2]),
        row(10, 0, vec![1]),
        row(11, STREAM_SCAN | MVIEW, vec![1]),
    ];
    assert_eq!(CatalogController::scanned_fragments(&rows), vec![1, 2, 1]);
    let jobs = id_map(vec![(1, 100), (2, 200)]);
    let counts = CatalogController::get_upstream_job_counts(&rows, &jobs);
    assert_eq!(counts, id_map(vec![(10, id_map(vec![(100, 1), (200, 1)])), (11, id_map(vec![(100, 1)]))]));
}

#[test]
fn every_scanning_fragment_of_a_job_is_counted() {
    let row = |job_id, upstream| UpstreamRow { job_id, fragment_type_mask: STREAM_SCAN, upstream_fragment_id: upstream };
    let jobs = id_map(vec![(1, 101), (2, 102), (3, 103), (4, 101)]);
    let rows = vec![row(10, vec![1]), row(10, vec![2]), row(10, vec![3])];
    let counts = CatalogController::get_upstream_job_counts(&rows, &jobs);
    assert_eq!(counts, id_map(vec![(10, id_map(vec![(101, 1), (102, 1), (103, 1)]))]));

    // a relation that is read twice, and a job that reads nothing
    let rows = vec![row(11, vec![1, 2]), row(12, vec![]), row(11, vec![4]), row(13, vec![1])];
    let counts = CatalogController::get_upstream_job_counts(&rows, &jobs);
    let of_11 = id_map(vec![(101, 2), (102, 1)]);
    assert_eq!(counts, id_map(vec![(11, of_11), (12, id_map(vec![])), (13, id_map(vec![(101, 1)]))]));
}

#[test]
fn actors_grouped_under_jobs_and_workers() {
    let m = CatalogController::get_job_actor_mapping(vec![(1, 5), (2, 6), (1, 4)]);
    assert_eq!(m.len(), 2);
    assert_eq!(m[&1], vec![5, 4]);
    assert_eq!(m[&2], vec![6]);

    let w = CatalogController::get_worker_actor_ids(&vec![(5, 1), (6, 2), (4, 1)]);
    assert_eq!(w, id_map(vec![(1, List { items: vec![5, 4] }), (2, List { items: vec![6] })]));

    let row = |actor_id, worker_id, fragment_type_mask| ActorRow { actor_id, worker_id, fragment_type_mask };
    let infos = CatalogController::load_all_actors(&vec![row(1, 7, SOURCE), row(2, 7, MVIEW), row(3, 8, NOW | MVIEW)]);
    assert_eq!(infos.actor_maps, id_map(vec![(7, List { items: vec![1, 2] }), (8, List { items: vec![3] })]));
    assert_eq!(
        infos.barrier_inject_actor_maps,
        id_map(vec![(7, List { items: vec![1] }), (8, List { items: vec![3] })])
    );
}

#[test]
fn injectable_flags() {
    for flag in [1u32, 8, 32, 64] {
        assert!(CatalogController::is_injectable(flag));
        assert!(CatalogController::is_injectable(flag | 2));
    }
    for flag in [0u32, 2, 4, 16, 128, 256, 512, 1024] {
        assert!(!CatalogController::is_injectable(flag));
    }
}

#[test]
fn internal_tables_of_jobs() {
    assert_eq!(CatalogController::get_job_internal_table_ids(None), None);
    let rows = vec![(1, vec![3, 4]), (2, vec![]), (1, vec![5])];
    let m = CatalogController::get_job_internal_table_ids(Some(&rows)).unwrap();
    assert_eq!(m, id_map(vec![(1, List { items: vec![3, 4, 5] }), (2, List::empty())]));
}

#[test]
fn sinks_with_their_actors() {
    let names = id_map(vec![(1, "s1".to_string()), (2, "s2".to_string())]);
    let row = |actor_id, sink_id, fragment_type_mask| SinkActorRow { actor_id, sink_id, fragment_type_mask };
    let m = CatalogController::list_sink_actor_mapping(&names, &vec![row(10, 1, SINK), row(11, 2, 0), row(12, 1, SINK | SOURCE)]);
    assert_eq!(m.ids(), vec![1]);
    assert_eq!(m.get(1).unwrap().name, "s1");
    assert_eq!(m.get(1).unwrap().actors, vec![10, 12]);
}

#[test]
fn splits_are_added() {
    let mut actors = IdMap::new();
    for actor in stored_actors() {
        actors.insert(actor.actor_id, actor);
    }
    let kafka = ConnectorSplit { split_type: "kafka".to_string(), encoded_split: vec![1] };
    CatalogController::update_actor_splits(&mut actors, &vec![(1, vec![kafka.duplicate()])]).unwrap();
    assert_eq!(actors.get(1).unwrap().splits, Some(List { items: vec![dummy_split(), kafka.duplicate()] }));
    assert_eq!(actors.get(0).unwrap().splits, Some(List { items: vec![dummy_split()] }));

    let before = actors.duplicate();
    let r = CatalogController::update_actor_splits(&mut actors, &vec![(0, vec![kafka.duplicate()]), (9, vec![])]);
    assert_eq!(r.err().unwrap(), MetaError::CatalogIdNotFound(CatalogKind::ActorId, 9));
    assert_eq!(actors, before);
}

#[test]
fn sources_and_backfills() {
    let mut reads = fragment_of(1, 1, SOURCE);
    reads.stream_node = node(NodeBody::Union, vec![node(NodeBody::Source(Some(77)), vec![])]);
    let mut other = fragment_of(2, 1, 0);
    other.stream_node = node(NodeBody::Source(Some(77)), vec![]);
    let ids = CatalogController::load_source_fragment_ids(&vec![reads, other]);
    assert_eq!(ids.ids(), vec![77]);
    assert_eq!(ids.get(77).unwrap().ids(), vec![1]);

    let mut scan = fragment_of(3, 1, SOURCE_SCAN);
    scan.stream_node = node(NodeBody::SourceBackfill(77), vec![]);
    scan.upstream_fragment_id = vec![1];
    let m = CatalogController::load_backfill_fragment_ids(&vec![scan.duplicate()]).unwrap();
    assert_eq!(m, id_map(vec![(77, id_map(vec![(3, 1)]))]));
    scan.upstream_fragment_id = vec![1, 2];
    let e = CatalogController::load_backfill_fragment_ids(&vec![scan]).err().unwrap();
    assert_eq!(e, MetaError::BackfillUpstreams(2, 3));
    assert_eq!(e.message(), "SourceBackfill should have only one upstream fragment, found 2 for fragment 3");
}

#[test]
fn actual_parallelism_needs_one_fragment() {
    let row = |fragment_id, fragment_type_mask, count| ParallelismRow { fragment_id, fragment_type_mask, count };
    assert_eq!(CatalogController::get_actual_job_fragment_parallelism(&vec![row(1, MVIEW, 4), row(2, 0, 9)]), Some(4));
    assert_eq!(CatalogController::get_actual_job_fragment_parallelism(&vec![row(1, MVIEW, 4), row(2, SINK, 9)]), None);
    assert_eq!(CatalogController::get_actual_job_fragment_parallelism(&vec![]), None);
}

#[test]
fn migrating_actors() {
    let mut actors = stored_actors();
    let mut fragments = vec![fragment_of(1, 1, MVIEW), fragment_of(2, 2, MVIEW)];
    // unit 0 goes to unit 1 of another node, on which an actor runs already
    let plan = vec![(0, ParallelUnit { id: 1, worker_node_id: 6 }), (7, ParallelUnit { id: 8, worker_node_id: 6 })];
    let told = CatalogController::migrate_actors(&mut actors, &mut fragments, &plan);
    assert_eq!((actors[0].parallel_unit_id, actors[0].worker_id), (1, 6));
    assert_eq!((actors[1].parallel_unit_id, actors[1].worker_id), (1, 0));
    // no actor is left on a unit of the plan, so no mapping changes
    assert!(told.is_empty());
    assert_eq!(fragments[0].vnode_mapping, vnode_mapping());

    // a plan that exchanges two units, the first step first
    let mut actors = stored_actors();
    let plan = vec![(0, ParallelUnit { id: 1, worker_node_id: 6 }), (1, ParallelUnit { id: 0, worker_node_id: 7 })];
    let told = CatalogController::migrate_actors(&mut actors, &mut fragments, &plan);
    assert_eq!(actors.iter().map(|a| a.parallel_unit_id).collect::<Vec<_>>(), vec![0, 0, 2]);
    assert_eq!(actors.iter().map(|a| a.worker_id).collect::<Vec<_>>(), vec![7, 7, 0]);
    assert_eq!(fragments[0].vnode_mapping.data, vec![1, 0, 2]);
    assert_eq!(fragments[1].vnode_mapping, vnode_mapping());
    // told once for each such actor, with the mapping as it was
    assert_eq!(told.len(), 2);
    assert_eq!(told[0].mapping, vnode_mapping());
}

#[test]
fn mapping_messages() {
    let mapping = |fragment_id| FragmentWorkerSlotMapping {
        fragment_id,
        mapping: Some(WorkerSlotMapping { original_indices: vec![255], data: vec![1] }),
    };
    let m = CatalogController::notify_fragment_mapping(Operation::Update, vec![mapping(1), mapping(2)]);
    assert_eq!(m.frontend, vec![mapping(1), mapping(2)]);
    assert_eq!(m.local, LocalNotification::FragmentMappingsUpsert(vec![1, 2]));
    let m = CatalogController::notify_fragment_mapping(Operation::Delete, vec![mapping(3)]);
    assert_eq!(m.local, LocalNotification::FragmentMappingsDelete(vec![3]));
}

#[test]
fn mappings_of_created_jobs() {
    let jobs = vec![
        JobInfo { job_status: JobStatus::Created, ..job_info(1) },
        JobInfo { job_status: JobStatus::Creating, ..job_info(2) },
    ];
    let fragments = vec![fragment_of(5, 1, 0), fragment_of(6, 2, 0), fragment_of(7, 3, 0), fragment_of(8, 1, 0)];
    let found = CatalogController::all_running_fragment_mappings(&fragments, &jobs);
    assert_eq!(found.iter().map(|m| m.fragment_id).collect::<Vec<_>>(), vec![5, 8]);
    assert_eq!(found[0].mapping, vnode_mapping());
    let actors = stored_actors();
    let places = CatalogController::list_actor_locations(&actors);
    assert_eq!(places.len(), actors.len());
    assert_eq!((places[1].actor_id, places[1].fragment_id), (actors[1].actor_id, TEST_FRAGMENT_ID));
    assert_eq!((places[1].parallel_unit_id, places[1].status), (actors[1].parallel_unit_id, ActorState::Running));
}

#[test]
fn selections_over_rows() {
    let fragments = vec![fragment_of(1, 10, MVIEW | STREAM_SCAN), fragment_of(2, 11, SINK)];
    let mut actors = stored_actors();
    actors[2].status = ActorState::Inactive;
    actors[2].splits = None;
    actors[2].worker_id = 4;
    let mut in_two = stored_actor(0, &BTreeMap::new());
    in_two.actor_id = 9;
    in_two.fragment_id = 2;
    actors.push(in_two);

    assert_eq!(CatalogController::running_fragment_parallelisms(&actors, &None), id_map(vec![(1, 3), (2, 1)]));
    let mut only = IdSet::new();
    only.insert(2);
    assert_eq!(CatalogController::running_fragment_parallelisms(&actors, &Some(only)), id_map(vec![(2, 1)]));
    assert_eq!(CatalogController::worker_actor_count(&actors), id_map(vec![(0, 3), (4, 1)]));
    assert_eq!(CatalogController::all_inuse_parallel_units(&actors).ids(), vec![0, 1, 2]);
    assert!(CatalogController::has_any_running_jobs(&fragments));
    assert!(!CatalogController::has_any_running_jobs(&vec![]));
    assert_eq!(CatalogController::fragment_job_mapping(&fragments), id_map(vec![(1, 10), (2, 11)]));
    assert_eq!(CatalogController::get_fragment_job_id(&fragments, &vec![2, 5]), vec![11]);
    let descs = CatalogController::list_fragment_descs(&fragments, &actors);
    assert_eq!(descs.iter().map(|d| d.parallelism).collect::<Vec<_>>(), vec![3, 1]);
    assert_eq!(CatalogController::list_fragment_state_tables(&fragments)[1].job_id, 11);
    assert_eq!(CatalogController::upstream_rows(&fragments, &vec![10]).len(), 1);
    assert_eq!(
        CatalogController::list_streaming_job_states(&vec![job_info(3)]),
        vec![(3, JobStatus::Created, StreamingParallelism::Fixed(3))]
    );
    assert_eq!(CatalogController::get_running_actors_of_fragment(&actors, 1), vec![0, 1]);
    assert_eq!(CatalogController::get_running_actors_and_upstream_of_fragment(&actors, 1)[1].actor_id, 1);
    assert_eq!(CatalogController::load_actor_splits(&actors).ids(), vec![0, 1, 9]);
    assert_eq!(CatalogController::get_actors_by_job_ids(&actors, &fragments, &vec![11]), vec![9]);
    assert_eq!(CatalogController::job_actors(&actors, &fragments, &vec![11]), vec![(11, 9)]);
    assert_eq!(CatalogController::actor_workers(&actors, &fragments, &vec![10]), vec![(0, 0), (1, 0), (2, 4)]);
    assert_eq!(CatalogController::sink_actor_rows(&actors, &fragments, &vec![11])[0].sink_id, 11);
    assert_eq!(CatalogController::running_actor_rows(&actors, &fragments).len(), 3);
    let rows = CatalogController::parallelism_rows(&actors, &fragments, 10);
    assert_eq!(rows, vec![ParallelismRow { fragment_id: 1, fragment_type_mask: MVIEW | STREAM_SCAN, count: 3 }]);
}
