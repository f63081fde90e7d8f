//! Selections over the stored fragments and actors.

use vstd::prelude::*;

use crate::fragment::controller::CatalogController;
use crate::fragment::jobs::{pair_views, FragmentActors, JobInfo, JobInfoModel};
use crate::fragment::migrate::{FragmentMapping, FragmentMappingModel};
use crate::fragment::rows::{ActorRow, ParallelismRow, SinkActorRow, UpstreamRow, UpstreamRowModel};
use crate::fragment::types::{
    ActorState, ConnectorSplit, ConnectorSplitModel, DistributionType, JobStatus, StoredActor,
    StoredActorModel, StoredFragment, StoredFragmentModel, StreamingParallelism,
};
use crate::util::counts::{raised, tally};
use crate::util::id_map::{copy_all, opt_view, views, Entry, IdMap};
use crate::util::id_set::IdSet;
use crate::util::ids::{contains_id, occurrences};
use crate::util::lists::{copy_map, image, keep, map_all, List};

verus! {

// ---------------------------------------------------------------------------
// Counting actors.
// ---------------------------------------------------------------------------

/// The fragments of these actors.
pub open spec fn fragments_of(q: Seq<StoredActorModel>) -> Seq<u32> {
    image(q, |a: StoredActorModel| a.fragment_id)
}

/// The nodes of these actors.
pub open spec fn workers_of(q: Seq<StoredActorModel>) -> Seq<u32> {
    image(q, |a: StoredActorModel| a.worker_id)
}

/// The places of these actors.
pub open spec fn units_of(q: Seq<StoredActorModel>) -> Seq<u32> {
    image(q, |a: StoredActorModel| a.parallel_unit_id)
}

/// The fragment of the actor is selected; without a selection all are.
pub open spec fn selected(filter: Option<Set<u32>>) -> spec_fn(StoredActorModel) -> bool {
    |a: StoredActorModel| filter is None || filter->0.contains(a.fragment_id)
}

fn copy_fragments(actors: &Vec<StoredActor>) -> (r: Vec<u32>)
    ensures
        r@ == fragments_of(views(actors@)),
{
    let f = |x: &StoredActor| -> (y: u32)
        ensures
            y == x@.fragment_id,
    {
        x.fragment_id
    };
    copy_map(actors, f, Ghost(|a: StoredActorModel| a.fragment_id))
}

impl CatalogController {
    /// How many actors each of the selected fragments has.
    pub fn running_fragment_parallelisms(
        actors: &Vec<StoredActor>,
        id_filter: &Option<IdSet>,
    ) -> (r: IdMap<usize>)
        ensures
            r@ == raised(
                Map::empty(),
                fragments_of(views(actors@).filter(selected(opt_view(*id_filter)))),
            ),
    {
        let f = |x: &StoredActor| -> (b: bool)
            ensures
                b == selected(opt_view(*id_filter))(x@),
        {
            match id_filter {
                Some(ids) => ids.contains(x.fragment_id),
                None => true,
            }
        };
        let kept = keep(actors, f, Ghost(selected(opt_view(*id_filter))));
        let ids = copy_fragments(&kept);
        tally(&ids)
    }

    /// How many actors each node has.
    pub fn worker_actor_count(actors: &Vec<StoredActor>) -> (r: IdMap<usize>)
        ensures
            r@ == raised(Map::empty(), workers_of(views(actors@))),
    {
        let f = |x: &StoredActor| -> (y: u32)
            ensures
                y == x@.worker_id,
        {
            x.worker_id
        };
        let ids = copy_map(actors, f, Ghost(|a: StoredActorModel| a.worker_id));
        tally(&ids)
    }

    /// The places on which actors run.
    pub fn all_inuse_parallel_units(actors: &Vec<StoredActor>) -> (r: IdSet)
        ensures
            r@ == units_of(views(actors@)).to_set(),
    {
        let f = |x: &StoredActor| -> (y: u32)
            ensures
                y == x@.parallel_unit_id,
        {
            x.parallel_unit_id
        };
        let ids = copy_map(actors, f, Ghost(|a: StoredActorModel| a.parallel_unit_id));
        let mut r = IdSet::new();
        r.insert_all(&ids);
        assert(r@ =~= ids@.to_set());
        r
    }
}

// ---------------------------------------------------------------------------
// Fragments.
// ---------------------------------------------------------------------------

/// The job of each fragment.
pub open spec fn jobs_of(q: Seq<StoredFragmentModel>) -> Map<u32, u32>
    decreases q.len(),
{
    if q.len() == 0 {
        Map::empty()
    } else {
        jobs_of(q.drop_last()).insert(q.last().fragment_id, q.last().job_id)
    }
}

/// The fragment is one of `ids`.
pub open spec fn fragment_among(ids: Seq<u32>) -> spec_fn(StoredFragmentModel) -> bool {
    |f: StoredFragmentModel| ids.contains(f.fragment_id)
}

/// The fragment belongs to one of these jobs.
pub open spec fn job_among(ids: Seq<u32>) -> spec_fn(StoredFragmentModel) -> bool {
    |f: StoredFragmentModel| ids.contains(f.job_id)
}

/// What a fragment is, in short.
#[derive(Debug, PartialEq, Eq)]
pub struct FragmentDesc {
    pub fragment_id: u32,
    pub job_id: u32,
    pub fragment_type_mask: u32,
    pub distribution_type: DistributionType,
    pub state_table_ids: Vec<u32>,
    pub upstream_fragment_id: Vec<u32>,
    pub parallelism: usize,
}

/// The mathematical model of [`FragmentDesc`].
#[verifier::ext_equal]
pub struct FragmentDescModel {
    pub fragment_id: u32,
    pub job_id: u32,
    pub fragment_type_mask: u32,
    pub distribution_type: DistributionType,
    pub state_table_ids: Seq<u32>,
    pub upstream_fragment_id: Seq<u32>,
    pub parallelism: usize,
}

impl View for FragmentDesc {
    type V = FragmentDescModel;

    open spec fn view(&self) -> FragmentDescModel {
        FragmentDescModel {
            fragment_id: self.fragment_id,
            job_id: self.job_id,
            fragment_type_mask: self.fragment_type_mask,
            distribution_type: self.distribution_type,
            state_table_ids: self.state_table_ids@,
            upstream_fragment_id: self.upstream_fragment_id@,
            parallelism: self.parallelism,
        }
    }
}

/// A fragment in short; its parallelism is the number of its actors.
pub open spec fn described(f: StoredFragmentModel, actors: Seq<StoredActorModel>) -> FragmentDescModel {
    FragmentDescModel {
        fragment_id: f.fragment_id,
        job_id: f.job_id,
        fragment_type_mask: f.fragment_type_mask,
        distribution_type: f.distribution_type,
        state_table_ids: f.state_table_ids,
        upstream_fragment_id: f.upstream_fragment_id,
        parallelism: occurrences(fragments_of(actors), f.fragment_id) as usize,
    }
}

/// The state tables of a fragment.
#[derive(Debug, PartialEq, Eq)]
pub struct PartialFragmentStateTables {
    pub fragment_id: u32,
    pub job_id: u32,
    pub state_table_ids: Vec<u32>,
}

/// The mathematical model of [`PartialFragmentStateTables`].
#[verifier::ext_equal]
pub struct PartialFragmentStateTablesModel {
    pub fragment_id: u32,
    pub job_id: u32,
    pub state_table_ids: Seq<u32>,
}

impl View for PartialFragmentStateTables {
    type V = PartialFragmentStateTablesModel;

    open spec fn view(&self) -> PartialFragmentStateTablesModel {
        PartialFragmentStateTablesModel {
            fragment_id: self.fragment_id,
            job_id: self.job_id,
            state_table_ids: self.state_table_ids@,
        }
    }
}

impl Entry for PartialFragmentStateTables {
    fn duplicate(&self) -> (r: Self) {
        PartialFragmentStateTables {
            fragment_id: self.fragment_id,
            job_id: self.job_id,
            state_table_ids: copy_all(&self.state_table_ids),
        }
    }
}

/// The state tables of a fragment.
pub open spec fn state_tables_of() -> spec_fn(StoredFragmentModel) -> PartialFragmentStateTablesModel {
    |f: StoredFragmentModel|
        PartialFragmentStateTablesModel {
            fragment_id: f.fragment_id,
            job_id: f.job_id,
            state_table_ids: f.state_table_ids,
        }
}

/// What is read of a fragment to count what it reads.
pub open spec fn upstream_row() -> spec_fn(StoredFragmentModel) -> UpstreamRowModel {
    |f: StoredFragmentModel|
        UpstreamRowModel {
            job_id: f.job_id,
            fragment_type_mask: f.fragment_type_mask,
            upstream_fragment_id: f.upstream_fragment_id,
        }
}

pub(crate) fn keep_of_jobs(fragments: &Vec<StoredFragment>, job_ids: &Vec<u32>) -> (r: Vec<StoredFragment>)
    ensures
        views(r@) == views(fragments@).filter(job_among(job_ids@)),
{
    let f = |x: &StoredFragment| -> (b: bool)
        ensures
            b == job_among(job_ids@)(x@),
    {
        contains_id(job_ids, x.job_id)
    };
    keep(fragments, f, Ghost(job_among(job_ids@)))
}

/// Where an actor is.
#[derive(Debug, Clone, Copy, PartialEq, Eq, Structural)]
pub struct PartialActorLocation {
    pub actor_id: u32,
    pub fragment_id: u32,
    pub parallel_unit_id: u32,
    pub status: ActorState,
}

/// Where the actor is.
pub open spec fn location_of() -> spec_fn(StoredActorModel) -> PartialActorLocation {
    |a: StoredActorModel|
        PartialActorLocation {
            actor_id: a.actor_id,
            fragment_id: a.fragment_id,
            parallel_unit_id: a.parallel_unit_id,
            status: a.status,
        }
}

/// The job with this identifier is created.
pub open spec fn job_created(jobs: Seq<JobInfoModel>, job_id: u32) -> bool {
    exists|i: int|
        0 <= i < jobs.len() && (#[trigger] jobs[i]).job_id == job_id && jobs[i].job_status
            == JobStatus::Created
}

/// The fragment belongs to a job that is created.
pub open spec fn of_created_job(jobs: Seq<JobInfoModel>) -> spec_fn(StoredFragmentModel) -> bool {
    |f: StoredFragmentModel| job_created(jobs, f.job_id)
}

/// The mapping of a fragment.
pub open spec fn mapping_of() -> spec_fn(StoredFragmentModel) -> FragmentMappingModel {
    |f: StoredFragmentModel|
        FragmentMappingModel { fragment_id: f.fragment_id, mapping: f.vnode_mapping }
}

fn is_created(jobs: &Vec<JobInfo>, job_id: u32) -> (r: bool)
    ensures
        r == job_created(views(jobs@), job_id),
{
    let ghost q = views(jobs@);
    let mut i: usize = 0;
    while i < jobs.len()
        invariant
            i <= jobs.len(),
            q == views(jobs@),
            forall|k: int|
                0 <= k < i ==> !((#[trigger] q[k]).job_id == job_id && q[k].job_status
                    == JobStatus::Created),
        decreases jobs.len() - i,
    {
        assert(q[i as int] == jobs@[i as int]@);
        if jobs[i].job_id == job_id && jobs[i].job_status == JobStatus::Created {
            return true;
        }
        i = i + 1;
    }
    false
}

impl CatalogController {
    /// Whether there is any streaming job.
    pub fn has_any_running_jobs(fragments: &Vec<StoredFragment>) -> (r: bool)
        ensures
            r == (fragments@.len() > 0),
    {
        fragments.len() > 0
    }

    /// The job of each fragment.
    pub fn fragment_job_mapping(fragments: &Vec<StoredFragment>) -> (r: IdMap<u32>)
        ensures
            r@ == jobs_of(views(fragments@)),
    {
        let ghost q = views(fragments@);
        let mut r: IdMap<u32> = IdMap::new();
        let mut i: usize = 0;
        assert(q.take(0) =~= Seq::empty());
        while i < fragments.len()
            invariant
                i <= fragments.len(),
                q == views(fragments@),
                r@ == jobs_of(q.take(i as int)),
            decreases fragments.len() - i,
        {
            proof {
                assert(q.take(i + 1).drop_last() =~= q.take(i as int));
                assert(q.take(i + 1).last() == fragments@[i as int]@);
            }
            r.insert(fragments[i].fragment_id, fragments[i].job_id);
            i = i + 1;
        }
        assert(q.take(i as int) =~= q);
        r
    }

    /// The jobs of these fragments.
    pub fn get_fragment_job_id(fragments: &Vec<StoredFragment>, fragment_ids: &Vec<u32>) -> (r: Vec<
        u32,
    >)
        ensures
            r@ == image(
                views(fragments@).filter(fragment_among(fragment_ids@)),
                |f: StoredFragmentModel| f.job_id,
            ),
    {
        let f = |x: &StoredFragment| -> (b: bool)
            ensures
                b == fragment_among(fragment_ids@)(x@),
        {
            contains_id(fragment_ids, x.fragment_id)
        };
        let kept = keep(fragments, f, Ghost(fragment_among(fragment_ids@)));
        let g = |x: &StoredFragment| -> (y: u32)
            ensures
                y == x@.job_id,
        {
            x.job_id
        };
        copy_map(&kept, g, Ghost(|f: StoredFragmentModel| f.job_id))
    }

    /// All fragments in short.
    pub fn list_fragment_descs(fragments: &Vec<StoredFragment>, actors: &Vec<StoredActor>) -> (r: Vec<
        FragmentDesc,
    >)
        ensures
            views(r@) == image(
                views(fragments@),
                |f: StoredFragmentModel| described(f, views(actors@)),
            ),
    {
        let ghost ids = fragments_of(views(actors@));
        let of_actors = copy_fragments(actors);
        let counts = tally(&of_actors);
        let mut r: Vec<FragmentDesc> = Vec::new();
        let mut i: usize = 0;
        while i < fragments.len()
            invariant
                i <= fragments.len(),
                ids == fragments_of(views(actors@)),
                counts@ == raised(Map::empty(), ids),
                r@.len() == i,
                forall|k: int|
                    0 <= k < i ==> (#[trigger] r@[k])@ == described(
                        fragments@[k]@,
                        views(actors@),
                    ),
            decreases fragments.len() - i,
        {
            let f = &fragments[i];
            proof {
                crate::util::ids::lemma_occurrences_contains(ids, f.fragment_id);
            }
            let parallelism: usize = match counts.get(f.fragment_id) {
                Some(n) => *n,
                None => 0,
            };
            r.push(
                FragmentDesc {
                    fragment_id: f.fragment_id,
                    job_id: f.job_id,
                    fragment_type_mask: f.fragment_type_mask,
                    distribution_type: f.distribution_type,
                    state_table_ids: copy_all(&f.state_table_ids),
                    upstream_fragment_id: copy_all(&f.upstream_fragment_id),
                    parallelism,
                },
            );
            assert(r@[i as int]@ =~= described(fragments@[i as int]@, views(actors@)));
            i = i + 1;
        }
        assert(views(r@) =~= image(
            views(fragments@),
            |f: StoredFragmentModel| described(f, views(actors@)),
        ));
        r
    }

    /// The state tables of all fragments.
    pub fn list_fragment_state_tables(fragments: &Vec<StoredFragment>) -> (r: Vec<
        PartialFragmentStateTables,
    >)
        ensures
            views(r@) == image(views(fragments@), state_tables_of()),
    {
        let f = |x: &StoredFragment| -> (y: PartialFragmentStateTables)
            ensures
                y@ == state_tables_of()(x@),
        {
            let y = PartialFragmentStateTables {
                fragment_id: x.fragment_id,
                job_id: x.job_id,
                state_table_ids: copy_all(&x.state_table_ids),
            };
            assert(y@ =~= state_tables_of()(x@));
            y
        };
        map_all(fragments, f, Ghost(state_tables_of()))
    }

    /// List all fragment vnode mapping info for all CREATED streaming jobs.
    pub fn all_running_fragment_mappings(
        fragments: &Vec<StoredFragment>,
        jobs: &Vec<JobInfo>,
    ) -> (r: Vec<FragmentMapping>)
        ensures
            views(r@) == image(
                views(fragments@).filter(of_created_job(views(jobs@))),
                mapping_of(),
            ),
    {
        let f = |x: &StoredFragment| -> (b: bool)
            ensures
                b == of_created_job(views(jobs@))(x@),
        {
            is_created(jobs, x.job_id)
        };
        let kept = keep(fragments, f, Ghost(of_created_job(views(jobs@))));
        let g = |x: &StoredFragment| -> (y: FragmentMapping)
            ensures
                y@ == mapping_of()(x@),
        {
            FragmentMapping { fragment_id: x.fragment_id, mapping: x.vnode_mapping.duplicate() }
        };
        map_all(&kept, g, Ghost(mapping_of()))
    }

    /// Where all actors are.
    pub fn list_actor_locations(actors: &Vec<StoredActor>) -> (r: Vec<PartialActorLocation>)
        ensures
            r@ == image(views(actors@), location_of()),
    {
        let f = |x: &StoredActor| -> (y: PartialActorLocation)
            ensures
                y == location_of()(x@),
        {
            PartialActorLocation {
                actor_id: x.actor_id,
                fragment_id: x.fragment_id,
                parallel_unit_id: x.parallel_unit_id,
                status: x.status,
            }
        };
        copy_map(actors, f, Ghost(location_of()))
    }

    /// What the fragments of these jobs read.
    pub fn upstream_rows(fragments: &Vec<StoredFragment>, job_ids: &Vec<u32>) -> (r: Vec<UpstreamRow>)
        ensures
            views(r@) == image(views(fragments@).filter(job_among(job_ids@)), upstream_row()),
    {
        let kept = keep_of_jobs(fragments, job_ids);
        let f = |x: &StoredFragment| -> (y: UpstreamRow)
            ensures
                y@ == upstream_row()(x@),
        {
            let y = UpstreamRow {
                job_id: x.job_id,
                fragment_type_mask: x.fragment_type_mask,
                upstream_fragment_id: copy_all(&x.upstream_fragment_id),
            };
            assert(y@ =~= upstream_row()(x@));
            y
        };
        map_all(&kept, f, Ghost(upstream_row()))
    }

    /// The states of all streaming jobs.
    pub fn list_streaming_job_states(jobs: &Vec<JobInfo>) -> (r: Vec<
        (u32, JobStatus, StreamingParallelism),
    >)
        ensures
            r@ == image(
                views(jobs@),
                |j: JobInfoModel| (j.job_id, j.job_status, j.parallelism),
            ),
    {
        let mut r: Vec<(u32, JobStatus, StreamingParallelism)> = Vec::new();
        let mut i: usize = 0;
        while i < jobs.len()
            invariant
                i <= jobs.len(),
                r@.len() == i,
                forall|k: int|
                    0 <= k < i ==> #[trigger] r@[k] == (
                        jobs@[k].job_id,
                        jobs@[k].job_status,
                        jobs@[k].parallelism,
                    ),
            decreases jobs.len() - i,
        {
            r.push((jobs[i].job_id, jobs[i].job_status, jobs[i].parallelism));
            i = i + 1;
        }
        assert(r@ =~= image(
            views(jobs@),
            |j: JobInfoModel| (j.job_id, j.job_status, j.parallelism),
        ));
        r
    }
}

// ---------------------------------------------------------------------------
// Actors.
// ---------------------------------------------------------------------------

/// The actor runs and belongs to the fragment.
pub open spec fn running_in(fragment_id: u32) -> spec_fn(StoredActorModel) -> bool {
    |a: StoredActorModel| a.fragment_id == fragment_id && a.status == ActorState::Running
}

/// An actor with the actors that it reads.
#[derive(Debug, PartialEq, Eq)]
pub struct ActorUpstreams {
    pub actor_id: u32,
    pub upstream_actor_ids: IdMap<List<u32>>,
}

/// The mathematical model of [`ActorUpstreams`].
#[verifier::ext_equal]
pub struct ActorUpstreamsModel {
    pub actor_id: u32,
    pub upstream_actor_ids: Map<u32, Seq<u32>>,
}

impl View for ActorUpstreams {
    type V = ActorUpstreamsModel;

    open spec fn view(&self) -> ActorUpstreamsModel {
        ActorUpstreamsModel {
            actor_id: self.actor_id,
            upstream_actor_ids: self.upstream_actor_ids@,
        }
    }
}

impl Entry for ActorUpstreams {
    fn duplicate(&self) -> (r: Self) {
        ActorUpstreams {
            actor_id: self.actor_id,
            upstream_actor_ids: self.upstream_actor_ids.duplicate(),
        }
    }
}

/// The actor with the actors that it reads.
pub open spec fn upstreams_of_actor() -> spec_fn(StoredActorModel) -> ActorUpstreamsModel {
    |a: StoredActorModel|
        ActorUpstreamsModel { actor_id: a.actor_id, upstream_actor_ids: a.upstream_actor_ids }
}

/// The splits of the actors that have some.
pub open spec fn splits_of(q: Seq<StoredActorModel>) -> Map<u32, Seq<ConnectorSplitModel>>
    decreases q.len(),
{
    if q.len() == 0 {
        Map::empty()
    } else {
        match q.last().splits {
            Some(splits) => splits_of(q.drop_last()).insert(q.last().actor_id, splits),
            None => splits_of(q.drop_last()),
        }
    }
}

fn keep_running(actors: &Vec<StoredActor>, fragment_id: u32) -> (r: Vec<StoredActor>)
    ensures
        views(r@) == views(actors@).filter(running_in(fragment_id)),
{
    let f = |x: &StoredActor| -> (b: bool)
        ensures
            b == running_in(fragment_id)(x@),
    {
        x.fragment_id == fragment_id && x.status == ActorState::Running
    };
    keep(actors, f, Ghost(running_in(fragment_id)))
}

impl CatalogController {
    /// Get the actor ids of the fragment with `fragment_id` with `Running` status.
    pub fn get_running_actors_of_fragment(actors: &Vec<StoredActor>, fragment_id: u32) -> (r: Vec<
        u32,
    >)
        ensures
            r@ == image(
                views(actors@).filter(running_in(fragment_id)),
                |a: StoredActorModel| a.actor_id,
            ),
    {
        let kept = keep_running(actors, fragment_id);
        let f = |x: &StoredActor| -> (y: u32)
            ensures
                y == x@.actor_id,
        {
            x.actor_id
        };
        copy_map(&kept, f, Ghost(|a: StoredActorModel| a.actor_id))
    }

    /// Get the actor ids, and each actor's upstream actor ids of the fragment with `fragment_id`
    /// with `Running` status.
    pub fn get_running_actors_and_upstream_of_fragment(
        actors: &Vec<StoredActor>,
        fragment_id: u32,
    ) -> (r: Vec<ActorUpstreams>)
        ensures
            views(r@) == image(
                views(actors@).filter(running_in(fragment_id)),
                upstreams_of_actor(),
            ),
    {
        let kept = keep_running(actors, fragment_id);
        let f = |x: &StoredActor| -> (y: ActorUpstreams)
            ensures
                y@ == upstreams_of_actor()(x@),
        {
            ActorUpstreams {
                actor_id: x.actor_id,
                upstream_actor_ids: x.upstream_actor_ids.duplicate(),
            }
        };
        map_all(&kept, f, Ghost(upstreams_of_actor()))
    }

    /// The splits of the actors that have some.
    pub fn load_actor_splits(actors: &Vec<StoredActor>) -> (r: IdMap<List<ConnectorSplit>>)
        ensures
            r@ == splits_of(views(actors@)),
    {
        let ghost q = views(actors@);
        let mut r: IdMap<List<ConnectorSplit>> = IdMap::new();
        let mut i: usize = 0;
        assert(q.take(0) =~= Seq::empty());
        while i < actors.len()
            invariant
                i <= actors.len(),
                q == views(actors@),
                r@ == splits_of(q.take(i as int)),
            decreases actors.len() - i,
        {
            proof {
                assert(q.take(i + 1).drop_last() =~= q.take(i as int));
                assert(q.take(i + 1).last() == actors@[i as int]@);
            }
            match &actors[i].splits {
                Some(splits) => {
                    r.insert(actors[i].actor_id, splits.duplicate());
                },
                None => {},
            }
            i = i + 1;
        }
        assert(q.take(i as int) =~= q);
        r
    }
}

// ---------------------------------------------------------------------------
// Actors with their fragments.
// ---------------------------------------------------------------------------

/// An actor with its fragment and its job.
#[derive(Debug, Clone, Copy, PartialEq, Eq, Structural)]
pub struct ActorInJob {
    pub actor_id: u32,
    pub worker_id: u32,
    pub status: ActorState,
    pub job_id: u32,
    pub fragment_id: u32,
    pub fragment_type_mask: u32,
}

/// The first fragment with this identifier.
pub open spec fn fragment_with(q: Seq<StoredFragmentModel>, id: u32) -> Option<StoredFragmentModel>
    decreases q.len(),
{
    if q.len() == 0 {
        None
    } else if q[0].fragment_id == id {
        Some(q[0])
    } else {
        fragment_with(q.drop_first(), id)
    }
}

/// The actors whose fragments are known, with these.
pub open spec fn in_jobs(
    actors: Seq<StoredActorModel>,
    fragments: Seq<StoredFragmentModel>,
) -> Seq<ActorInJob>
    decreases actors.len(),
{
    if actors.len() == 0 {
        Seq::empty()
    } else {
        let a = actors.last();
        let rest = in_jobs(actors.drop_last(), fragments);
        match fragment_with(fragments, a.fragment_id) {
            Some(f) => rest.push(
                ActorInJob {
                    actor_id: a.actor_id,
                    worker_id: a.worker_id,
                    status: a.status,
                    job_id: f.job_id,
                    fragment_id: f.fragment_id,
                    fragment_type_mask: f.fragment_type_mask,
                },
            ),
            None => rest,
        }
    }
}

/// The actor belongs to one of these jobs.
pub open spec fn actor_among(job_ids: Seq<u32>) -> spec_fn(ActorInJob) -> bool {
    |a: ActorInJob| job_ids.contains(a.job_id)
}

/// The actor runs.
pub open spec fn runs() -> spec_fn(ActorInJob) -> bool {
    |a: ActorInJob| a.status == ActorState::Running
}

fn find_fragment(fragments: &Vec<StoredFragment>, id: u32) -> (r: Option<usize>)
    ensures
        match r {
            Some(i) => i < fragments@.len() && fragment_with(views(fragments@), id) == Some(
                fragments@[i as int]@,
            ),
            None => fragment_with(views(fragments@), id) is None,
        },
{
    let ghost q = views(fragments@);
    let mut i: usize = 0;
    assert(q.skip(0) =~= q);
    while i < fragments.len()
        invariant
            i <= fragments.len(),
            q == views(fragments@),
            fragment_with(q, id) == fragment_with(q.skip(i as int), id),
        decreases fragments.len() - i,
    {
        proof {
            assert(q.skip(i as int)[0] == fragments@[i as int]@);
            assert(q.skip(i as int).drop_first() =~= q.skip(i + 1));
        }
        if fragments[i].fragment_id == id {
            return Some(i);
        }
        i = i + 1;
    }
    assert(q.skip(i as int) =~= Seq::empty());
    None
}

/// The actors whose fragments are known, with these.
fn join_fragments(actors: &Vec<StoredActor>, fragments: &Vec<StoredFragment>) -> (r: Vec<ActorInJob>)
    ensures
        r@ == in_jobs(views(actors@), views(fragments@)),
{
    let ghost q = views(actors@);
    let mut r: Vec<ActorInJob> = Vec::new();
    let mut i: usize = 0;
    assert(q.take(0) =~= Seq::empty());
    while i < actors.len()
        invariant
            i <= actors.len(),
            q == views(actors@),
            r@ == in_jobs(q.take(i as int), views(fragments@)),
        decreases actors.len() - i,
    {
        let a = &actors[i];
        proof {
            assert(q.take(i + 1).drop_last() =~= q.take(i as int));
            assert(q.take(i + 1).last() == a@);
        }
        match find_fragment(fragments, a.fragment_id) {
            Some(k) => {
                r.push(
                    ActorInJob {
                        actor_id: a.actor_id,
                        worker_id: a.worker_id,
                        status: a.status,
                        job_id: fragments[k].job_id,
                        fragment_id: fragments[k].fragment_id,
                        fragment_type_mask: fragments[k].fragment_type_mask,
                    },
                );
            },
            None => {},
        }
        i = i + 1;
    }
    assert(q.take(i as int) =~= q);
    r
}

fn keep_actors(rows: &Vec<ActorInJob>, job_ids: &Vec<u32>) -> (r: Vec<ActorInJob>)
    ensures
        r@ == rows@.filter(actor_among(job_ids@)),
{
    let ghost q = rows@;
    let mut r: Vec<ActorInJob> = Vec::new();
    let mut i: usize = 0;
    proof {
        reveal(Seq::filter);
        assert(q.take(0) =~= Seq::empty());
    }
    while i < rows.len()
        invariant
            i <= rows.len(),
            q == rows@,
            r@ == q.take(i as int).filter(actor_among(job_ids@)),
        decreases rows.len() - i,
    {
        proof {
            reveal(Seq::filter);
            assert(q.take(i + 1).drop_last() =~= q.take(i as int));
            assert(q.take(i + 1).last() == rows@[i as int]);
        }
        if contains_id(job_ids, rows[i].job_id) {
            r.push(rows[i]);
        }
        i = i + 1;
    }
    assert(q.take(i as int) =~= q);
    r
}

impl CatalogController {
    /// The actors of these jobs.
    pub fn get_actors_by_job_ids(
        actors: &Vec<StoredActor>,
        fragments: &Vec<StoredFragment>,
        job_ids: &Vec<u32>,
    ) -> (r: Vec<u32>)
        ensures
            r@ == image(
                in_jobs(views(actors@), views(fragments@)).filter(actor_among(job_ids@)),
                |a: ActorInJob| a.actor_id,
            ),
    {
        let rows = keep_actors(&join_fragments(actors, fragments), job_ids);
        let mut r: Vec<u32> = Vec::new();
        let mut i: usize = 0;
        while i < rows.len()
            invariant
                i <= rows.len(),
                r@.len() == i,
                forall|k: int| 0 <= k < i ==> #[trigger] r@[k] == rows@[k].actor_id,
            decreases rows.len() - i,
        {
            r.push(rows[i].actor_id);
            i = i + 1;
        }
        assert(r@ =~= image(rows@, |a: ActorInJob| a.actor_id));
        r
    }

    /// The actors of these jobs, each with its job.
    pub fn job_actors(
        actors: &Vec<StoredActor>,
        fragments: &Vec<StoredFragment>,
        job_ids: &Vec<u32>,
    ) -> (r: Vec<(u32, u32)>)
        ensures
            r@ == image(
                in_jobs(views(actors@), views(fragments@)).filter(actor_among(job_ids@)),
                |a: ActorInJob| (a.job_id, a.actor_id),
            ),
    {
        let rows = keep_actors(&join_fragments(actors, fragments), job_ids);
        let mut r: Vec<(u32, u32)> = Vec::new();
        let mut i: usize = 0;
        while i < rows.len()
            invariant
                i <= rows.len(),
                r@.len() == i,
                forall|k: int|
                    0 <= k < i ==> #[trigger] r@[k] == (rows@[k].job_id, rows@[k].actor_id),
            decreases rows.len() - i,
        {
            r.push((rows[i].job_id, rows[i].actor_id));
            i = i + 1;
        }
        assert(r@ =~= image(rows@, |a: ActorInJob| (a.job_id, a.actor_id)));
        r
    }

    /// The actors of these jobs, each with its node.
    pub fn actor_workers(
        actors: &Vec<StoredActor>,
        fragments: &Vec<StoredFragment>,
        job_ids: &Vec<u32>,
    ) -> (r: Vec<(u32, u32)>)
        ensures
            r@ == image(
                in_jobs(views(actors@), views(fragments@)).filter(actor_among(job_ids@)),
                |a: ActorInJob| (a.actor_id, a.worker_id),
            ),
    {
        let rows = keep_actors(&join_fragments(actors, fragments), job_ids);
        let mut r: Vec<(u32, u32)> = Vec::new();
        let mut i: usize = 0;
        while i < rows.len()
            invariant
                i <= rows.len(),
                r@.len() == i,
                forall|k: int|
                    0 <= k < i ==> #[trigger] r@[k] == (rows@[k].actor_id, rows@[k].worker_id),
            decreases rows.len() - i,
        {
            r.push((rows[i].actor_id, rows[i].worker_id));
            i = i + 1;
        }
        assert(r@ =~= image(rows@, |a: ActorInJob| (a.actor_id, a.worker_id)));
        r
    }

    /// The actors of these sinks.
    pub fn sink_actor_rows(
        actors: &Vec<StoredActor>,
        fragments: &Vec<StoredFragment>,
        sink_ids: &Vec<u32>,
    ) -> (r: Vec<SinkActorRow>)
        ensures
            r@ == image(
                in_jobs(views(actors@), views(fragments@)).filter(actor_among(sink_ids@)),
                |a: ActorInJob|
                    SinkActorRow {
                        actor_id: a.actor_id,
                        sink_id: a.job_id,
                        fragment_type_mask: a.fragment_type_mask,
                    },
            ),
    {
        let rows = keep_actors(&join_fragments(actors, fragments), sink_ids);
        let ghost p = |a: ActorInJob|
            SinkActorRow {
                actor_id: a.actor_id,
                sink_id: a.job_id,
                fragment_type_mask: a.fragment_type_mask,
            };
        let mut r: Vec<SinkActorRow> = Vec::new();
        let mut i: usize = 0;
        while i < rows.len()
            invariant
                i <= rows.len(),
                p == (|a: ActorInJob|
                    SinkActorRow {
                        actor_id: a.actor_id,
                        sink_id: a.job_id,
                        fragment_type_mask: a.fragment_type_mask,
                    }),
                r@.len() == i,
                forall|k: int| 0 <= k < i ==> #[trigger] r@[k] == p(rows@[k]),
            decreases rows.len() - i,
        {
            r.push(
                SinkActorRow {
                    actor_id: rows[i].actor_id,
                    sink_id: rows[i].job_id,
                    fragment_type_mask: rows[i].fragment_type_mask,
                },
            );
            i = i + 1;
        }
        assert(r@ =~= image(rows@, p));
        r
    }

    /// The actors that run, each with its node and what its fragment does.
    pub fn running_actor_rows(actors: &Vec<StoredActor>, fragments: &Vec<StoredFragment>) -> (r: Vec<
        ActorRow,
    >)
        ensures
            r@ == image(
                in_jobs(views(actors@), views(fragments@)).filter(runs()),
                |a: ActorInJob|
                    ActorRow {
                        actor_id: a.actor_id,
                        worker_id: a.worker_id,
                        fragment_type_mask: a.fragment_type_mask,
                    },
            ),
    {
        let rows = join_fragments(actors, fragments);
        let ghost q = rows@;
        let ghost p = |a: ActorInJob|
            ActorRow {
                actor_id: a.actor_id,
                worker_id: a.worker_id,
                fragment_type_mask: a.fragment_type_mask,
            };
        let mut r: Vec<ActorRow> = Vec::new();
        let mut i: usize = 0;
        proof {
            reveal(Seq::filter);
            assert(q.take(0) =~= Seq::empty());
            assert(r@ =~= image(q.take(0).filter(runs()), p));
        }
        while i < rows.len()
            invariant
                i <= rows.len(),
                q == rows@,
                p == (|a: ActorInJob|
                    ActorRow {
                        actor_id: a.actor_id,
                        worker_id: a.worker_id,
                        fragment_type_mask: a.fragment_type_mask,
                    }),
                r@ == image(q.take(i as int).filter(runs()), p),
            decreases rows.len() - i,
        {
            let row = rows[i];
            let ghost before = r@;
            proof {
                reveal(Seq::filter);
                assert(q.take(i + 1).drop_last() =~= q.take(i as int));
                assert(q.take(i + 1).last() == row);
            }
            if row.status == ActorState::Running {
                r.push(
                    ActorRow {
                        actor_id: row.actor_id,
                        worker_id: row.worker_id,
                        fragment_type_mask: row.fragment_type_mask,
                    },
                );
                assert(r@ =~= image(q.take(i as int).filter(runs()).push(row), p));
            }
            i = i + 1;
        }
        assert(q.take(i as int) =~= q);
        r
    }

    /// The fragments of a job that have actors, each with the number of these.
    pub fn parallelism_rows(
        actors: &Vec<StoredActor>,
        fragments: &Vec<StoredFragment>,
        job_id: u32,
    ) -> (r: Vec<ParallelismRow>)
        ensures
            r@ == counted_fragments(
                views(fragments@).filter(job_among(seq![job_id])),
                fragments_of(views(actors@)),
            ),
    {
        let mut job_ids: Vec<u32> = Vec::new();
        job_ids.push(job_id);
        assert(job_ids@ =~= seq![job_id]);
        let kept = keep_of_jobs(fragments, &job_ids);
        let ghost q = views(kept@);
        let ghost ids = fragments_of(views(actors@));
        let of_actors = copy_fragments(actors);
        let counts = tally(&of_actors);
        let mut r: Vec<ParallelismRow> = Vec::new();
        let mut i: usize = 0;
        assert(q.take(0) =~= Seq::empty());
        while i < kept.len()
            invariant
                i <= kept.len(),
                q == views(kept@),
                counts@ == raised(Map::empty(), ids),
                r@ == counted_fragments(q.take(i as int), ids),
            decreases kept.len() - i,
        {
            let f = &kept[i];
            proof {
                assert(q.take(i + 1).drop_last() =~= q.take(i as int));
                assert(q.take(i + 1).last() == f@);
                crate::util::ids::lemma_occurrences_contains(ids, f.fragment_id);
            }
            match counts.get(f.fragment_id) {
                Some(n) => {
                    r.push(
                        ParallelismRow {
                            fragment_id: f.fragment_id,
                            fragment_type_mask: f.fragment_type_mask,
                            count: *n,
                        },
                    );
                },
                None => {},
            }
            i = i + 1;
        }
        assert(q.take(i as int) =~= q);
        r
    }
}

/// The fragments that occur among `ids`, each with how often it does.
pub open spec fn counted_fragments(q: Seq<StoredFragmentModel>, ids: Seq<u32>) -> Seq<ParallelismRow>
    decreases q.len(),
{
    if q.len() == 0 {
        Seq::empty()
    } else {
        let rest = counted_fragments(q.drop_last(), ids);
        let f = q.last();
        if ids.contains(f.fragment_id) {
            rest.push(
                ParallelismRow {
                    fragment_id: f.fragment_id,
                    fragment_type_mask: f.fragment_type_mask,
                    count: occurrences(ids, f.fragment_id) as usize,
                },
            )
        } else {
            rest
        }
    }
}

// ---------------------------------------------------------------------------
// Fragments with their actors.
// ---------------------------------------------------------------------------

/// The actor is one of the fragment, and runs where only those that run are wanted.
pub open spec fn wanted_of(fragment_id: u32, include_inactive: bool) -> spec_fn(StoredActorModel) -> bool {
    |a: StoredActorModel|
        a.fragment_id == fragment_id && (include_inactive || a.status == ActorState::Running)
}

/// The fragment has actors.
pub open spec fn has_actors() -> spec_fn(FragmentActors) -> bool {
    |x: FragmentActors| x.1.len() > 0
}

/// Each fragment with those of its actors that are wanted, in the order of the fragments.
pub open spec fn with_wanted(
    fragments: Seq<StoredFragmentModel>,
    actors: Seq<StoredActorModel>,
    include_inactive: bool,
) -> Seq<FragmentActors> {
    image(
        fragments,
        |f: StoredFragmentModel| (f, actors.filter(wanted_of(f.fragment_id, include_inactive))),
    )
}

/// Each fragment with its actors; where only those that run are wanted, the fragments none of
/// whose actors runs are left out.
pub open spec fn fragments_and_actors(
    fragments: Seq<StoredFragmentModel>,
    actors: Seq<StoredActorModel>,
    include_inactive: bool,
) -> Seq<FragmentActors> {
    let all = with_wanted(fragments, actors, include_inactive);
    if include_inactive {
        all
    } else {
        all.filter(has_actors())
    }
}

impl CatalogController {
    /// Each fragment with its actors, as [`Self::all_node_actors`] takes them: all of them, or only
    /// those that run.
    pub fn fragments_with_actors(
        fragments: &Vec<StoredFragment>,
        actors: &Vec<StoredActor>,
        include_inactive: bool,
    ) -> (r: Vec<(StoredFragment, Vec<StoredActor>)>)
        ensures
            pair_views(r@) == fragments_and_actors(
                views(fragments@),
                views(actors@),
                include_inactive,
            ),
    {
        let ghost all = with_wanted(views(fragments@), views(actors@), include_inactive);
        let mut r: Vec<(StoredFragment, Vec<StoredActor>)> = Vec::new();
        let mut i: usize = 0;
        proof {
            reveal(Seq::filter);
            assert(all.take(0) =~= Seq::empty());
            assert(pair_views(r@) =~= Seq::empty());
        }
        while i < fragments.len()
            invariant
                i <= fragments.len(),
                all == with_wanted(views(fragments@), views(actors@), include_inactive),
                pair_views(r@) == if include_inactive {
                    all.take(i as int)
                } else {
                    all.take(i as int).filter(has_actors())
                },
            decreases fragments.len() - i,
        {
            let id: u32 = fragments[i].fragment_id;
            let f = |x: &StoredActor| -> (b: bool)
                ensures
                    b == wanted_of(id, include_inactive)(x@),
            {
                x.fragment_id == id && (include_inactive || x.status == ActorState::Running)
            };
            let own = keep(actors, f, Ghost(wanted_of(id, include_inactive)));
            let ghost before = r@;
            let ghost pair = (fragments@[i as int]@, views(own@));
            proof {
                reveal(Seq::filter);
                assert(views(fragments@)[i as int] == fragments@[i as int]@);
                assert(all[i as int] == pair);
                assert(all.take(i + 1).drop_last() =~= all.take(i as int));
                assert(all.take(i + 1).last() == pair);
                assert(all.take(i + 1) =~= all.take(i as int).push(pair));
                assert(pair.1.len() == own@.len());
            }
            if include_inactive || own.len() > 0 {
                r.push((fragments[i].duplicate(), own));
                assert(pair_views(r@) =~= pair_views(before).push(pair));
            }
            i = i + 1;
        }
        assert(all.take(i as int) =~= all);
        r
    }
}

} // verus!
