//! Single fragments of streaming jobs, put together from stored rows.

use vstd::prelude::*;

use crate::catalog::error::{MetaError, MetaErrorModel, MetaResult};
use crate::fragment::compose::composed;
use crate::fragment::controller::CatalogController;
use crate::fragment::extract::Stored;
use crate::fragment::flags::{has_flag, MVIEW, SOURCE};
use crate::fragment::queries::{job_among, keep_of_jobs};
use crate::fragment::types::{
    DispatcherModel, DispatcherType, Fragment, FragmentModel, StoredActor, StoredActorModel,
    StoredDispatcher, StoredDispatcherModel, StoredFragment, StoredFragmentModel,
};
use crate::util::id_map::{copy_all, views, Entry, IdMap};
use crate::util::ids::{listing, lists};
use crate::util::lists::{keep, List};

verus! {

/// The fragment writes the materialized view of this job.
pub open spec fn writes_mview_of(job_id: u32) -> spec_fn(StoredFragmentModel) -> bool {
    |f: StoredFragmentModel| f.job_id == job_id && has_flag(f.fragment_type_mask, MVIEW)
}

/// The fragment has this identifier.
pub open spec fn fragment_is(id: u32) -> spec_fn(StoredFragmentModel) -> bool {
    |f: StoredFragmentModel| f.fragment_id == id
}

/// The actor belongs to this fragment.
pub open spec fn in_fragment(id: u32) -> spec_fn(StoredActorModel) -> bool {
    |a: StoredActorModel| a.fragment_id == id
}

/// The fragment alone, without the status and splits of its actors.
pub open spec fn fragment_alone(s: Stored) -> Result<FragmentModel, MetaErrorModel> {
    match composed(s) {
        Ok(c) => Ok(c.0),
        Err(e) => Err(e),
    }
}

/// The fragments at the root of each job: the one that writes a materialized view, the last one of
/// them, and where there is none the first that reads a source.
pub open spec fn roots(q: Seq<StoredFragmentModel>) -> Map<u32, StoredFragmentModel>
    decreases q.len(),
{
    if q.len() == 0 {
        Map::empty()
    } else {
        let m = roots(q.drop_last());
        let f = q.last();
        if has_flag(f.fragment_type_mask, MVIEW) {
            m.insert(f.job_id, f)
        } else if has_flag(f.fragment_type_mask, SOURCE) && !m.contains_key(f.job_id) {
            m.insert(f.job_id, f)
        } else {
            m
        }
    }
}

/// How rows are sent to a fragment.
#[derive(Debug, PartialEq, Eq)]
pub struct DispatchStrategy {
    pub dispatcher_type: DispatcherType,
    pub dist_key_indices: Vec<u32>,
    pub output_indices: Vec<u32>,
}

/// The mathematical model of [`DispatchStrategy`].
#[verifier::ext_equal]
pub struct DispatchStrategyModel {
    pub dispatcher_type: DispatcherType,
    pub dist_key_indices: Seq<u32>,
    pub output_indices: Seq<u32>,
}

impl View for DispatchStrategy {
    type V = DispatchStrategyModel;

    open spec fn view(&self) -> DispatchStrategyModel {
        DispatchStrategyModel {
            dispatcher_type: self.dispatcher_type,
            dist_key_indices: self.dist_key_indices@,
            output_indices: self.output_indices@,
        }
    }
}

impl Entry for DispatchStrategy {
    fn duplicate(&self) -> (r: Self) {
        DispatchStrategy {
            dispatcher_type: self.dispatcher_type,
            dist_key_indices: copy_all(&self.dist_key_indices),
            output_indices: copy_all(&self.output_indices),
        }
    }
}

/// How the rows of an actor are sent to each fragment downstream.
pub open spec fn strategies(q: Seq<DispatcherModel>) -> Map<u32, DispatchStrategyModel>
    decreases q.len(),
{
    if q.len() == 0 {
        Map::empty()
    } else {
        let d = q.last();
        strategies(q.drop_last()).insert(
            d.dispatcher_id as u32,
            DispatchStrategyModel {
                dispatcher_type: d.dispatcher_type,
                dist_key_indices: d.dist_key_indices,
                output_indices: d.output_indices,
            },
        )
    }
}

/// The fragment with its own ones of all actors.
pub open spec fn with_own_actors(
    f: StoredFragmentModel,
    actors: Seq<StoredActorModel>,
    dispatchers: Map<u32, Seq<StoredDispatcherModel>>,
) -> Result<FragmentModel, MetaErrorModel> {
    fragment_alone((f, actors.filter(in_fragment(f.fragment_id)), dispatchers))
}

/// The fragment that writes the materialized view of a job.
pub open spec fn mview_fragment(
    job_id: u32,
    fragments: Seq<StoredFragmentModel>,
    actors: Seq<StoredActorModel>,
    dispatchers: Map<u32, Seq<StoredDispatcherModel>>,
) -> Result<FragmentModel, MetaErrorModel> {
    let found = fragments.filter(writes_mview_of(job_id));
    if found.len() == 0 {
        Err(MetaErrorModel::MviewFragmentMissing(job_id))
    } else {
        with_own_actors(found[0], actors, dispatchers)
    }
}

/// The fragments at these keys of `m`, each put together; the first refusal stops it.
pub open spec fn put_together(
    m: Map<u32, StoredFragmentModel>,
    ids: Seq<u32>,
    actors: Seq<StoredActorModel>,
    dispatchers: Map<u32, Seq<StoredDispatcherModel>>,
) -> Result<Map<u32, FragmentModel>, MetaErrorModel>
    decreases ids.len(),
{
    if ids.len() == 0 {
        Ok(Map::empty())
    } else {
        match put_together(m, ids.drop_last(), actors, dispatchers) {
            Err(e) => Err(e),
            Ok(done) => match with_own_actors(m[ids.last()], actors, dispatchers) {
                Err(e) => Err(e),
                Ok(f) => Ok(done.insert(ids.last(), f)),
            },
        }
    }
}

/// The fragment with this identifier.
pub open spec fn fragment_at(
    id: u32,
    fragments: Seq<StoredFragmentModel>,
    actors: Seq<StoredActorModel>,
    dispatchers: Map<u32, Seq<StoredDispatcherModel>>,
) -> Result<FragmentModel, MetaErrorModel> {
    let found = fragments.filter(fragment_is(id));
    if found.len() == 0 {
        Err(MetaErrorModel::FragmentMissing(id))
    } else {
        with_own_actors(found[0], actors, dispatchers)
    }
}

/// The fragments with these identifiers, each with how rows are sent to it; the first refusal
/// stops it.
pub open spec fn chain_fragments(
    ways: Map<u32, DispatchStrategyModel>,
    ids: Seq<u32>,
    fragments: Seq<StoredFragmentModel>,
    actors: Seq<StoredActorModel>,
    dispatchers: Map<u32, Seq<StoredDispatcherModel>>,
) -> Result<Seq<(DispatchStrategyModel, FragmentModel)>, MetaErrorModel>
    decreases ids.len(),
{
    if ids.len() == 0 {
        Ok(Seq::empty())
    } else {
        match chain_fragments(ways, ids.drop_last(), fragments, actors, dispatchers) {
            Err(e) => Err(e),
            Ok(done) => match fragment_at(ids.last(), fragments, actors, dispatchers) {
                Err(e) => Err(e),
                Ok(f) => Ok(done.push((ways[ids.last()], f))),
            },
        }
    }
}

/// The models of fragments with how rows are sent to them.
pub open spec fn chain_views(q: Seq<(DispatchStrategy, Fragment)>) -> Seq<
    (DispatchStrategyModel, FragmentModel),
> {
    Seq::new(q.len(), |i: int| (q[i].0@, q[i].1@))
}

/// A refusal stays one, however many are put together behind it.
proof fn lemma_put_together_refused(
    m: Map<u32, StoredFragmentModel>,
    ids: Seq<u32>,
    k: int,
    actors: Seq<StoredActorModel>,
    dispatchers: Map<u32, Seq<StoredDispatcherModel>>,
)
    requires
        0 <= k <= ids.len(),
        put_together(m, ids.take(k), actors, dispatchers) is Err,
    ensures
        put_together(m, ids, actors, dispatchers) == put_together(
            m,
            ids.take(k),
            actors,
            dispatchers,
        ),
    decreases ids.len() - k,
{
    if k < ids.len() {
        assert(ids.take(k + 1).drop_last() =~= ids.take(k));
        lemma_put_together_refused(m, ids, k + 1, actors, dispatchers);
    } else {
        assert(ids.take(k) =~= ids);
    }
}

/// A refusal stays one, however many fragments follow it.
proof fn lemma_chain_refused(
    ways: Map<u32, DispatchStrategyModel>,
    ids: Seq<u32>,
    k: int,
    fragments: Seq<StoredFragmentModel>,
    actors: Seq<StoredActorModel>,
    dispatchers: Map<u32, Seq<StoredDispatcherModel>>,
)
    requires
        0 <= k <= ids.len(),
        chain_fragments(ways, ids.take(k), fragments, actors, dispatchers) is Err,
    ensures
        chain_fragments(ways, ids, fragments, actors, dispatchers) == chain_fragments(
            ways,
            ids.take(k),
            fragments,
            actors,
            dispatchers,
        ),
    decreases ids.len() - k,
{
    if k < ids.len() {
        assert(ids.take(k + 1).drop_last() =~= ids.take(k));
        lemma_chain_refused(ways, ids, k + 1, fragments, actors, dispatchers);
    } else {
        assert(ids.take(k) =~= ids);
    }
}

fn compose_with_own_actors(
    fragment: &StoredFragment,
    actors: &Vec<StoredActor>,
    actor_dispatchers: &IdMap<List<StoredDispatcher>>,
) -> (r: MetaResult<Fragment>)
    ensures
        match with_own_actors(fragment@, views(actors@), actor_dispatchers@) {
            Ok(f) => r is Ok && r->Ok_0@ == f,
            Err(e) => r is Err && r->Err_0@ == e,
        },
{
    let id: u32 = fragment.fragment_id;
    let f = |x: &StoredActor| -> (b: bool)
        ensures
            b == in_fragment(id)(x@),
    {
        x.fragment_id == id
    };
    let own = keep(actors, f, Ghost(in_fragment(id)));
    match CatalogController::compose_fragment(
        fragment.duplicate(),
        own,
        actor_dispatchers.duplicate(),
    ) {
        Ok((fragment, _, _)) => Ok(fragment),
        Err(e) => Err(e),
    }
}

fn root_fragments(fragments: &Vec<StoredFragment>) -> (r: IdMap<StoredFragment>)
    ensures
        r@ == roots(views(fragments@)),
{
    let ghost q = views(fragments@);
    let mut r: IdMap<StoredFragment> = IdMap::new();
    let mut i: usize = 0;
    assert(q.take(0) =~= Seq::empty());
    while i < fragments.len()
        invariant
            i <= fragments.len(),
            q == views(fragments@),
            r@ == roots(q.take(i as int)),
        decreases fragments.len() - i,
    {
        let f = &fragments[i];
        proof {
            assert(q.take(i + 1).drop_last() =~= q.take(i as int));
            assert(q.take(i + 1).last() == f@);
        }
        if f.fragment_type_mask & MVIEW != 0 {
            r.insert(f.job_id, f.duplicate());
        } else if f.fragment_type_mask & SOURCE != 0 && !r.contains_key(f.job_id) {
            // look for Source fragment if there's no MView fragment
            r.insert(f.job_id, f.duplicate());
        }
        i = i + 1;
    }
    assert(q.take(i as int) =~= q);
    r
}

impl CatalogController {
    /// Get the `Materialize` fragment of the specified table.
    pub fn get_mview_fragment(
        job_id: u32,
        fragments: &Vec<StoredFragment>,
        actors: &Vec<StoredActor>,
        actor_dispatchers: &IdMap<List<StoredDispatcher>>,
    ) -> (r: MetaResult<Fragment>)
        requires
            views(fragments@).filter(writes_mview_of(job_id)).len() <= 1,
        ensures
            match mview_fragment(job_id, views(fragments@), views(actors@), actor_dispatchers@) {
                Ok(f) => r is Ok && r->Ok_0@ == f,
                Err(e) => r is Err && r->Err_0@ == e,
            },
    {
        let f = |x: &StoredFragment| -> (b: bool)
            ensures
                b == writes_mview_of(job_id)(x@),
        {
            x.job_id == job_id && x.fragment_type_mask & MVIEW != 0
        };
        let found = keep(fragments, f, Ghost(writes_mview_of(job_id)));
        assert(found@.len() == views(found@).len());
        if found.len() == 0 {
            return Err(MetaError::MviewFragmentMissing(job_id));
        }
        assert(views(found@)[0] == found@[0]@);
        compose_with_own_actors(&found[0], actors, actor_dispatchers)
    }

    /// The fragments at the root of each of these jobs.
    pub fn get_upstream_root_fragments(
        upstream_job_ids: &Vec<u32>,
        fragments: &Vec<StoredFragment>,
        actors: &Vec<StoredActor>,
        actor_dispatchers: &IdMap<List<StoredDispatcher>>,
    ) -> (r: MetaResult<IdMap<Fragment>>)
        ensures
            ({
                let m = roots(views(fragments@).filter(job_among(upstream_job_ids@)));
                match put_together(m, listing(m.dom()), views(actors@), actor_dispatchers@) {
                    Ok(done) => r is Ok && r->Ok_0@ == done,
                    Err(e) => r is Err && r->Err_0@ == e,
                }
            }),
    {
        let kept = keep_of_jobs(fragments, upstream_job_ids);
        let found = root_fragments(&kept);
        let ghost m = found@;
        let ids = found.ids();
        let mut root_fragments: IdMap<Fragment> = IdMap::new();
        let mut i: usize = 0;
        assert(ids@.take(0) =~= Seq::empty());
        while i < ids.len()
            invariant
                i <= ids.len(),
                m == found@,
                m == roots(views(fragments@).filter(job_among(upstream_job_ids@))),
                ids@ == listing(m.dom()),
                lists(ids@, m.dom()),
                put_together(m, ids@.take(i as int), views(actors@), actor_dispatchers@) is Ok,
                root_fragments@ == put_together(
                    m,
                    ids@.take(i as int),
                    views(actors@),
                    actor_dispatchers@,
                )->Ok_0,
            decreases ids.len() - i,
        {
            let id: u32 = ids[i];
            proof {
                assert(ids@.contains(id));
                assert(ids@.take(i + 1).drop_last() =~= ids@.take(i as int));
                assert(ids@.take(i + 1).last() == id);
            }
            match found.get(id) {
                Some(fragment) => match compose_with_own_actors(fragment, actors, actor_dispatchers) {
                    Ok(fragment) => {
                        root_fragments.insert(id, fragment);
                    },
                    Err(e) => {
                        proof {
                            lemma_put_together_refused(
                                m,
                                ids@,
                                i + 1,
                                views(actors@),
                                actor_dispatchers@,
                            );
                        }
                        return Err(e);
                    },
                },
                None => {},
            }
            i = i + 1;
        }
        assert(ids@.take(i as int) =~= ids@);
        Ok(root_fragments)
    }

    /// How the rows of the fragment of a materialized view are sent to each fragment downstream:
    /// all its actors send alike.
    pub fn downstream_dispatches(mview_fragment: &Fragment) -> (r: IdMap<DispatchStrategy>)
        requires
            mview_fragment@.actors.len() > 0,
        ensures
            r@ == strategies(mview_fragment@.actors[0].dispatcher),
    {
        let ghost q = mview_fragment@.actors[0].dispatcher;
        assert(mview_fragment@.actors[0] == mview_fragment.actors@[0]@);
        let dispatchers = &mview_fragment.actors[0].dispatcher;
        let mut r: IdMap<DispatchStrategy> = IdMap::new();
        let mut i: usize = 0;
        assert(q.take(0) =~= Seq::empty());
        while i < dispatchers.len()
            invariant
                i <= dispatchers.len(),
                q == views(dispatchers@),
                r@ == strategies(q.take(i as int)),
            decreases dispatchers.len() - i,
        {
            let d = &dispatchers[i];
            proof {
                assert(q.take(i + 1).drop_last() =~= q.take(i as int));
                assert(q.take(i + 1).last() == d@);
            }
            let id: u32 = #[verifier::truncate] (d.dispatcher_id as u32);
            r.insert(
                id,
                DispatchStrategy {
                    dispatcher_type: d.dispatcher_type,
                    dist_key_indices: copy_all(&d.dist_key_indices),
                    output_indices: copy_all(&d.output_indices),
                },
            );
            i = i + 1;
        }
        assert(q.take(i as int) =~= q);
        r
    }

    /// Get the downstream `Chain` fragments of the specified table.
    pub fn get_downstream_chain_fragments(
        job_id: u32,
        fragments: &Vec<StoredFragment>,
        actors: &Vec<StoredActor>,
        actor_dispatchers: &IdMap<List<StoredDispatcher>>,
    ) -> (r: MetaResult<Vec<(DispatchStrategy, Fragment)>>)
        requires
            views(fragments@).filter(writes_mview_of(job_id)).len() <= 1,
            forall|id: u32| views(fragments@).filter(#[trigger] fragment_is(id)).len() <= 1,
            mview_fragment(job_id, views(fragments@), views(actors@), actor_dispatchers@) matches Ok(
                f,
            ) ==> f.actors.len() > 0,
        ensures
            match mview_fragment(job_id, views(fragments@), views(actors@), actor_dispatchers@) {
                Err(e) => r is Err && r->Err_0@ == e,
                Ok(mview) => {
                    let ways = strategies(mview.actors[0].dispatcher);
                    match chain_fragments(
                        ways,
                        listing(ways.dom()),
                        views(fragments@),
                        views(actors@),
                        actor_dispatchers@,
                    ) {
                        Ok(chain) => r is Ok && chain_views(r->Ok_0@) == chain,
                        Err(e) => r is Err && r->Err_0@ == e,
                    }
                },
            },
    {
        let mview = match Self::get_mview_fragment(job_id, fragments, actors, actor_dispatchers) {
            Ok(mview) => mview,
            Err(e) => {
                return Err(e);
            },
        };
        let downstream_dispatches = Self::downstream_dispatches(&mview);
        let ghost ways = downstream_dispatches@;
        let ids = downstream_dispatches.ids();
        let mut chain: Vec<(DispatchStrategy, Fragment)> = Vec::new();
        let mut i: usize = 0;
        proof {
            assert(ids@.take(0) =~= Seq::empty());
            assert(chain_views(chain@) =~= Seq::empty());
        }
        while i < ids.len()
            invariant
                i <= ids.len(),
                ways == downstream_dispatches@,
                mview_fragment(job_id, views(fragments@), views(actors@), actor_dispatchers@) is Ok,
                ways == strategies(
                    mview_fragment(
                        job_id,
                        views(fragments@),
                        views(actors@),
                        actor_dispatchers@,
                    )->Ok_0.actors[0].dispatcher,
                ),
                ids@ == listing(ways.dom()),
                lists(ids@, ways.dom()),
                chain_fragments(
                    ways,
                    ids@.take(i as int),
                    views(fragments@),
                    views(actors@),
                    actor_dispatchers@,
                ) is Ok,
                chain_views(chain@) == chain_fragments(
                    ways,
                    ids@.take(i as int),
                    views(fragments@),
                    views(actors@),
                    actor_dispatchers@,
                )->Ok_0,
            decreases ids.len() - i,
        {
            let id: u32 = ids[i];
            let ghost before = chain@;
            proof {
                assert(ids@.contains(id));
                assert(ids@.take(i + 1).drop_last() =~= ids@.take(i as int));
                assert(ids@.take(i + 1).last() == id);
            }
            match Self::find_fragment(id, fragments, actors, actor_dispatchers) {
                Ok(fragment) => {
                    match downstream_dispatches.get(id) {
                        Some(strategy) => {
                            chain.push((strategy.duplicate(), fragment));
                            assert(chain_views(chain@) =~= chain_views(before).push(
                                (ways[id], fragment@),
                            ));
                        },
                        None => {},
                    }
                },
                Err(e) => {
                    proof {
                        lemma_chain_refused(
                            ways,
                            ids@,
                            i + 1,
                            views(fragments@),
                            views(actors@),
                            actor_dispatchers@,
                        );
                    }
                    return Err(e);
                },
            }
            i = i + 1;
        }
        assert(ids@.take(i as int) =~= ids@);
        Ok(chain)
    }

    fn find_fragment(
        id: u32,
        fragments: &Vec<StoredFragment>,
        actors: &Vec<StoredActor>,
        actor_dispatchers: &IdMap<List<StoredDispatcher>>,
    ) -> (r: MetaResult<Fragment>)
        ensures
            match fragment_at(id, views(fragments@), views(actors@), actor_dispatchers@) {
                Ok(f) => r is Ok && r->Ok_0@ == f,
                Err(e) => r is Err && r->Err_0@ == e,
            },
    {
        let f = |x: &StoredFragment| -> (b: bool)
            ensures
                b == fragment_is(id)(x@),
        {
            x.fragment_id == id
        };
        let found = keep(fragments, f, Ghost(fragment_is(id)));
        assert(found@.len() == views(found@).len());
        if found.len() == 0 {
            return Err(MetaError::FragmentMissing(id));
        }
        assert(views(found@)[0] == found@[0]@);
        compose_with_own_actors(&found[0], actors, actor_dispatchers)
    }
}

} // verus!
