//! From what is stored of a fragment back to the fragment as it runs.

use vstd::prelude::*;

use crate::catalog::error::{MetaError, MetaErrorModel, MetaResult};
use crate::fragment::controller::CatalogController;
use crate::fragment::extract::Stored;
use crate::fragment::tree::{linked, visited, StreamNode, StreamNodeModel};
use crate::fragment::types::{
    ActorStatus, ActorStatusModel, ConnectorSplit, ConnectorSplitModel, Dispatcher, Fragment,
    FragmentModel, JobStatus, ParallelUnit, ParallelUnitModel, StoredActor, StoredActorModel,
    StoredDispatcher, StoredDispatcherModel, StoredFragment, StoredFragmentModel, StreamActor,
    StreamActorModel, StreamContext, StreamContextModel, StreamingParallelism, TableFragments,
    TableFragmentsModel,
};
use crate::util::id_map::{duplicate_opt, opt_view, views, Entry, IdMap};
use crate::util::ids::{listing, lists};
use crate::util::lists::{gather, image, lemma_gather_push, List};

verus! {

/// The identifiers of actors.
pub open spec fn actor_ids(q: Seq<StoredActorModel>) -> Seq<u32> {
    image(q, |a: StoredActorModel| a.actor_id)
}

/// All upstream actors, in the order of their fragments.
pub open spec fn all_upstreams(m: Map<u32, Seq<u32>>) -> Seq<u32> {
    gather(listing(m.dom()), |f: u32| m[f])
}

/// The dispatchers that are left once those of the actors in `q` are taken.
pub open spec fn dispatchers_left(
    d: Map<u32, Seq<StoredDispatcherModel>>,
    q: Seq<StoredActorModel>,
) -> Map<u32, Seq<StoredDispatcherModel>> {
    d.remove_keys(actor_ids(q).to_set())
}

/// The dispatchers of the actor `id`.
pub open spec fn dispatchers_at(d: Map<u32, Seq<StoredDispatcherModel>>, id: u32) -> Seq<StoredDispatcherModel> {
    if d.contains_key(id) {
        d[id]
    } else {
        Seq::empty()
    }
}

/// An actor as it runs: the operators of its fragment, with its own links.
pub open spec fn composed_actor(
    node: StreamNodeModel,
    a: StoredActorModel,
    dispatchers: Seq<StoredDispatcherModel>,
) -> StreamActorModel {
    StreamActorModel {
        actor_id: a.actor_id,
        fragment_id: a.fragment_id,
        nodes: Some(visited(node, linked(a.upstream_actor_ids))),
        dispatcher: image(dispatchers, |d: StoredDispatcherModel| d.dispatcher),
        upstream_actor_id: all_upstreams(a.upstream_actor_ids),
        vnode_bitmap: a.vnode_bitmap,
        mview_definition: Seq::empty(),
        expr_context: Some(a.expr_context),
    }
}

/// The actors of a fragment as they run, or why the first one does not belong to it.
pub open spec fn composed_actors(
    f: StoredFragmentModel,
    q: Seq<StoredActorModel>,
    d: Map<u32, Seq<StoredDispatcherModel>>,
) -> Result<Seq<StreamActorModel>, MetaErrorModel>
    decreases q.len(),
{
    if q.len() == 0 {
        Ok(Seq::empty())
    } else {
        match composed_actors(f, q.drop_last(), d) {
            Err(e) => Err(e),
            Ok(s) => {
                let a = q.last();
                if a.fragment_id != f.fragment_id {
                    Err(
                        MetaErrorModel::FragmentMismatch(
                            a.fragment_id,
                            a.actor_id,
                            f.fragment_id,
                        ),
                    )
                } else {
                    let mine = dispatchers_at(dispatchers_left(d, q.drop_last()), a.actor_id);
                    Ok(s.push(composed_actor(f.stream_node, a, mine)))
                }
            },
        }
    }
}

/// Where an actor runs.
pub open spec fn status_of(a: StoredActorModel) -> ActorStatusModel {
    ActorStatusModel {
        parallel_unit: Some(
            ParallelUnitModel { id: a.parallel_unit_id, worker_node_id: a.worker_id },
        ),
        state: a.status,
    }
}

/// Where the actors in `q` run.
pub open spec fn statuses(q: Seq<StoredActorModel>) -> Map<u32, ActorStatusModel>
    decreases q.len(),
{
    if q.len() == 0 {
        Map::empty()
    } else {
        statuses(q.drop_last()).insert(q.last().actor_id, status_of(q.last()))
    }
}

/// The splits of the actors in `q` that have some.
pub open spec fn splits_of(q: Seq<StoredActorModel>) -> Map<u32, Seq<ConnectorSplitModel>>
    decreases q.len(),
{
    if q.len() == 0 {
        Map::empty()
    } else {
        match q.last().splits {
            Some(splits) => splits_of(q.drop_last()).insert(q.last().actor_id, splits),
            None => splits_of(q.drop_last()),
        }
    }
}

/// A fragment as it runs, apart from its actors.
pub open spec fn composed_fragment(f: StoredFragmentModel, actors: Seq<StreamActorModel>) -> FragmentModel {
    FragmentModel {
        fragment_id: f.fragment_id,
        fragment_type_mask: f.fragment_type_mask,
        distribution_type: f.distribution_type,
        actors,
        vnode_mapping: Some(f.vnode_mapping),
        state_table_ids: f.state_table_ids,
        upstream_fragment_ids: f.upstream_fragment_id,
    }
}

/// A fragment with the status and the splits of its actors.
pub type Composed = (FragmentModel, Map<u32, ActorStatusModel>, Map<u32, Seq<ConnectorSplitModel>>);

/// A fragment as it runs, or why it cannot be put together.
pub open spec fn composed(s: Stored) -> Result<Composed, MetaErrorModel> {
    match composed_actors(s.0, s.1, s.2) {
        Err(e) => Err(e),
        Ok(actors) => Ok((composed_fragment(s.0, actors), statuses(s.1), splits_of(s.1))),
    }
}

/// Once an actor is refused, so is every list that starts with the actors up to it.
proof fn lemma_first_stranger(
    f: StoredFragmentModel,
    q: Seq<StoredActorModel>,
    d: Map<u32, Seq<StoredDispatcherModel>>,
    k: int,
)
    requires
        0 <= k <= q.len(),
        composed_actors(f, q.take(k), d) is Err,
    ensures
        composed_actors(f, q, d) == composed_actors(f, q.take(k), d),
    decreases q.len() - k,
{
    if k < q.len() {
        assert(q.take(k + 1).drop_last() =~= q.take(k));
        lemma_first_stranger(f, q, d, k + 1);
    } else {
        assert(q.take(k) =~= q);
    }
}

/// All upstream actors, in the order of their fragments.
fn flatten_upstreams(m: &IdMap<List<u32>>) -> (r: Vec<u32>)
    ensures
        r@ == all_upstreams(m@),
{
    let ids = m.ids();
    let mut r: Vec<u32> = Vec::new();
    let ghost p = |f: u32| m@[f];
    let mut i: usize = 0;
    assert(ids@.take(0) =~= Seq::empty());
    while i < ids.len()
        invariant
            i <= ids.len(),
            p == (|f: u32| m@[f]),
            lists(ids@, m@.dom()),
            r@ == gather(ids@.take(i as int), p),
        decreases ids.len() - i,
    {
        proof {
            assert(ids@.contains(ids@[i as int]));
            assert(ids@.take(i + 1) =~= ids@.take(i as int).push(ids@[i as int]));
            lemma_gather_push(ids@.take(i as int), ids@[i as int], p);
        }
        let ghost before = r@;
        match m.get(ids[i]) {
            Some(list) => {
                let mut j: usize = 0;
                assert(before + list@.take(0) =~= before);
                while j < list.items.len()
                    invariant
                        j <= list.items.len(),
                        r@ == before + list@.take(j as int),
                    decreases list.items.len() - j,
                {
                    r.push(list.items[j]);
                    j = j + 1;
                    assert(r@ =~= before + list@.take(j as int));
                }
                assert(list@.take(j as int) =~= list@);
            },
            None => {},
        }
        i = i + 1;
    }
    assert(ids@.take(i as int) =~= ids@);
    r
}

fn compose_dispatchers(list: &List<StoredDispatcher>) -> (r: Vec<Dispatcher>)
    ensures
        views(r@) == image(list@, |d: StoredDispatcherModel| d.dispatcher),
{
    let mut r: Vec<Dispatcher> = Vec::new();
    let mut i: usize = 0;
    while i < list.items.len()
        invariant
            i <= list.items.len(),
            r@.len() == i,
            forall|k: int| 0 <= k < i ==> r@[k]@ == list.items@[k]@.dispatcher,
        decreases list.items.len() - i,
    {
        r.push(list.items[i].dispatcher.duplicate());
        i = i + 1;
    }
    assert(views(r@) =~= image(list@, |d: StoredDispatcherModel| d.dispatcher));
    r
}

fn compose_actor(node: &StreamNode, a: &StoredActor, dispatchers: &List<StoredDispatcher>) -> (r: StreamActor)
    ensures
        r@ == composed_actor(node@, a@, dispatchers@),
{
    let mview_definition = String::new();
    assert(mview_definition@ =~= Seq::empty());
    StreamActor {
        actor_id: a.actor_id,
        fragment_id: a.fragment_id,
        nodes: Some(node.with_links(&a.upstream_actor_ids)),
        dispatcher: compose_dispatchers(dispatchers),
        upstream_actor_id: flatten_upstreams(&a.upstream_actor_ids),
        vnode_bitmap: duplicate_opt(&a.vnode_bitmap),
        mview_definition,
        expr_context: Some(a.expr_context.duplicate()),
    }
}

/// A fragment as it runs is `c`.
pub open spec fn composed_as(
    r: (Fragment, IdMap<ActorStatus>, IdMap<List<ConnectorSplit>>),
    c: Composed,
) -> bool {
    r.0@ == c.0 && r.1@ == c.1 && r.2@ == c.2
}

impl CatalogController {
    /// Puts a fragment together from what is stored of it. An actor of another fragment is
    /// refused.
    pub fn compose_fragment(
        fragment: StoredFragment,
        actors: Vec<StoredActor>,
        actor_dispatcher: IdMap<List<StoredDispatcher>>,
    ) -> (r: MetaResult<(Fragment, IdMap<ActorStatus>, IdMap<List<ConnectorSplit>>)>)
        ensures
            match composed((fragment@, views(actors@), actor_dispatcher@)) {
                Ok(c) => r is Ok && composed_as(r->Ok_0, c),
                Err(e) => r is Err && r->Err_0@ == e,
            },
    {
        let ghost f = fragment@;
        let ghost q = views(actors@);
        let ghost d = actor_dispatcher@;
        let mut actor_dispatcher = actor_dispatcher;
        let mut pb_actors: Vec<StreamActor> = Vec::new();
        let mut pb_actor_status: IdMap<ActorStatus> = IdMap::new();
        let mut pb_actor_splits: IdMap<List<ConnectorSplit>> = IdMap::new();
        let mut i: usize = 0;
        proof {
            assert(q.take(0) =~= Seq::empty());
            assert(views(pb_actors@) =~= Seq::empty());
            assert(actor_ids(q.take(0)).to_set() =~= Set::empty());
            assert(d =~= dispatchers_left(d, q.take(0)));
        }
        #[verifier::loop_isolation(false)]
        while i < actors.len()
            invariant
                i <= actors.len(),
                f == fragment@,
                q == views(actors@),
                actor_dispatcher@ == dispatchers_left(d, q.take(i as int)),
                composed_actors(f, q.take(i as int), d) == Ok::<_, MetaErrorModel>(
                    views(pb_actors@),
                ),
                pb_actor_status@ == statuses(q.take(i as int)),
                pb_actor_splits@ == splits_of(q.take(i as int)),
            decreases actors.len() - i,
        {
            let actor = &actors[i];
            let ghost a = q[i as int];
            proof {
                assert(a == actor@);
                assert(q.take(i + 1).drop_last() =~= q.take(i as int));
                assert(q.take(i + 1).last() == a);
            }
            if actor.fragment_id != fragment.fragment_id {
                proof {
                    lemma_first_stranger(f, q, d, i + 1);
                }
                return Err(
                    MetaError::FragmentMismatch(
                        actor.fragment_id,
                        actor.actor_id,
                        fragment.fragment_id,
                    ),
                );
            }
            let dispatchers: List<StoredDispatcher> = match actor_dispatcher.remove(actor.actor_id) {
                Some(dispatchers) => dispatchers,
                None => List::empty(),
            };
            proof {
                let ids = actor_ids(q.take(i as int));
                assert(actor_ids(q.take(i + 1)) =~= ids.push(a.actor_id));
                assert(ids.push(a.actor_id).to_set() =~= ids.to_set().insert(a.actor_id)) by {
                    broadcast use Seq::lemma_push_to_set_commute;

                }
                assert(actor_dispatcher@ =~= dispatchers_left(d, q.take(i + 1)));
            }
            pb_actor_status.insert(
                actor.actor_id,
                ActorStatus {
                    parallel_unit: Some(
                        ParallelUnit {
                            id: actor.parallel_unit_id,
                            worker_node_id: actor.worker_id,
                        },
                    ),
                    state: actor.status,
                },
            );
            match &actor.splits {
                Some(splits) => {
                    pb_actor_splits.insert(actor.actor_id, splits.duplicate());
                },
                None => {},
            }
            let ghost before = pb_actors@;
            let pb_actor = compose_actor(&fragment.stream_node, actor, &dispatchers);
            pb_actors.push(pb_actor);
            assert(views(pb_actors@) =~= views(before).push(pb_actor@));
            i = i + 1;
        }
        assert(q.take(i as int) =~= q);
        let pb_fragment = Fragment {
            fragment_id: fragment.fragment_id,
            fragment_type_mask: fragment.fragment_type_mask,
            distribution_type: fragment.distribution_type,
            actors: pb_actors,
            vnode_mapping: Some(fragment.vnode_mapping),
            state_table_ids: fragment.state_table_ids,
            upstream_fragment_ids: fragment.upstream_fragment_id,
        };
        Ok((pb_fragment, pb_actor_status, pb_actor_splits))
    }
}

// ---------------------------------------------------------------------------
// All fragments of a job.
// ---------------------------------------------------------------------------

/// The stored fragments in `v`.
pub open spec fn stored_views(
    v: Seq<(StoredFragment, Vec<StoredActor>, IdMap<List<StoredDispatcher>>)>,
) -> Seq<Stored> {
    Seq::new(v.len(), |i: int| (v[i].0@, views(v[i].1@), v[i].2@))
}

/// Fragments under their identifiers, with the status and the splits of all actors.
pub type ComposedAll = (
    Map<u32, FragmentModel>,
    Map<u32, ActorStatusModel>,
    Map<u32, Seq<ConnectorSplitModel>>,
);

/// The fragments in `q` as they run, or why the first one cannot be put together.
pub open spec fn composed_all(q: Seq<Stored>) -> Result<ComposedAll, MetaErrorModel>
    decreases q.len(),
{
    if q.len() == 0 {
        Ok((Map::empty(), Map::empty(), Map::empty()))
    } else {
        match composed_all(q.drop_last()) {
            Err(e) => Err(e),
            Ok((fragments, status, splits)) => match composed(q.last()) {
                Err(e) => Err(e),
                Ok((f, s, p)) => Ok(
                    (
                        fragments.insert(f.fragment_id, f),
                        status.union_prefer_right(s),
                        splits.union_prefer_right(p),
                    ),
                ),
            },
        }
    }
}

proof fn lemma_first_broken(q: Seq<Stored>, k: int)
    requires
        0 <= k <= q.len(),
        composed_all(q.take(k)) is Err,
    ensures
        composed_all(q) == composed_all(q.take(k)),
    decreases q.len() - k,
{
    if k < q.len() {
        assert(q.take(k + 1).drop_last() =~= q.take(k));
        lemma_first_broken(q, k + 1);
    } else {
        assert(q.take(k) =~= q);
    }
}

/// The fragments of a job.
pub open spec fn composed_table(
    table_id: u32,
    state: JobStatus,
    ctx: Option<StreamContextModel>,
    q: Seq<Stored>,
    parallelism: StreamingParallelism,
) -> Result<TableFragmentsModel, MetaErrorModel> {
    match composed_all(q) {
        Err(e) => Err(e),
        Ok((fragments, status, splits)) => Ok(
            TableFragmentsModel {
                table_id,
                state,
                fragments,
                actor_status: status,
                actor_splits: splits,
                ctx: Some(
                    match ctx {
                        Some(ctx) => ctx,
                        None => StreamContextModel::blank(),
                    },
                ),
                parallelism: Some(parallelism),
            },
        ),
    }
}

impl CatalogController {
    /// Puts the fragments of a job together from what is stored of them.
    pub fn compose_table_fragments(
        table_id: u32,
        state: JobStatus,
        ctx: Option<StreamContext>,
        fragments: Vec<(StoredFragment, Vec<StoredActor>, IdMap<List<StoredDispatcher>>)>,
        parallelism: StreamingParallelism,
    ) -> (r: MetaResult<TableFragments>)
        ensures
            match composed_table(
                table_id,
                state,
                opt_view(ctx),
                stored_views(fragments@),
                parallelism,
            ) {
                Ok(t) => r is Ok && r->Ok_0@ == t,
                Err(e) => r is Err && r->Err_0@ == e,
            },
    {
        let ghost q = stored_views(fragments@);
        let mut pb_fragments: IdMap<Fragment> = IdMap::new();
        let mut pb_actor_splits: IdMap<List<ConnectorSplit>> = IdMap::new();
        let mut pb_actor_status: IdMap<ActorStatus> = IdMap::new();
        let mut i: usize = 0;
        assert(q.take(0) =~= Seq::empty());
        while i < fragments.len()
            invariant
                i <= fragments.len(),
                q == stored_views(fragments@),
                composed_all(q.take(i as int)) == Ok::<_, MetaErrorModel>(
                    (pb_fragments@, pb_actor_status@, pb_actor_splits@),
                ),
            decreases fragments.len() - i,
        {
            proof {
                assert(q.take(i + 1).drop_last() =~= q.take(i as int));
                assert(q.take(i + 1).last() == q[i as int]);
            }
            let row = &fragments[i];
            let fragment = row.0.duplicate();
            let actors = crate::util::id_map::duplicate_all(&row.1);
            let dispatchers = row.2.duplicate();
            match Self::compose_fragment(fragment, actors, dispatchers) {
                Ok((fragment, status, splits)) => {
                    pb_fragments.insert(fragment.fragment_id, fragment);
                    pb_actor_splits.extend(splits);
                    pb_actor_status.extend(status);
                },
                Err(e) => {
                    proof {
                        lemma_first_broken(q, i + 1);
                    }
                    return Err(e);
                },
            }
            i = i + 1;
        }
        assert(q.take(i as int) =~= q);
        let ctx = match ctx {
            Some(ctx) => ctx,
            None => StreamContext::default(),
        };
        Ok(
            TableFragments {
                table_id,
                state,
                fragments: pb_fragments,
                actor_status: pb_actor_status,
                actor_splits: pb_actor_splits,
                ctx: Some(ctx),
                parallelism: Some(parallelism),
            },
        )
    }
}

} // verus!
