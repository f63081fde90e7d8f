//! From a fragment as it runs to what is stored of it.

use vstd::prelude::*;

use crate::catalog::error::{MetaError, MetaErrorModel, MetaResult};
use crate::fragment::controller::CatalogController;
use crate::fragment::tree::{cleared, link_map, link_views, links_of, single_links, visited};
use crate::fragment::types::{
    ActorStatus, ActorStatusModel, ConnectorSplit, ConnectorSplitModel, Fragment, FragmentModel,
    StoredActor, StoredActorModel, StoredDispatcher, StoredDispatcherModel, StoredFragment,
    StoredFragmentModel, StreamActor, StreamActorModel, TableFragments, TableFragmentsModel,
};
use crate::util::id_map::{duplicate_opt, views, Entry, IdMap};
use crate::util::id_set::IdSet;
use crate::util::ids::{listing, lists};
use crate::util::lists::{gather, lemma_gather_push, List};

verus! {

/// What is stored of an actor, or why nothing is.
pub open spec fn stored_actor(
    a: StreamActorModel,
    status: Map<u32, ActorStatusModel>,
    splits: Map<u32, Seq<ConnectorSplitModel>>,
) -> Result<StoredActorModel, MetaErrorModel> {
    match a.nodes {
        None => Err(MetaErrorModel::NodesEmpty),
        Some(nodes) => if status.contains_key(a.actor_id) {
            Ok(
                StoredActorModel {
                    actor_id: a.actor_id,
                    fragment_id: a.fragment_id,
                    status: status[a.actor_id].state,
                    splits: if splits.contains_key(a.actor_id) {
                        Some(splits[a.actor_id])
                    } else {
                        None
                    },
                    parallel_unit_id: status[a.actor_id].parallel_unit->0.id,
                    worker_id: status[a.actor_id].parallel_unit->0.worker_node_id,
                    upstream_actor_ids: link_map(links_of(nodes)),
                    vnode_bitmap: a.vnode_bitmap,
                    expr_context: a.expr_context->0,
                },
            )
        } else {
            Err(MetaErrorModel::ActorStatusMissing(a.actor_id, a.fragment_id))
        },
    }
}

/// The actors that the operators of an actor merge.
pub open spec fn merged_actors(links: Seq<(u32, Seq<u32>)>) -> Set<u32> {
    gather(links, |l: (u32, Seq<u32>)| l.1).to_set()
}

/// What storing an actor presumes: there is one link at most to each fragment, and of an actor
/// whose status is known the parallel unit, the upstream actors and the context of its
/// expressions are known.
pub open spec fn actor_presumes(a: StreamActorModel, status: Map<u32, ActorStatusModel>) -> bool {
    a.nodes is Some ==> {
        let links = links_of(a.nodes->0);
        &&& single_links(links)
        &&& status.contains_key(a.actor_id) ==> {
            &&& status[a.actor_id].parallel_unit is Some
            &&& a.upstream_actor_id.to_set() == merged_actors(links)
            &&& a.expr_context is Some
        }
    }
}

/// What is stored of the actors in `q`, or why the first one cannot be stored.
pub open spec fn stored_actors(
    q: Seq<StreamActorModel>,
    status: Map<u32, ActorStatusModel>,
    splits: Map<u32, Seq<ConnectorSplitModel>>,
) -> Result<Seq<StoredActorModel>, MetaErrorModel>
    decreases q.len(),
{
    if q.len() == 0 {
        Ok(Seq::empty())
    } else {
        match stored_actors(q.drop_last(), status, splits) {
            Err(e) => Err(e),
            Ok(s) => match stored_actor(q.last(), status, splits) {
                Err(e) => Err(e),
                Ok(a) => Ok(s.push(a)),
            },
        }
    }
}

/// What is stored of the dispatchers of an actor.
pub open spec fn stored_dispatchers_of(a: StreamActorModel) -> Seq<StoredDispatcherModel> {
    Seq::new(
        a.dispatcher.len(),
        |i: int| StoredDispatcherModel { actor_id: a.actor_id, dispatcher: a.dispatcher[i] },
    )
}

/// What is stored of the dispatchers of the actors in `q`.
pub open spec fn stored_dispatchers(q: Seq<StreamActorModel>) -> Map<u32, Seq<StoredDispatcherModel>>
    decreases q.len(),
{
    if q.len() == 0 {
        Map::empty()
    } else {
        stored_dispatchers(q.drop_last()).insert(
            q.last().actor_id,
            stored_dispatchers_of(q.last()),
        )
    }
}

/// What is stored of a fragment, apart from its actors.
pub open spec fn stored_fragment(job_id: u32, f: FragmentModel) -> StoredFragmentModel {
    StoredFragmentModel {
        fragment_id: f.fragment_id,
        job_id,
        fragment_type_mask: f.fragment_type_mask,
        distribution_type: f.distribution_type,
        stream_node: visited(f.actors[0].nodes->0, cleared()),
        vnode_mapping: f.vnode_mapping->0,
        state_table_ids: f.state_table_ids,
        upstream_fragment_id: f.upstream_fragment_ids,
    }
}

/// What is stored of a fragment.
pub type Stored = (StoredFragmentModel, Seq<StoredActorModel>, Map<u32, Seq<StoredDispatcherModel>>);

/// What is stored of a fragment, or why nothing is.
pub open spec fn extracted(
    job_id: u32,
    f: FragmentModel,
    status: Map<u32, ActorStatusModel>,
    splits: Map<u32, Seq<ConnectorSplitModel>>,
) -> Result<Stored, MetaErrorModel> {
    match stored_actors(f.actors, status, splits) {
        Err(e) => Err(e),
        Ok(actors) => Ok((stored_fragment(job_id, f), actors, stored_dispatchers(f.actors))),
    }
}

/// What storing the actor at `i` presumes, once those before it are stored.
pub open spec fn presumed_at(
    q: Seq<StreamActorModel>,
    i: int,
    status: Map<u32, ActorStatusModel>,
    splits: Map<u32, Seq<ConnectorSplitModel>>,
) -> bool {
    stored_actors(q.take(i), status, splits) is Ok ==> actor_presumes(q[i], status)
}

/// What storing a fragment presumes.
pub open spec fn extract_presumes(
    f: FragmentModel,
    status: Map<u32, ActorStatusModel>,
    splits: Map<u32, Seq<ConnectorSplitModel>>,
) -> bool {
    &&& f.actors.len() > 0
    &&& f.actors[0].nodes is Some
    &&& forall|i: int| 0 <= i < f.actors.len() ==> #[trigger] presumed_at(f.actors, i, status, splits)
    &&& stored_actors(f.actors, status, splits) is Ok ==> f.vnode_mapping is Some
}

/// The map with each element of `links` in it.
fn map_links(links: Vec<(u32, List<u32>)>) -> (r: IdMap<List<u32>>)
    ensures
        r@ == link_map(link_views(links@)),
{
    let mut r: IdMap<List<u32>> = IdMap::new();
    let ghost q = link_views(links@);
    let mut i: usize = 0;
    assert(q.take(0) =~= Seq::empty());
    while i < links.len()
        invariant
            i <= links.len(),
            q == link_views(links@),
            r@ == link_map(q.take(i as int)),
        decreases links.len() - i,
    {
        proof {
            assert(q.take(i + 1).drop_last() =~= q.take(i as int));
            assert(q.take(i + 1).last() == q[i as int]);
        }
        r.insert(links[i].0, links[i].1.duplicate());
        i = i + 1;
    }
    assert(q.take(i as int) =~= q);
    r
}

fn store_dispatchers(a: &StreamActor) -> (r: List<StoredDispatcher>)
    ensures
        r@ == stored_dispatchers_of(a@),
{
    let mut r: List<StoredDispatcher> = List::empty();
    let mut i: usize = 0;
    while i < a.dispatcher.len()
        invariant
            i <= a.dispatcher.len(),
            r@ == stored_dispatchers_of(a@).take(i as int),
        decreases a.dispatcher.len() - i,
    {
        let d = StoredDispatcher {
            actor_id: a.actor_id,
            dispatcher: a.dispatcher[i].duplicate(),
        };
        assert(d@ == stored_dispatchers_of(a@)[i as int]);
        r.push(d);
        assert(r@ =~= stored_dispatchers_of(a@).take(i + 1));
        i = i + 1;
    }
    assert(r@ =~= stored_dispatchers_of(a@));
    r
}

fn store_actor(
    a: &StreamActor,
    actor_status: &IdMap<ActorStatus>,
    actor_splits: &IdMap<List<ConnectorSplit>>,
) -> (r: MetaResult<StoredActor>)
    requires
        actor_presumes(a@, actor_status@),
    ensures
        match stored_actor(a@, actor_status@, actor_splits@) {
            Ok(s) => r is Ok && r->Ok_0@ == s,
            Err(e) => r is Err && r->Err_0@ == e,
        },
{
    let node = match &a.nodes {
        Some(node) => node,
        None => {
            return Err(MetaError::NodesEmpty);
        },
    };
    let mut links: Vec<(u32, List<u32>)> = Vec::new();
    node.collect_links(&mut links);
    assert(link_views(links@) =~= links_of(node@));
    let upstream_actor_ids = map_links(links);
    let splits = match actor_splits.get(a.actor_id) {
        Some(splits) => Some(splits.duplicate()),
        None => None,
    };
    match actor_status.get(a.actor_id) {
        Some(status) => match (&status.parallel_unit, &a.expr_context) {
            (Some(unit), Some(expr_context)) => Ok(
                StoredActor {
                    actor_id: a.actor_id,
                    fragment_id: a.fragment_id,
                    status: status.state,
                    splits,
                    parallel_unit_id: unit.id,
                    worker_id: unit.worker_node_id,
                    upstream_actor_ids,
                    vnode_bitmap: duplicate_opt(&a.vnode_bitmap),
                    expr_context: expr_context.duplicate(),
                },
            ),
            _ => {
                assert(false);
                Err(MetaError::NodesEmpty)
            },
        },
        None => Err(MetaError::ActorStatusMissing(a.actor_id, a.fragment_id)),
    }
}

/// What is stored of a fragment is `s`.
pub open spec fn stored_as(
    r: (StoredFragment, Vec<StoredActor>, IdMap<List<StoredDispatcher>>),
    s: Stored,
) -> bool {
    r.0@ == s.0 && views(r.1@) == s.1 && r.2@ == s.2
}

impl CatalogController {
    /// Splits a fragment into what is stored of it: the fragment with the tree of operators that
    /// its actors share, its actors, and their dispatchers. An actor without operators or without
    /// a status is refused.
    pub fn extract_fragment_and_actors(
        job_id: u32,
        pb_fragment: Fragment,
        pb_actor_status: &IdMap<ActorStatus>,
        pb_actor_splits: &IdMap<List<ConnectorSplit>>,
    ) -> (r: MetaResult<(StoredFragment, Vec<StoredActor>, IdMap<List<StoredDispatcher>>)>)
        requires
            extract_presumes(pb_fragment@, pb_actor_status@, pb_actor_splits@),
        ensures
            match extracted(job_id, pb_fragment@, pb_actor_status@, pb_actor_splits@) {
                Ok(s) => r is Ok && stored_as(r->Ok_0, s),
                Err(e) => r is Err && r->Err_0@ == e,
            },
    {
        let ghost f = pb_fragment@;
        let ghost q = f.actors;
        let ghost status = pb_actor_status@;
        let ghost splits = pb_actor_splits@;
        let pb_actors = &pb_fragment.actors;
        assert(q[0] == pb_actors@[0]@);
        let stream_node = match &pb_actors[0].nodes {
            Some(node) => node.template(),
            None => {
                assert(false);
                return Err(MetaError::NodesEmpty);
            },
        };
        let mut actors: Vec<StoredActor> = Vec::new();
        let mut actor_dispatchers: IdMap<List<StoredDispatcher>> = IdMap::new();
        let mut i: usize = 0;
        proof {
            assert(q.take(0) =~= Seq::empty());
            assert(views(actors@) =~= Seq::empty());
        }
        while i < pb_actors.len()
            invariant
                i <= pb_actors.len(),
                f == pb_fragment@,
                pb_actors == &pb_fragment.actors,
                q == views(pb_actors@),
                q == f.actors,
                status == pb_actor_status@,
                splits == pb_actor_splits@,
                extract_presumes(f, status, splits),
                stored_actors(q.take(i as int), status, splits) == Ok::<_, MetaErrorModel>(
                    views(actors@),
                ),
                actor_dispatchers@ == stored_dispatchers(q.take(i as int)),
            decreases pb_actors.len() - i,
        {
            proof {
                assert(q[i as int] == pb_actors@[i as int]@);
                assert(q.take(i + 1).drop_last() =~= q.take(i as int));
                assert(q.take(i + 1).last() == q[i as int]);
                assert(presumed_at(f.actors, i as int, status, splits));
            }
            let actor = match store_actor(&pb_actors[i], pb_actor_status, pb_actor_splits) {
                Ok(actor) => actor,
                Err(e) => {
                    proof {
                        lemma_first_refusal(q, i + 1, status, splits);
                    }
                    return Err(e);
                },
            };
            let ghost before = actors@;
            actors.push(actor);
            assert(views(actors@) =~= views(before).push(actor@));
            actor_dispatchers.insert(pb_actors[i].actor_id, store_dispatchers(&pb_actors[i]));
            i = i + 1;
        }
        assert(q.take(i as int) =~= q);
        match pb_fragment.vnode_mapping {
            Some(vnode_mapping) => {
                let fragment = StoredFragment {
                    fragment_id: pb_fragment.fragment_id,
                    job_id,
                    fragment_type_mask: pb_fragment.fragment_type_mask,
                    distribution_type: pb_fragment.distribution_type,
                    stream_node,
                    vnode_mapping,
                    state_table_ids: pb_fragment.state_table_ids,
                    upstream_fragment_id: pb_fragment.upstream_fragment_ids,
                };
                assert(fragment@ =~= stored_fragment(job_id, f));
                Ok((fragment, actors, actor_dispatchers))
            },
            None => {
                assert(false);
                Err(MetaError::NodesEmpty)
            },
        }
    }
}

/// Once an actor is refused, so is every list that starts with the actors up to it.
proof fn lemma_first_refusal(
    q: Seq<StreamActorModel>,
    k: int,
    status: Map<u32, ActorStatusModel>,
    splits: Map<u32, Seq<ConnectorSplitModel>>,
)
    requires
        0 <= k <= q.len(),
        stored_actors(q.take(k), status, splits) is Err,
    ensures
        stored_actors(q, status, splits) == stored_actors(q.take(k), status, splits),
    decreases q.len() - k,
{
    if k < q.len() {
        assert(q.take(k + 1).drop_last() =~= q.take(k));
        lemma_first_refusal(q, k + 1, status, splits);
    } else {
        assert(q.take(k) =~= q);
    }
}

// ---------------------------------------------------------------------------
// All fragments of a job.
// ---------------------------------------------------------------------------

/// What is stored of the fragments at `ids`, or why the first one cannot be stored.
pub open spec fn extracted_at(t: TableFragmentsModel, ids: Seq<u32>) -> Result<Seq<Stored>, MetaErrorModel>
    decreases ids.len(),
{
    if ids.len() == 0 {
        Ok(Seq::empty())
    } else {
        match extracted_at(t, ids.drop_last()) {
            Err(e) => Err(e),
            Ok(s) => match extracted(
                t.table_id,
                t.fragments[ids.last()],
                t.actor_status,
                t.actor_splits,
            ) {
                Err(e) => Err(e),
                Ok(x) => Ok(s.push(x)),
            },
        }
    }
}

proof fn lemma_first_refused_fragment(t: TableFragmentsModel, ids: Seq<u32>, k: int)
    requires
        0 <= k <= ids.len(),
        extracted_at(t, ids.take(k)) is Err,
    ensures
        extracted_at(t, ids) == extracted_at(t, ids.take(k)),
    decreases ids.len() - k,
{
    if k < ids.len() {
        assert(ids.take(k + 1).drop_last() =~= ids.take(k));
        lemma_first_refused_fragment(t, ids, k + 1);
    } else {
        assert(ids.take(k) =~= ids);
    }
}

/// What storing the fragments of a job presumes.
pub open spec fn extract_all_presumes(t: TableFragmentsModel) -> bool {
    let ids = listing(t.fragments.dom());
    forall|i: int| 0 <= i < ids.len() ==> #[trigger] fragment_presumed_at(t, ids, i)
}

/// What storing the fragment at `i` presumes, once those before it are stored.
pub open spec fn fragment_presumed_at(t: TableFragmentsModel, ids: Seq<u32>, i: int) -> bool {
    extracted_at(t, ids.take(i)) is Ok ==> extract_presumes(
        t.fragments[ids[i]],
        t.actor_status,
        t.actor_splits,
    )
}

impl CatalogController {
    /// What is stored of the fragments of a job, in the order of the fragments.
    pub fn extract_fragment_and_actors_from_table_fragments(table_fragments: TableFragments) -> (r:
        MetaResult<Vec<(StoredFragment, Vec<StoredActor>, IdMap<List<StoredDispatcher>>)>>)
        requires
            extract_all_presumes(table_fragments@),
        ensures
            match extracted_at(table_fragments@, listing(table_fragments@.fragments.dom())) {
                Ok(s) => {
                    &&& r is Ok
                    &&& r->Ok_0@.len() == s.len()
                    &&& forall|i: int| 0 <= i < s.len() ==> stored_as(#[trigger] r->Ok_0@[i], s[i])
                },
                Err(e) => r is Err && r->Err_0@ == e,
            },
    {
        let ghost t = table_fragments@;
        let ids = table_fragments.fragments.ids();
        let mut result: Vec<
            (StoredFragment, Vec<StoredActor>, IdMap<List<StoredDispatcher>>),
        > = Vec::new();
        let mut i: usize = 0;
        assert(ids@.take(0) =~= Seq::empty());
        while i < ids.len()
            invariant
                i <= ids.len(),
                t == table_fragments@,
                lists(ids@, t.fragments.dom()),
                ids@ == listing(t.fragments.dom()),
                extract_all_presumes(t),
                extracted_at(t, ids@.take(i as int)) is Ok,
                result@.len() == i,
                extracted_at(t, ids@.take(i as int))->Ok_0.len() == i,
                forall|k: int|
                    0 <= k < i ==> stored_as(
                        #[trigger] result@[k],
                        extracted_at(t, ids@.take(i as int))->Ok_0[k],
                    ),
            decreases ids.len() - i,
        {
            proof {
                assert(ids@.take(i + 1).drop_last() =~= ids@.take(i as int));
                assert(ids@.take(i + 1).last() == ids@[i as int]);
                assert(ids@.contains(ids@[i as int]));
                assert(fragment_presumed_at(t, ids@, i as int));
            }
            match table_fragments.fragments.get(ids[i]) {
                Some(fragment) => match Self::extract_fragment_and_actors(
                    table_fragments.table_id,
                    fragment.duplicate(),
                    &table_fragments.actor_status,
                    &table_fragments.actor_splits,
                ) {
                    Ok(stored) => {
                        result.push(stored);
                    },
                    Err(e) => {
                        proof {
                            lemma_first_refused_fragment(t, ids@, i + 1);
                        }
                        return Err(e);
                    },
                },
                None => {},
            }
            i = i + 1;
        }
        assert(ids@.take(i as int) =~= ids@);
        Ok(result)
    }
}

// ---------------------------------------------------------------------------
// Whether a fragment can be stored.
// ---------------------------------------------------------------------------

/// Whether no fragment is merged twice.
fn check_single_links(links: &Vec<(u32, List<u32>)>) -> (r: bool)
    ensures
        r == single_links(link_views(links@)),
{
    let ghost q = link_views(links@);
    let mut i: usize = 0;
    while i < links.len()
        invariant
            i <= links.len(),
            q == link_views(links@),
            forall|a: int, b: int|
                0 <= a < b < i ==> (#[trigger] q[a]).0 != (#[trigger] q[b]).0,
        decreases links.len() - i,
    {
        let mut j: usize = 0;
        while j < i
            invariant
                j <= i < links.len(),
                q == link_views(links@),
                forall|a: int| 0 <= a < j ==> (#[trigger] q[a]).0 != q[i as int].0,
            decreases i - j,
        {
            assert(q[j as int].0 == links@[j as int].0 && q[i as int].0 == links@[i as int].0);
            if links[j].0 == links[i].0 {
                return false;
            }
            j = j + 1;
        }
        i = i + 1;
    }
    true
}

/// The actors that the operators of an actor merge.
fn merged_set(links: &Vec<(u32, List<u32>)>) -> (r: IdSet)
    ensures
        r@ == merged_actors(link_views(links@)),
{
    let ghost q = link_views(links@);
    let ghost p = |l: (u32, Seq<u32>)| l.1;
    let mut r = IdSet::new();
    let mut i: usize = 0;
    proof {
        assert(q.take(0) =~= Seq::empty());
        assert(r@ =~= gather(q.take(0), p).to_set());
    }
    while i < links.len()
        invariant
            i <= links.len(),
            q == link_views(links@),
            p == (|l: (u32, Seq<u32>)| l.1),
            r@ == gather(q.take(i as int), p).to_set(),
        decreases links.len() - i,
    {
        let ghost before = gather(q.take(i as int), p);
        r.insert_all(&links[i].1.items);
        proof {
            assert(q[i as int].1 =~= links@[i as int].1.items@);
            assert(q.take(i + 1) =~= q.take(i as int).push(q[i as int]));
            lemma_gather_push(q.take(i as int), q[i as int], p);
            vstd::seq_lib::seq_to_set_distributes_over_add(before, q[i as int].1);
        }
        i = i + 1;
    }
    assert(q.take(i as int) =~= q);
    r
}

/// Whether an actor can be stored.
fn can_store_actor(a: &StreamActor, actor_status: &IdMap<ActorStatus>) -> (r: bool)
    ensures
        r == actor_presumes(a@, actor_status@),
{
    let node = match &a.nodes {
        Some(node) => node,
        None => {
            return true;
        },
    };
    let mut links: Vec<(u32, List<u32>)> = Vec::new();
    node.collect_links(&mut links);
    assert(link_views(links@) =~= links_of(node@));
    if !check_single_links(&links) {
        return false;
    }
    match actor_status.get(a.actor_id) {
        Some(status) => {
            let merged = merged_set(&links);
            let mut upstream = IdSet::new();
            upstream.insert_all(&a.upstream_actor_id);
            assert(upstream@ =~= a@.upstream_actor_id.to_set());
            let same: bool = upstream.is_superset(&merged) && merged.is_superset(&upstream);
            proof {
                if same {
                    assert(upstream@ =~= merged@);
                }
            }
            status.parallel_unit.is_some() && same && a.expr_context.is_some()
        },
        None => true,
    }
}

impl CatalogController {
    /// Tells whether [`Self::extract_fragment_and_actors`] can be called.
    pub fn can_extract(
        pb_fragment: &Fragment,
        pb_actor_status: &IdMap<ActorStatus>,
        pb_actor_splits: &IdMap<List<ConnectorSplit>>,
    ) -> (r: bool)
        ensures
            r == extract_presumes(pb_fragment@, pb_actor_status@, pb_actor_splits@),
    {
        let ghost f = pb_fragment@;
        let ghost q = f.actors;
        let ghost status = pb_actor_status@;
        let ghost splits = pb_actor_splits@;
        let pb_actors = &pb_fragment.actors;
        assert(q.len() == pb_actors@.len());
        if pb_actors.len() == 0 {
            return false;
        }
        assert(q[0] == pb_actors@[0]@);
        if pb_actors[0].nodes.is_none() {
            return false;
        }
        let mut i: usize = 0;
        assert(q.take(0) =~= Seq::empty());
        while i < pb_actors.len()
            invariant
                i <= pb_actors.len(),
                f == pb_fragment@,
                pb_actors == &pb_fragment.actors,
                q == views(pb_actors@),
                q == f.actors,
                q.len() > 0,
                q[0].nodes is Some,
                status == pb_actor_status@,
                splits == pb_actor_splits@,
                forall|k: int| 0 <= k < i ==> #[trigger] presumed_at(q, k, status, splits),
                stored_actors(q.take(i as int), status, splits) is Ok,
            decreases pb_actors.len() - i,
        {
            proof {
                assert(q[i as int] == pb_actors@[i as int]@);
                assert(q.take(i + 1).drop_last() =~= q.take(i as int));
                assert(q.take(i + 1).last() == q[i as int]);
            }
            if !can_store_actor(&pb_actors[i], pb_actor_status) {
                assert(!presumed_at(q, i as int, status, splits));
                return false;
            }
            if store_actor(&pb_actors[i], pb_actor_status, pb_actor_splits).is_err() {
                proof {
                    lemma_first_refusal(q, i + 1, status, splits);
                    assert forall|k: int| 0 <= k < q.len() implies #[trigger] presumed_at(
                        q,
                        k,
                        status,
                        splits,
                    ) by {
                        if k > i {
                            assert(q.take(k).take(i + 1) =~= q.take(i + 1));
                            lemma_first_refusal(q.take(k), i + 1, status, splits);
                        }
                    }
                }
                return true;
            }
            i = i + 1;
        }
        assert(q.take(i as int) =~= q);
        pb_fragment.vnode_mapping.is_some()
    }

    /// Tells whether [`Self::extract_fragment_and_actors_from_table_fragments`] can be called.
    pub fn can_extract_all(table_fragments: &TableFragments) -> (r: bool)
        ensures
            r == extract_all_presumes(table_fragments@),
    {
        let ghost t = table_fragments@;
        let ids = table_fragments.fragments.ids();
        let mut i: usize = 0;
        assert(ids@.take(0) =~= Seq::empty());
        while i < ids.len()
            invariant
                i <= ids.len(),
                t == table_fragments@,
                lists(ids@, t.fragments.dom()),
                ids@ == listing(t.fragments.dom()),
                extracted_at(t, ids@.take(i as int)) is Ok,
                forall|k: int| 0 <= k < i ==> #[trigger] fragment_presumed_at(t, ids@, k),
            decreases ids.len() - i,
        {
            proof {
                assert(ids@.take(i + 1).drop_last() =~= ids@.take(i as int));
                assert(ids@.take(i + 1).last() == ids@[i as int]);
                assert(ids@.contains(ids@[i as int]));
            }
            match table_fragments.fragments.get(ids[i]) {
                Some(fragment) => {
                    if !Self::can_extract(
                        fragment,
                        &table_fragments.actor_status,
                        &table_fragments.actor_splits,
                    ) {
                        assert(!fragment_presumed_at(t, ids@, i as int));
                        return false;
                    }
                    let stored = Self::extract_fragment_and_actors(
                        table_fragments.table_id,
                        fragment.duplicate(),
                        &table_fragments.actor_status,
                        &table_fragments.actor_splits,
                    );
                    if stored.is_err() {
                        proof {
                            assert forall|k: int| 0 <= k < ids@.len() implies #[trigger] fragment_presumed_at(
                            t, ids@, k) by {
                                if k > i {
                                    assert(ids@.take(k).take(i + 1) =~= ids@.take(i + 1));
                                    lemma_first_refused_fragment(t, ids@.take(k), i + 1);
                                }
                            }
                        }
                        return true;
                    }
                },
                None => {
                    assert(false);
                },
            }
            i = i + 1;
        }
        true
    }
}

} // verus!
