//! Storing a fragment and putting it together again.

use vstd::prelude::*;

use crate::fragment::compose::{
    actor_ids, all_upstreams, composed, composed_actor, composed_actors, composed_fragment,
    dispatchers_at, dispatchers_left, splits_of, status_of, statuses,
};
use crate::fragment::extract::{
    actor_presumes, extract_presumes, extracted, presumed_at, stored_actor, stored_actors,
    stored_dispatchers, stored_dispatchers_of, stored_fragment,
};
use crate::fragment::tree::{
    cleared, lemma_link_map, lemma_linked_again, link_map, links_of, visited,
};
use crate::fragment::types::{
    ActorStatusModel, ConnectorSplitModel, FragmentModel, StoredActorModel, StoredDispatcherModel,
    StreamActorModel,
};
use crate::util::lists::image;

verus! {

/// An actor of which nothing is lost when its fragment is stored: it shares the operators of the
/// first actor, has no definition of its own, and its upstream actors stand in the order of their
/// fragments.
pub open spec fn faithful(f: FragmentModel, a: StreamActorModel) -> bool {
    &&& a.fragment_id == f.fragment_id
    &&& a.nodes is Some
    &&& visited(a.nodes->0, cleared()) == visited(f.actors[0].nodes->0, cleared())
    &&& a.mview_definition == Seq::<char>::empty()
    &&& a.upstream_actor_id == all_upstreams(link_map(links_of(a.nodes->0)))
}

/// No two actors have the same identifier.
pub open spec fn distinct_actors(q: Seq<StreamActorModel>) -> bool {
    forall|i: int, j: int|
        0 <= i < j < q.len() ==> (#[trigger] q[i]).actor_id != (#[trigger] q[j]).actor_id
}

/// Actor by actor, what is stored of a list of actors.
proof fn lemma_stored_actors(
    q: Seq<StreamActorModel>,
    status: Map<u32, ActorStatusModel>,
    splits: Map<u32, Seq<ConnectorSplitModel>>,
)
    requires
        stored_actors(q, status, splits) is Ok,
    ensures
        stored_actors(q, status, splits)->Ok_0.len() == q.len(),
        forall|i: int|
            0 <= i < q.len() ==> stored_actor(#[trigger] q[i], status, splits) == Ok::<
                _,
                crate::catalog::error::MetaErrorModel,
            >(stored_actors(q, status, splits)->Ok_0[i]),
        forall|i: int|
            0 <= i <= q.len() ==> (#[trigger] stored_actors(q.take(i), status, splits)) is Ok,
    decreases q.len(),
{
    assert(q.take(q.len() as int) =~= q);
    if q.len() > 0 {
        let d = q.drop_last();
        lemma_stored_actors(d, status, splits);
        assert forall|i: int| 0 <= i < q.len() implies stored_actor(
            #[trigger] q[i],
            status,
            splits,
        ) == Ok::<_, crate::catalog::error::MetaErrorModel>(
            stored_actors(q, status, splits)->Ok_0[i],
        ) by {
            if i < d.len() {
                assert(d[i] == q[i]);
            }
        }
        assert forall|i: int| 0 <= i <= q.len() implies (#[trigger] stored_actors(
            q.take(i),
            status,
            splits,
        )) is Ok by {
            if i < q.len() {
                assert(d.take(i) =~= q.take(i));
            }
        }
    }
}

proof fn lemma_stored_dispatchers(q: Seq<StreamActorModel>)
    requires
        distinct_actors(q),
    ensures
        forall|i: int|
            0 <= i < q.len() ==> stored_dispatchers(q).contains_key((#[trigger] q[i]).actor_id)
                && stored_dispatchers(q)[q[i].actor_id] == stored_dispatchers_of(q[i]),
    decreases q.len(),
{
    if q.len() > 0 {
        let d = q.drop_last();
        assert(distinct_actors(d)) by {
            assert forall|i: int, j: int| 0 <= i < j < d.len() implies (#[trigger] d[i]).actor_id != (
            #[trigger] d[j]).actor_id by {
                assert(d[i] == q[i] && d[j] == q[j]);
            }
        }
        lemma_stored_dispatchers(d);
        assert forall|i: int| 0 <= i < q.len() implies stored_dispatchers(q).contains_key(
            (#[trigger] q[i]).actor_id,
        ) && stored_dispatchers(q)[q[i].actor_id] == stored_dispatchers_of(q[i]) by {
            if i < d.len() {
                assert(d[i] == q[i]);
                assert(q[i].actor_id != q[q.len() - 1].actor_id);
            }
        }
    }
}

/// Where the actors in `q` run, actor by actor.
proof fn lemma_statuses(q: Seq<StoredActorModel>)
    requires
        forall|i: int, j: int|
            0 <= i < j < q.len() ==> (#[trigger] q[i]).actor_id != (#[trigger] q[j]).actor_id,
    ensures
        forall|id: u32| #[trigger] statuses(q).contains_key(id) <==> actor_ids(q).contains(id),
        forall|i: int|
            0 <= i < q.len() ==> statuses(q)[(#[trigger] q[i]).actor_id] == status_of(q[i]),
        forall|i: int|
            0 <= i < q.len() ==> splits_of(q).contains_key((#[trigger] q[i]).actor_id) == (
            q[i].splits is Some),
        forall|i: int|
            0 <= i < q.len() && (#[trigger] q[i]).splits is Some ==> splits_of(q)[q[i].actor_id]
                == q[i].splits->0,
        forall|id: u32| #[trigger] splits_of(q).contains_key(id) ==> actor_ids(q).contains(id),
    decreases q.len(),
{
    if q.len() > 0 {
        let d = q.drop_last();
        assert forall|i: int, j: int| 0 <= i < j < d.len() implies (#[trigger] d[i]).actor_id != (
        #[trigger] d[j]).actor_id by {
            assert(d[i] == q[i] && d[j] == q[j]);
        }
        lemma_statuses(d);
        assert(actor_ids(q) =~= actor_ids(d).push(q.last().actor_id));
        broadcast use vstd::seq_lib::lemma_seq_contains_after_push;

        assert forall|id: u32| #[trigger] statuses(q).contains_key(id) <==> actor_ids(q).contains(
            id,
        ) by {
            assert(statuses(d).contains_key(id) <==> actor_ids(d).contains(id));
        }
        assert forall|i: int| 0 <= i < q.len() implies ({
            &&& statuses(q)[(#[trigger] q[i]).actor_id] == status_of(q[i])
            &&& splits_of(q).contains_key(q[i].actor_id) == (q[i].splits is Some)
            &&& q[i].splits is Some ==> splits_of(q)[q[i].actor_id] == q[i].splits->0
        }) by {
            if i < d.len() {
                assert(d[i] == q[i]);
                assert(q[i].actor_id != q[q.len() - 1].actor_id);
            } else {
                if splits_of(d).contains_key(q[i].actor_id) {
                    assert(actor_ids(d).contains(q[i].actor_id));
                    let k = choose|k: int| 0 <= k < d.len() && actor_ids(d)[k] == q[i].actor_id;
                    assert(q[k].actor_id == q[i].actor_id);
                }
            }
        }
        assert forall|id: u32| #[trigger] splits_of(q).contains_key(id) implies actor_ids(
            q,
        ).contains(id) by {
            if splits_of(d).contains_key(id) {
                assert(actor_ids(d).contains(id));
            }
        }
    }
}

/// One actor, stored and put together again.
proof fn lemma_actor_again(
    f: FragmentModel,
    a: StreamActorModel,
    status: Map<u32, ActorStatusModel>,
    splits: Map<u32, Seq<ConnectorSplitModel>>,
)
    requires
        actor_presumes(a, status),
        faithful(f, a),
        stored_actor(a, status, splits) is Ok,
    ensures
        composed_actor(
            visited(f.actors[0].nodes->0, cleared()),
            stored_actor(a, status, splits)->Ok_0,
            stored_dispatchers_of(a),
        ) == a,
        status_of(stored_actor(a, status, splits)->Ok_0) == status[a.actor_id],
{
    let nodes = a.nodes->0;
    let links = links_of(nodes);
    lemma_link_map(links);
    lemma_linked_again(nodes, link_map(links));
    assert(image(stored_dispatchers_of(a), |d: StoredDispatcherModel| d.dispatcher)
        =~= a.dispatcher);
}

/// The actors, stored and put together again.
proof fn lemma_actors_again(
    job_id: u32,
    f: FragmentModel,
    status: Map<u32, ActorStatusModel>,
    splits: Map<u32, Seq<ConnectorSplitModel>>,
    k: int,
)
    requires
        0 <= k <= f.actors.len(),
        extract_presumes(f, status, splits),
        stored_actors(f.actors, status, splits) is Ok,
        distinct_actors(f.actors),
        forall|i: int| 0 <= i < f.actors.len() ==> faithful(f, #[trigger] f.actors[i]),
    ensures
        composed_actors(
            stored_fragment(job_id, f),
            stored_actors(f.actors, status, splits)->Ok_0.take(k),
            stored_dispatchers(f.actors),
        ) == Ok::<_, crate::catalog::error::MetaErrorModel>(f.actors.take(k)),
    decreases k,
{
    let s = stored_actors(f.actors, status, splits)->Ok_0;
    let d = stored_dispatchers(f.actors);
    lemma_stored_actors(f.actors, status, splits);
    if k == 0 {
        assert(s.take(0) =~= Seq::empty());
        assert(f.actors.take(0) =~= Seq::empty());
    } else {
        lemma_actors_again(job_id, f, status, splits, k - 1);
        let a = f.actors[k - 1];
        assert(s.take(k).drop_last() =~= s.take(k - 1));
        assert(s.take(k).last() == s[k - 1]);
        assert(f.actors.take(k) =~= f.actors.take(k - 1).push(a));
        assert(presumed_at(f.actors, k - 1, status, splits));
        assert(faithful(f, a));
        lemma_actor_again(f, a, status, splits);
        lemma_stored_dispatchers(f.actors);
        let left = dispatchers_left(d, s.take(k - 1));
        assert(!actor_ids(s.take(k - 1)).to_set().contains(a.actor_id)) by {
            let before = actor_ids(s.take(k - 1));
            if before.contains(a.actor_id) {
                let i = choose|i: int| 0 <= i < before.len() && before[i] == a.actor_id;
                assert(f.actors[i].actor_id == a.actor_id);
            }
        }
        assert(dispatchers_at(left, a.actor_id) == stored_dispatchers_of(a));
    }
}

/// A fragment that is stored and put together again is the same fragment, with the same status
/// and the same splits of its actors, as long as its actors share their operators.
pub proof fn law_compose_after_extract(
    job_id: u32,
    f: FragmentModel,
    status: Map<u32, ActorStatusModel>,
    splits: Map<u32, Seq<ConnectorSplitModel>>,
)
    requires
        extract_presumes(f, status, splits),
        extracted(job_id, f, status, splits) is Ok,
        distinct_actors(f.actors),
        forall|i: int| 0 <= i < f.actors.len() ==> faithful(f, #[trigger] f.actors[i]),
    ensures
        composed(extracted(job_id, f, status, splits)->Ok_0) is Ok,
        composed(extracted(job_id, f, status, splits)->Ok_0)->Ok_0.0 == f,
        composed(extracted(job_id, f, status, splits)->Ok_0)->Ok_0.1 == status.restrict(
            image(f.actors, |a: StreamActorModel| a.actor_id).to_set(),
        ),
        composed(extracted(job_id, f, status, splits)->Ok_0)->Ok_0.2 == splits.restrict(
            image(f.actors, |a: StreamActorModel| a.actor_id).to_set(),
        ),
{
    let s = stored_actors(f.actors, status, splits)->Ok_0;
    let n = f.actors.len() as int;
    lemma_stored_actors(f.actors, status, splits);
    lemma_actors_again(job_id, f, status, splits, n);
    assert(s.take(n) =~= s);
    assert(f.actors.take(n) =~= f.actors);
    let ids = image(f.actors, |a: StreamActorModel| a.actor_id);
    assert forall|i: int| 0 <= i < n implies (#[trigger] s[i]).actor_id == f.actors[i].actor_id by {
        assert(stored_actor(f.actors[i], status, splits) is Ok);
    }
    assert forall|i: int, j: int| 0 <= i < j < s.len() implies (#[trigger] s[i]).actor_id != (
    #[trigger] s[j]).actor_id by {
        assert(f.actors[i].actor_id != f.actors[j].actor_id);
    }
    lemma_statuses(s);
    assert(actor_ids(s) =~= ids);
    let st = statuses(s);
    let sp = splits_of(s);
    assert forall|i: int| 0 <= i < n implies st[(#[trigger] ids[i])] == status[ids[i]]
        && status.contains_key(ids[i]) && (sp.contains_key(ids[i]) <==> splits.contains_key(ids[i]))
        && (sp.contains_key(ids[i]) ==> sp[ids[i]] == splits[ids[i]]) by {
        assert(stored_actor(f.actors[i], status, splits) is Ok);
        assert(s[i].actor_id == ids[i]);
        assert(stored_actors(f.actors.take(i), status, splits) is Ok);
        assert(presumed_at(f.actors, i, status, splits));
        lemma_actor_again(f, f.actors[i], status, splits);
    }
    assert(st =~= status.restrict(ids.to_set())) by {
        assert forall|id: u32| st.contains_key(id) <==> status.restrict(ids.to_set()).contains_key(
            id,
        ) by {
            assert(st.contains_key(id) <==> ids.contains(id));
            if ids.contains(id) {
                let i = choose|i: int| 0 <= i < ids.len() && ids[i] == id;
            }
        }
        assert forall|id: u32| st.contains_key(id) implies st[id] == status[id] by {
            assert(ids.contains(id));
            let i = choose|i: int| 0 <= i < ids.len() && ids[i] == id;
        }
    }
    assert(sp =~= splits.restrict(ids.to_set())) by {
        assert forall|id: u32| sp.contains_key(id) <==> splits.restrict(ids.to_set()).contains_key(
            id,
        ) by {
            assert(sp.contains_key(id) ==> ids.contains(id));
            if ids.contains(id) {
                let i = choose|i: int| 0 <= i < ids.len() && ids[i] == id;
                assert(ids[i] == id);
            }
        }
        assert forall|id: u32| sp.contains_key(id) implies sp[id] == splits[id] by {
            assert(ids.contains(id));
            let i = choose|i: int| 0 <= i < ids.len() && ids[i] == id;
            assert(ids[i] == id);
        }
    }
    assert(composed_fragment(stored_fragment(job_id, f), f.actors) =~= f);
}

} // verus!
