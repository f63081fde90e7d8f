//! The fragments of streaming jobs, put together from stored rows.

use vstd::prelude::*;

use crate::catalog::error::{MetaError, MetaErrorModel, MetaResult};
use crate::fragment::compose::{
    actor_ids, composed, composed_actors, composed_table, statuses, stored_views, Composed,
};
use crate::fragment::controller::CatalogController;
use crate::fragment::extract::Stored;
use crate::fragment::types::{
    JobStatus, StoredActor, StoredActorModel, StoredDispatcher, StoredDispatcherModel,
    StoredFragment, StoredFragmentModel, StreamActor, StreamActorModel, StreamContext,
    StreamContextModel, StreamingParallelism, TableFragments, TableFragmentsModel,
};
use crate::util::groups::{grouped, lemma_grouped_push, push_at};
use crate::util::id_map::{duplicate_all, opt_view, views, Entry, IdMap};
use crate::util::lists::{gather, lemma_gather_push, List};

verus! {

/// A stored fragment with its stored actors.
pub type FragmentActors = (StoredFragmentModel, Seq<StoredActorModel>);

/// The models of fragments with their actors.
pub open spec fn pair_views(q: Seq<(StoredFragment, Vec<StoredActor>)>) -> Seq<FragmentActors> {
    Seq::new(q.len(), |i: int| (q[i].0@, views(q[i].1@)))
}

/// The actors of all fragments.
pub open spec fn all_actor_ids(q: Seq<FragmentActors>) -> Seq<u32> {
    gather(q, |x: FragmentActors| actor_ids(x.1))
}

/// Each fragment with the dispatchers of its actors, out of those that the fragments before it did
/// not take.
pub open spec fn attached(
    q: Seq<FragmentActors>,
    d: Map<u32, Seq<StoredDispatcherModel>>,
) -> Seq<Stored> {
    Seq::new(
        q.len(),
        |i: int|
            (
                q[i].0,
                q[i].1,
                d.remove_keys(all_actor_ids(q.take(i)).to_set()).restrict(
                    actor_ids(q[i].1).to_set(),
                ),
            ),
    )
}

/// Takes the dispatchers of these actors out.
fn take_dispatchers(
    actors: &Vec<StoredActor>,
    dispatchers: &mut IdMap<List<StoredDispatcher>>,
) -> (r: IdMap<List<StoredDispatcher>>)
    ensures
        r@ == old(dispatchers)@.restrict(actor_ids(views(actors@)).to_set()),
        final(dispatchers)@ == old(dispatchers)@.remove_keys(actor_ids(views(actors@)).to_set()),
{
    let ghost d = dispatchers@;
    let ghost ids = actor_ids(views(actors@));
    let mut r: IdMap<List<StoredDispatcher>> = IdMap::new();
    let mut i: usize = 0;
    proof {
        assert(ids.take(0).to_set() =~= Set::empty());
        assert(r@ =~= d.restrict(ids.take(0).to_set()));
        assert(d =~= d.remove_keys(ids.take(0).to_set()));
    }
    while i < actors.len()
        invariant
            i <= actors.len(),
            ids == actor_ids(views(actors@)),
            r@ == d.restrict(ids.take(i as int).to_set()),
            dispatchers@ == d.remove_keys(ids.take(i as int).to_set()),
        decreases actors.len() - i,
    {
        let id: u32 = actors[i].actor_id;
        proof {
            assert(ids[i as int] == id);
            assert(ids.take(i + 1) =~= ids.take(i as int).push(id));
            assert(ids.take(i + 1).to_set() =~= ids.take(i as int).to_set().insert(id)) by {
                broadcast use Seq::lemma_push_to_set_commute;

            }
        }
        match dispatchers.remove(id) {
            Some(list) => {
                r.insert(id, list);
            },
            None => {},
        }
        proof {
            assert(r@ =~= d.restrict(ids.take(i + 1).to_set()));
            assert(dispatchers@ =~= d.remove_keys(ids.take(i + 1).to_set()));
        }
        i = i + 1;
    }
    assert(ids.take(i as int) =~= ids);
    r
}

/// Each fragment with the dispatchers of its actors.
fn attach_dispatchers(
    fragment_actors: Vec<(StoredFragment, Vec<StoredActor>)>,
    actor_dispatchers: IdMap<List<StoredDispatcher>>,
) -> (r: Vec<(StoredFragment, Vec<StoredActor>, IdMap<List<StoredDispatcher>>)>)
    ensures
        stored_views(r@) == attached(pair_views(fragment_actors@), actor_dispatchers@),
{
    let ghost q = pair_views(fragment_actors@);
    let ghost d = actor_dispatchers@;
    let ghost p = |x: FragmentActors| actor_ids(x.1);
    let mut left = actor_dispatchers;
    let mut r: Vec<(StoredFragment, Vec<StoredActor>, IdMap<List<StoredDispatcher>>)> = Vec::new();
    let mut i: usize = 0;
    proof {
        assert(q.take(0) =~= Seq::empty());
        assert(all_actor_ids(q.take(0)).to_set() =~= Set::empty());
        assert(d =~= d.remove_keys(all_actor_ids(q.take(0)).to_set()));
    }
    while i < fragment_actors.len()
        invariant
            i <= fragment_actors.len(),
            q == pair_views(fragment_actors@),
            p == (|x: FragmentActors| actor_ids(x.1)),
            left@ == d.remove_keys(all_actor_ids(q.take(i as int)).to_set()),
            stored_views(r@) == attached(q, d).take(i as int),
        decreases fragment_actors.len() - i,
    {
        let row = &fragment_actors[i];
        let ghost before = r@;
        let ghost had = left@;
        let dispatchers = take_dispatchers(&row.1, &mut left);
        r.push((row.0.duplicate(), duplicate_all(&row.1), dispatchers));
        proof {
            let seen = all_actor_ids(q.take(i as int));
            let mine = actor_ids(q[i as int].1);
            assert(q[i as int] == (row.0@, views(row.1@)));
            assert(q.take(i + 1) =~= q.take(i as int).push(q[i as int]));
            lemma_gather_push(q.take(i as int), q[i as int], p);
            assert(all_actor_ids(q.take(i + 1)) == seen + mine);
            assert((seen + mine).to_set() =~= seen.to_set().union(mine.to_set())) by {
                assert forall|x: u32| (seen + mine).contains(x) <==> seen.contains(x)
                    || mine.contains(x) by {
                    lemma_added(seen, mine, x);
                }
            }
            assert(left@ =~= d.remove_keys(all_actor_ids(q.take(i + 1)).to_set()));
            assert(stored_views(r@) =~= stored_views(before).push(attached(q, d)[i as int]));
            assert(stored_views(r@) =~= attached(q, d).take(i + 1));
        }
        i = i + 1;
    }
    assert(stored_views(r@) =~= attached(q, d));
    r
}

proof fn lemma_added(a: Seq<u32>, b: Seq<u32>, x: u32)
    ensures
        (a + b).contains(x) <==> a.contains(x) || b.contains(x),
{
    if a.contains(x) {
        let k = choose|k: int| 0 <= k < a.len() && a[k] == x;
        assert((a + b)[k] == x);
    }
    if b.contains(x) {
        let k = choose|k: int| 0 <= k < b.len() && b[k] == x;
        assert((a + b)[a.len() + k] == x);
    }
    if (a + b).contains(x) {
        let k = choose|k: int| 0 <= k < (a + b).len() && (a + b)[k] == x;
        if k < a.len() {
            assert(a[k] == x);
        } else {
            assert(b[k - a.len()] == x);
        }
    }
}

// ---------------------------------------------------------------------------
// Whole jobs.
// ---------------------------------------------------------------------------

/// What is stored of a streaming job.
#[derive(Debug, PartialEq, Eq)]
pub struct JobInfo {
    pub job_id: u32,
    pub job_status: JobStatus,
    pub timezone: Option<String>,
    pub parallelism: StreamingParallelism,
}

/// The mathematical model of [`JobInfo`].
#[verifier::ext_equal]
pub struct JobInfoModel {
    pub job_id: u32,
    pub job_status: JobStatus,
    pub timezone: Option<Seq<char>>,
    pub parallelism: StreamingParallelism,
}

impl View for JobInfo {
    type V = JobInfoModel;

    open spec fn view(&self) -> JobInfoModel {
        JobInfoModel {
            job_id: self.job_id,
            job_status: self.job_status,
            timezone: opt_view(self.timezone),
            parallelism: self.parallelism,
        }
    }
}

/// The fragments of a job, out of what is stored of it.
pub open spec fn job_fragments(
    job: JobInfoModel,
    q: Seq<FragmentActors>,
    d: Map<u32, Seq<StoredDispatcherModel>>,
) -> Result<TableFragmentsModel, MetaErrorModel> {
    composed_table(
        job.job_id,
        job.job_status,
        match job.timezone {
            Some(timezone) => Some(StreamContextModel { timezone }),
            None => None,
        },
        attached(q, d),
        job.parallelism,
    )
}

fn compose_job(
    job: &JobInfo,
    fragment_actors: Vec<(StoredFragment, Vec<StoredActor>)>,
    actor_dispatchers: IdMap<List<StoredDispatcher>>,
) -> (r: MetaResult<TableFragments>)
    ensures
        match job_fragments(job@, pair_views(fragment_actors@), actor_dispatchers@) {
            Ok(t) => r is Ok && r->Ok_0@ == t,
            Err(e) => r is Err && r->Err_0@ == e,
        },
{
    let ctx = match &job.timezone {
        Some(timezone) => Some(StreamContext { timezone: timezone.clone() }),
        None => None,
    };
    let fragment_info = attach_dispatchers(fragment_actors, actor_dispatchers);
    CatalogController::compose_table_fragments(
        job.job_id,
        job.job_status,
        ctx,
        fragment_info,
        job.parallelism,
    )
}

/// What is stored of a job, with its fragments and the dispatchers of their actors.
pub struct JobRows {
    pub job: JobInfo,
    pub fragment_actors: Vec<(StoredFragment, Vec<StoredActor>)>,
    pub actor_dispatchers: IdMap<List<StoredDispatcher>>,
}

/// The fragments of a job, out of its rows.
pub open spec fn rows_fragments(rows: JobRows) -> Result<TableFragmentsModel, MetaErrorModel> {
    job_fragments(rows.job@, pair_views(rows.fragment_actors@), rows.actor_dispatchers@)
}

/// The fragments of all jobs in `q`, or why those of the first one cannot be put together.
pub open spec fn all_fragments(q: Seq<JobRows>) -> Result<Map<u32, TableFragmentsModel>, MetaErrorModel>
    decreases q.len(),
{
    if q.len() == 0 {
        Ok(Map::empty())
    } else {
        match all_fragments(q.drop_last()) {
            Err(e) => Err(e),
            Ok(m) => match rows_fragments(q.last()) {
                Err(e) => Err(e),
                Ok(t) => Ok(m.insert(q.last().job@.job_id, t)),
            },
        }
    }
}

proof fn lemma_first_broken_job(q: Seq<JobRows>, k: int)
    requires
        0 <= k <= q.len(),
        all_fragments(q.take(k)) is Err,
    ensures
        all_fragments(q) == all_fragments(q.take(k)),
    decreases q.len() - k,
{
    if k < q.len() {
        assert(q.take(k + 1).drop_last() =~= q.take(k));
        lemma_first_broken_job(q, k + 1);
    } else {
        assert(q.take(k) =~= q);
    }
}

fn duplicate_pairs(v: &Vec<(StoredFragment, Vec<StoredActor>)>) -> (r: Vec<
    (StoredFragment, Vec<StoredActor>),
>)
    ensures
        pair_views(r@) == pair_views(v@),
{
    let mut r: Vec<(StoredFragment, Vec<StoredActor>)> = Vec::new();
    let mut i: usize = 0;
    while i < v.len()
        invariant
            i <= v.len(),
            r@.len() == i,
            forall|k: int|
                0 <= k < i ==> (#[trigger] r@[k]).0@ == v@[k].0@ && views(r@[k].1@) == views(
                    v@[k].1@,
                ),
        decreases v.len() - i,
    {
        r.push((v[i].0.duplicate(), duplicate_all(&v[i].1)));
        i = i + 1;
    }
    assert(pair_views(r@) =~= pair_views(v@));
    r
}

impl CatalogController {
    /// The fragments of a job, out of what is stored of it. `job_info` is what is stored of the
    /// job, if anything is.
    pub fn get_job_fragments_by_id(
        job_id: u32,
        job_info: &Option<JobInfo>,
        fragment_actors: Vec<(StoredFragment, Vec<StoredActor>)>,
        actor_dispatchers: IdMap<List<StoredDispatcher>>,
    ) -> (r: MetaResult<TableFragments>)
        ensures
            match opt_view(*job_info) {
                None => r is Err && r->Err_0@ == MetaErrorModel::JobMissing(job_id),
                Some(job) => match job_fragments(
                    JobInfoModel { job_id, ..job },
                    pair_views(fragment_actors@),
                    actor_dispatchers@,
                ) {
                    Ok(t) => r is Ok && r->Ok_0@ == t,
                    Err(e) => r is Err && r->Err_0@ == e,
                },
            },
    {
        match job_info {
            None => Err(MetaError::JobMissing(job_id)),
            Some(info) => {
                let job = JobInfo {
                    job_id,
                    job_status: info.job_status,
                    timezone: crate::util::id_map::duplicate_opt(&info.timezone),
                    parallelism: info.parallelism,
                };
                compose_job(&job, fragment_actors, actor_dispatchers)
            },
        }
    }

    /// The fragments of all jobs, by their identifiers.
    pub fn table_fragments(jobs: &Vec<JobRows>) -> (r: MetaResult<IdMap<TableFragments>>)
        ensures
            match all_fragments(jobs@) {
                Ok(m) => r is Ok && r->Ok_0@ == m,
                Err(e) => r is Err && r->Err_0@ == e,
            },
    {
        let mut r: IdMap<TableFragments> = IdMap::new();
        let mut i: usize = 0;
        assert(jobs@.take(0) =~= Seq::empty());
        while i < jobs.len()
            invariant
                i <= jobs.len(),
                all_fragments(jobs@.take(i as int)) == Ok::<_, MetaErrorModel>(r@),
            decreases jobs.len() - i,
        {
            proof {
                assert(jobs@.take(i + 1).drop_last() =~= jobs@.take(i as int));
                assert(jobs@.take(i + 1).last() == jobs@[i as int]);
            }
            let row = &jobs[i];
            match compose_job(
                &row.job,
                duplicate_pairs(&row.fragment_actors),
                row.actor_dispatchers.duplicate(),
            ) {
                Ok(t) => {
                    r.insert(row.job.job_id, t);
                },
                Err(e) => {
                    proof {
                        lemma_first_broken_job(jobs@, i + 1);
                    }
                    return Err(e);
                },
            }
            i = i + 1;
        }
        assert(jobs@.take(i as int) =~= jobs@);
        Ok(r)
    }
}

// ---------------------------------------------------------------------------
// The actors of each node.
// ---------------------------------------------------------------------------

/// The actors of a fragment, each with the node that it runs on.
pub open spec fn placed(c: Composed) -> Seq<(u32, StreamActorModel)> {
    Seq::new(
        c.0.actors.len(),
        |i: int|
            (
                c.1[c.0.actors[i].actor_id].parallel_unit->0.worker_node_id,
                c.0.actors[i],
            ),
    )
}

/// The actors of the fragments in `q`, each with the node that it runs on, or why the first
/// fragment cannot be put together.
pub open spec fn placed_all(q: Seq<Stored>) -> Result<Seq<(u32, StreamActorModel)>, MetaErrorModel>
    decreases q.len(),
{
    if q.len() == 0 {
        Ok(Seq::empty())
    } else {
        match placed_all(q.drop_last()) {
            Err(e) => Err(e),
            Ok(s) => match composed(q.last()) {
                Err(e) => Err(e),
                Ok(c) => Ok(s + placed(c)),
            },
        }
    }
}

proof fn lemma_first_broken_fragment(q: Seq<Stored>, k: int)
    requires
        0 <= k <= q.len(),
        placed_all(q.take(k)) is Err,
    ensures
        placed_all(q) == placed_all(q.take(k)),
    decreases q.len() - k,
{
    if k < q.len() {
        assert(q.take(k + 1).drop_last() =~= q.take(k));
        lemma_first_broken_fragment(q, k + 1);
    } else {
        assert(q.take(k) =~= q);
    }
}

/// The actors that are put together are those that were stored.
proof fn lemma_composed_ids(
    f: StoredFragmentModel,
    q: Seq<StoredActorModel>,
    d: Map<u32, Seq<StoredDispatcherModel>>,
)
    requires
        composed_actors(f, q, d) is Ok,
    ensures
        composed_actors(f, q, d)->Ok_0.len() == q.len(),
        forall|i: int|
            0 <= i < q.len() ==> (#[trigger] composed_actors(f, q, d)->Ok_0[i]).actor_id
                == q[i].actor_id,
    decreases q.len(),
{
    if q.len() > 0 {
        lemma_composed_ids(f, q.drop_last(), d);
        let s = composed_actors(f, q.drop_last(), d)->Ok_0;
        assert forall|i: int| 0 <= i < q.len() implies (#[trigger] composed_actors(
            f,
            q,
            d,
        )->Ok_0[i]).actor_id == q[i].actor_id by {
            if i < q.len() - 1 {
                assert(composed_actors(f, q, d)->Ok_0[i] == s[i]);
                assert(q.drop_last()[i] == q[i]);
            }
        }
    }
}

/// Each stored actor has a status, with the place that it runs on.
proof fn lemma_status_known(q: Seq<StoredActorModel>)
    ensures
        forall|i: int|
            0 <= i < q.len() ==> statuses(q).contains_key((#[trigger] q[i]).actor_id)
                && statuses(q)[q[i].actor_id].parallel_unit is Some,
    decreases q.len(),
{
    if q.len() > 0 {
        lemma_status_known(q.drop_last());
        assert forall|i: int| 0 <= i < q.len() implies statuses(q).contains_key(
            (#[trigger] q[i]).actor_id,
        ) && statuses(q)[q[i].actor_id].parallel_unit is Some by {
            if i < q.len() - 1 {
                assert(q.drop_last()[i] == q[i]);
            }
        }
    }
}

impl CatalogController {
    /// The actors of each node, in the order of the fragments. Which fragments and actors they
    /// are, [`Self::fragments_with_actors`] selects.
    pub fn all_node_actors(
        fragment_actors: Vec<(StoredFragment, Vec<StoredActor>)>,
        actor_dispatchers: IdMap<List<StoredDispatcher>>,
    ) -> (r: MetaResult<IdMap<List<StreamActor>>>)
        ensures
            match placed_all(attached(pair_views(fragment_actors@), actor_dispatchers@)) {
                Ok(s) => r is Ok && r->Ok_0@ == grouped(s),
                Err(e) => r is Err && r->Err_0@ == e,
            },
    {
        let ghost q = attached(pair_views(fragment_actors@), actor_dispatchers@);
        let info = attach_dispatchers(fragment_actors, actor_dispatchers);
        let mut node_actors: IdMap<List<StreamActor>> = IdMap::new();
        let ghost mut all: Seq<(u32, StreamActorModel)> = Seq::empty();
        let mut i: usize = 0;
        assert(q.take(0) =~= Seq::empty());
        #[verifier::loop_isolation(false)]
        while i < info.len()
            invariant
                i <= info.len(),
                q == stored_views(info@),
                placed_all(q.take(i as int)) == Ok::<_, MetaErrorModel>(all),
                node_actors@ == grouped(all),
            decreases info.len() - i,
        {
            proof {
                assert(q.take(i + 1).drop_last() =~= q.take(i as int));
                assert(q.take(i + 1).last() == q[i as int]);
            }
            let row = &info[i];
            match Self::compose_fragment(
                row.0.duplicate(),
                duplicate_all(&row.1),
                row.2.duplicate(),
            ) {
                Err(e) => {
                    proof {
                        lemma_first_broken_fragment(q, i + 1);
                    }
                    return Err(e);
                },
                Ok((fragment, actor_status, splits)) => {
                    let ghost c: Composed = (fragment@, actor_status@, splits@);
                    let ghost before = all;
                    let ghost pairs = placed(c);
                    proof {
                        lemma_composed_ids(q[i as int].0, q[i as int].1, q[i as int].2);
                        lemma_status_known(q[i as int].1);
                        assert(before + pairs.take(0) =~= before);
                    }
                    let mut j: usize = 0;
                    #[verifier::loop_isolation(false)]
                    while j < fragment.actors.len()
                        invariant
                            j <= fragment.actors.len(),
                            pairs == placed(c),
                            c == (fragment@, actor_status@, splits@),
                            node_actors@ == grouped(before + pairs.take(j as int)),
                        decreases fragment.actors.len() - j,
                    {
                        let actor = fragment.actors[j].duplicate();
                        let ghost id = actor@.actor_id;
                        proof {
                            assert(c.0.actors[j as int] == actor@);
                            assert(q[i as int].1[j as int].actor_id == id);
                            assert((before + pairs.take(j as int)).push(pairs[j as int]) =~= before
                                + pairs.take(j + 1));
                            lemma_grouped_push(
                                Map::empty(),
                                before + pairs.take(j as int),
                                pairs[j as int],
                            );
                        }
                        match actor_status.get(actor.actor_id) {
                            Some(status) => match &status.parallel_unit {
                                Some(unit) => {
                                    push_at(&mut node_actors, unit.worker_node_id, actor);
                                },
                                None => {},
                            },
                            None => {},
                        }
                        j = j + 1;
                    }
                    proof {
                        assert(pairs.take(j as int) =~= pairs);
                        all = before + pairs;
                    }
                },
            }
            i = i + 1;
        }
        assert(q.take(i as int) =~= q);
        Ok(node_actors)
    }
}

} // verus!
