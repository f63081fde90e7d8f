//! Moving actors from one place to another, and telling others which actors own which rows.

use vstd::prelude::*;

use crate::catalog::notify::Operation;
use crate::fragment::controller::CatalogController;
use crate::fragment::types::{
    ParallelUnit, StoredActor, StoredActorModel, StoredFragment, StoredFragmentModel, VnodeMapping,
    VnodeMappingModel,
};
use crate::util::id_map::{copy_all, duplicate_opt, opt_view, views, Entry};
use crate::util::lists::{gather, image, lemma_gather_push};

verus! {

// ---------------------------------------------------------------------------
// Plans.
// ---------------------------------------------------------------------------

/// The actor after one step of the plan: where it runs on the first unit, it moves to the second.
pub open spec fn moved_once(a: StoredActorModel, step: (u32, ParallelUnit)) -> StoredActorModel {
    if a.parallel_unit_id == step.0 {
        StoredActorModel { parallel_unit_id: step.1.id, worker_id: step.1.worker_node_id, ..a }
    } else {
        a
    }
}

/// The actor after all steps of the plan, one behind the other.
pub open spec fn moved(a: StoredActorModel, plan: Seq<(u32, ParallelUnit)>) -> StoredActorModel
    decreases plan.len(),
{
    if plan.len() == 0 {
        a
    } else {
        moved_once(moved(a, plan.drop_last()), plan.last())
    }
}

/// Where the plan moves what runs on `unit`.
pub open spec fn target(plan: Seq<(u32, ParallelUnit)>, unit: u32) -> Option<ParallelUnit>
    decreases plan.len(),
{
    if plan.len() == 0 {
        None
    } else if plan.last().0 == unit {
        Some(plan.last().1)
    } else {
        target(plan.drop_last(), unit)
    }
}

/// The mapping with each unit replaced by the one that the plan moves it to.
pub open spec fn remapped(m: VnodeMappingModel, plan: Seq<(u32, ParallelUnit)>) -> VnodeMappingModel {
    VnodeMappingModel {
        data: image(
            m.data,
            |unit: u32|
                match target(plan, unit) {
                    Some(to) => to.id,
                    None => unit,
                },
        ),
        ..m
    }
}

fn find_target(plan: &Vec<(u32, ParallelUnit)>, unit: u32) -> (r: Option<ParallelUnit>)
    ensures
        r == target(plan@, unit),
{
    let mut i: usize = plan.len();
    assert(plan@.take(i as int) =~= plan@);
    while i > 0
        invariant
            i <= plan.len(),
            target(plan@, unit) == target(plan@.take(i as int), unit),
        decreases i,
    {
        let k: usize = i - 1;
        proof {
            assert(plan@.take(i as int).last() == plan@[k as int]);
            assert(plan@.take(i as int).drop_last() =~= plan@.take(k as int));
        }
        if plan[k].0 == unit {
            let to = &plan[k].1;
            return Some(ParallelUnit { id: to.id, worker_node_id: to.worker_node_id });
        }
        i = k;
    }
    None
}

fn remap(m: &VnodeMapping, plan: &Vec<(u32, ParallelUnit)>) -> (r: VnodeMapping)
    ensures
        r@ == remapped(m@, plan@),
{
    let mut data: Vec<u32> = Vec::new();
    let mut i: usize = 0;
    while i < m.data.len()
        invariant
            i <= m.data.len(),
            data@.len() == i,
            forall|k: int|
                0 <= k < i ==> #[trigger] data@[k] == (match target(plan@, m.data@[k]) {
                    Some(to) => to.id,
                    None => m.data@[k],
                }),
        decreases m.data.len() - i,
    {
        let unit: u32 = m.data[i];
        match find_target(plan, unit) {
            Some(to) => {
                data.push(to.id);
            },
            None => {
                data.push(unit);
            },
        }
        i = i + 1;
    }
    let r = VnodeMapping { original_indices: copy_all(&m.original_indices), data };
    assert(r@.data =~= remapped(m@, plan@).data);
    r
}

// ---------------------------------------------------------------------------
// Which fragments a plan touches.
// ---------------------------------------------------------------------------

/// The mapping of a fragment.
#[derive(Debug, PartialEq, Eq)]
pub struct FragmentMapping {
    pub fragment_id: u32,
    pub mapping: VnodeMapping,
}

/// The mathematical model of [`FragmentMapping`].
#[verifier::ext_equal]
pub struct FragmentMappingModel {
    pub fragment_id: u32,
    pub mapping: VnodeMappingModel,
}

impl View for FragmentMapping {
    type V = FragmentMappingModel;

    open spec fn view(&self) -> FragmentMappingModel {
        FragmentMappingModel { fragment_id: self.fragment_id, mapping: self.mapping@ }
    }
}

impl Entry for FragmentMapping {
    fn duplicate(&self) -> (r: Self) {
        FragmentMapping { fragment_id: self.fragment_id, mapping: self.mapping.duplicate() }
    }
}

/// The mapping of the fragment, once for each of its actors that runs on a unit that the plan
/// moves.
pub open spec fn touched(
    f: StoredFragmentModel,
    actors: Seq<StoredActorModel>,
    plan: Seq<(u32, ParallelUnit)>,
) -> Seq<FragmentMappingModel>
    decreases actors.len(),
{
    if actors.len() == 0 {
        Seq::empty()
    } else {
        let rest = touched(f, actors.drop_last(), plan);
        if actors.last().fragment_id == f.fragment_id && target(
            plan,
            actors.last().parallel_unit_id,
        ) is Some {
            rest.push(
                FragmentMappingModel { fragment_id: f.fragment_id, mapping: f.vnode_mapping },
            )
        } else {
            rest
        }
    }
}

/// The mappings of all fragments that the plan touches.
pub open spec fn touched_all(
    q: Seq<StoredFragmentModel>,
    actors: Seq<StoredActorModel>,
    plan: Seq<(u32, ParallelUnit)>,
) -> Seq<FragmentMappingModel> {
    gather(q, |f: StoredFragmentModel| touched(f, actors, plan))
}

/// The fragment after the plan, where it is touched.
pub open spec fn remapped_fragment(
    f: StoredFragmentModel,
    actors: Seq<StoredActorModel>,
    plan: Seq<(u32, ParallelUnit)>,
) -> StoredFragmentModel {
    if touched(f, actors, plan).len() > 0 {
        StoredFragmentModel { vnode_mapping: remapped(f.vnode_mapping, plan), ..f }
    } else {
        f
    }
}

fn find_touched(
    f: &StoredFragment,
    actors: &Vec<StoredActor>,
    plan: &Vec<(u32, ParallelUnit)>,
) -> (r: Vec<FragmentMapping>)
    ensures
        views(r@) == touched(f@, views(actors@), plan@),
{
    let ghost q = views(actors@);
    let mut r: Vec<FragmentMapping> = Vec::new();
    let mut i: usize = 0;
    proof {
        assert(q.take(0) =~= Seq::empty());
        assert(views(r@) =~= Seq::empty());
    }
    while i < actors.len()
        invariant
            i <= actors.len(),
            q == views(actors@),
            views(r@) == touched(f@, q.take(i as int), plan@),
        decreases actors.len() - i,
    {
        let ghost before = r@;
        proof {
            assert(q.take(i + 1).drop_last() =~= q.take(i as int));
            assert(q.take(i + 1).last() == actors@[i as int]@);
        }
        if actors[i].fragment_id == f.fragment_id {
            match find_target(plan, actors[i].parallel_unit_id) {
                Some(_) => {
                    r.push(
                        FragmentMapping {
                            fragment_id: f.fragment_id,
                            mapping: f.vnode_mapping.duplicate(),
                        },
                    );
                    assert(views(r@) =~= views(before).push(r@[r@.len() - 1]@));
                },
                None => {},
            }
        }
        i = i + 1;
    }
    assert(q.take(i as int) =~= q);
    r
}

fn move_actors(actors: &mut Vec<StoredActor>, plan: &Vec<(u32, ParallelUnit)>)
    ensures
        views(final(actors)@) == image(
            views(old(actors)@),
            |a: StoredActorModel| moved(a, plan@),
        ),
{
    let ghost q = views(actors@);
    let mut new: Vec<StoredActor> = Vec::new();
    let mut i: usize = 0;
    while i < actors.len()
        invariant
            i <= actors.len(),
            q == views(actors@),
            new@.len() == i,
            forall|k: int| 0 <= k < i ==> (#[trigger] new@[k])@ == moved(q[k], plan@),
        decreases actors.len() - i,
    {
        let mut actor = actors[i].duplicate();
        let ghost a = actor@;
        let mut j: usize = 0;
        assert(plan@.take(0) =~= Seq::empty());
        while j < plan.len()
            invariant
                j <= plan.len(),
                actor@ == moved(a, plan@.take(j as int)),
            decreases plan.len() - j,
        {
            let ghost had = actor@;
            proof {
                assert(plan@.take(j + 1).drop_last() =~= plan@.take(j as int));
                assert(plan@.take(j + 1).last() == plan@[j as int]);
            }
            if actor.parallel_unit_id == plan[j].0 {
                actor.parallel_unit_id = plan[j].1.id;
                actor.worker_id = plan[j].1.worker_node_id;
            }
            assert(actor@ =~= moved_once(had, plan@[j as int]));
            j = j + 1;
        }
        assert(plan@.take(j as int) =~= plan@);
        assert(q[i as int] == a);
        new.push(actor);
        i = i + 1;
    }
    *actors = new;
    assert(views(actors@) =~= image(q, |a: StoredActorModel| moved(a, plan@)));
}

impl CatalogController {
    /// Moves the actors that run on the units of the plan, in the order in which the plan is
    /// walked, and replaces the units in the mappings of the fragments that have an actor on one of
    /// these units then. Gives the mappings that others are told of: the ones that the fragments
    /// had.
    pub fn migrate_actors(
        actors: &mut Vec<StoredActor>,
        fragments: &mut Vec<StoredFragment>,
        plan: &Vec<(u32, ParallelUnit)>,
    ) -> (r: Vec<FragmentMapping>)
        ensures
            views(final(actors)@) == image(
                views(old(actors)@),
                |a: StoredActorModel| moved(a, plan@),
            ),
            views(final(fragments)@) == image(
                views(old(fragments)@),
                |f: StoredFragmentModel| remapped_fragment(f, views(final(actors)@), plan@),
            ),
            views(r@) == touched_all(views(old(fragments)@), views(final(actors)@), plan@),
    {
        move_actors(actors, plan);
        let ghost moved_actors = views(actors@);
        let ghost q = views(fragments@);
        let ghost p = |f: StoredFragmentModel| touched(f, moved_actors, plan@);
        let mut notified: Vec<FragmentMapping> = Vec::new();
        let mut new: Vec<StoredFragment> = Vec::new();
        let mut i: usize = 0;
        proof {
            assert(q.take(0) =~= Seq::empty());
            assert(views(notified@) =~= Seq::empty());
        }
        while i < fragments.len()
            invariant
                i <= fragments.len(),
                q == views(fragments@),
                moved_actors == views(actors@),
                p == (|f: StoredFragmentModel| touched(f, moved_actors, plan@)),
                new@.len() == i,
                forall|k: int|
                    0 <= k < i ==> (#[trigger] new@[k])@ == remapped_fragment(
                        q[k],
                        moved_actors,
                        plan@,
                    ),
                views(notified@) == gather(q.take(i as int), p),
            decreases fragments.len() - i,
        {
            let mut f = fragments[i].duplicate();
            let ghost had = f@;
            assert(q[i as int] == had);
            let rows = find_touched(&f, actors, plan);
            assert(views(rows@).len() == rows@.len());
            if rows.len() > 0 {
                let mapping = remap(&f.vnode_mapping, plan);
                f.vnode_mapping = mapping;
            }
            assert(f@ =~= remapped_fragment(had, moved_actors, plan@));
            new.push(f);
            crate::util::lists::append_all(&mut notified, rows);
            proof {
                assert(q.take(i + 1) =~= q.take(i as int).push(had));
                lemma_gather_push(q.take(i as int), had, p);
            }
            i = i + 1;
        }
        assert(q.take(i as int) =~= q);
        *fragments = new;
        proof {
            assert(views(fragments@) =~= image(
                q,
                |f: StoredFragmentModel| remapped_fragment(f, moved_actors, plan@),
            ));
            assert(q == views(old(fragments)@));
        }
        notified
    }
}

// ---------------------------------------------------------------------------
// Messages.
// ---------------------------------------------------------------------------

/// Which slots of which nodes own the rows of a fragment.
#[derive(Debug, PartialEq, Eq)]
pub struct WorkerSlotMapping {
    pub original_indices: Vec<u32>,
    pub data: Vec<u64>,
}

/// The mathematical model of [`WorkerSlotMapping`].
#[verifier::ext_equal]
pub struct WorkerSlotMappingModel {
    pub original_indices: Seq<u32>,
    pub data: Seq<u64>,
}

impl View for WorkerSlotMapping {
    type V = WorkerSlotMappingModel;

    open spec fn view(&self) -> WorkerSlotMappingModel {
        WorkerSlotMappingModel { original_indices: self.original_indices@, data: self.data@ }
    }
}

impl Entry for WorkerSlotMapping {
    fn duplicate(&self) -> (r: Self) {
        WorkerSlotMapping {
            original_indices: copy_all(&self.original_indices),
            data: copy_all(&self.data),
        }
    }
}

/// The slots of a fragment.
#[derive(Debug, PartialEq, Eq)]
pub struct FragmentWorkerSlotMapping {
    pub fragment_id: u32,
    pub mapping: Option<WorkerSlotMapping>,
}

/// The mathematical model of [`FragmentWorkerSlotMapping`].
#[verifier::ext_equal]
pub struct FragmentWorkerSlotMappingModel {
    pub fragment_id: u32,
    pub mapping: Option<WorkerSlotMappingModel>,
}

impl View for FragmentWorkerSlotMapping {
    type V = FragmentWorkerSlotMappingModel;

    open spec fn view(&self) -> FragmentWorkerSlotMappingModel {
        FragmentWorkerSlotMappingModel {
            fragment_id: self.fragment_id,
            mapping: opt_view(self.mapping),
        }
    }
}

impl Entry for FragmentWorkerSlotMapping {
    fn duplicate(&self) -> (r: Self) {
        FragmentWorkerSlotMapping {
            fragment_id: self.fragment_id,
            mapping: duplicate_opt(&self.mapping),
        }
    }
}

/// What the subscribers in this process are told.
#[derive(Debug, PartialEq, Eq)]
pub enum LocalNotification {
    FragmentMappingsUpsert(Vec<u32>),
    FragmentMappingsDelete(Vec<u32>),
}

/// Messages about the slots of fragments: one to the frontend for each fragment, in their order,
/// then one within this process.
#[derive(Debug, PartialEq, Eq)]
pub struct MappingMessages {
    pub operation: Operation,
    pub frontend: Vec<FragmentWorkerSlotMapping>,
    pub local: LocalNotification,
}

/// The fragments of these mappings.
pub open spec fn mapped_fragments(q: Seq<FragmentWorkerSlotMappingModel>) -> Seq<u32> {
    Seq::new(q.len(), |i: int| q[i].fragment_id)
}

impl CatalogController {
    /// What is said of the slots of fragments.
    pub fn notify_fragment_mapping(
        operation: Operation,
        fragment_mappings: Vec<FragmentWorkerSlotMapping>,
    ) -> (r: MappingMessages)
        ensures
            r.operation == operation,
            views(r.frontend@) == views(fragment_mappings@),
            match r.local {
                LocalNotification::FragmentMappingsUpsert(ids) => operation != Operation::Delete
                    && ids@ == mapped_fragments(views(fragment_mappings@)),
                LocalNotification::FragmentMappingsDelete(ids) => operation == Operation::Delete
                    && ids@ == mapped_fragments(views(fragment_mappings@)),
            },
    {
        let mut fragment_ids: Vec<u32> = Vec::new();
        let mut i: usize = 0;
        while i < fragment_mappings.len()
            invariant
                i <= fragment_mappings.len(),
                fragment_ids@.len() == i,
                forall|k: int|
                    0 <= k < i ==> #[trigger] fragment_ids@[k] == fragment_mappings@[k].fragment_id,
            decreases fragment_mappings.len() - i,
        {
            fragment_ids.push(fragment_mappings[i].fragment_id);
            i = i + 1;
        }
        assert(fragment_ids@ =~= mapped_fragments(views(fragment_mappings@)));
        let local = match operation {
            Operation::Add => LocalNotification::FragmentMappingsUpsert(fragment_ids),
            Operation::Update => LocalNotification::FragmentMappingsUpsert(fragment_ids),
            Operation::Delete => LocalNotification::FragmentMappingsDelete(fragment_ids),
        };
        MappingMessages { operation, frontend: fragment_mappings, local }
    }
}

} // verus!
