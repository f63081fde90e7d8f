//! The tree of operators that an actor runs.

use vstd::prelude::*;

use crate::util::id_map::{copy_all, Entry, IdMap};
use crate::util::lists::List;

verus! {

/// An operator that merges what the actors of another fragment send.
#[derive(Debug, PartialEq, Eq)]
pub struct MergeNode {
    pub upstream_actor_id: Vec<u32>,
    pub upstream_fragment_id: u32,
    pub upstream_dispatcher_type: i32,
}

/// The mathematical model of [`MergeNode`].
#[verifier::ext_equal]
pub struct MergeNodeModel {
    pub upstream_actor_id: Seq<u32>,
    pub upstream_fragment_id: u32,
    pub upstream_dispatcher_type: i32,
}

impl View for MergeNode {
    type V = MergeNodeModel;

    open spec fn view(&self) -> MergeNodeModel {
        MergeNodeModel {
            upstream_actor_id: self.upstream_actor_id@,
            upstream_fragment_id: self.upstream_fragment_id,
            upstream_dispatcher_type: self.upstream_dispatcher_type,
        }
    }
}

impl Entry for MergeNode {
    fn duplicate(&self) -> (r: Self) {
        MergeNode {
            upstream_actor_id: copy_all(&self.upstream_actor_id),
            upstream_fragment_id: self.upstream_fragment_id,
            upstream_dispatcher_type: self.upstream_dispatcher_type,
        }
    }
}

/// What an operator does.
#[derive(Debug, PartialEq, Eq)]
pub enum NodeBody {
    Merge(MergeNode),
    /// Reads the external source with this identifier, if it reads one.
    Source(Option<u32>),
    /// Reads the past of the source with this identifier.
    SourceBackfill(u32),
    Union,
    /// Any other operator, in its encoded form.
    Other(Vec<u8>),
}

/// The mathematical model of [`NodeBody`].
#[verifier::ext_equal]
pub enum NodeBodyModel {
    Merge(MergeNodeModel),
    Source(Option<u32>),
    SourceBackfill(u32),
    Union,
    Other(Seq<u8>),
}

impl View for NodeBody {
    type V = NodeBodyModel;

    open spec fn view(&self) -> NodeBodyModel {
        match *self {
            NodeBody::Merge(m) => NodeBodyModel::Merge(m@),
            NodeBody::Source(id) => NodeBodyModel::Source(id),
            NodeBody::SourceBackfill(id) => NodeBodyModel::SourceBackfill(id),
            NodeBody::Union => NodeBodyModel::Union,
            NodeBody::Other(bytes) => NodeBodyModel::Other(bytes@),
        }
    }
}

impl Entry for NodeBody {
    fn duplicate(&self) -> (r: Self) {
        match self {
            NodeBody::Merge(m) => NodeBody::Merge(m.duplicate()),
            NodeBody::Source(id) => NodeBody::Source(*id),
            NodeBody::SourceBackfill(id) => NodeBody::SourceBackfill(*id),
            NodeBody::Union => NodeBody::Union,
            NodeBody::Other(bytes) => NodeBody::Other(copy_all(bytes)),
        }
    }
}

/// An operator and those that it reads from.
#[derive(Debug, PartialEq, Eq)]
pub struct StreamNode {
    pub operator_id: u64,
    pub input: Vec<StreamNode>,
    pub identity: String,
    pub node_body: NodeBody,
}

/// The mathematical model of [`StreamNode`].
#[verifier::ext_equal]
pub struct StreamNodeModel {
    pub operator_id: u64,
    pub input: Seq<StreamNodeModel>,
    pub identity: Seq<char>,
    pub node_body: NodeBodyModel,
}

impl StreamNode {
    pub open spec fn model(self) -> StreamNodeModel
        decreases self,
    {
        StreamNodeModel {
            operator_id: self.operator_id,
            input: models(self.input@),
            identity: self.identity@,
            node_body: self.node_body@,
        }
    }
}

/// The models of the operators in `q`.
pub open spec fn models(q: Seq<StreamNode>) -> Seq<StreamNodeModel>
    decreases q,
{
    if q.len() == 0 {
        Seq::empty()
    } else {
        models(q.drop_last()).push(q.last().model())
    }
}

pub proof fn lemma_models(q: Seq<StreamNode>)
    ensures
        models(q).len() == q.len(),
        forall|i: int| 0 <= i < q.len() ==> models(q)[i] == (#[trigger] q[i]).model(),
    decreases q.len(),
{
    if q.len() > 0 {
        lemma_models(q.drop_last());
        assert forall|i: int| 0 <= i < q.len() implies models(q)[i] == (#[trigger] q[i]).model() by {
            if i < q.len() - 1 {
                assert(q.drop_last()[i] == q[i]);
            }
        }
    }
}

proof fn lemma_models_take(q: Seq<StreamNode>, k: int)
    requires
        0 <= k <= q.len(),
    ensures
        models(q).take(k) == models(q.take(k)),
{
    lemma_models(q);
    lemma_models(q.take(k));
    assert forall|i: int| 0 <= i < k implies models(q).take(k)[i] == models(q.take(k))[i] by {
        assert(q.take(k)[i] == q[i]);
    }
    assert(models(q).take(k) =~= models(q.take(k)));
}

impl View for StreamNode {
    type V = StreamNodeModel;

    open spec fn view(&self) -> StreamNodeModel {
        self.model()
    }
}

/// `f` computes `p` on the operators.
pub open spec fn rewrites<F: Fn(&NodeBody) -> NodeBody>(
    f: F,
    p: spec_fn(NodeBodyModel) -> NodeBodyModel,
) -> bool {
    &&& forall|b: &NodeBody| #[trigger] f.requires((b,))
    &&& forall|b: &NodeBody, c: NodeBody| #[trigger] f.ensures((b,), c) ==> c@ == p(b@)
}

/// The tree with `p` applied to every operator.
pub open spec fn visited(n: StreamNodeModel, p: spec_fn(NodeBodyModel) -> NodeBodyModel) -> StreamNodeModel
    decreases n,
{
    StreamNodeModel { node_body: p(n.node_body), input: visited_all(n.input, p), ..n }
}

pub open spec fn visited_all(
    q: Seq<StreamNodeModel>,
    p: spec_fn(NodeBodyModel) -> NodeBodyModel,
) -> Seq<StreamNodeModel>
    decreases q,
{
    if q.len() == 0 {
        Seq::empty()
    } else {
        visited_all(q.drop_last(), p).push(visited(q.last(), p))
    }
}

/// Walks the tree and applies `f` to every operator.
pub(crate) fn visit_stream_node<F: Fn(&NodeBody) -> NodeBody>(
    node: &StreamNode,
    f: &F,
    Ghost(p): Ghost<spec_fn(NodeBodyModel) -> NodeBodyModel>,
) -> (r: StreamNode)
    requires
        rewrites(*f, p),
    ensures
        r@ == visited(node@, p),
    decreases node,
{
    let mut input: Vec<StreamNode> = Vec::new();
    let ghost q = node.input@;
    assert(models(q.take(0)) =~= Seq::empty());
    assert(models(input@) =~= Seq::empty());
    let mut i: usize = 0;
    while i < node.input.len()
        invariant
            i <= node.input.len(),
            q == node.input@,
            rewrites(*f, p),
            models(input@) == visited_all(models(q.take(i as int)), p),
        decreases node.input.len() - i,
    {
        let child = visit_stream_node(&node.input[i], f, Ghost(p));
        let ghost before = input@;
        input.push(child);
        proof {
            assert(input@.drop_last() =~= before);
            assert(q.take(i + 1).drop_last() =~= q.take(i as int));
            assert(q.take(i + 1).last() == q[i as int]);
            let taken = models(q.take(i + 1));
            assert(taken.drop_last() =~= models(q.take(i as int)));
        }
        i = i + 1;
    }
    assert(q.take(i as int) =~= q);
    StreamNode {
        operator_id: node.operator_id,
        input,
        identity: node.identity.clone(),
        node_body: f(&node.node_body),
    }
}

/// Leaves every operator as it is.
pub open spec fn kept() -> spec_fn(NodeBodyModel) -> NodeBodyModel {
    |b: NodeBodyModel| b
}

proof fn lemma_kept(n: StreamNodeModel)
    ensures
        visited(n, kept()) == n,
    decreases n,
{
    lemma_kept_all(n.input);
}

proof fn lemma_kept_all(q: Seq<StreamNodeModel>)
    ensures
        visited_all(q, kept()) == q,
    decreases q,
{
    if q.len() > 0 {
        lemma_kept_all(q.drop_last());
        lemma_kept(q.last());
        assert(q.drop_last().push(q.last()) =~= q);
    }
}

impl Entry for StreamNode {
    fn duplicate(&self) -> (r: Self) {
        let f = |b: &NodeBody| -> (c: NodeBody)
            ensures
                c@ == b@,
        {
            b.duplicate()
        };
        proof {
            lemma_kept(self@);
        }
        visit_stream_node(self, &f, Ghost(kept()))
    }
}

// ---------------------------------------------------------------------------
// What an operator merges.
// ---------------------------------------------------------------------------

/// The operator without the actors that it merges.
pub open spec fn cleared() -> spec_fn(NodeBodyModel) -> NodeBodyModel {
    |b: NodeBodyModel|
        match b {
            NodeBodyModel::Merge(m) => NodeBodyModel::Merge(
                MergeNodeModel { upstream_actor_id: Seq::empty(), ..m },
            ),
            _ => b,
        }
}

/// The operator with the actors that `links` gives for the fragment that it merges.
pub open spec fn linked(links: Map<u32, Seq<u32>>) -> spec_fn(NodeBodyModel) -> NodeBodyModel {
    |b: NodeBodyModel|
        match b {
            NodeBodyModel::Merge(m) => if links.contains_key(m.upstream_fragment_id) {
                NodeBodyModel::Merge(
                    MergeNodeModel { upstream_actor_id: links[m.upstream_fragment_id], ..m },
                )
            } else {
                b
            },
            _ => b,
        }
}

/// The fragment that an operator merges, with the actors of it.
pub open spec fn link_of(b: NodeBodyModel) -> Seq<(u32, Seq<u32>)> {
    match b {
        NodeBodyModel::Merge(m) => seq![(m.upstream_fragment_id, m.upstream_actor_id)],
        _ => Seq::empty(),
    }
}

/// What the operators of the tree merge, the root first.
pub open spec fn links_of(n: StreamNodeModel) -> Seq<(u32, Seq<u32>)>
    decreases n,
{
    link_of(n.node_body) + links_of_all(n.input)
}

pub open spec fn links_of_all(q: Seq<StreamNodeModel>) -> Seq<(u32, Seq<u32>)>
    decreases q,
{
    if q.len() == 0 {
        Seq::empty()
    } else {
        links_of_all(q.drop_last()) + links_of(q.last())
    }
}

/// No fragment is merged twice: there is only one link between two fragments.
pub open spec fn single_links(links: Seq<(u32, Seq<u32>)>) -> bool {
    forall|i: int, j: int| 0 <= i < j < links.len() ==> (#[trigger] links[i]).0 != (#[trigger] links[j]).0
}

/// The actors of each merged fragment.
pub open spec fn link_map(links: Seq<(u32, Seq<u32>)>) -> Map<u32, Seq<u32>>
    decreases links.len(),
{
    if links.len() == 0 {
        Map::empty()
    } else {
        link_map(links.drop_last()).insert(links.last().0, links.last().1)
    }
}

/// The model of a list of links.
pub open spec fn link_views(v: Seq<(u32, List<u32>)>) -> Seq<(u32, Seq<u32>)> {
    Seq::new(v.len(), |i: int| (v[i].0, v[i].1@))
}

impl StreamNode {
    /// The tree without the actors that its operators merge.
    pub fn template(&self) -> (r: StreamNode)
        ensures
            r@ == visited(self@, cleared()),
    {
        let f = |b: &NodeBody| -> (c: NodeBody)
            ensures
                c@ == cleared()(b@),
        {
            match b {
                NodeBody::Merge(m) => {
                    let none: Vec<u32> = Vec::new();
                    assert(none@ =~= Seq::<u32>::empty());
                    NodeBody::Merge(
                        MergeNode {
                            upstream_actor_id: none,
                            upstream_fragment_id: m.upstream_fragment_id,
                            upstream_dispatcher_type: m.upstream_dispatcher_type,
                        },
                    )
                },
                other => other.duplicate(),
            }
        };
        visit_stream_node(self, &f, Ghost(cleared()))
    }

    /// The tree with the actors that `links` gives for each fragment that is merged.
    pub fn with_links(&self, links: &IdMap<List<u32>>) -> (r: StreamNode)
        ensures
            r@ == visited(self@, linked(links@)),
    {
        let f = |b: &NodeBody| -> (c: NodeBody)
            ensures
                c@ == linked(links@)(b@),
        {
            match b {
                NodeBody::Merge(m) => match links.get(m.upstream_fragment_id) {
                    Some(ids) => {
                        let actors = copy_all(&ids.items);
                        assert(actors@ =~= ids@);
                        NodeBody::Merge(
                            MergeNode {
                                upstream_actor_id: actors,
                                upstream_fragment_id: m.upstream_fragment_id,
                                upstream_dispatcher_type: m.upstream_dispatcher_type,
                            },
                        )
                    },
                    None => b.duplicate(),
                },
                other => other.duplicate(),
            }
        };
        visit_stream_node(self, &f, Ghost(linked(links@)))
    }

    /// Appends what the operators of the tree merge, the root first.
    pub fn collect_links(&self, links: &mut Vec<(u32, List<u32>)>)
        ensures
            link_views(final(links)@) == link_views(old(links)@) + links_of(self@),
        decreases self,
    {
        let ghost before = link_views(links@);
        let ghost q = self.input@;
        match &self.node_body {
            NodeBody::Merge(m) => {
                let actors = List { items: copy_all(&m.upstream_actor_id) };
                assert(actors@ =~= m.upstream_actor_id@);
                let ghost so_far = links@;
                links.push((m.upstream_fragment_id, actors));
                assert(link_views(links@) =~= before + link_of(self@.node_body));
            },
            _ => {
                assert(link_views(links@) =~= before + link_of(self@.node_body));
            },
        }
        let ghost own = before + link_of(self@.node_body);
        let mut i: usize = 0;
        assert(models(q.take(0)) =~= Seq::empty());
        assert(own + links_of_all(models(q.take(0))) =~= own);
        while i < self.input.len()
            invariant
                i <= self.input.len(),
                q == self.input@,
                link_views(links@) == own + links_of_all(models(q.take(i as int))),
            decreases self.input.len() - i,
        {
            self.input[i].collect_links(links);
            proof {
                assert(q.take(i + 1).drop_last() =~= q.take(i as int));
                assert(q.take(i + 1).last() == q[i as int]);
                let taken = models(q.take(i + 1));
                assert(taken.drop_last() =~= models(q.take(i as int)));
                assert(link_views(links@) =~= own + (links_of_all(models(q.take(i as int)))
                    + links_of(q[i as int].model())));
            }
            i = i + 1;
        }
        assert(q.take(i as int) =~= q);
        assert(own + links_of_all(self@.input) =~= before + links_of(self@));
    }
}

// ---------------------------------------------------------------------------
// What an operator reads.
// ---------------------------------------------------------------------------

/// The external source that an operator reads.
pub open spec fn source_of() -> spec_fn(NodeBodyModel) -> Option<u32> {
    |b: NodeBodyModel|
        match b {
            NodeBodyModel::Source(id) => id,
            _ => None,
        }
}

/// The source whose past an operator reads.
pub open spec fn backfill_of() -> spec_fn(NodeBodyModel) -> Option<u32> {
    |b: NodeBodyModel|
        match b {
            NodeBodyModel::SourceBackfill(id) => Some(id),
            _ => None,
        }
}

/// What `p` finds first in the tree, looking at an operator before its inputs.
pub open spec fn found(n: StreamNodeModel, p: spec_fn(NodeBodyModel) -> Option<u32>) -> Option<u32>
    decreases n,
{
    match p(n.node_body) {
        Some(id) => Some(id),
        None => found_in(n.input, p),
    }
}

pub open spec fn found_in(q: Seq<StreamNodeModel>, p: spec_fn(NodeBodyModel) -> Option<u32>) -> Option<u32>
    decreases q,
{
    if q.len() == 0 {
        None
    } else {
        match found_in(q.drop_last(), p) {
            Some(id) => Some(id),
            None => found(q.last(), p),
        }
    }
}

proof fn lemma_found_early(
    q: Seq<StreamNodeModel>,
    k: int,
    p: spec_fn(NodeBodyModel) -> Option<u32>,
)
    requires
        0 <= k <= q.len(),
        found_in(q.take(k), p) is Some,
    ensures
        found_in(q, p) == found_in(q.take(k), p),
    decreases q.len() - k,
{
    if k < q.len() {
        assert(q.take(k + 1).drop_last() =~= q.take(k));
        lemma_found_early(q, k + 1, p);
    } else {
        assert(q.take(k) =~= q);
    }
}

impl StreamNode {
    /// Find the external stream source info inside the stream node, if any.
    pub fn find_stream_source(&self) -> (r: Option<u32>)
        ensures
            r == found(self@, source_of()),
        decreases self,
    {
        match &self.node_body {
            NodeBody::Source(Some(id)) => {
                return Some(*id);
            },
            _ => {},
        }
        let ghost q = self.input@;
        let mut i: usize = 0;
        assert(models(q.take(0)) =~= Seq::empty());
        while i < self.input.len()
            invariant
                i <= self.input.len(),
                q == self.input@,
                source_of()(self@.node_body) is None,
                found_in(models(q.take(i as int)), source_of()) is None,
            decreases self.input.len() - i,
        {
            let source = self.input[i].find_stream_source();
            proof {
                lemma_models(q);
                lemma_models_take(q, i + 1);
                assert(q.take(i + 1).drop_last() =~= q.take(i as int));
                assert(q.take(i + 1).last() == q[i as int]);
                let taken = models(q.take(i + 1));
                assert(taken.drop_last() =~= models(q.take(i as int)));
            }
            if source.is_some() {
                proof {
                    lemma_found_early(models(q), i + 1, source_of());
                }
                return source;
            }
            i = i + 1;
        }
        assert(q.take(i as int) =~= q);
        None
    }

    /// Find the source that is backfilled inside the stream node, if any.
    pub fn find_source_backfill(&self) -> (r: Option<u32>)
        ensures
            r == found(self@, backfill_of()),
        decreases self,
    {
        match &self.node_body {
            NodeBody::SourceBackfill(id) => {
                return Some(*id);
            },
            _ => {},
        }
        let ghost q = self.input@;
        let mut i: usize = 0;
        assert(models(q.take(0)) =~= Seq::empty());
        while i < self.input.len()
            invariant
                i <= self.input.len(),
                q == self.input@,
                backfill_of()(self@.node_body) is None,
                found_in(models(q.take(i as int)), backfill_of()) is None,
            decreases self.input.len() - i,
        {
            let source = self.input[i].find_source_backfill();
            proof {
                lemma_models(q);
                lemma_models_take(q, i + 1);
                assert(q.take(i + 1).drop_last() =~= q.take(i as int));
                assert(q.take(i + 1).last() == q[i as int]);
                let taken = models(q.take(i + 1));
                assert(taken.drop_last() =~= models(q.take(i as int)));
            }
            if source.is_some() {
                proof {
                    lemma_found_early(models(q), i + 1, backfill_of());
                }
                return source;
            }
            i = i + 1;
        }
        assert(q.take(i as int) =~= q);
        None
    }
}

// ---------------------------------------------------------------------------
// Clearing and linking undo each other.
// ---------------------------------------------------------------------------

/// `m` gives for each link the actors of it.
pub open spec fn agrees(links: Seq<(u32, Seq<u32>)>, m: Map<u32, Seq<u32>>) -> bool {
    forall|i: int|
        0 <= i < links.len() ==> m.contains_key((#[trigger] links[i]).0) && m[links[i].0] == links[i].1
}

/// Links that are not doubled can be read back from their map.
pub proof fn lemma_link_map(links: Seq<(u32, Seq<u32>)>)
    requires
        single_links(links),
    ensures
        agrees(links, link_map(links)),
        forall|f: u32| #[trigger]
            link_map(links).contains_key(f) ==> exists|i: int|
                0 <= i < links.len() && (#[trigger] links[i]).0 == f,
    decreases links.len(),
{
    if links.len() > 0 {
        let d = links.drop_last();
        assert(single_links(d)) by {
            assert forall|i: int, j: int| 0 <= i < j < d.len() implies (#[trigger] d[i]).0 != (
            #[trigger] d[j]).0 by {
                assert(d[i] == links[i] && d[j] == links[j]);
            }
        }
        lemma_link_map(d);
        assert forall|i: int| 0 <= i < links.len() implies link_map(links).contains_key(
            (#[trigger] links[i]).0,
        ) && link_map(links)[links[i].0] == links[i].1 by {
            if i < d.len() {
                assert(d[i] == links[i]);
                assert(links[links.len() - 1].0 != links[i].0);
            }
        }
        assert forall|f: u32| #[trigger] link_map(links).contains_key(f) implies exists|i: int|
            0 <= i < links.len() && (#[trigger] links[i]).0 == f by {
            if link_map(d).contains_key(f) {
                let i = choose|i: int| 0 <= i < d.len() && (#[trigger] d[i]).0 == f;
                assert(links[i] == d[i]);
            } else {
                assert(links[links.len() - 1].0 == f);
            }
        }
    }
}

/// A tree whose merges were cleared is the tree again once its links are filled in.
pub proof fn lemma_linked_again(n: StreamNodeModel, m: Map<u32, Seq<u32>>)
    requires
        agrees(links_of(n), m),
    ensures
        visited(visited(n, cleared()), linked(m)) == n,
    decreases n,
{
    let own = link_of(n.node_body);
    let below = links_of_all(n.input);
    assert(agrees(own, m)) by {
        assert forall|i: int| 0 <= i < own.len() implies m.contains_key((#[trigger] own[i]).0)
            && m[own[i].0] == own[i].1 by {
            assert((own + below)[i] == own[i]);
        }
    }
    assert(agrees(below, m)) by {
        assert forall|i: int| 0 <= i < below.len() implies m.contains_key((#[trigger] below[i]).0)
            && m[below[i].0] == below[i].1 by {
            assert((own + below)[own.len() + i] == below[i]);
        }
    }
    lemma_linked_again_all(n.input, m);
    match n.node_body {
        NodeBodyModel::Merge(x) => {
            assert(own[0] == (x.upstream_fragment_id, x.upstream_actor_id));
        },
        _ => {},
    }
}

proof fn lemma_linked_again_all(q: Seq<StreamNodeModel>, m: Map<u32, Seq<u32>>)
    requires
        agrees(links_of_all(q), m),
    ensures
        visited_all(visited_all(q, cleared()), linked(m)) == q,
    decreases q,
{
    if q.len() > 0 {
        let first = links_of_all(q.drop_last());
        let last = links_of(q.last());
        assert(agrees(first, m)) by {
            assert forall|i: int| 0 <= i < first.len() implies m.contains_key((#[trigger] first[i]).0)
                && m[first[i].0] == first[i].1 by {
                assert((first + last)[i] == first[i]);
            }
        }
        assert(agrees(last, m)) by {
            assert forall|i: int| 0 <= i < last.len() implies m.contains_key((#[trigger] last[i]).0)
                && m[last[i].0] == last[i].1 by {
                assert((first + last)[first.len() + i] == last[i]);
            }
        }
        lemma_linked_again_all(q.drop_last(), m);
        lemma_linked_again(q.last(), m);
        let c = visited_all(q, cleared());
        assert(c.drop_last() =~= visited_all(q.drop_last(), cleared()));
        assert(q.drop_last().push(q.last()) =~= q);
    }
}

} // verus!
