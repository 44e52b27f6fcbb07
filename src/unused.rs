//! Finding variables whose values are never used: a bounded forward search
//! from each variable-use source towards the sinks of a function-body graph.
use crate::graph::DataFlowGraph;
use crate::keyed::{
    entries_map, find_entry, insert_item, item_set, items_unique, keys_unique,
    lemma_entries_map_at, lemma_entries_map_contains, reversed, KeyEq,
};
use crate::node::{DataFlowNode, DataFlowNodeId, DataFlowNodeKind, HPos, NodeKey, VariableSourceKind};
use crate::origins::{contains_id, lemma_item_set_keys};
use crate::path::{
    ignores_array_fetch, ignores_property_fetch, path_keys, should_ignore_array_fetch,
    should_ignore_property_fetch, ArrayDataKind, PathKey, PathKind,
};
use vstd::prelude::*;

verus! {

/// How a variable's value is used.
#[derive(Clone, Copy, Debug, PartialEq, Eq, Structural)]
pub enum VariableUsage {
    /// Nothing reads the value.
    NeverReferenced,
    /// The value flows on, but reaches no sink within the search.
    ReferencedButNotUsed,
    /// The value reaches a sink.
    Used,
}

/// The most rounds the forward search takes.
pub const VARIABLE_SEARCH_ROUNDS: usize = 200;

/// A node reached by the search: the position of the variable it started
/// from, the labels of the edges followed, and the variable's kind.
#[derive(Debug)]
pub struct VariableUseNode {
    pub pos: HPos,
    pub path_types: Vec<PathKind>,
    pub kind: VariableSourceKind,
}

/// The search frontier as keys and the labels followed to reach them.
pub type Frontier = Seq<(NodeKey, Seq<PathKey>)>;

pub open spec fn frontier_view(s: Seq<(DataFlowNodeId, VariableUseNode)>) -> Frontier {
    s.map_values(|e: (DataFlowNodeId, VariableUseNode)| (e.0@, path_keys(e.1.path_types@)))
}

/// `s` with `(k, v)` in place of the entry under `k`, or appended.
pub open spec fn put_entry(s: Frontier, k: NodeKey, v: Seq<PathKey>) -> Frontier {
    if exists|i: int| 0 <= i < s.len() && #[trigger] s[i].0 == k {
        s.update(choose|i: int| 0 <= i < s.len() && #[trigger] s[i].0 == k, (k, v))
    } else {
        s.push((k, v))
    }
}

/// `acc` with the first `n` entries of `c` put in, in order.
pub open spec fn extend_frontier(acc: Frontier, c: Frontier, n: nat) -> Frontier
    decreases n,
{
    if n == 0 {
        acc
    } else {
        let e = c[n - 1];
        put_entry(extend_frontier(acc, c, (n - 1) as nat), e.0, e.1)
    }
}

/// Whether an edge labelled `path` is followed after the labels `pts`.
pub open spec fn follows(path: PathKey, pts: Seq<PathKey>) -> bool {
    &&& !ignores_array_fetch(path, ArrayDataKind::ArrayKey, pts)
    &&& !ignores_array_fetch(path, ArrayDataKind::ArrayValue, pts)
    &&& !ignores_property_fetch(path, pts)
}

/// Whether a variable-use source is one whose whole statement may go: pure and
/// of the default kind.
pub open spec fn is_removable_source(n: DataFlowNode) -> bool {
    n.kind matches DataFlowNodeKind::VariableUseSource { pure, kind, .. } && pure && kind
        == VariableSourceKind::Default
}

proof fn lemma_put_entry_replace(s: Frontier, i: int, k: NodeKey, v: Seq<PathKey>)
    requires
        0 <= i < s.len(),
        s[i].0 == k,
        forall|a: int, b: int| 0 <= a < s.len() && 0 <= b < s.len() && a != b ==> s[a].0 != s[b].0,
    ensures
        put_entry(s, k, v) == s.update(i, (k, v)),
{
    let j = choose|j: int| 0 <= j < s.len() && #[trigger] s[j].0 == k;
    assert(j == i);
}

proof fn lemma_put_entry_append(s: Frontier, k: NodeKey, v: Seq<PathKey>)
    requires
        forall|a: int| 0 <= a < s.len() ==> s[a].0 != k,
    ensures
        put_entry(s, k, v) == s.push((k, v)),
{
}

proof fn lemma_child_step_stays_none(
    g: &DataFlowGraph,
    pts: Seq<PathKey>,
    visited: Set<NodeKey>,
    es: Seq<(NodeKey, PathKey)>,
    n: nat,
    m: nat,
)
    requires
        n <= m,
        g.child_step(pts, visited, es, n) is None,
    ensures
        g.child_step(pts, visited, es, m) is None,
    decreases m,
{
    if n < m {
        lemma_child_step_stays_none(g, pts, visited, es, n, (m - 1) as nat);
    }
}

/// Puts `(k, v)` into the frontier, in place of the entry under `k` if there is one.
fn frontier_put(f: &mut Vec<(DataFlowNodeId, VariableUseNode)>, k: DataFlowNodeId, v: VariableUseNode)
    requires
        keys_unique(old(f)@),
    ensures
        keys_unique(final(f)@),
        frontier_view(final(f)@) == put_entry(frontier_view(old(f)@), k@, path_keys(v.path_types@)),
        forall|i: int|
            0 <= i < final(f)@.len() ==> ((#[trigger] final(f)@[i]).1.pos == v.pos && final(f)@[i].1.kind
                == v.kind) || exists|j: int| 0 <= j < old(f)@.len() && final(f)@[i].1 == old(f)@[j].1,
{
    let ghost fv = frontier_view(f@);
    let ghost kv = k@;
    let ghost vv = path_keys(v.path_types@);
    match find_entry(f, &k) {
        Some(i) => {
            proof {
                assert forall|a: int, b: int|
                    0 <= a < fv.len() && 0 <= b < fv.len() && a != b implies fv[a].0 != fv[b].0 by {
                    assert(fv[a].0 == f@[a].0@ && fv[b].0 == f@[b].0@);
                }
                lemma_put_entry_replace(fv, i as int, kv, vv);
            }
            let ghost s = f@;
            let ghost vp = v.pos;
            let ghost vk = v.kind;
            f.set(i, (k, v));
            proof {
                assert forall|a: int| 0 <= a < f@.len() implies ((#[trigger] f@[a]).1.pos == vp
                    && f@[a].1.kind == vk) || exists|j: int| 0 <= j < s.len() && f@[a].1 == s[j].1 by {
                    if a != i {
                        assert(f@[a] == s[a]);
                    }
                }
                assert(keys_unique(f@)) by {
                    assert forall|a: int, b: int|
                        0 <= a < f@.len() && 0 <= b < f@.len() && a != b implies #[trigger] f@[a].0@
                        != #[trigger] f@[b].0@ by {
                        assert(f@[a].0@ == s[a].0@ && f@[b].0@ == s[b].0@);
                    }
                }
                assert(frontier_view(f@) =~= fv.update(i as int, (kv, vv)));
            }
        },
        None => {
            proof {
                assert forall|a: int| 0 <= a < fv.len() implies fv[a].0 != kv by {
                    assert(fv[a].0 == f@[a].0@);
                }
                lemma_put_entry_append(fv, kv, vv);
            }
            let ghost s = f@;
            let ghost vp = v.pos;
            let ghost vk = v.kind;
            f.push((k, v));
            proof {
                assert forall|a: int| 0 <= a < f@.len() implies ((#[trigger] f@[a]).1.pos == vp
                    && f@[a].1.kind == vk) || exists|j: int| 0 <= j < s.len() && f@[a].1 == s[j].1 by {
                    if a < s.len() {
                        assert(f@[a] == s[a]);
                    }
                }
                assert(keys_unique(f@)) by {
                    assert forall|a: int, b: int|
                        0 <= a < f@.len() && 0 <= b < f@.len() && a != b implies #[trigger] f@[a].0@
                        != #[trigger] f@[b].0@ by {
                        if a < s.len() && b < s.len() {
                            assert(f@[a] == s[a] && f@[b] == s[b]);
                        } else if a < s.len() {
                            assert(f@[a] == s[a]);
                        } else {
                            assert(f@[b] == s[b]);
                        }
                    }
                }
                assert(frontier_view(f@) =~= fv.push((kv, vv)));
            }
        },
    }
}

/// A copy of a sequence of labels.
fn copy_paths(v: &Vec<PathKind>) -> (r: Vec<PathKind>)
    ensures
        r@ == v@,
{
    let mut r: Vec<PathKind> = Vec::new();
    let mut i: usize = 0;
    while i < v.len()
        invariant
            i <= v@.len(),
            r@ == v@.take(i as int),
        decreases v@.len() - i,
    {
        r.push(v[i].key_copy());
        i = i + 1;
        assert(r@ =~= v@.take(i as int));
    }
    assert(v@.take(i as int) =~= v@);
    r
}

impl DataFlowGraph {
    /// The edges out of `k` as targets and labels, in the order recorded.
    pub open spec fn edge_seq(&self, k: NodeKey) -> Seq<(NodeKey, PathKey)> {
        if entries_map(self.forward_edges@).contains_key(k) {
            entries_map(self.forward_edges@)[k]@.map_values(
                |e: (DataFlowNodeId, crate::path::DataFlowPath)| (e.0@, e.1.kind@),
            )
        } else {
            Seq::empty()
        }
    }

    /// Following the first `n` edges `es` from a node reached along `pts`:
    /// `None` once an edge leads to a sink; else the new frontier, skipping
    /// visited targets and edges that the fetch rules ignore.
    pub open spec fn child_step(
        &self,
        pts: Seq<PathKey>,
        visited: Set<NodeKey>,
        es: Seq<(NodeKey, PathKey)>,
        n: nat,
    ) -> Option<Frontier>
        decreases n,
    {
        if n == 0 {
            Some(Seq::empty())
        } else {
            match self.child_step(pts, visited, es, (n - 1) as nat) {
                None => None,
                Some(acc) => {
                    let (t, p) = es[n - 1];
                    if self.sink_map().contains_key(t) {
                        None
                    } else if visited.contains(t) || !follows(p, pts) {
                        Some(acc)
                    } else {
                        Some(put_entry(acc, t, pts.push(p)))
                    }
                },
            }
        }
    }

    /// The frontier contributed by `k`, reached along `pts`, or `None` when it
    /// has an edge to a sink.
    pub open spec fn children_of(&self, k: NodeKey, pts: Seq<PathKey>, visited: Set<NodeKey>) -> Option<
        Frontier,
    > {
        self.child_step(pts, visited, self.edge_seq(k), self.edge_seq(k).len())
    }

    /// The first `n` nodes of a round, each marked visited before its edges are followed.
    pub open spec fn round_step(&self, srcs: Frontier, n: nat, visited: Set<NodeKey>) -> (
        Set<NodeKey>,
        Option<Frontier>,
    )
        decreases n,
    {
        if n == 0 {
            (visited, Some(Seq::empty()))
        } else {
            let (v, r) = self.round_step(srcs, (n - 1) as nat, visited);
            match r {
                None => (v, None),
                Some(acc) => {
                    let v2 = v.insert(srcs[n - 1].0);
                    match self.children_of(srcs[n - 1].0, srcs[n - 1].1, v2) {
                        None => (v2, None),
                        Some(c) => (v2, Some(extend_frontier(acc, c, c.len()))),
                    }
                },
            }
        }
    }

    /// The search after `done` rounds.
    pub open spec fn search(&self, done: nat, visited: Set<NodeKey>, frontier: Frontier) -> VariableUsage
        decreases VARIABLE_SEARCH_ROUNDS - done,
    {
        if done >= VARIABLE_SEARCH_ROUNDS || frontier.len() == 0 {
            if done == 1 {
                VariableUsage::NeverReferenced
            } else {
                VariableUsage::ReferencedButNotUsed
            }
        } else {
            let (v2, r) = self.round_step(frontier, frontier.len(), visited);
            match r {
                None => VariableUsage::Used,
                Some(nf) => self.search(done + 1, v2, nf),
            }
        }
    }

    /// How the variable whose use-source is `k` is used.
    pub open spec fn usage(&self, k: NodeKey) -> VariableUsage {
        self.search(0, Set::empty(), seq![(k, Seq::<PathKey>::empty())])
    }
}

proof fn lemma_round_step_stays_used(g: &DataFlowGraph, srcs: Frontier, n: nat, m: nat, visited: Set<NodeKey>)
    requires
        n <= m,
        g.round_step(srcs, n, visited).1 is None,
    ensures
        g.round_step(srcs, m, visited).1 is None,
    decreases m,
{
    if n < m {
        lemma_round_step_stays_used(g, srcs, n, (m - 1) as nat, visited);
    }
}

impl VariableUseNode {
    /// The search's starting point for a vertex with a position, a
    /// variable-use source or a variable-use sink.
    pub fn from(node: &DataFlowNode) -> (r: (DataFlowNodeId, Self))
        requires
            node.kind matches DataFlowNodeKind::Vertex { pos, .. } && pos is Some
                || node.kind is VariableUseSource || node.kind is VariableUseSink,
        ensures
            r.0 == node.id,
            r.1.path_types@.len() == 0,
            r.1.kind == match node.kind {
                DataFlowNodeKind::VariableUseSource { kind, .. } => kind,
                _ => VariableSourceKind::Default,
            },
            r.1.pos == match node.kind {
                DataFlowNodeKind::Vertex { pos, .. } => pos->0,
                DataFlowNodeKind::VariableUseSource { pos, .. } => pos,
                DataFlowNodeKind::VariableUseSink { pos } => pos,
                _ => r.1.pos,
            },
    {
        let id = node.id.key_copy();
        match &node.kind {
            DataFlowNodeKind::Vertex { pos, .. } => (
                id,
                VariableUseNode {
                    pos: pos.unwrap(),
                    path_types: Vec::new(),
                    kind: VariableSourceKind::Default,
                },
            ),
            DataFlowNodeKind::VariableUseSource { kind, pos, .. } => (
                id,
                VariableUseNode { pos: *pos, path_types: Vec::new(), kind: *kind },
            ),
            DataFlowNodeKind::VariableUseSink { pos } => (
                id,
                VariableUseNode {
                    pos: *pos,
                    path_types: Vec::new(),
                    kind: VariableSourceKind::Default,
                },
            ),
            _ => unreached(),
        }
    }
}

/// The frontier that `generated_source_id`, reached along
/// `generated_source.path_types`, contributes; `None` when one of its edges
/// leads to a sink.
pub fn get_variable_child_nodes(
    graph: &DataFlowGraph,
    generated_source_id: &DataFlowNodeId,
    generated_source: &VariableUseNode,
    visited_source_ids: &Vec<DataFlowNodeId>,
) -> (r: Option<Vec<(DataFlowNodeId, VariableUseNode)>>)
    requires
        graph.wf(),
    ensures
        match r {
            None => graph.children_of(
                generated_source_id@,
                path_keys(generated_source.path_types@),
                item_set(visited_source_ids@),
            ) is None,
            Some(c) => keys_unique(c@) && graph.children_of(
                generated_source_id@,
                path_keys(generated_source.path_types@),
                item_set(visited_source_ids@),
            ) == Some(frontier_view(c@)) && forall|i: int|
                0 <= i < c@.len() ==> (#[trigger] c@[i]).1.pos == generated_source.pos && c@[i].1.kind
                    == generated_source.kind,
        },
{
    let ghost pts = path_keys(generated_source.path_types@);
    let ghost vis = item_set(visited_source_ids@);
    let ghost es = graph.edge_seq(generated_source_id@);
    let mut new_child_nodes: Vec<(DataFlowNodeId, VariableUseNode)> = Vec::new();
    assert(frontier_view(new_child_nodes@) =~= Seq::<(NodeKey, Seq<PathKey>)>::empty());
    proof {
        lemma_entries_map_contains(graph.forward_edges@, generated_source_id@);
    }
    let idx = find_entry(&graph.forward_edges, generated_source_id);
    if idx.is_none() {
        return Some(new_child_nodes);
    }
    let idx = idx.unwrap();
    proof {
        lemma_entries_map_at(graph.forward_edges@, idx as int);
    }
    let edges = &graph.forward_edges[idx].1;
    assert(es =~= edges@.map_values(
        |e: (DataFlowNodeId, crate::path::DataFlowPath)| (e.0@, e.1.kind@),
    ));
    let mut j: usize = 0;
    while j < edges.len()
        invariant
            graph.wf(),
            j <= edges@.len(),
            es == edges@.map_values(
                |e: (DataFlowNodeId, crate::path::DataFlowPath)| (e.0@, e.1.kind@),
            ),
            pts == path_keys(generated_source.path_types@),
            vis == item_set(visited_source_ids@),
            es == graph.edge_seq(generated_source_id@),
            keys_unique(new_child_nodes@),
            graph.child_step(pts, vis, es, j as nat) == Some(frontier_view(new_child_nodes@)),
            forall|i: int|
                0 <= i < new_child_nodes@.len() ==> (#[trigger] new_child_nodes@[i]).1.pos
                    == generated_source.pos && new_child_nodes@[i].1.kind == generated_source.kind,
        decreases edges@.len() - j,
    {
        let to_id = &edges[j].0;
        let path = &edges[j].1;
        assert(es[j as int] == (to_id@, path.kind@));
        proof {
            lemma_entries_map_contains(graph.sinks@, to_id@);
        }
        if find_entry(&graph.sinks, to_id).is_some() {
            proof {
                assert(graph.child_step(pts, vis, es, (j + 1) as nat) is None);
                lemma_child_step_stays_none(graph, pts, vis, es, (j + 1) as nat, es.len());
            }
            return None;
        }
        let seen = contains_id(visited_source_ids, to_id);
        proof {
            lemma_item_set_keys(visited_source_ids@, to_id@);
        }
        if seen {
        } else if should_ignore_array_fetch(
            &path.kind,
            ArrayDataKind::ArrayKey,
            &generated_source.path_types,
        ) {
        } else if should_ignore_array_fetch(
            &path.kind,
            ArrayDataKind::ArrayValue,
            &generated_source.path_types,
        ) {
        } else if should_ignore_property_fetch(&path.kind, &generated_source.path_types) {
        } else {
            let mut path_types = copy_paths(&generated_source.path_types);
            let ghost before = path_types@;
            path_types.push(path.kind.key_copy());
            assert(path_keys(path_types@) =~= pts.push(path.kind@));
            let new_destination = VariableUseNode {
                path_types,
                kind: generated_source.kind,
                pos: generated_source.pos,
            };
            let ghost before_put = new_child_nodes@;
            frontier_put(&mut new_child_nodes, to_id.key_copy(), new_destination);
            proof {
                assert forall|a: int| 0 <= a < new_child_nodes@.len() implies (
                #[trigger] new_child_nodes@[a]).1.pos == generated_source.pos
                    && new_child_nodes@[a].1.kind == generated_source.kind by {
                    if !(new_child_nodes@[a].1.pos == generated_source.pos
                        && new_child_nodes@[a].1.kind == generated_source.kind) {
                        let j = choose|j: int| 0 <= j < before_put.len() && new_child_nodes@[a].1 == before_put[j].1;
                        assert(before_put[j].1.pos == generated_source.pos);
                    }
                }
            }
        }
        j = j + 1;
    }
    Some(new_child_nodes)
}

/// A variable whose use-source has an edge straight to a sink is used.
pub proof fn law_edge_to_sink_is_used(g: &DataFlowGraph, k: NodeKey, t: NodeKey)
    requires
        g.wf(),
        g.has_edge(k, t),
        g.sink_map().contains_key(t),
    ensures
        g.usage(k) == VariableUsage::Used,
{
    let fw = g.forward_edges@;
    lemma_entries_map_contains(fw, k);
    let i = choose|i: int| 0 <= i < fw.len() && #[trigger] fw[i].0@ == k;
    lemma_entries_map_at(fw, i);
    let inner = fw[i].1@;
    lemma_entries_map_contains(inner, t);
    let j = choose|j: int| 0 <= j < inner.len() && #[trigger] inner[j].0@ == t;
    let es = g.edge_seq(k);
    assert(es[j].0 == t);
    let v2 = Set::<NodeKey>::empty().insert(k);
    let pts = Seq::<PathKey>::empty();
    assert(g.child_step(pts, v2, es, (j + 1) as nat) is None);
    lemma_child_step_stays_none(g, pts, v2, es, (j + 1) as nat, es.len());
    let start: Frontier = seq![(k, pts)];
    assert(g.children_of(k, pts, v2) is None);
    assert(start[0].0 == k && start[0].1 == pts);
    assert(g.round_step(start, 0, Set::empty()) == (Set::<NodeKey>::empty(), Some(Seq::<(NodeKey, Seq<PathKey>)>::empty())));
    assert(g.round_step(start, 1, Set::empty()).1 is None);
    assert(g.search(0, Set::empty(), start) == VariableUsage::Used);
}

/// Adding an edge from a variable's use-source to a sink makes the variable
/// used, whatever it was before: `after` is the graph with the edge `k -> t`
/// added, as `add_path` leaves it, and `t` is one of its sinks.
pub proof fn law_adding_edge_to_sink_makes_used(
    before: &DataFlowGraph,
    after: &DataFlowGraph,
    k: NodeKey,
    t: NodeKey,
    p: crate::path::DataFlowPath,
)
    requires
        after.wf(),
        k != t,
        after.forward() == before.forward().insert(k, crate::keyed::map_at(before.forward(), k).insert(t, p)),
        after.sink_map().contains_key(t),
    ensures
        after.usage(k) == VariableUsage::Used,
{
    assert(after.has_edge(k, t));
    law_edge_to_sink_is_used(after, k, t);
}

/// The position of a variable-use source as start and end offset.
pub open spec fn pos_key(n: DataFlowNode) -> (u32, u32) {
    match n.kind {
        DataFlowNodeKind::VariableUseSource { pos, .. } => (pos.start_offset, pos.end_offset),
        _ => (0, 0),
    }
}

/// Positions in order: by start offset, then by end offset.
pub open spec fn key_lt(a: (u32, u32), b: (u32, u32)) -> bool {
    a.0 < b.0 || (a.0 == b.0 && a.1 < b.1)
}

/// Nodes in strictly increasing order of position.
pub open spec fn sorted_by_pos(s: Seq<DataFlowNode>) -> bool {
    forall|a: int, b: int| 0 <= a < b < s.len() ==> key_lt(pos_key(s[a]), pos_key(s[b]))
}

impl DataFlowGraph {
    /// The source entry at `i` is a variable-use source and no later one has
    /// its position: it is the one analysed for that position.
    pub open spec fn is_listed_var(&self, i: int) -> bool {
        &&& 0 <= i < self.sources@.len()
        &&& self.sources@[i].1.kind is VariableUseSource
        &&& forall|j: int|
            i < j < self.sources@.len() && (#[trigger] self.sources@[j]).1.kind is VariableUseSource
                ==> pos_key(self.sources@[j].1) != pos_key(self.sources@[i].1)
    }

    /// The variables found unused: a node listed for its position whose
    /// usage is `NeverReferenced` and that may be removed whole.
    pub open spec fn is_unused_var(&self, n: DataFlowNode) -> bool {
        exists|i: int|
            self.is_listed_var(i) && #[trigger] self.sources@[i].1 == n && self.usage(n.id@)
                == VariableUsage::NeverReferenced && is_removable_source(n)
    }

    /// The variables found unused but referenced: every other listed node
    /// that reaches no sink.
    pub open spec fn is_unused_but_referenced_var(&self, n: DataFlowNode) -> bool {
        exists|i: int|
            self.is_listed_var(i) && #[trigger] self.sources@[i].1 == n && (self.usage(n.id@)
                == VariableUsage::ReferencedButNotUsed || (self.usage(n.id@)
                == VariableUsage::NeverReferenced && !is_removable_source(n)))
    }
}

proof fn lemma_listed_keys_differ(g: &DataFlowGraph, i: int, j: int)
    requires
        g.is_listed_var(i),
        g.is_listed_var(j),
        i != j,
    ensures
        pos_key(g.sources@[i].1) != pos_key(g.sources@[j].1),
{
    if i < j {
        assert(g.sources@[j].1.kind is VariableUseSource);
    } else {
        assert(g.sources@[i].1.kind is VariableUseSource);
    }
}

fn node_pos_key(n: &DataFlowNode) -> (r: (u32, u32))
    ensures
        r == pos_key(*n),
{
    match &n.kind {
        DataFlowNodeKind::VariableUseSource { pos, .. } => (pos.start_offset, pos.end_offset),
        _ => (0, 0),
    }
}

fn pos_lt(a: (u32, u32), b: (u32, u32)) -> (r: bool)
    ensures
        r == key_lt(a, b),
{
    a.0 < b.0 || (a.0 == b.0 && a.1 < b.1)
}

/// The indices of the listed variable-use sources, in order.
fn listed_var_indices(graph: &DataFlowGraph) -> (r: Vec<usize>)
    ensures
        forall|k: int| 0 <= k < r@.len() ==> graph.is_listed_var(#[trigger] r@[k] as int),
        forall|i: int| graph.is_listed_var(i) ==> r@.contains(i as usize),
        forall|a: int, b: int| 0 <= a < b < r@.len() ==> r@[a] < r@[b],
{
    let n = graph.sources.len();
    let mut r: Vec<usize> = Vec::new();
    let mut i: usize = 0;
    while i < n
        invariant
            n == graph.sources@.len(),
            i <= n,
            forall|k: int| 0 <= k < r@.len() ==> graph.is_listed_var(#[trigger] r@[k] as int),
            forall|x: int| 0 <= x < i && graph.is_listed_var(x) ==> r@.contains(x as usize),
            forall|a: int, b: int| 0 <= a < b < r@.len() ==> r@[a] < r@[b],
            forall|k: int| 0 <= k < r@.len() ==> r@[k] < i,
        decreases n - i,
    {
        let ghost before = r@;
        if let DataFlowNodeKind::VariableUseSource { .. } = graph.sources[i].1.kind {
            let key = node_pos_key(&graph.sources[i].1);
            let mut later = false;
            let mut j: usize = i + 1;
            while j < n
                invariant
                    n == graph.sources@.len(),
                    i < n,
                    i + 1 <= j <= n,
                    key == pos_key(graph.sources@[i as int].1),
                    !later ==> forall|y: int|
                        i < y < j && (#[trigger] graph.sources@[y]).1.kind is VariableUseSource ==> pos_key(
                            graph.sources@[y].1,
                        ) != key,
                    later ==> !graph.is_listed_var(i as int),
                decreases n - j,
            {
                if !later {
                    if let DataFlowNodeKind::VariableUseSource { .. } = graph.sources[j].1.kind {
                        let kj = node_pos_key(&graph.sources[j].1);
                        if kj.0 == key.0 && kj.1 == key.1 {
                            later = true;
                        }
                    }
                }
                j = j + 1;
            }
            if !later {
                r.push(i);
            }
        }
        proof {
            assert forall|x: int| 0 <= x < i + 1 && graph.is_listed_var(x) implies r@.contains(x as usize) by {
                if x < i {
                    assert(before.contains(x as usize));
                    let m = choose|m: int| 0 <= m < before.len() && before[m] == x as usize;
                    assert(r@[m] == before[m]);
                } else {
                    assert(r@[r@.len() - 1] == i);
                }
            }
        }
        i = i + 1;
    }
    r
}

/// The indices `idx` ordered by the positions of their sources.
fn sort_by_position(graph: &DataFlowGraph, idx: Vec<usize>) -> (r: Vec<usize>)
    requires
        forall|k: int| 0 <= k < idx@.len() ==> graph.is_listed_var(#[trigger] idx@[k] as int),
        forall|a: int, b: int| 0 <= a < b < idx@.len() ==> idx@[a] != idx@[b],
    ensures
        forall|x: usize| r@.contains(x) <==> idx@.contains(x),
        forall|k: int| 0 <= k < r@.len() ==> graph.is_listed_var(#[trigger] r@[k] as int),
        forall|a: int, b: int|
            0 <= a < b < r@.len() ==> key_lt(
                pos_key(graph.sources@[r@[a] as int].1),
                pos_key(graph.sources@[r@[b] as int].1),
            ),
{
    let mut r: Vec<usize> = Vec::new();
    let mut i: usize = 0;
    while i < idx.len()
        invariant
            i <= idx@.len(),
            forall|k: int| 0 <= k < idx@.len() ==> graph.is_listed_var(#[trigger] idx@[k] as int),
            forall|a: int, b: int| 0 <= a < b < idx@.len() ==> idx@[a] != idx@[b],
            forall|x: usize| r@.contains(x) <==> idx@.take(i as int).contains(x),
            forall|k: int| 0 <= k < r@.len() ==> graph.is_listed_var(#[trigger] r@[k] as int),
            forall|a: int, b: int|
                0 <= a < b < r@.len() ==> key_lt(
                    pos_key(graph.sources@[r@[a] as int].1),
                    pos_key(graph.sources@[r@[b] as int].1),
                ),
        decreases idx@.len() - i,
    {
        let x = idx[i];
        let kx = node_pos_key(&graph.sources[x].1);
        let mut p: usize = 0;
        while p < r.len() && !pos_lt(kx, node_pos_key(&graph.sources[r[p]].1))
            invariant
                p <= r@.len(),
                forall|k: int| 0 <= k < r@.len() ==> graph.is_listed_var(#[trigger] r@[k] as int),
                kx == pos_key(graph.sources@[x as int].1),
                forall|k: int| 0 <= k < p ==> !key_lt(kx, #[trigger] pos_key(graph.sources@[r@[k] as int].1)),
            decreases r@.len() - p,
        {
            p = p + 1;
        }
        let ghost before = r@;
        proof {
            assert forall|k: int| 0 <= k < before.len() implies before[k] != x by {
                if before[k] == x {
                    assert(r@.contains(x));
                    assert(idx@.take(i as int).contains(x));
                    let m = choose|m: int| 0 <= m < i && #[trigger] idx@.take(i as int)[m] == x;
                    assert(idx@[m] == x);
                }
            }
            assert forall|k: int| 0 <= k < before.len() implies pos_key(graph.sources@[before[k] as int].1) != kx by {
                lemma_listed_keys_differ(graph, before[k] as int, x as int);
            }
        }
        r.insert(p, x);
        proof {
            assert(idx@.take(i + 1) =~= idx@.take(i as int).push(x));
            assert forall|y: usize| r@.contains(y) <==> idx@.take(i + 1).contains(y) by {
                if r@.contains(y) {
                    let m = choose|m: int| 0 <= m < r@.len() && r@[m] == y;
                    if m < p {
                        assert(before[m] == y);
                        assert(before.contains(y));
                    } else if m > p {
                        assert(before[m - 1] == y);
                        assert(before.contains(y));
                    }
                }
                if before.contains(y) {
                    let m = choose|m: int| 0 <= m < before.len() && before[m] == y;
                    if m < p {
                        assert(r@[m] == y);
                    } else {
                        assert(r@[m + 1] == y);
                    }
                }
                if y == x {
                    assert(r@[p as int] == y);
                    assert(idx@.take(i + 1)[i as int] == x);
                }
                if idx@.take(i + 1).contains(y) {
                    let m = choose|m: int| 0 <= m < i + 1 && #[trigger] idx@.take(i + 1)[m] == y;
                    if m < i {
                        assert(idx@.take(i as int)[m] == y);
                        assert(before.contains(y));
                        let q = choose|q: int| 0 <= q < before.len() && before[q] == y;
                        if q < p {
                            assert(r@[q] == y);
                        } else {
                            assert(r@[q + 1] == y);
                        }
                    } else {
                        assert(r@[p as int] == y);
                    }
                }
                if before.contains(y) {
                    assert(idx@.take(i as int).contains(y));
                    let m = choose|m: int| 0 <= m < i && #[trigger] idx@.take(i as int)[m] == y;
                    assert(idx@.take(i + 1)[m] == y);
                }
            }
            assert forall|a: int, b: int|
                0 <= a < b < r@.len() implies key_lt(
                pos_key(graph.sources@[r@[a] as int].1),
                pos_key(graph.sources@[r@[b] as int].1),
            ) by {
                if b < p {
                    assert(r@[a] == before[a] && r@[b] == before[b]);
                } else if b == p {
                    assert(r@[a] == before[a]);
                    assert(!key_lt(kx, pos_key(graph.sources@[before[a] as int].1)));
                } else if a == p {
                    assert(r@[b] == before[b - 1]);
                    if b - 1 > p {
                        assert(key_lt(
                            pos_key(graph.sources@[before[p as int] as int].1),
                            pos_key(graph.sources@[before[b - 1] as int].1),
                        ));
                    }
                } else if a < p {
                    assert(r@[a] == before[a] && r@[b] == before[b - 1]);
                } else {
                    assert(r@[a] == before[a - 1] && r@[b] == before[b - 1]);
                }
            }
        }
        i = i + 1;
    }
    assert(idx@.take(i as int) =~= idx@);
    r
}

/// Puts every entry of `c`, in order, into the frontier `f`.
fn frontier_extend(f: &mut Vec<(DataFlowNodeId, VariableUseNode)>, c: Vec<(DataFlowNodeId, VariableUseNode)>)
    requires
        keys_unique(old(f)@),
    ensures
        keys_unique(final(f)@),
        frontier_view(final(f)@) == extend_frontier(
            frontier_view(old(f)@),
            frontier_view(c@),
            c@.len(),
        ),
{
    let ghost orig = c@;
    let ghost cv = frontier_view(c@);
    let ghost f0 = frontier_view(f@);
    let mut rest = reversed(c);
    let n = rest.len();
    while rest.len() > 0
        invariant
            n == orig.len(),
            cv == frontier_view(orig),
            rest@.len() <= n,
            forall|j: int| 0 <= j < rest@.len() ==> #[trigger] rest@[j] == orig[n - 1 - j],
            keys_unique(f@),
            frontier_view(f@) == extend_frontier(f0, cv, (n - rest@.len()) as nat),
        decreases rest@.len(),
    {
        let ghost i = n - rest@.len();
        let (k, v) = rest.pop().unwrap();
        assert(cv[i] == (k@, path_keys(v.path_types@)));
        frontier_put(f, k, v);
    }
}

/// How the variable whose use-source is `source_node` is used: a search
/// forward from it, at most two hundred rounds.
pub fn is_variable_used(graph: &DataFlowGraph, source_node: &DataFlowNode) -> (r: VariableUsage)
    requires
        graph.wf(),
        source_node.kind is VariableUseSource,
    ensures
        r == graph.usage(source_node.id@),
{
    let ghost start: Frontier = seq![(source_node.id@, Seq::<PathKey>::empty())];
    let mut visited_source_ids: Vec<DataFlowNodeId> = Vec::new();
    let first = VariableUseNode::from(source_node);
    let mut sources: Vec<(DataFlowNodeId, VariableUseNode)> = Vec::new();
    sources.push(first);
    assert(path_keys(sources@[0].1.path_types@) =~= Seq::<PathKey>::empty());
    assert(frontier_view(sources@) =~= start);
    assert(item_set(visited_source_ids@) =~= Set::<NodeKey>::empty());
    let mut i: usize = 0;
    let mut drained = false;
    while i < VARIABLE_SEARCH_ROUNDS && !drained
        invariant
            graph.wf(),
            i <= VARIABLE_SEARCH_ROUNDS,
            keys_unique(sources@),
            items_unique(visited_source_ids@),
            drained ==> sources@.len() == 0,
            graph.usage(source_node.id@) == graph.search(
                i as nat,
                item_set(visited_source_ids@),
                frontier_view(sources@),
            ),
        decreases VARIABLE_SEARCH_ROUNDS - i + (if drained {
            0int
        } else {
            1int
        }),
    {
        if sources.len() == 0 {
            drained = true;
        } else {
            let ghost fv = frontier_view(sources@);
            let ghost vis0 = item_set(visited_source_ids@);
            let mut new_child_nodes: Vec<(DataFlowNodeId, VariableUseNode)> = Vec::new();
            assert(frontier_view(new_child_nodes@) =~= Seq::<(NodeKey, Seq<PathKey>)>::empty());
            let mut j: usize = 0;
            while j < sources.len()
                invariant
                    graph.wf(),
                    j <= sources@.len(),
                    fv == frontier_view(sources@),
                    i < VARIABLE_SEARCH_ROUNDS,
                    graph.usage(source_node.id@) == graph.search(i as nat, vis0, fv),
                    keys_unique(new_child_nodes@),
                    items_unique(visited_source_ids@),
                    graph.round_step(fv, j as nat, vis0) == (
                        item_set(visited_source_ids@),
                        Some(frontier_view(new_child_nodes@)),
                    ),
                decreases sources@.len() - j,
            {
                assert(fv[j as int] == (sources@[j as int].0@, path_keys(sources@[j as int].1.path_types@)));
                insert_item(&mut visited_source_ids, sources[j].0.key_copy());
                let child_nodes = get_variable_child_nodes(
                    graph,
                    &sources[j].0,
                    &sources[j].1,
                    &visited_source_ids,
                );
                match child_nodes {
                    Some(c) => {
                        frontier_extend(&mut new_child_nodes, c);
                    },
                    None => {
                        proof {
                            lemma_round_step_stays_used(graph, fv, (j + 1) as nat, fv.len(), vis0);
                        }
                        return VariableUsage::Used;
                    },
                }
                j = j + 1;
            }
            sources = new_child_nodes;
            i = i + 1;
        }
    }
    if i == 1 {
        VariableUsage::NeverReferenced
    } else {
        VariableUsage::ReferencedButNotUsed
    }
}

/// A copy of a variable-use source.
fn copy_var_source(node: &DataFlowNode) -> (r: DataFlowNode)
    requires
        node.kind is VariableUseSource,
    ensures
        r == *node,
{
    match &node.kind {
        DataFlowNodeKind::VariableUseSource { pos, kind, pure } => DataFlowNode {
            id: node.id.key_copy(),
            kind: DataFlowNodeKind::VariableUseSource { pos: *pos, kind: *kind, pure: *pure },
        },
        _ => unreached(),
    }
}

/// The unused variables of a function-body graph, in order of position: those
/// never referenced that may be removed whole, then all others that reach no
/// sink. Among variable-use sources at one position the last one added counts.
pub fn check_variables_used(graph: &DataFlowGraph) -> (r: (Vec<DataFlowNode>, Vec<DataFlowNode>))
    requires
        graph.wf(),
    ensures
        sorted_by_pos(r.0@),
        sorted_by_pos(r.1@),
        forall|n: DataFlowNode| r.0@.contains(n) <==> graph.is_unused_var(n),
        forall|n: DataFlowNode| r.1@.contains(n) <==> graph.is_unused_but_referenced_var(n),
{
    let listed = listed_var_indices(graph);
    let ghost listed_seq = listed@;
    let order = sort_by_position(graph, listed);
    let ghost src = graph.sources@;
    let nsrc = graph.sources.len();
    let mut unused_nodes: Vec<DataFlowNode> = Vec::new();
    let mut unused_but_referenced_nodes: Vec<DataFlowNode> = Vec::new();
    let mut k: usize = 0;
    while k < order.len()
        invariant
            graph.wf(),
            src == graph.sources@,
            k <= order@.len(),
            forall|m: int| 0 <= m < order@.len() ==> graph.is_listed_var(#[trigger] order@[m] as int),
            forall|a: int, b: int|
                0 <= a < b < order@.len() ==> key_lt(
                    pos_key(src[order@[a] as int].1),
                    pos_key(src[order@[b] as int].1),
                ),
            sorted_by_pos(unused_nodes@),
            sorted_by_pos(unused_but_referenced_nodes@),
            forall|a: int| #![trigger unused_nodes@[a]]
                0 <= a < unused_nodes@.len() ==> exists|m: int|
                    0 <= m < k && #[trigger] src[order@[m] as int].1 == unused_nodes@[a],
            forall|a: int| #![trigger unused_but_referenced_nodes@[a]]
                0 <= a < unused_but_referenced_nodes@.len() ==> exists|m: int|
                    0 <= m < k && #[trigger] src[order@[m] as int].1
                        == unused_but_referenced_nodes@[a],
            forall|n: DataFlowNode|
                unused_nodes@.contains(n) <==> exists|m: int|
                    0 <= m < k && #[trigger] src[order@[m] as int].1 == n && graph.usage(n.id@)
                        == VariableUsage::NeverReferenced && is_removable_source(n),
            forall|n: DataFlowNode|
                unused_but_referenced_nodes@.contains(n) <==> exists|m: int|
                    0 <= m < k && #[trigger] src[order@[m] as int].1 == n && (graph.usage(n.id@)
                        == VariableUsage::ReferencedButNotUsed || (graph.usage(n.id@)
                        == VariableUsage::NeverReferenced && !is_removable_source(n))),
        decreases order@.len() - k,
    {
        let idx = order[k];
        let node = &graph.sources[idx].1;
        let ghost cur = src[idx as int].1;
        let usage = is_variable_used(graph, node);
        let removable = match &node.kind {
            DataFlowNodeKind::VariableUseSource { pure, kind, .. } => *pure && *kind
                == VariableSourceKind::Default,
            _ => false,
        };
        proof {
            assert forall|a: int| 0 <= a < unused_nodes@.len() implies key_lt(
                pos_key(#[trigger] unused_nodes@[a]),
                pos_key(cur),
            ) by {
                let m = choose|m: int| 0 <= m < k && #[trigger] src[order@[m] as int].1 == unused_nodes@[a];
            }
            assert forall|a: int| 0 <= a < unused_but_referenced_nodes@.len() implies key_lt(
                pos_key(#[trigger] unused_but_referenced_nodes@[a]),
                pos_key(cur),
            ) by {
                let m = choose|m: int|
                    0 <= m < k && #[trigger] src[order@[m] as int].1 == unused_but_referenced_nodes@[a];
            }
        }
        let ghost u0 = unused_nodes@;
        let ghost r0 = unused_but_referenced_nodes@;
        match usage {
            VariableUsage::NeverReferenced => {
                if removable {
                    unused_nodes.push(copy_var_source(node));
                } else {
                    unused_but_referenced_nodes.push(copy_var_source(node));
                }
            },
            VariableUsage::ReferencedButNotUsed => {
                unused_but_referenced_nodes.push(copy_var_source(node));
            },
            VariableUsage::Used => {},
        }
        proof {
            assert(src[order@[k as int] as int].1 == cur);
            assert forall|a: int| #![trigger unused_nodes@[a]]
                0 <= a < unused_nodes@.len() implies exists|m: int|
                0 <= m < k + 1 && #[trigger] src[order@[m] as int].1 == unused_nodes@[a] by {
                if a < u0.len() {
                    assert(unused_nodes@[a] == u0[a]);
                    let m = choose|m: int| 0 <= m < k && #[trigger] src[order@[m] as int].1 == u0[a];
                }
            }
            assert forall|a: int| #![trigger unused_but_referenced_nodes@[a]]
                0 <= a < unused_but_referenced_nodes@.len() implies exists|m: int|
                0 <= m < k + 1 && #[trigger] src[order@[m] as int].1
                    == unused_but_referenced_nodes@[a] by {
                if a < r0.len() {
                    assert(unused_but_referenced_nodes@[a] == r0[a]);
                    let m = choose|m: int| 0 <= m < k && #[trigger] src[order@[m] as int].1 == r0[a];
                }
            }
            assert forall|n: DataFlowNode|
                unused_nodes@.contains(n) <==> exists|m: int|
                    0 <= m < k + 1 && #[trigger] src[order@[m] as int].1 == n && graph.usage(n.id@)
                        == VariableUsage::NeverReferenced && is_removable_source(n) by {
                if u0.contains(n) {
                    let q = choose|q: int| 0 <= q < u0.len() && u0[q] == n;
                    assert(unused_nodes@[q] == n);
                }
                if unused_nodes@.contains(n) && !u0.contains(n) {
                    let q = choose|q: int| 0 <= q < unused_nodes@.len() && unused_nodes@[q] == n;
                    if q < u0.len() {
                        assert(u0[q] == n);
                    }
                }
                if exists|m: int|
                    0 <= m < k + 1 && #[trigger] src[order@[m] as int].1 == n && graph.usage(n.id@)
                        == VariableUsage::NeverReferenced && is_removable_source(n) {
                    let m = choose|m: int|
                        0 <= m < k + 1 && #[trigger] src[order@[m] as int].1 == n && graph.usage(
                            n.id@,
                        ) == VariableUsage::NeverReferenced && is_removable_source(n);
                    if m == k {
                        assert(unused_nodes@[unused_nodes@.len() - 1] == n);
                    }
                }
            }
            assert forall|n: DataFlowNode|
                unused_but_referenced_nodes@.contains(n) <==> exists|m: int|
                    0 <= m < k + 1 && #[trigger] src[order@[m] as int].1 == n && (graph.usage(n.id@)
                        == VariableUsage::ReferencedButNotUsed || (graph.usage(n.id@)
                        == VariableUsage::NeverReferenced && !is_removable_source(n))) by {
                if r0.contains(n) {
                    let q = choose|q: int| 0 <= q < r0.len() && r0[q] == n;
                    assert(unused_but_referenced_nodes@[q] == n);
                }
                if unused_but_referenced_nodes@.contains(n) && !r0.contains(n) {
                    let q = choose|q: int|
                        0 <= q < unused_but_referenced_nodes@.len() && unused_but_referenced_nodes@[q] == n;
                    if q < r0.len() {
                        assert(r0[q] == n);
                    }
                }
                if exists|m: int|
                    0 <= m < k + 1 && #[trigger] src[order@[m] as int].1 == n && (graph.usage(n.id@)
                        == VariableUsage::ReferencedButNotUsed || (graph.usage(n.id@)
                        == VariableUsage::NeverReferenced && !is_removable_source(n))) {
                    let m = choose|m: int|
                        0 <= m < k + 1 && #[trigger] src[order@[m] as int].1 == n && (graph.usage(
                            n.id@,
                        ) == VariableUsage::ReferencedButNotUsed || (graph.usage(n.id@)
                            == VariableUsage::NeverReferenced && !is_removable_source(n)));
                    if m == k {
                        assert(unused_but_referenced_nodes@[unused_but_referenced_nodes@.len() - 1] == n);
                    }
                }
            }
        }
        k = k + 1;
    }
    proof {
        assert forall|n: DataFlowNode| unused_nodes@.contains(n) <==> graph.is_unused_var(n) by {
            if graph.is_unused_var(n) {
                let i = choose|i: int|
                    graph.is_listed_var(i) && #[trigger] graph.sources@[i].1 == n && graph.usage(n.id@)
                        == VariableUsage::NeverReferenced && is_removable_source(n);
                assert(i < nsrc);
                assert(listed_seq.contains(i as usize));
                assert(order@.contains(i as usize));
                let m = choose|m: int| 0 <= m < order@.len() && order@[m] == i as usize;
                assert(src[order@[m] as int].1 == n);
            }
            if unused_nodes@.contains(n) {
                let m = choose|m: int|
                    0 <= m < k && #[trigger] src[order@[m] as int].1 == n && graph.usage(n.id@)
                        == VariableUsage::NeverReferenced && is_removable_source(n);
                assert(graph.is_listed_var(order@[m] as int));
            }
        }
        assert forall|n: DataFlowNode|
            unused_but_referenced_nodes@.contains(n) <==> graph.is_unused_but_referenced_var(n) by {
            if graph.is_unused_but_referenced_var(n) {
                let i = choose|i: int|
                    graph.is_listed_var(i) && #[trigger] graph.sources@[i].1 == n && (graph.usage(n.id@)
                        == VariableUsage::ReferencedButNotUsed || (graph.usage(n.id@)
                        == VariableUsage::NeverReferenced && !is_removable_source(n)));
                assert(i < nsrc);
                assert(listed_seq.contains(i as usize));
                assert(order@.contains(i as usize));
                let m = choose|m: int| 0 <= m < order@.len() && order@[m] == i as usize;
                assert(src[order@[m] as int].1 == n);
            }
            if unused_but_referenced_nodes@.contains(n) {
                let m = choose|m: int|
                    0 <= m < k && #[trigger] src[order@[m] as int].1 == n && (graph.usage(n.id@)
                        == VariableUsage::ReferencedButNotUsed || (graph.usage(n.id@)
                        == VariableUsage::NeverReferenced && !is_removable_source(n)));
                assert(graph.is_listed_var(order@[m] as int));
            }
        }
    }
    (unused_nodes, unused_but_referenced_nodes)
}

} // verus!
