//! The data-flow graph: nodes filed by role, labelled edges, and the walks over them.
use crate::keyed::{
    entries_map, find_entry, keys_unique, lemma_entries_map_at, lemma_entries_map_contains,
    map_at, map_extend, map_put, merge_nested, merge_sets, nested_extend, nested_put, nested_view, nested_wf, set_at, set_map_add, set_map_extend, set_map_insert,
    set_map_view, set_map_wf, KeyEq, lemma_merge_nested_empty, lemma_merge_sets_empty,
};
use crate::node::{
    unspecialize_key, DataFlowNode, DataFlowNodeId, DataFlowNodeKind, NodeKey, SinkType,
    SpecializationKey,
};
use crate::path::{DataFlowPath, PathKind};
use vstd::prelude::*;

verus! {

/// What a whole-program graph is built for.
#[derive(Clone, Copy, Debug, PartialEq, Eq, Hash, Structural)]
pub enum WholeProgramKind {
    Taint,
    Query,
}

/// Whether a graph covers one function body or the whole program.
#[derive(Clone, Copy, Debug, PartialEq, Eq, Hash, Structural)]
pub enum GraphKind {
    FunctionBody,
    WholeProgram(WholeProgramKind),
}

/// A data-flow graph. Each collection is a vector of entries with unique keys.
#[derive(Debug)]
pub struct DataFlowGraph {
    pub kind: GraphKind,
    pub vertices: Vec<(DataFlowNodeId, DataFlowNode)>,
    pub forward_edges: Vec<(DataFlowNodeId, Vec<(DataFlowNodeId, DataFlowPath)>)>,
    pub backward_edges: Vec<(DataFlowNodeId, Vec<DataFlowNodeId>)>,
    pub sources: Vec<(DataFlowNodeId, DataFlowNode)>,
    pub sinks: Vec<(DataFlowNodeId, DataFlowNode)>,
    pub mixed_source_counts: Vec<(DataFlowNodeId, Vec<String>)>,
    pub specializations: Vec<(DataFlowNodeId, Vec<SpecializationKey>)>,
    pub specialized_calls: Vec<(SpecializationKey, Vec<DataFlowNodeId>)>,
}

/// Two graphs of different kinds cannot be merged.
#[derive(Clone, Copy, Debug, PartialEq, Eq, Structural)]
pub struct GraphKindMismatch {
    pub expected: GraphKind,
    pub found: GraphKind,
}

/// No well-formed graph has an edge from a node to itself; every operation
/// that changes a graph keeps it well-formed.
pub proof fn law_no_self_loops(g: &DataFlowGraph, id: NodeKey)
    requires
        g.wf(),
    ensures
        !g.has_edge(id, id),
{
}

/// In a well-formed function-body graph every edge `s -> t` is recorded
/// backwards: `s` is among the nodes recorded against `t`.
pub proof fn law_edges_recorded_backwards(g: &DataFlowGraph, s: NodeKey, t: NodeKey)
    requires
        g.wf(),
        g.kind == GraphKind::FunctionBody,
        g.has_edge(s, t),
    ensures
        g.backward().contains_key(t) && g.backward()[t].contains(s),
{
}

/// In a well-formed graph the specialization maps are mutual inverses: a node
/// is specialized at a call site exactly when the call site lists the node.
pub proof fn law_specializations_inverse(g: &DataFlowGraph, k: NodeKey, c: SpecializationKey)
    requires
        g.wf(),
    ensures
        set_at(g.specialization_map(), k).contains(c) <==> set_at(g.specialized_call_map(), c).contains(k),
{
}

/// Merging an empty graph of the same kind leaves a graph's contents as they were.
pub proof fn law_merge_empty_identity(g: &DataFlowGraph, empty: &DataFlowGraph, merged: &DataFlowGraph)
    requires
        g.wf(),
        empty.kind == g.kind,
        empty.has_no_contents(),
        merged.is_merge_of(g, empty),
    ensures
        merged.same_contents(g),
{
    assert(g.vertex_map().union_prefer_right(Map::empty()) =~= g.vertex_map());
    assert(g.source_map().union_prefer_right(Map::empty()) =~= g.source_map());
    assert(g.sink_map().union_prefer_right(Map::empty()) =~= g.sink_map());
    lemma_merge_nested_empty(g.forward());
    lemma_merge_sets_empty(g.backward());
    lemma_merge_sets_empty(g.mixed_counts());
    lemma_merge_sets_empty(g.specialization_map());
    lemma_merge_sets_empty(g.specialized_call_map());
}

/// A graph with the specialization maps of a well-formed graph keeps them inverse.
pub proof fn lemma_same_specializations(g0: &DataFlowGraph, g1: &DataFlowGraph)
    requires
        g0.specializations_inverse(),
        g1.specialization_map() == g0.specialization_map(),
        g1.specialized_call_map() == g0.specialized_call_map(),
    ensures
        g1.specializations_inverse(),
{
    assert forall|k: NodeKey, c: SpecializationKey|
        #![trigger set_at(g1.specialization_map(), k).contains(c)]
        #![trigger set_at(g1.specialized_call_map(), c).contains(k)]
        set_at(g1.specialization_map(), k).contains(c) <==> set_at(
            g1.specialized_call_map(),
            c,
        ).contains(k) by {
        assert(set_at(g0.specialization_map(), k).contains(c) <==> set_at(
            g0.specialized_call_map(),
            c,
        ).contains(k));
    }
}

/// Whether adding `node` to a graph of kind `kind` records a specialization.
pub open spec fn records_specialization(kind: GraphKind, node: DataFlowNode) -> bool {
    &&& kind is WholeProgram
    &&& node.kind matches DataFlowNodeKind::Vertex { is_specialized, .. } && is_specialized
    &&& unspecialize_key(node.id@) is Some
}

/// A graph whose edges and kind are those of a well-formed graph keeps the
/// invariant when its collections keep unique keys.
proof fn lemma_same_edges(g0: DataFlowGraph, g1: DataFlowGraph)
    requires
        g0.wf(),
        g1.kind == g0.kind,
        g1.forward_edges == g0.forward_edges,
        g1.backward_edges == g0.backward_edges,
        g1.mixed_source_counts == g0.mixed_source_counts,
        keys_unique(g1.vertices@),
        keys_unique(g1.sources@),
        keys_unique(g1.sinks@),
        set_map_wf(g1.specializations@),
        set_map_wf(g1.specialized_calls@),
        g1.specializations_inverse(),
    ensures
        g1.wf(),
{
    assert forall|s: NodeKey| !#[trigger] g1.has_edge(s, s) by {
        assert(!g0.has_edge(s, s));
    }
    if g1.kind == GraphKind::FunctionBody {
        assert forall|s: NodeKey, t: NodeKey| #[trigger]
            g1.has_edge(s, t) implies set_at(g1.backward(), t).contains(s) by {
            assert(g0.has_edge(s, t));
        }
    }
}

impl DataFlowGraph {
    pub open spec fn vertex_map(&self) -> Map<NodeKey, DataFlowNode> {
        entries_map(self.vertices@)
    }

    pub open spec fn source_map(&self) -> Map<NodeKey, DataFlowNode> {
        entries_map(self.sources@)
    }

    pub open spec fn sink_map(&self) -> Map<NodeKey, DataFlowNode> {
        entries_map(self.sinks@)
    }

    /// For each node, the nodes it has an edge to, with the edge.
    pub open spec fn forward(&self) -> Map<NodeKey, Map<NodeKey, DataFlowPath>> {
        nested_view(self.forward_edges@)
    }

    /// For each node, the nodes recorded as having an edge to it.
    pub open spec fn backward(&self) -> Map<NodeKey, Set<NodeKey>> {
        set_map_view(self.backward_edges@)
    }

    pub open spec fn mixed_counts(&self) -> Map<NodeKey, Set<Seq<char>>> {
        set_map_view(self.mixed_source_counts@)
    }

    pub open spec fn specialization_map(&self) -> Map<NodeKey, Set<SpecializationKey>> {
        set_map_view(self.specializations@)
    }

    pub open spec fn specialized_call_map(&self) -> Map<SpecializationKey, Set<NodeKey>> {
        set_map_view(self.specialized_calls@)
    }

    pub open spec fn has_edge(&self, s: NodeKey, t: NodeKey) -> bool {
        self.forward().contains_key(s) && self.forward()[s].contains_key(t)
    }

    /// The graph's invariant.
    pub open spec fn wf(&self) -> bool {
        &&& keys_unique(self.vertices@)
        &&& keys_unique(self.sources@)
        &&& keys_unique(self.sinks@)
        &&& nested_wf(self.forward_edges@)
        &&& set_map_wf(self.backward_edges@)
        &&& set_map_wf(self.mixed_source_counts@)
        &&& set_map_wf(self.specializations@)
        &&& set_map_wf(self.specialized_calls@)
        &&& forall|s: NodeKey| !#[trigger] self.has_edge(s, s)
        &&& self.kind == GraphKind::FunctionBody ==> forall|s: NodeKey, t: NodeKey| #[trigger]
            self.has_edge(s, t) ==> set_at(self.backward(), t).contains(s)
        &&& self.kind != GraphKind::FunctionBody ==> self.backward_edges@.len() == 0
            && self.mixed_source_counts@.len() == 0
        &&& self.specializations_inverse()
    }

    /// `specializations` and `specialized_calls` are mutual inverses: a node is
    /// specialized at a call site exactly when the call site lists the node.
    pub open spec fn specializations_inverse(&self) -> bool {
        forall|k: NodeKey, c: SpecializationKey|
            #![trigger set_at(self.specialization_map(), k).contains(c)]
            #![trigger set_at(self.specialized_call_map(), c).contains(k)]
            set_at(self.specialization_map(), k).contains(c) <==> set_at(
                self.specialized_call_map(),
                c,
            ).contains(k)
    }

    /// The edge `s -> t`, if any.
    pub open spec fn edge(&self, s: NodeKey, t: NodeKey) -> Option<DataFlowPath> {
        if self.has_edge(s, t) {
            Some(self.forward()[s][t])
        } else {
            None
        }
    }

    /// Nothing is in the graph.
    pub open spec fn has_no_contents(&self) -> bool {
        &&& self.vertex_map() == Map::<NodeKey, DataFlowNode>::empty()
        &&& self.source_map() == Map::<NodeKey, DataFlowNode>::empty()
        &&& self.sink_map() == Map::<NodeKey, DataFlowNode>::empty()
        &&& self.forward() == Map::<NodeKey, Map<NodeKey, DataFlowPath>>::empty()
        &&& self.backward() == Map::<NodeKey, Set<NodeKey>>::empty()
        &&& self.mixed_counts() == Map::<NodeKey, Set<Seq<char>>>::empty()
        &&& self.specialization_map() == Map::<NodeKey, Set<SpecializationKey>>::empty()
        &&& self.specialized_call_map() == Map::<SpecializationKey, Set<NodeKey>>::empty()
    }

    /// An empty graph of the given kind.
    pub fn new(kind: GraphKind) -> (r: Self)
        ensures
            r.wf(),
            r.kind == kind,
            r.has_no_contents(),
    {
        let r = DataFlowGraph {
            kind,
            vertices: Vec::new(),
            forward_edges: Vec::new(),
            backward_edges: Vec::new(),
            sources: Vec::new(),
            sinks: Vec::new(),
            mixed_source_counts: Vec::new(),
            specializations: Vec::new(),
            specialized_calls: Vec::new(),
        };
        proof {
            assert(r.forward() =~= Map::empty());
            assert(r.backward() =~= Map::empty());
            assert(r.mixed_counts() =~= Map::empty());
            assert(r.specialization_map() =~= Map::empty());
            assert(r.specialized_call_map() =~= Map::empty());
        }
        r
    }

    /// Files a node under vertices, sources or sinks by its kind. A specialized
    /// vertex of a whole-program graph is also recorded against its call site.
    pub fn add_node(&mut self, node: DataFlowNode)
        requires
            old(self).wf(),
        ensures
            final(self).wf(),
            final(self).kind == old(self).kind,
            final(self).forward() == old(self).forward(),
            final(self).backward() == old(self).backward(),
            final(self).mixed_counts() == old(self).mixed_counts(),
            final(self).vertex_map() == if node.kind is Vertex {
                old(self).vertex_map().insert(node.id@, node)
            } else {
                old(self).vertex_map()
            },
            final(self).source_map() == if node.kind.is_source_kind() {
                old(self).source_map().insert(node.id@, node)
            } else {
                old(self).source_map()
            },
            final(self).sink_map() == if node.kind.is_sink_kind() {
                old(self).sink_map().insert(node.id@, node)
            } else {
                old(self).sink_map()
            },
            ({
                let recorded = records_specialization(old(self).kind, node);
                let (base, key) = unspecialize_key(node.id@)->0;
                &&& final(self).specialization_map() == if recorded {
                    set_map_add(old(self).specialization_map(), base, key)
                } else {
                    old(self).specialization_map()
                }
                &&& final(self).specialized_call_map() == if recorded {
                    set_map_add(old(self).specialized_call_map(), key, base)
                } else {
                    old(self).specialized_call_map()
                }
            }),
    {
        let ghost g0 = *self;
        let id = node.id.key_copy();
        match &node.kind {
            DataFlowNodeKind::Vertex { is_specialized, .. } => {
                if let GraphKind::WholeProgram(_) = self.kind {
                    if *is_specialized {
                        if let Some((base, key)) = node.id.unspecialize() {
                            let base2 = base.key_copy();
                            set_map_insert(&mut self.specializations, base, key);
                            set_map_insert(&mut self.specialized_calls, key, base2);
                        }
                    }
                }
                map_put(&mut self.vertices, id, node);
            },
            DataFlowNodeKind::TaintSource { .. }
            | DataFlowNodeKind::VariableUseSource { .. }
            | DataFlowNodeKind::DataSource { .. }
            | DataFlowNodeKind::ForLoopInit { .. } => {
                map_put(&mut self.sources, id, node);
            },
            DataFlowNodeKind::TaintSink { .. } | DataFlowNodeKind::VariableUseSink { .. } => {
                map_put(&mut self.sinks, id, node);
            },
        }
        proof {
            let m0 = g0.specialization_map();
            let c0 = g0.specialized_call_map();
            assert forall|k: NodeKey, c: SpecializationKey|
                #![trigger set_at(self.specialization_map(), k).contains(c)]
                #![trigger set_at(self.specialized_call_map(), c).contains(k)]
                set_at(self.specialization_map(), k).contains(c) <==> set_at(
                    self.specialized_call_map(),
                    c,
                ).contains(k) by {
                assert(set_at(m0, k).contains(c) <==> set_at(c0, c).contains(k));
            }
            lemma_same_edges(g0, *self);
        }
    }

    /// Records the edge `from_id -> to_id`, replacing an earlier edge between
    /// the two; a function-body graph also records it backwards. An edge from
    /// a node to itself is dropped.
    pub fn add_path(
        &mut self,
        from_id: &DataFlowNodeId,
        to_id: &DataFlowNodeId,
        path_kind: PathKind,
        added_taints: Vec<SinkType>,
        removed_taints: Vec<SinkType>,
    )
        requires
            old(self).wf(),
        ensures
            final(self).wf(),
            final(self).kind == old(self).kind,
            final(self).vertex_map() == old(self).vertex_map(),
            final(self).source_map() == old(self).source_map(),
            final(self).sink_map() == old(self).sink_map(),
            final(self).mixed_counts() == old(self).mixed_counts(),
            final(self).specialization_map() == old(self).specialization_map(),
            final(self).specialized_call_map() == old(self).specialized_call_map(),
            from_id@ == to_id@ ==> final(self).forward() == old(self).forward(),
            from_id@ == to_id@ ==> final(self).backward() == old(self).backward(),
            from_id@ != to_id@ ==> final(self).forward() == old(self).forward().insert(
                from_id@,
                map_at(old(self).forward(), from_id@).insert(
                    to_id@,
                    DataFlowPath { kind: path_kind, added_taints, removed_taints },
                ),
            ),
            from_id@ != to_id@ ==> final(self).backward() == if old(self).kind
                == GraphKind::FunctionBody {
                set_map_add(old(self).backward(), to_id@, from_id@)
            } else {
                old(self).backward()
            },
    {
        if from_id.key_eq(to_id) {
            return ;
        }
        let ghost g0 = *self;
        if let GraphKind::FunctionBody = self.kind {
            set_map_insert(&mut self.backward_edges, to_id.key_copy(), from_id.key_copy());
        }
        let path = DataFlowPath { kind: path_kind, added_taints, removed_taints };
        nested_put(&mut self.forward_edges, from_id.key_copy(), to_id.key_copy(), path);
        proof {
            lemma_same_specializations(&g0, self);
            assert forall|s: NodeKey| !#[trigger] self.has_edge(s, s) by {
                if s != from_id@ {
                    assert(!g0.has_edge(s, s));
                }
            }
            if self.kind == GraphKind::FunctionBody {
                assert forall|s: NodeKey, t: NodeKey| #[trigger]
                    self.has_edge(s, t) implies set_at(self.backward(), t).contains(s) by {
                    if s != from_id@ || t != to_id@ {
                        assert(g0.has_edge(s, t));
                    }
                }
            }
        }
    }

    /// The node under `id`: a vertex, else a source, else a sink.
    pub fn get_node(&self, id: &DataFlowNodeId) -> (r: Option<&DataFlowNode>)
        requires
            self.wf(),
        ensures
            r == self.node_at(id@),
    {
        if let Some(i) = find_entry(&self.vertices, id) {
            proof {
                lemma_entries_map_at(self.vertices@, i as int);
            }
            return Some(&self.vertices[i].1);
        }
        proof {
            lemma_entries_map_contains(self.vertices@, id@);
        }
        if let Some(i) = find_entry(&self.sources, id) {
            proof {
                lemma_entries_map_at(self.sources@, i as int);
            }
            return Some(&self.sources[i].1);
        }
        proof {
            lemma_entries_map_contains(self.sources@, id@);
        }
        if let Some(i) = find_entry(&self.sinks, id) {
            proof {
                lemma_entries_map_at(self.sinks@, i as int);
            }
            return Some(&self.sinks[i].1);
        }
        proof {
            lemma_entries_map_contains(self.sinks@, id@);
        }
        None
    }

    /// Every collection of the two graphs stands for the same contents.
    pub open spec fn same_contents(&self, other: &DataFlowGraph) -> bool {
        &&& self.kind == other.kind
        &&& self.vertex_map() == other.vertex_map()
        &&& self.source_map() == other.source_map()
        &&& self.sink_map() == other.sink_map()
        &&& self.forward() == other.forward()
        &&& self.backward() == other.backward()
        &&& self.mixed_counts() == other.mixed_counts()
        &&& self.specialization_map() == other.specialization_map()
        &&& self.specialized_call_map() == other.specialized_call_map()
    }

    /// Whether `self` is what merging `other` into `before` gives: edges are
    /// merged per source (the later edge wins), nodes by insertion (the later
    /// wins); a function-body graph merges backward edges and mixed-source
    /// counts, a whole-program graph its specializations.
    pub open spec fn is_merge_of(&self, before: &DataFlowGraph, other: &DataFlowGraph) -> bool {
        &&& self.kind == before.kind
        &&& self.vertex_map() == before.vertex_map().union_prefer_right(other.vertex_map())
        &&& self.source_map() == before.source_map().union_prefer_right(other.source_map())
        &&& self.sink_map() == before.sink_map().union_prefer_right(other.sink_map())
        &&& self.forward() == merge_nested(before.forward(), other.forward())
        &&& self.backward() == if before.kind == GraphKind::FunctionBody {
            merge_sets(before.backward(), other.backward())
        } else {
            before.backward()
        }
        &&& self.mixed_counts() == if before.kind == GraphKind::FunctionBody {
            merge_sets(before.mixed_counts(), other.mixed_counts())
        } else {
            before.mixed_counts()
        }
        &&& self.specialization_map() == if before.kind == GraphKind::FunctionBody {
            before.specialization_map()
        } else {
            merge_sets(before.specialization_map(), other.specialization_map())
        }
        &&& self.specialized_call_map() == if before.kind == GraphKind::FunctionBody {
            before.specialized_call_map()
        } else {
            merge_sets(before.specialized_call_map(), other.specialized_call_map())
        }
    }

    /// Merges `graph` into this graph. Fails, leaving this graph as it was,
    /// when the kinds differ.
    pub fn add_graph(&mut self, graph: DataFlowGraph) -> (r: Result<(), GraphKindMismatch>)
        requires
            old(self).wf(),
            graph.wf(),
        ensures
            final(self).wf(),
            r is Err <==> old(self).kind != graph.kind,
            r is Err ==> *final(self) == *old(self) && r->Err_0 == (GraphKindMismatch {
                expected: old(self).kind,
                found: graph.kind,
            }),
            r is Ok ==> final(self).is_merge_of(old(self), &graph),
    {
        if self.kind != graph.kind {
            return Err(GraphKindMismatch { expected: self.kind, found: graph.kind });
        }
        let ghost g0 = *self;
        let ghost g1 = graph;
        let DataFlowGraph {
            kind: _,
            vertices,
            forward_edges,
            backward_edges,
            sources,
            sinks,
            mixed_source_counts,
            specializations,
            specialized_calls,
        } = graph;
        nested_extend(&mut self.forward_edges, forward_edges);
        if let GraphKind::FunctionBody = self.kind {
            set_map_extend(&mut self.backward_edges, &backward_edges);
            set_map_extend(&mut self.mixed_source_counts, &mixed_source_counts);
        } else {
            set_map_extend(&mut self.specializations, &specializations);
            set_map_extend(&mut self.specialized_calls, &specialized_calls);
        }
        map_extend(&mut self.vertices, vertices);
        map_extend(&mut self.sources, sources);
        map_extend(&mut self.sinks, sinks);
        proof {
            assert forall|s: NodeKey| !#[trigger] self.has_edge(s, s) by {
                assert(!g0.has_edge(s, s));
                assert(!g1.has_edge(s, s));
            }
            assert forall|k: NodeKey, c: SpecializationKey|
                #![trigger set_at(self.specialization_map(), k).contains(c)]
                #![trigger set_at(self.specialized_call_map(), c).contains(k)]
                set_at(self.specialization_map(), k).contains(c) <==> set_at(
                    self.specialized_call_map(),
                    c,
                ).contains(k) by {
                assert(set_at(g0.specialization_map(), k).contains(c) <==> set_at(
                    g0.specialized_call_map(),
                    c,
                ).contains(k));
                assert(set_at(g1.specialization_map(), k).contains(c) <==> set_at(
                    g1.specialized_call_map(),
                    c,
                ).contains(k));
            }
            if self.kind == GraphKind::FunctionBody {
                assert forall|s: NodeKey, t: NodeKey| #[trigger]
                    self.has_edge(s, t) implies set_at(self.backward(), t).contains(s) by {
                    if map_at(g1.forward(), s).contains_key(t) {
                        assert(g1.has_edge(s, t));
                    } else {
                        assert(g0.has_edge(s, t));
                    }
                }
            }
        }
        Ok(())
    }

    /// The node under `k`: a vertex, else a source, else a sink.
    pub open spec fn node_at(&self, k: NodeKey) -> Option<&DataFlowNode> {
        if self.vertex_map().contains_key(k) {
            Some(&self.vertex_map()[k])
        } else if self.source_map().contains_key(k) {
            Some(&self.source_map()[k])
        } else if self.sink_map().contains_key(k) {
            Some(&self.sink_map()[k])
        } else {
            None
        }
    }
}

} // verus!
