//! Questions answered from the origins of a value: which calls, properties
//! or parameters it came from, and where mixed data entered.
use crate::graph::{DataFlowGraph, GraphKind};
use crate::keyed::{set_at, set_map_add, set_map_insert, KeyEq};
use crate::node::{DataFlowNode, DataFlowNodeId, DataFlowNodeKind, FunctionLikeIdentifier, NodeKey, StrId, VariableSourceKind};
use crate::origins::keys_of;
use crate::path::{path_keys, PathKey, PathKind};
use crate::ttype::TUnion;
use vstd::prelude::*;

verus! {

/// The items of `s` that `f` keeps, as `f` maps them, in order.
pub open spec fn filter_map<A, B>(s: Seq<A>, f: spec_fn(A) -> Option<B>) -> Seq<B>
    decreases s.len(),
{
    if s.len() == 0 {
        Seq::empty()
    } else {
        let r = filter_map(s.drop_last(), f);
        match f(s.last()) {
            Some(b) => r.push(b),
            None => r,
        }
    }
}

/// Every item of a `filter_map` result is what `f` made of some item of `s`.
pub proof fn lemma_filter_map_source<A, B>(s: Seq<A>, f: spec_fn(A) -> Option<B>, a: int)
    requires
        0 <= a < filter_map(s, f).len(),
    ensures
        exists|b: int| 0 <= b < s.len() && f(s[b]) == Some(filter_map(s, f)[a]),
    decreases s.len(),
{
    let r = filter_map(s.drop_last(), f);
    if a < r.len() {
        lemma_filter_map_source(s.drop_last(), f, a);
        let b = choose|b: int| 0 <= b < s.drop_last().len() && f(s.drop_last()[b]) == Some(r[a]);
        assert(s[b] == s.drop_last()[b]);
    } else {
        assert(f(s[s.len() - 1]) == Some(filter_map(s, f)[a]));
    }
}

/// The keys of the nodes a union flowed from.
pub open spec fn parent_keys(u: &TUnion) -> Seq<NodeKey> {
    u.parent_nodes@.map_values(|n: DataFlowNode| n.id@)
}

/// `m` with position `p` recorded against every call among `ks`.
pub open spec fn with_position(m: Map<NodeKey, Set<Seq<char>>>, ks: Seq<NodeKey>, p: Seq<char>) -> Map<
    NodeKey,
    Set<Seq<char>>,
> {
    Map::new(
        |k: NodeKey| m.contains_key(k) || (ks.contains(k) && DataFlowNodeId::is_call_key(k)),
        |k: NodeKey|
            if ks.contains(k) && DataFlowNodeId::is_call_key(k) {
                set_at(m, k).insert(p)
            } else {
                m[k]
            },
    )
}

impl DataFlowGraph {
    /// The origins of the first `n` keys of `ks`, one walk after the other.
    pub open spec fn origins_of_all(&self, ks: Seq<NodeKey>, ignore: Seq<PathKey>, n: nat) -> Seq<
        NodeKey,
    >
        decreases n,
    {
        if n == 0 {
            Seq::empty()
        } else {
            self.origins_of_all(ks, ignore, (n - 1) as nat) + self.origins(ks[n - 1], ignore, false)
        }
    }

    /// The origins of every node a union flowed from.
    pub open spec fn union_origins(&self, u: &TUnion, ignore: Seq<PathKey>) -> Seq<NodeKey> {
        self.origins_of_all(parent_keys(u), ignore, parent_keys(u).len())
    }

    /// The function an origin calls, when the origin is a call vertex.
    pub open spec fn source_function(&self, k: NodeKey) -> Option<FunctionLikeIdentifier> {
        match k {
            NodeKey::CallTo(f) | NodeKey::SpecializedCallTo(f, _, _) => if self.node_at(k) is Some
                && self.node_at(k)->0.kind is Vertex {
                Some(f)
            } else {
                None
            },
            _ => None,
        }
    }

    /// The class and property an origin reads, when it is a property.
    pub open spec fn source_property(k: NodeKey) -> Option<(StrId, StrId)> {
        match k {
            NodeKey::Property(a, b) | NodeKey::SpecializedProperty(a, b, _, _) => Some((a, b)),
            _ => None,
        }
    }

    /// An origin that is a use-source of a parameter.
    pub open spec fn is_param_source(&self, k: NodeKey) -> bool {
        &&& self.node_at(k) is Some
        &&& self.node_at(k)->0.kind matches DataFlowNodeKind::VariableUseSource { kind, .. } && (kind
            == VariableSourceKind::PrivateParam || kind == VariableSourceKind::NonPrivateParam)
    }

    fn collect_origins(&self, expr_type: &TUnion, ignore_paths: &Vec<PathKind>) -> (r: Vec<
        DataFlowNodeId,
    >)
        requires
            self.wf(),
        ensures
            keys_of(r@) == self.union_origins(expr_type, path_keys(ignore_paths@)),
    {
        let ghost ks = parent_keys(expr_type);
        let mut all: Vec<DataFlowNodeId> = Vec::new();
        let mut i: usize = 0;
        assert(keys_of(all@) =~= Seq::<NodeKey>::empty());
        while i < expr_type.parent_nodes.len()
            invariant
                self.wf(),
                i <= expr_type.parent_nodes@.len(),
                ks == parent_keys(expr_type),
                keys_of(all@) == self.origins_of_all(ks, path_keys(ignore_paths@), i as nat),
            decreases expr_type.parent_nodes@.len() - i,
        {
            let mut found = self.get_origin_node_ids(
                &expr_type.parent_nodes[i].id,
                ignore_paths,
                false,
            );
            let ghost before = all@;
            let ghost added = found@;
            all.append(&mut found);
            assert(ks[i as int] == expr_type.parent_nodes@[i as int].id@);
            assert(keys_of(all@) =~= keys_of(before) + keys_of(added));
            i = i + 1;
        }
        all
    }

    /// The functions whose calls the value of `expr_type` came from.
    pub fn get_source_functions(&self, expr_type: &TUnion, ignore_paths: &Vec<PathKind>) -> (r: Vec<
        FunctionLikeIdentifier,
    >)
        requires
            self.wf(),
        ensures
            r@ == filter_map(
                self.union_origins(expr_type, path_keys(ignore_paths@)),
                |k: NodeKey| self.source_function(k),
            ),
    {
        let origins = self.collect_origins(expr_type, ignore_paths);
        let ghost ks = keys_of(origins@);
        let ghost f = |k: NodeKey| self.source_function(k);
        let mut r: Vec<FunctionLikeIdentifier> = Vec::new();
        let mut i: usize = 0;
        assert(ks.take(0) =~= Seq::<NodeKey>::empty());
        while i < origins.len()
            invariant
                self.wf(),
                i <= origins@.len(),
                ks == keys_of(origins@),
                f == (|k: NodeKey| self.source_function(k)),
                r@ == filter_map(ks.take(i as int), f),
            decreases origins@.len() - i,
        {
            assert(ks.take(i + 1).drop_last() =~= ks.take(i as int));
            let id = &origins[i];
            assert(ks.take(i + 1).last() == id@);
            match id {
                DataFlowNodeId::CallTo(func) | DataFlowNodeId::SpecializedCallTo(func, ..) => {
                    if let Some(node) = self.get_node(id) {
                        if let DataFlowNodeKind::Vertex { .. } = node.kind {
                            r.push(*func);
                        }
                    }
                },
                _ => {},
            }
            i = i + 1;
        }
        assert(ks.take(i as int) =~= ks);
        r
    }

    /// The properties that the value of `expr_type` came from.
    pub fn get_source_properties(&self, expr_type: &TUnion) -> (r: Vec<(StrId, StrId)>)
        requires
            self.wf(),
        ensures
            r@ == filter_map(
                self.union_origins(expr_type, Seq::empty()),
                |k: NodeKey| Self::source_property(k),
            ),
    {
        let no_paths: Vec<PathKind> = Vec::new();
        assert(path_keys(no_paths@) =~= Seq::<PathKey>::empty());
        let origins = self.collect_origins(expr_type, &no_paths);
        let ghost ks = keys_of(origins@);
        let ghost f = |k: NodeKey| Self::source_property(k);
        let mut r: Vec<(StrId, StrId)> = Vec::new();
        let mut i: usize = 0;
        assert(ks.take(0) =~= Seq::<NodeKey>::empty());
        while i < origins.len()
            invariant
                i <= origins@.len(),
                ks == keys_of(origins@),
                f == (|k: NodeKey| Self::source_property(k)),
                r@ == filter_map(ks.take(i as int), f),
            decreases origins@.len() - i,
        {
            assert(ks.take(i + 1).drop_last() =~= ks.take(i as int));
            assert(ks.take(i + 1).last() == origins@[i as int]@);
            match &origins[i] {
                DataFlowNodeId::Property(a, b) | DataFlowNodeId::SpecializedProperty(a, b, ..) => {
                    r.push((*a, *b));
                },
                _ => {},
            }
            i = i + 1;
        }
        assert(ks.take(i as int) =~= ks);
        r
    }

    /// Whether the value of `stmt_var_type` came from a parameter.
    pub fn is_from_param(&self, stmt_var_type: &TUnion) -> (r: bool)
        requires
            self.wf(),
        ensures
            r == exists|i: int|
                0 <= i < self.union_origins(stmt_var_type, Seq::empty()).len()
                    && self.is_param_source(
                    #[trigger] self.union_origins(stmt_var_type, Seq::empty())[i],
                ),
    {
        let no_paths: Vec<PathKind> = Vec::new();
        assert(path_keys(no_paths@) =~= Seq::<PathKey>::empty());
        let origins = self.collect_origins(stmt_var_type, &no_paths);
        let ghost ks = keys_of(origins@);
        let mut i: usize = 0;
        while i < origins.len()
            invariant
                self.wf(),
                i <= origins@.len(),
                ks == keys_of(origins@),
                ks == self.union_origins(stmt_var_type, Seq::empty()),
                forall|j: int| 0 <= j < i ==> !self.is_param_source(#[trigger] ks[j]),
            decreases origins@.len() - i,
        {
            assert(ks[i as int] == origins@[i as int]@);
            if let Some(node) = self.get_node(&origins[i]) {
                if let DataFlowNodeKind::VariableUseSource { kind, .. } = node.kind {
                    if kind == VariableSourceKind::PrivateParam || kind
                        == VariableSourceKind::NonPrivateParam {
                        return true;
                    }
                }
            }
            i = i + 1;
        }
        false
    }

    /// Records `pos` against every call that the data at `assignment_node`
    /// came from.
    pub fn add_mixed_data(&mut self, assignment_node: &DataFlowNode, pos: &String)
        requires
            old(self).wf(),
            old(self).kind == GraphKind::FunctionBody,
        ensures
            final(self).wf(),
            final(self).kind == old(self).kind,
            final(self).vertices == old(self).vertices,
            final(self).sources == old(self).sources,
            final(self).sinks == old(self).sinks,
            final(self).forward_edges == old(self).forward_edges,
            final(self).backward_edges == old(self).backward_edges,
            final(self).specializations == old(self).specializations,
            final(self).specialized_calls == old(self).specialized_calls,
            final(self).mixed_counts() == with_position(
                old(self).mixed_counts(),
                old(self).origins(assignment_node.id@, Seq::empty(), false),
                pos@,
            ),
    {
        let no_paths: Vec<PathKind> = Vec::new();
        assert(path_keys(no_paths@) =~= Seq::<PathKey>::empty());
        let origins = self.get_origin_node_ids(&assignment_node.id, &no_paths, false);
        let ghost g0 = *self;
        let ghost ks = keys_of(origins@);
        let mut i: usize = 0;
        proof {
            assert(with_position(g0.mixed_counts(), ks.take(0), pos@) =~= g0.mixed_counts());
        }
        while i < origins.len()
            invariant
                i <= origins@.len(),
                ks == keys_of(origins@),
                self.kind == g0.kind,
                self.vertices == g0.vertices,
                self.sources == g0.sources,
                self.sinks == g0.sinks,
                self.forward_edges == g0.forward_edges,
                self.backward_edges == g0.backward_edges,
                self.specializations == g0.specializations,
                self.specialized_calls == g0.specialized_calls,
                crate::keyed::set_map_wf(self.mixed_source_counts@),
                self.mixed_counts() == with_position(g0.mixed_counts(), ks.take(i as int), pos@),
            decreases origins@.len() - i,
        {
            let id = &origins[i];
            let ghost before = self.mixed_counts();
            assert(ks.take(i + 1) =~= ks.take(i as int).push(id@));
            assert(ks.take(i + 1)[i as int] == id@);
            if id.is_call() {
                set_map_insert(&mut self.mixed_source_counts, id.key_copy(), pos.clone());
                proof {
                    let a = with_position(g0.mixed_counts(), ks.take(i + 1), pos@);
                    let b = set_map_add(before, id@, pos@);
                    assert forall|k: NodeKey| a.contains_key(k) implies a[k] == b[k] by {
                        if k == id@ {
                            assert(ks.take(i + 1).contains(k));
                            if ks.take(i as int).contains(k) {
                                assert(set_at(before, k).insert(pos@) =~= set_at(
                                    g0.mixed_counts(),
                                    k,
                                ).insert(pos@).insert(pos@));
                            }
                        } else if ks.take(i + 1).contains(k) {
                            let j = choose|j: int| 0 <= j < i + 1 && #[trigger] ks.take(i + 1)[j] == k;
                            assert(ks.take(i as int)[j] == k);
                        }
                    }
                    assert forall|k: NodeKey| a.contains_key(k) <==> b.contains_key(k) by {
                        if ks.take(i + 1).contains(k) && k != id@ {
                            let j = choose|j: int| 0 <= j < i + 1 && #[trigger] ks.take(i + 1)[j] == k;
                            assert(ks.take(i as int)[j] == k);
                        }
                    }
                    assert(a =~= b);
                }
            } else {
                proof {
                    let a = with_position(g0.mixed_counts(), ks.take(i + 1), pos@);
                    assert forall|k: NodeKey| a.contains_key(k) implies a[k] == before[k] by {
                        if ks.take(i + 1).contains(k) && k != id@ {
                            let j = choose|j: int| 0 <= j < i + 1 && #[trigger] ks.take(i + 1)[j] == k;
                            assert(ks.take(i as int)[j] == k);
                        }
                    }
                    assert forall|k: NodeKey| a.contains_key(k) <==> before.contains_key(k) by {
                        if ks.take(i + 1).contains(k) && k != id@ {
                            let j = choose|j: int| 0 <= j < i + 1 && #[trigger] ks.take(i + 1)[j] == k;
                            assert(ks.take(i as int)[j] == k);
                        }
                    }
                    assert(a =~= before);
                }
            }
            i = i + 1;
        }
        assert(ks.take(i as int) =~= ks);
        proof {
            crate::graph::lemma_same_specializations(&g0, self);
            assert forall|s: NodeKey| !#[trigger] self.has_edge(s, s) by {
                assert(!g0.has_edge(s, s));
            }
            assert forall|s: NodeKey, t: NodeKey| #[trigger]
                self.has_edge(s, t) implies set_at(self.backward(), t).contains(s) by {
                assert(g0.has_edge(s, t));
            }
        }
    }
}

} // verus!
