//! The bounded backward walk that finds where the data at a node came from,
//! and the queries built on it.
use crate::graph::DataFlowGraph;
use crate::keyed::{
    entries_map, find_entry, item_set, items_unique, insert_item, lemma_entries_map_at,
    lemma_entries_map_contains, KeyEq,
};
use crate::node::{DataFlowNodeId, NodeKey};
use crate::path::{path_keys, PathKey, PathKind};
use vstd::prelude::*;

verus! {

/// The most rounds the backward walk takes.
pub const ORIGIN_WALK_ROUNDS: usize = 50;

/// The views of a sequence of identifiers.
pub open spec fn keys_of(s: Seq<DataFlowNodeId>) -> Seq<NodeKey> {
    s.map_values(|x: DataFlowNodeId| x@)
}

/// What the walk has found so far: visited nodes, origins in the order
/// found, and the nodes to expand in the next round.
pub type WalkState = (Set<NodeKey>, Seq<NodeKey>, Seq<NodeKey>);

impl DataFlowGraph {
    /// A node that the walk may pass through: a vertex or a source.
    pub open spec fn is_walkable(&self, k: NodeKey) -> bool {
        self.vertex_map().contains_key(k) || self.source_map().contains_key(k)
    }

    /// The nodes recorded against `k` as having an edge to it, in the order recorded.
    pub open spec fn parent_seq(&self, k: NodeKey) -> Seq<NodeKey> {
        if entries_map(self.backward_edges@).contains_key(k) {
            keys_of(entries_map(self.backward_edges@)[k]@)
        } else {
            Seq::empty()
        }
    }

    /// Scanning the first `n` parents `ps` of `child`: the new parents found
    /// (walkable and not visited, without repeats), whether a visited parent was
    /// seen, and whether an edge with an ignored label stopped the scan, which
    /// drops the parents found.
    pub open spec fn scan_parents(
        &self,
        child: NodeKey,
        ignore: Seq<PathKey>,
        ps: Seq<NodeKey>,
        n: nat,
        visited: Set<NodeKey>,
    ) -> (Seq<NodeKey>, bool, bool)
        decreases n,
    {
        if n == 0 {
            (Seq::empty(), false, false)
        } else {
            let (np, hv, ab) = self.scan_parents(child, ignore, ps, (n - 1) as nat, visited);
            let p = ps[n - 1];
            if ab {
                (np, hv, ab)
            } else if self.edge(p, child) is Some && ignore.contains(
                self.edge(p, child)->0.kind@,
            ) {
                (Seq::empty(), hv, true)
            } else if self.is_walkable(p) {
                if visited.contains(p) {
                    (np, true, false)
                } else if np.contains(p) {
                    (np, hv, false)
                } else {
                    (np.push(p), hv, false)
                }
            } else {
                (np, hv, false)
            }
        }
    }

    /// One child of a round: visit it, then either take it as an origin or
    /// queue its new parents.
    pub open spec fn walk_child(
        &self,
        ignore: Seq<PathKey>,
        var_ids_only: bool,
        child: NodeKey,
        st: WalkState,
    ) -> WalkState {
        let (visited, origins, next) = st;
        if visited.contains(child) {
            st
        } else {
            let visited = visited.insert(child);
            if var_ids_only && DataFlowNodeId::is_var_like_key(child) {
                (visited, origins.push(child), next)
            } else {
                let ps = self.parent_seq(child);
                let (np, hv, _) = self.scan_parents(child, ignore, ps, ps.len(), visited);
                if np.len() == 0 {
                    (visited, if hv {
                        origins
                    } else {
                        origins.push(child)
                    }, next)
                } else {
                    (visited, origins, next + np)
                }
            }
        }
    }

    /// The first `n` children of a round, in order.
    pub open spec fn walk_children(
        &self,
        ignore: Seq<PathKey>,
        var_ids_only: bool,
        children: Seq<NodeKey>,
        n: nat,
        st: WalkState,
    ) -> WalkState
        decreases n,
    {
        if n == 0 {
            st
        } else {
            self.walk_child(
                ignore,
                var_ids_only,
                children[n - 1],
                self.walk_children(ignore, var_ids_only, children, (n - 1) as nat, st),
            )
        }
    }

    /// `rounds` rounds of the walk.
    pub open spec fn walk_rounds(
        &self,
        ignore: Seq<PathKey>,
        var_ids_only: bool,
        rounds: nat,
        st: WalkState,
    ) -> WalkState
        decreases rounds,
    {
        if rounds == 0 {
            st
        } else {
            let (visited, origins, children) = st;
            let after = self.walk_children(
                ignore,
                var_ids_only,
                children,
                children.len(),
                (visited, origins, Seq::empty()),
            );
            self.walk_rounds(ignore, var_ids_only, (rounds - 1) as nat, after)
        }
    }

    /// The origins of the data at `k`, in the order the bounded walk finds them.
    pub open spec fn origins(&self, k: NodeKey, ignore: Seq<PathKey>, var_ids_only: bool) -> Seq<
        NodeKey,
    > {
        let start: Seq<NodeKey> = if self.is_walkable(k) {
            seq![k]
        } else {
            Seq::empty()
        };
        self.walk_rounds(
            ignore,
            var_ids_only,
            ORIGIN_WALK_ROUNDS as nat,
            (Set::empty(), Seq::empty(), start),
        ).1
    }

    pub fn is_walkable_node(&self, id: &DataFlowNodeId) -> (r: bool)
        ensures
            r == self.is_walkable(id@),
    {
        let v = find_entry(&self.vertices, id);
        proof {
            lemma_entries_map_contains(self.vertices@, id@);
            lemma_entries_map_contains(self.sources@, id@);
        }
        if v.is_some() {
            return true;
        }
        find_entry(&self.sources, id).is_some()
    }

    /// The label of the edge `from -> to`, if there is one.
    pub fn edge_kind(&self, from: &DataFlowNodeId, to: &DataFlowNodeId) -> (r: Option<&PathKind>)
        requires
            self.wf(),
        ensures
            match r {
                Some(k) => self.edge(from@, to@) is Some && self.edge(from@, to@)->0.kind == *k,
                None => self.edge(from@, to@) is None,
            },
    {
        proof {
            lemma_entries_map_contains(self.forward_edges@, from@);
        }
        match find_entry(&self.forward_edges, from) {
            Some(i) => {
                proof {
                    lemma_entries_map_at(self.forward_edges@, i as int);
                    lemma_entries_map_contains(self.forward_edges@[i as int].1@, to@);
                }
                match find_entry(&self.forward_edges[i].1, to) {
                    Some(j) => {
                        proof {
                            lemma_entries_map_at(self.forward_edges@[i as int].1@, j as int);
                        }
                        Some(&self.forward_edges[i].1[j].1.kind)
                    },
                    None => None,
                }
            },
            None => None,
        }
    }

    /// The nodes recorded against `id` as having an edge to it.
    pub fn parents_of(&self, id: &DataFlowNodeId) -> (r: Option<&Vec<DataFlowNodeId>>)
        requires
            self.wf(),
        ensures
            match r {
                Some(v) => keys_of(v@) == self.parent_seq(id@),
                None => self.parent_seq(id@) == Seq::<NodeKey>::empty(),
            },
    {
        proof {
            lemma_entries_map_contains(self.backward_edges@, id@);
        }
        match find_entry(&self.backward_edges, id) {
            Some(i) => {
                proof {
                    lemma_entries_map_at(self.backward_edges@, i as int);
                }
                Some(&self.backward_edges[i].1)
            },
            None => None,
        }
    }
}

pub proof fn lemma_item_set_keys(s: Seq<DataFlowNodeId>, k: NodeKey)
    ensures
        item_set(s).contains(k) == keys_of(s).contains(k),
{
    if item_set(s).contains(k) {
        let i = choose|i: int| 0 <= i < s.len() && #[trigger] s[i]@ == k;
        assert(keys_of(s)[i] == k);
    }
    if keys_of(s).contains(k) {
        let i = choose|i: int| 0 <= i < keys_of(s).len() && keys_of(s)[i] == k;
        assert(s[i]@ == k);
    }
}

proof fn lemma_walk_rounds_idle(g: &DataFlowGraph, ignore: Seq<PathKey>, v: bool, k: nat, st: WalkState)
    requires
        st.2.len() == 0,
    ensures
        g.walk_rounds(ignore, v, k, st) == st,
    decreases k,
{
    if k > 0 {
        let (visited, origins, children) = st;
        assert((visited, origins, Seq::<NodeKey>::empty()) == st);
        lemma_walk_rounds_idle(g, ignore, v, (k - 1) as nat, st);
    }
}

impl DataFlowGraph {
    /// Scans the parents of `child` as `scan_parents` describes.
    fn scan_parents_exec(
        &self,
        child: &DataFlowNodeId,
        ignore_paths: &Vec<PathKind>,
        visited: &Vec<DataFlowNodeId>,
    ) -> (r: (Vec<DataFlowNodeId>, bool))
        requires
            self.wf(),
        ensures
            ({
                let ps = self.parent_seq(child@);
                let scanned = self.scan_parents(
                    child@,
                    path_keys(ignore_paths@),
                    ps,
                    ps.len(),
                    item_set(visited@),
                );
                keys_of(r.0@) == scanned.0 && r.1 == scanned.1
            }),
    {
        let ghost ignore = path_keys(ignore_paths@);
        let ghost vis = item_set(visited@);
        let mut np: Vec<DataFlowNodeId> = Vec::new();
        let mut hv = false;
        let mut aborted = false;
        match self.parents_of(child) {
            None => {
                assert(keys_of(np@) =~= Seq::<NodeKey>::empty());
                (np, hv)
            },
            Some(ps) => {
                let ghost pk = keys_of(ps@);
                let mut j: usize = 0;
                assert(keys_of(np@) =~= Seq::<NodeKey>::empty());
                while j < ps.len()
                    invariant
                        self.wf(),
                        j <= ps@.len(),
                        pk == keys_of(ps@),
                        ignore == path_keys(ignore_paths@),
                        vis == item_set(visited@),
                        (keys_of(np@), hv, aborted) == self.scan_parents(
                            child@,
                            ignore,
                            pk,
                            j as nat,
                            vis,
                        ),
                    decreases ps@.len() - j,
                {
                    if !aborted {
                        let p = &ps[j];
                        assert(pk[j as int] == p@);
                        let ignored = match self.edge_kind(p, child) {
                            Some(k) => contains_path_kind(ignore_paths, k),
                            None => false,
                        };
                        if ignored {
                            np = Vec::new();
                            aborted = true;
                            assert(keys_of(np@) =~= Seq::<NodeKey>::empty());
                        } else if self.is_walkable_node(p) {
                            proof {
                                lemma_item_set_keys(visited@, p@);
                            }
                            if contains_id(visited, p) {
                                hv = true;
                            } else if !contains_id(&np, p) {
                                let ghost before = np@;
                                np.push(p.key_copy());
                                assert(keys_of(np@) =~= keys_of(before).push(p@));
                            }
                        }
                    }
                    j = j + 1;
                }
                (np, hv)
            },
        }
    }

    /// Walks one child of a round as `walk_child` describes.
    fn walk_child_exec(
        &self,
        child: &DataFlowNodeId,
        ignore_paths: &Vec<PathKind>,
        var_ids_only: bool,
        visited: &mut Vec<DataFlowNodeId>,
        origins: &mut Vec<DataFlowNodeId>,
        next: &mut Vec<DataFlowNodeId>,
    )
        requires
            self.wf(),
            items_unique(old(visited)@),
        ensures
            items_unique(final(visited)@),
            (item_set(final(visited)@), keys_of(final(origins)@), keys_of(final(next)@))
                == self.walk_child(
                path_keys(ignore_paths@),
                var_ids_only,
                child@,
                (item_set(old(visited)@), keys_of(old(origins)@), keys_of(old(next)@)),
            ),
    {
        proof {
            lemma_item_set_keys(visited@, child@);
        }
        if contains_id(visited, child) {
            return ;
        }
        insert_item(visited, child.key_copy());
        if var_ids_only && child.is_var_like() {
            let ghost before = origins@;
            origins.push(child.key_copy());
            assert(keys_of(origins@) =~= keys_of(before).push(child@));
            return ;
        }
        let (np, hv) = self.scan_parents_exec(child, ignore_paths, visited);
        if np.len() == 0 {
            if !hv {
                let ghost before = origins@;
                origins.push(child.key_copy());
                assert(keys_of(origins@) =~= keys_of(before).push(child@));
            }
        } else {
            let ghost before = next@;
            let ghost added = np@;
            let mut np = np;
            next.append(&mut np);
            assert(keys_of(next@) =~= keys_of(before) + keys_of(added));
        }
    }

    /// The origins of the data at `assignment_node_id`: a walk backwards over
    /// recorded edges, at most fifty rounds. An edge labelled with a kind in
    /// `ignore_paths` stops the walk through its target; with `var_ids_only` a
    /// variable or a parameter is an origin as soon as it is reached.
    pub fn get_origin_node_ids(
        &self,
        assignment_node_id: &DataFlowNodeId,
        ignore_paths: &Vec<PathKind>,
        var_ids_only: bool,
    ) -> (r: Vec<DataFlowNodeId>)
        requires
            self.wf(),
        ensures
            keys_of(r@) == self.origins(assignment_node_id@, path_keys(ignore_paths@), var_ids_only),
    {
        let ghost ignore = path_keys(ignore_paths@);
        let mut visited: Vec<DataFlowNodeId> = Vec::new();
        let mut origin_nodes: Vec<DataFlowNodeId> = Vec::new();
        let mut children: Vec<DataFlowNodeId> = Vec::new();
        if self.is_walkable_node(assignment_node_id) {
            children.push(assignment_node_id.key_copy());
        }
        let ghost start: WalkState = (Set::empty(), Seq::empty(), keys_of(children@));
        assert(start.2 =~= (if self.is_walkable(assignment_node_id@) {
            seq![assignment_node_id@]
        } else {
            Seq::<NodeKey>::empty()
        }));
        assert(item_set(visited@) =~= Set::<NodeKey>::empty());
        assert(keys_of(origin_nodes@) =~= Seq::<NodeKey>::empty());
        let mut round: usize = 0;
        let mut done = false;
        while round < ORIGIN_WALK_ROUNDS && !done
            invariant
                self.wf(),
                round <= ORIGIN_WALK_ROUNDS,
                ignore == path_keys(ignore_paths@),
                items_unique(visited@),
                done ==> children@.len() == 0,
                self.walk_rounds(ignore, var_ids_only, ORIGIN_WALK_ROUNDS as nat, start)
                    == self.walk_rounds(
                    ignore,
                    var_ids_only,
                    (ORIGIN_WALK_ROUNDS - round) as nat,
                    (item_set(visited@), keys_of(origin_nodes@), keys_of(children@)),
                ),
            decreases ORIGIN_WALK_ROUNDS - round,
        {
            let ghost ch = keys_of(children@);
            let ghost st0: WalkState = (item_set(visited@), keys_of(origin_nodes@), Seq::empty());
            let mut all_parents: Vec<DataFlowNodeId> = Vec::new();
            let mut i: usize = 0;
            assert(keys_of(all_parents@) =~= Seq::<NodeKey>::empty());
            while i < children.len()
                invariant
                    self.wf(),
                    i <= children@.len(),
                    ch == keys_of(children@),
                    ignore == path_keys(ignore_paths@),
                    items_unique(visited@),
                    (item_set(visited@), keys_of(origin_nodes@), keys_of(all_parents@))
                        == self.walk_children(ignore, var_ids_only, ch, i as nat, st0),
                decreases children@.len() - i,
            {
                assert(ch[i as int] == children@[i as int]@);
                self.walk_child_exec(
                    &children[i],
                    ignore_paths,
                    var_ids_only,
                    &mut visited,
                    &mut origin_nodes,
                    &mut all_parents,
                );
                i = i + 1;
            }
            children = all_parents;
            round = round + 1;
            if children.len() == 0 {
                done = true;
            }
        }
        proof {
            if done {
                assert(keys_of(children@) =~= Seq::<NodeKey>::empty());
                lemma_walk_rounds_idle(
                    self,
                    ignore,
                    var_ids_only,
                    (ORIGIN_WALK_ROUNDS - round) as nat,
                    (item_set(visited@), keys_of(origin_nodes@), keys_of(children@)),
                );
            }
        }
        origin_nodes
    }
}

/// The backward walk depends on the graph and its arguments alone: two walks
/// from the same node over an unchanged graph find the same origins.
pub proof fn law_origins_repeatable(
    g: &DataFlowGraph,
    k: NodeKey,
    ignore: Seq<PathKey>,
    var_ids_only: bool,
    first: Seq<NodeKey>,
    second: Seq<NodeKey>,
)
    requires
        first == g.origins(k, ignore, var_ids_only),
        second == g.origins(k, ignore, var_ids_only),
    ensures
        first.to_multiset() == second.to_multiset(),
{
}

/// No origin is found twice, and every origin has been visited.
pub open spec fn origins_sound(st: WalkState) -> bool {
    &&& forall|i: int, j: int|
        0 <= i < st.1.len() && 0 <= j < st.1.len() && i != j ==> st.1[i] != st.1[j]
    &&& forall|i: int| 0 <= i < st.1.len() ==> st.0.contains(#[trigger] st.1[i])
}

proof fn lemma_walk_child_sound(
    g: &DataFlowGraph,
    ignore: Seq<PathKey>,
    v: bool,
    child: NodeKey,
    st: WalkState,
)
    requires
        origins_sound(st),
    ensures
        origins_sound(g.walk_child(ignore, v, child, st)),
{
    let r = g.walk_child(ignore, v, child, st);
    if !st.0.contains(child) {
        assert forall|i: int| 0 <= i < st.1.len() implies st.1[i] != child by {
            assert(st.0.contains(st.1[i]));
        }
        assert forall|i: int| 0 <= i < r.1.len() implies r.0.contains(#[trigger] r.1[i]) by {
            if i < st.1.len() {
                assert(r.1[i] == st.1[i]);
            }
        }
    }
}

proof fn lemma_walk_children_sound(
    g: &DataFlowGraph,
    ignore: Seq<PathKey>,
    v: bool,
    children: Seq<NodeKey>,
    n: nat,
    st: WalkState,
)
    requires
        origins_sound(st),
    ensures
        origins_sound(g.walk_children(ignore, v, children, n, st)),
    decreases n,
{
    if n > 0 {
        lemma_walk_children_sound(g, ignore, v, children, (n - 1) as nat, st);
        lemma_walk_child_sound(
            g,
            ignore,
            v,
            children[n - 1],
            g.walk_children(ignore, v, children, (n - 1) as nat, st),
        );
    }
}

proof fn lemma_walk_rounds_sound(g: &DataFlowGraph, ignore: Seq<PathKey>, v: bool, k: nat, st: WalkState)
    requires
        origins_sound(st),
    ensures
        origins_sound(g.walk_rounds(ignore, v, k, st)),
    decreases k,
{
    if k > 0 {
        let (visited, origins, children) = st;
        lemma_walk_children_sound(g, ignore, v, children, children.len(), (visited, origins, Seq::empty()));
        let after = g.walk_children(ignore, v, children, children.len(), (visited, origins, Seq::empty()));
        lemma_walk_rounds_sound(g, ignore, v, (k - 1) as nat, after);
    }
}

/// The backward walk finds no origin twice.
pub proof fn law_origins_distinct(g: &DataFlowGraph, k: NodeKey, ignore: Seq<PathKey>, var_ids_only: bool)
    ensures
        forall|i: int, j: int|
            0 <= i < g.origins(k, ignore, var_ids_only).len() && 0 <= j < g.origins(
                k,
                ignore,
                var_ids_only,
            ).len() && i != j ==> g.origins(k, ignore, var_ids_only)[i] != g.origins(
                k,
                ignore,
                var_ids_only,
            )[j],
{
    let start: Seq<NodeKey> = if g.is_walkable(k) {
        seq![k]
    } else {
        Seq::empty()
    };
    lemma_walk_rounds_sound(
        g,
        ignore,
        var_ids_only,
        ORIGIN_WALK_ROUNDS as nat,
        (Set::empty(), Seq::empty(), start),
    );
}

/// Whether `k` is among `kinds`.
pub fn contains_path_kind(kinds: &Vec<PathKind>, k: &PathKind) -> (r: bool)
    ensures
        r == path_keys(kinds@).contains(k@),
{
    let mut i: usize = 0;
    while i < kinds.len()
        invariant
            i <= kinds@.len(),
            forall|j: int| 0 <= j < i ==> #[trigger] kinds@[j]@ != k@,
        decreases kinds@.len() - i,
    {
        if kinds[i].key_eq(k) {
            assert(path_keys(kinds@)[i as int] == k@);
            return true;
        }
        i = i + 1;
    }
    proof {
        if path_keys(kinds@).contains(k@) {
            let j = choose|j: int| 0 <= j < path_keys(kinds@).len() && path_keys(kinds@)[j] == k@;
            assert(kinds@[j]@ == k@);
        }
    }
    false
}

/// Whether `k` is among `items`.
pub fn contains_id(items: &Vec<DataFlowNodeId>, k: &DataFlowNodeId) -> (r: bool)
    ensures
        r == keys_of(items@).contains(k@),
{
    let mut i: usize = 0;
    while i < items.len()
        invariant
            i <= items@.len(),
            forall|j: int| 0 <= j < i ==> #[trigger] items@[j]@ != k@,
        decreases items@.len() - i,
    {
        if items[i].key_eq(k) {
            assert(keys_of(items@)[i as int] == k@);
            return true;
        }
        i = i + 1;
    }
    proof {
        if keys_of(items@).contains(k@) {
            let j = choose|j: int| 0 <= j < keys_of(items@).len() && keys_of(items@)[j] == k@;
            assert(items@[j]@ == k@);
        }
    }
    false
}

} // verus!
