//! Options of type expansion, and the part of expansion that feeds the
//! data-flow graph: taint sources for the fields of shape type aliases.
//!
//! Resolving aliases, class constants, enums and closure names into expanded
//! types belongs with the code base that owns those definitions, its type
//! combiner and its template replacer; they hand the taints of a shape alias
//! to `add_shape_field_taints` when they expand it.
use crate::graph::DataFlowGraph;
use crate::node::{DataFlowNode, DataFlowNodeId, DataFlowNodeKind, FilePath, HPos, NodeKey, SinkType, StrId};
use crate::path::{ArrayDataKind, PathKey, PathKind};
use crate::ttype::{DictKey, TAtomic};
use vstd::prelude::*;
use vstd::string::StringExecFns;

verus! {

/// What `static` stands for while expanding.
#[derive(Debug)]
pub enum StaticClassType {
    Absent,
    Name(StrId),
    Object(TAtomic),
}

/// How far to expand a type.
#[derive(Debug)]
pub struct TypeExpansionOptions {
    pub self_class: Option<StrId>,
    pub static_class_type: StaticClassType,
    pub parent_class: Option<StrId>,
    pub file_path: Option<FilePath>,
    pub evaluate_class_constants: bool,
    pub evaluate_conditional_types: bool,
    pub function_is_final: bool,
    pub expand_generic: bool,
    pub expand_templates: bool,
    pub expand_hakana_types: bool,
    pub expand_typenames: bool,
    pub expand_all_type_aliases: bool,
}

impl TypeExpansionOptions {
    /// The usual options: class constants, templates, the analyzer's own types
    /// and typenames are expanded; nothing else.
    pub fn default() -> (r: TypeExpansionOptions)
        ensures
            r.self_class is None,
            r.static_class_type is Absent,
            r.parent_class is None,
            r.file_path is None,
            r.evaluate_class_constants,
            !r.evaluate_conditional_types,
            !r.function_is_final,
            !r.expand_generic,
            r.expand_templates,
            r.expand_hakana_types,
            r.expand_typenames,
            !r.expand_all_type_aliases,
    {
        TypeExpansionOptions {
            self_class: None,
            static_class_type: StaticClassType::Absent,
            parent_class: None,
            file_path: None,
            evaluate_class_constants: true,
            evaluate_conditional_types: false,
            function_is_final: false,
            expand_generic: false,
            expand_templates: true,
            expand_hakana_types: true,
            expand_typenames: true,
            expand_all_type_aliases: false,
        }
    }
}

/// A field of a shape alias marked as a taint source: its key, where it was
/// marked, and the sinks it matters to.
#[derive(Debug)]
pub struct ShapeFieldTaint {
    pub key: DictKey,
    pub pos: HPos,
    pub types: Vec<SinkType>,
}

/// A shape key of a kind that taint injection does not name.
#[derive(Clone, Copy, Debug, PartialEq, Eq, Structural)]
pub struct UnsupportedDictKey {
    pub enum_name: StrId,
    pub member_name: StrId,
}

/// The decimal digits of `n`.
pub open spec fn decimal(n: nat) -> Seq<char>
    decreases n,
{
    if n < 10 {
        seq![(48 + n) as char]
    } else {
        decimal(n / 10).push((48 + n % 10) as char)
    }
}

/// The digit `d` as text.
fn digit_text(d: u64) -> (r: &'static str)
    requires
        d < 10,
    ensures
        r@ == seq![(48 + d) as char],
{
    proof {
        reveal_strlit("0");
        reveal_strlit("1");
        reveal_strlit("2");
        reveal_strlit("3");
        reveal_strlit("4");
        reveal_strlit("5");
        reveal_strlit("6");
        reveal_strlit("7");
        reveal_strlit("8");
        reveal_strlit("9");
    }
    if d == 0 {
        "0"
    } else if d == 1 {
        "1"
    } else if d == 2 {
        "2"
    } else if d == 3 {
        "3"
    } else if d == 4 {
        "4"
    } else if d == 5 {
        "5"
    } else if d == 6 {
        "6"
    } else if d == 7 {
        "7"
    } else if d == 8 {
        "8"
    } else {
        "9"
    }
}

/// Appends the decimal digits of `n`.
fn push_decimal(text: &mut String, n: u64)
    ensures
        final(text)@ == old(text)@ + decimal(n as nat),
    decreases n,
{
    if n >= 10 {
        push_decimal(text, n / 10);
    }
    let ghost before = text@;
    text.append(digit_text(n % 10));
    proof {
        if n >= 10 {
            assert(decimal(n as nat) == decimal((n / 10) as nat).push((48 + n % 10) as char));
        }
        assert(text@ =~= old(text)@ + decimal(n as nat));
    }
}

/// The decimal digits of `n`, without sign or leading zeros.
fn decimal_text(n: u64) -> (r: String)
    ensures
        r@ == decimal(n as nat),
{
    let mut text = String::new();
    push_decimal(&mut text, n);
    assert(text@ =~= decimal(n as nat));
    text
}

/// The text that names a shape key: an integer in decimal, a string as it
/// is; none for an enum member.
pub open spec fn dict_key_text(k: DictKey) -> Option<Seq<char>> {
    match k {
        DictKey::Int(i) => Some(decimal(i as nat)),
        DictKey::String(s) => Some(s@),
        DictKey::Enum(_, _) => None,
    }
}

fn key_text(k: &DictKey) -> (r: Option<String>)
    ensures
        match r {
            Some(s) => dict_key_text(*k) == Some(s@),
            None => dict_key_text(*k) is None,
        },
{
    match k {
        DictKey::Int(i) => Some(decimal_text(*i)),
        DictKey::String(s) => Some(s.clone()),
        DictKey::Enum(_, _) => None,
    }
}

/// The node key of a tainted field of the shape alias `alias_name`.
pub open spec fn field_key(alias_name: StrId, t: ShapeFieldTaint) -> NodeKey {
    NodeKey::ShapeFieldAccess(alias_name, dict_key_text(t.key)->0)
}

/// The label of the edge from a tainted field to its shape.
pub open spec fn field_path(t: ShapeFieldTaint) -> PathKey {
    PathKey::ArrayAssignment(ArrayDataKind::ArrayValue, dict_key_text(t.key)->0)
}

/// No field after the `i`th, among the first `n`, has its key: the `i`th is
/// the one that stands for that key.
pub open spec fn last_with_key(taints: Seq<ShapeFieldTaint>, i: int, n: int) -> bool {
    forall|l: int| i < l < n ==> dict_key_text(#[trigger] taints[l].key) != dict_key_text(taints[i].key)
}

/// Injects the taint sources of a shape alias: for each tainted field a
/// taint-source node `ShapeFieldAccess(alias_name, key)` and an edge labelled
/// `ArrayAssignment(ArrayValue, key)` from it to the node of the shape as a
/// whole, which is added last and returned. A field keyed by an enum member
/// is refused, and the graph is then left as it was.
pub fn add_shape_field_taints(
    graph: &mut DataFlowGraph,
    alias_name: StrId,
    location: HPos,
    shape_field_taints: Vec<ShapeFieldTaint>,
) -> (r: Result<DataFlowNode, UnsupportedDictKey>)
    requires
        old(graph).wf(),
    ensures
        final(graph).wf(),
        final(graph).kind == old(graph).kind,
        r is Err <==> exists|i: int|
            0 <= i < shape_field_taints@.len() && #[trigger] dict_key_text(
                shape_field_taints@[i].key,
            ) is None,
        r is Err ==> final(graph).same_contents(old(graph)),
        r is Ok ==> ({
            let shape = r->Ok_0;
            let sk = NodeKey::Symbol(alias_name);
            let ts = shape_field_taints@;
            &&& shape == DataFlowNode::get_for_type_spec(alias_name, location)
            &&& final(graph).vertex_map() == old(graph).vertex_map().insert(sk, shape)
            &&& final(graph).sink_map() == old(graph).sink_map()
            &&& forall|k: NodeKey| #[trigger]
                final(graph).source_map().contains_key(k) <==> (old(graph).source_map().contains_key(k)
                    || exists|i: int| 0 <= i < ts.len() && k == field_key(alias_name, #[trigger] ts[i]))
            &&& forall|k: NodeKey|
                old(graph).source_map().contains_key(k) && (forall|i: int|
                    0 <= i < ts.len() ==> k != field_key(alias_name, #[trigger] ts[i]))
                    ==> #[trigger] final(graph).source_map()[k] == old(graph).source_map()[k]
            &&& forall|i: int|
                0 <= i < ts.len() && last_with_key(ts, i, ts.len() as int) ==> (#[trigger] final(graph).source_map()[field_key(alias_name, ts[i])]).kind == (DataFlowNodeKind::TaintSource {
                    pos: Some(ts[i].pos),
                    types: ts[i].types,
                }) && final(graph).source_map()[field_key(alias_name, ts[i])].id@ == field_key(
                    alias_name,
                    ts[i],
                )
            &&& forall|i: int|
                0 <= i < ts.len() ==> #[trigger] final(graph).has_edge(field_key(alias_name, ts[i]), sk)
                    && final(graph).edge(field_key(alias_name, ts[i]), sk)->0.kind@ == field_path(ts[i])
                    && final(graph).edge(field_key(alias_name, ts[i]), sk)->0.added_taints@.len() == 0
                    && final(graph).edge(field_key(alias_name, ts[i]), sk)->0.removed_taints@.len() == 0
            &&& forall|s: NodeKey, t: NodeKey| #[trigger]
                final(graph).has_edge(s, t) <==> (old(graph).has_edge(s, t) || (t == sk && exists|i: int|
                    0 <= i < ts.len() && s == field_key(alias_name, #[trigger] ts[i])))
        }),
{
    let ghost g0 = *graph;
    let ghost ts = shape_field_taints@;
    let mut i: usize = 0;
    while i < shape_field_taints.len()
        invariant
            i <= ts.len(),
            ts == shape_field_taints@,
            *graph == g0,
            g0.wf(),
            forall|j: int| 0 <= j < i ==> dict_key_text(#[trigger] ts[j].key) is Some,
        decreases ts.len() - i,
    {
        if let DictKey::Enum(e, m) = &shape_field_taints[i].key {
            return Err(UnsupportedDictKey { enum_name: *e, member_name: *m });
        }
        i = i + 1;
    }
    let shape_node = DataFlowNode::get_for_type(alias_name, location);
    let sk = DataFlowNodeId::Symbol(alias_name);
    assert(sk@ == NodeKey::Symbol(alias_name));
    let mut rest = crate::keyed::reversed(shape_field_taints);
    let n = rest.len();
    while rest.len() > 0
        invariant
            graph.wf(),
            graph.kind == g0.kind,
            n == ts.len(),
            rest@.len() <= n,
            sk@ == NodeKey::Symbol(alias_name),
            forall|j: int| 0 <= j < rest@.len() ==> #[trigger] rest@[j] == ts[n - 1 - j],
            forall|j: int| 0 <= j < ts.len() ==> dict_key_text(#[trigger] ts[j].key) is Some,
            graph.vertex_map() == g0.vertex_map(),
            graph.sink_map() == g0.sink_map(),
            forall|k: NodeKey| #[trigger]
                graph.source_map().contains_key(k) <==> (g0.source_map().contains_key(k) || exists|j: int|
                    0 <= j < n - rest@.len() && k == field_key(alias_name, #[trigger] ts[j])),
            forall|k: NodeKey|
                g0.source_map().contains_key(k) && (forall|j: int|
                    0 <= j < n - rest@.len() ==> k != field_key(alias_name, #[trigger] ts[j]))
                    ==> #[trigger] graph.source_map()[k] == g0.source_map()[k],
            forall|j: int|
                0 <= j < n - rest@.len() && last_with_key(ts, j, n - rest@.len()) ==> (#[trigger] graph.source_map()[field_key(alias_name, ts[j])]).kind
                    == (DataFlowNodeKind::TaintSource { pos: Some(ts[j].pos), types: ts[j].types })
                    && graph.source_map()[field_key(alias_name, ts[j])].id@ == field_key(alias_name, ts[j]),
            forall|j: int|
                0 <= j < n - rest@.len() ==> #[trigger] graph.has_edge(field_key(alias_name, ts[j]), sk@)
                    && graph.edge(field_key(alias_name, ts[j]), sk@)->0.kind@ == field_path(ts[j])
                    && graph.edge(field_key(alias_name, ts[j]), sk@)->0.added_taints@.len() == 0
                    && graph.edge(field_key(alias_name, ts[j]), sk@)->0.removed_taints@.len() == 0,
            forall|s: NodeKey, t: NodeKey| #[trigger]
                graph.has_edge(s, t) <==> (g0.has_edge(s, t) || (t == sk@ && exists|j: int|
                    0 <= j < n - rest@.len() && s == field_key(alias_name, #[trigger] ts[j]))),
        decreases rest@.len(),
    {
        let ghost idx = n - rest@.len();
        let ghost before = *graph;
        let t = rest.pop().unwrap();
        assert(t == ts[idx]);
        let text = key_text(&t.key).unwrap();
        let field_id = DataFlowNodeId::ShapeFieldAccess(alias_name, text.clone());
        assert(field_id@ == field_key(alias_name, t));
        let ghost fk = field_id@;
        let ShapeFieldTaint { key: _, pos, types } = t;
        graph.add_path(&field_id, &sk, PathKind::ArrayAssignment(ArrayDataKind::ArrayValue, text), Vec::new(), Vec::new());
        let field_node = DataFlowNode { id: field_id, kind: DataFlowNodeKind::TaintSource { pos: Some(pos), types } };
        graph.add_node(field_node);
        proof {
            assert(field_key(alias_name, ts[idx]) == fk);
            assert forall|s: NodeKey, t2: NodeKey| #[trigger]
                graph.has_edge(s, t2) <==> (g0.has_edge(s, t2) || (t2 == sk@ && exists|j: int|
                    0 <= j < idx + 1 && s == field_key(alias_name, #[trigger] ts[j]))) by {
                if s == fk && t2 == sk@ {
                    assert(field_key(alias_name, ts[idx]) == fk);
                } else {
                    assert(graph.has_edge(s, t2) == before.has_edge(s, t2));
                }
                if t2 == sk@ && (exists|j: int| 0 <= j < idx + 1 && s == field_key(alias_name, #[trigger] ts[j])) {
                    let j = choose|j: int| 0 <= j < idx + 1 && s == field_key(alias_name, #[trigger] ts[j]);
                    if j < idx {
                        assert(before.has_edge(s, t2));
                    }
                }
            }
            assert forall|k: NodeKey| #[trigger]
                graph.source_map().contains_key(k) <==> (g0.source_map().contains_key(k) || exists|j: int|
                    0 <= j < idx + 1 && k == field_key(alias_name, #[trigger] ts[j])) by {
                if k == fk {
                    assert(field_key(alias_name, ts[idx]) == fk);
                }
                if exists|j: int| 0 <= j < idx + 1 && k == field_key(alias_name, #[trigger] ts[j]) {
                    let j = choose|j: int| 0 <= j < idx + 1 && k == field_key(alias_name, #[trigger] ts[j]);
                    if j < idx {
                        assert(before.source_map().contains_key(k));
                    }
                }
            }
            assert forall|k: NodeKey|
                g0.source_map().contains_key(k) && (forall|j: int|
                    0 <= j < idx + 1 ==> k != field_key(alias_name, #[trigger] ts[j]))
                    implies #[trigger] graph.source_map()[k] == g0.source_map()[k] by {
                assert(k != field_key(alias_name, ts[idx]));
            }
            assert forall|j: int|
                0 <= j < idx + 1 && last_with_key(ts, j, idx + 1) implies (#[trigger] graph.source_map()[field_key(alias_name, ts[j])]).kind
                    == (DataFlowNodeKind::TaintSource { pos: Some(ts[j].pos), types: ts[j].types })
                    && graph.source_map()[field_key(alias_name, ts[j])].id@ == field_key(alias_name, ts[j]) by {
                if j < idx {
                    assert(dict_key_text(ts[idx].key) != dict_key_text(ts[j].key));
                    assert(field_key(alias_name, ts[j]) != fk);
                    assert(last_with_key(ts, j, idx));
                }
            }
            assert forall|j: int|
                0 <= j < idx + 1 implies #[trigger] graph.has_edge(field_key(alias_name, ts[j]), sk@)
                    && graph.edge(field_key(alias_name, ts[j]), sk@)->0.kind@ == field_path(ts[j])
                    && graph.edge(field_key(alias_name, ts[j]), sk@)->0.added_taints@.len() == 0
                    && graph.edge(field_key(alias_name, ts[j]), sk@)->0.removed_taints@.len() == 0 by {
                if j < idx {
                    if field_key(alias_name, ts[j]) != fk {
                        assert(before.has_edge(field_key(alias_name, ts[j]), sk@));
                    } else {
                        assert(dict_key_text(ts[j].key) == dict_key_text(ts[idx].key));
                        assert(field_path(ts[j]) == field_path(ts[idx]));
                    }
                }
            }
        }
    }
    let ghost before_shape = *graph;
    let result = DataFlowNode::get_for_type(alias_name, location);
    graph.add_node(shape_node);
    proof {
        assert forall|k: NodeKey| #[trigger]
            graph.source_map().contains_key(k) <==> (g0.source_map().contains_key(k) || exists|j: int|
                0 <= j < ts.len() && k == field_key(alias_name, #[trigger] ts[j])) by {
            assert(before_shape.source_map().contains_key(k) == graph.source_map().contains_key(k));
        }
        assert(graph.forward() == before_shape.forward());
        assert forall|j: int|
            0 <= j < ts.len() implies #[trigger] graph.has_edge(field_key(alias_name, ts[j]), sk@)
                && graph.edge(field_key(alias_name, ts[j]), sk@)->0.kind@ == field_path(ts[j])
                && graph.edge(field_key(alias_name, ts[j]), sk@)->0.added_taints@.len() == 0
                && graph.edge(field_key(alias_name, ts[j]), sk@)->0.removed_taints@.len() == 0 by {
            assert(before_shape.has_edge(field_key(alias_name, ts[j]), sk@));
        }
        assert forall|s: NodeKey, t: NodeKey| #[trigger]
            graph.has_edge(s, t) <==> (g0.has_edge(s, t) || (t == sk@ && exists|j: int|
                0 <= j < ts.len() && s == field_key(alias_name, #[trigger] ts[j]))) by {
            assert(graph.has_edge(s, t) == before_shape.has_edge(s, t));
        }
        assert forall|j: int|
            0 <= j < ts.len() && last_with_key(ts, j, ts.len() as int) implies (#[trigger] graph.source_map()[field_key(alias_name, ts[j])]).kind
                == (DataFlowNodeKind::TaintSource { pos: Some(ts[j].pos), types: ts[j].types })
                && graph.source_map()[field_key(alias_name, ts[j])].id@ == field_key(alias_name, ts[j]) by {
            assert(before_shape.source_map()[field_key(alias_name, ts[j])] == graph.source_map()[field_key(alias_name, ts[j])]);
        }
    }
    Ok(result)
}

} // verus!
