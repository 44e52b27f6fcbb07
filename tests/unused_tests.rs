use hakana_flow::autofix::{
    add_unused_expression_replacements, Expr, ExprKind, FunctionAnalysisData, Pos, Replacement, Stmt,
    StmtKind,
};
use hakana_flow::graph::{DataFlowGraph, GraphKind};
use hakana_flow::node::{
    DataFlowNode, DataFlowNodeId, DataFlowNodeKind, FilePath, FunctionLikeIdentifier, HPos,
    VariableSourceKind,
};
use hakana_flow::path::{should_ignore_array_fetch, should_ignore_property_fetch, ArrayDataKind, PathKind};
use hakana_flow::unused::{
    check_variables_used, get_variable_child_nodes, is_variable_used, VariableUsage, VariableUseNode,
};

fn pos(start: u32, end: u32) -> HPos {
    HPos {
        file_path: FilePath(1),
        start_offset: start,
        end_offset: end,
        start_line: 1,
        end_line: 1,
        start_column: 0,
        end_column: 0,
    }
}

fn f() -> FunctionLikeIdentifier {
    FunctionLikeIdentifier::Function(9)
}

fn source(name: u32, start: u32, pure: bool, kind: VariableSourceKind) -> DataFlowNode {
    DataFlowNode {
        id: DataFlowNodeId::Var(f(), name, start, start + 2),
        kind: DataFlowNodeKind::VariableUseSource { pos: pos(start, start + 2), kind, pure },
    }
}

fn sink(n: u64, start: u32) -> DataFlowNode {
    DataFlowNode { id: DataFlowNodeId::Synthetic(n), kind: DataFlowNodeKind::VariableUseSink { pos: pos(start, start + 1) } }
}

fn vertex(n: u64) -> DataFlowNode {
    DataFlowNode { id: DataFlowNodeId::Synthetic(n), kind: DataFlowNodeKind::Vertex { pos: Some(pos(0, 1)), is_specialized: false } }
}

/// `let x = 1; let y = 2; return y;`
#[test]
fn never_referenced_variable_is_unused() {
    let mut g = DataFlowGraph::new(GraphKind::FunctionBody);
    let x = source(1, 0, true, VariableSourceKind::Default);
    let y = source(2, 11, true, VariableSourceKind::Default);
    let ret = sink(100, 29);
    g.add_node(x.clone());
    g.add_node(y.clone());
    g.add_node(ret.clone());
    g.add_path(&y.id, &ret.id, PathKind::Default, vec![], vec![]);
    assert_eq!(is_variable_used(&g, &x), VariableUsage::NeverReferenced);
    assert_eq!(is_variable_used(&g, &y), VariableUsage::Used);
    let (unused, referenced) = check_variables_used(&g);
    assert_eq!(unused, vec![x]);
    assert!(referenced.is_empty());
}

/// `let x = foo();` with `foo` not pure: never referenced, but not removable whole.
#[test]
fn impure_never_referenced_variable_is_soft() {
    let mut g = DataFlowGraph::new(GraphKind::FunctionBody);
    let x = source(1, 0, false, VariableSourceKind::Default);
    g.add_node(x.clone());
    assert_eq!(is_variable_used(&g, &x), VariableUsage::NeverReferenced);
    let (unused, referenced) = check_variables_used(&g);
    assert!(unused.is_empty());
    assert_eq!(referenced, vec![x]);
}

#[test]
fn parameter_never_referenced_is_soft() {
    let mut g = DataFlowGraph::new(GraphKind::FunctionBody);
    let p = source(1, 0, true, VariableSourceKind::NonPrivateParam);
    g.add_node(p.clone());
    let (unused, referenced) = check_variables_used(&g);
    assert!(unused.is_empty());
    assert_eq!(referenced, vec![p]);
}

#[test]
fn referenced_but_not_used() {
    let mut g = DataFlowGraph::new(GraphKind::FunctionBody);
    let x = source(1, 0, true, VariableSourceKind::Default);
    let v = vertex(5);
    g.add_node(x.clone());
    g.add_node(v.clone());
    g.add_path(&x.id, &v.id, PathKind::Default, vec![], vec![]);
    assert_eq!(is_variable_used(&g, &x), VariableUsage::ReferencedButNotUsed);
    let (unused, referenced) = check_variables_used(&g);
    assert!(unused.is_empty());
    assert_eq!(referenced, vec![x]);
}

#[test]
fn adding_an_edge_to_a_sink_makes_a_variable_used() {
    let mut g = DataFlowGraph::new(GraphKind::FunctionBody);
    let x = source(1, 0, true, VariableSourceKind::Default);
    let v = vertex(5);
    let s = sink(6, 40);
    g.add_node(x.clone());
    g.add_node(v.clone());
    g.add_node(s.clone());
    g.add_path(&x.id, &v.id, PathKind::Default, vec![], vec![]);
    assert_eq!(is_variable_used(&g, &x), VariableUsage::ReferencedButNotUsed);
    g.add_path(&x.id, &s.id, PathKind::Default, vec![], vec![]);
    assert_eq!(is_variable_used(&g, &x), VariableUsage::Used);
    let (unused, referenced) = check_variables_used(&g);
    assert!(unused.is_empty() && referenced.is_empty());
}

#[test]
fn sink_reached_through_a_chain_is_used() {
    let mut g = DataFlowGraph::new(GraphKind::FunctionBody);
    let x = source(1, 0, true, VariableSourceKind::Default);
    let a = vertex(5);
    let b = vertex(6);
    let s = sink(7, 40);
    for n in [x.clone(), a.clone(), b.clone(), s.clone()] {
        g.add_node(n);
    }
    g.add_path(&x.id, &a.id, PathKind::Default, vec![], vec![]);
    g.add_path(&a.id, &b.id, PathKind::Default, vec![], vec![]);
    g.add_path(&b.id, &s.id, PathKind::Default, vec![], vec![]);
    assert_eq!(is_variable_used(&g, &x), VariableUsage::Used);
}

#[test]
fn fetch_of_another_key_does_not_reach_the_sink() {
    let mut g = DataFlowGraph::new(GraphKind::FunctionBody);
    let x = source(1, 0, true, VariableSourceKind::Default);
    let arr = vertex(5);
    let s = sink(7, 40);
    for n in [x.clone(), arr.clone(), s.clone()] {
        g.add_node(n);
    }
    g.add_path(&x.id, &arr.id, PathKind::ArrayAssignment(ArrayDataKind::ArrayValue, "a".to_string()), vec![], vec![]);
    g.add_path(&arr.id, &s.id, PathKind::ArrayFetch(ArrayDataKind::ArrayValue, "b".to_string()), vec![], vec![]);
    // the sink is reached by a direct edge check before the fetch rule applies
    assert_eq!(is_variable_used(&g, &x), VariableUsage::Used);

    let mut h = DataFlowGraph::new(GraphKind::FunctionBody);
    let fetched = vertex(8);
    for n in [x.clone(), arr.clone(), fetched.clone(), s.clone()] {
        h.add_node(n);
    }
    h.add_path(&x.id, &arr.id, PathKind::ArrayAssignment(ArrayDataKind::ArrayValue, "a".to_string()), vec![], vec![]);
    h.add_path(&arr.id, &fetched.id, PathKind::ArrayFetch(ArrayDataKind::ArrayValue, "b".to_string()), vec![], vec![]);
    h.add_path(&fetched.id, &s.id, PathKind::Default, vec![], vec![]);
    assert_eq!(is_variable_used(&h, &x), VariableUsage::ReferencedButNotUsed);

    let mut k = DataFlowGraph::new(GraphKind::FunctionBody);
    for n in [x.clone(), arr.clone(), fetched.clone(), s.clone()] {
        k.add_node(n);
    }
    k.add_path(&x.id, &arr.id, PathKind::ArrayAssignment(ArrayDataKind::ArrayValue, "a".to_string()), vec![], vec![]);
    k.add_path(&arr.id, &fetched.id, PathKind::ArrayFetch(ArrayDataKind::ArrayValue, "a".to_string()), vec![], vec![]);
    k.add_path(&fetched.id, &s.id, PathKind::Default, vec![], vec![]);
    assert_eq!(is_variable_used(&k, &x), VariableUsage::Used);
}

#[test]
fn unused_variables_come_in_order_of_position() {
    let mut g = DataFlowGraph::new(GraphKind::FunctionBody);
    let late = source(1, 50, true, VariableSourceKind::Default);
    let early = source(2, 5, true, VariableSourceKind::Default);
    let middle = source(3, 20, true, VariableSourceKind::Default);
    g.add_node(late.clone());
    g.add_node(early.clone());
    g.add_node(middle.clone());
    let (unused, _) = check_variables_used(&g);
    assert_eq!(unused, vec![early, middle, late]);
}

#[test]
fn array_fetch_rules() {
    let assign_a = PathKind::ArrayAssignment(ArrayDataKind::ArrayValue, "a".to_string());
    let fetch_a = PathKind::ArrayFetch(ArrayDataKind::ArrayValue, "a".to_string());
    let fetch_b = PathKind::ArrayFetch(ArrayDataKind::ArrayValue, "b".to_string());
    assert!(!should_ignore_array_fetch(&fetch_a, ArrayDataKind::ArrayValue, &vec![assign_a.clone()]));
    assert!(should_ignore_array_fetch(&fetch_b, ArrayDataKind::ArrayValue, &vec![assign_a.clone()]));
    assert!(!should_ignore_array_fetch(&fetch_b, ArrayDataKind::ArrayKey, &vec![assign_a.clone()]));
    assert!(!should_ignore_array_fetch(&fetch_b, ArrayDataKind::ArrayValue, &vec![]));
    // a nested fetch is matched by the assignment before it
    let assign_b = PathKind::ArrayAssignment(ArrayDataKind::ArrayValue, "b".to_string());
    assert!(!should_ignore_array_fetch(
        &fetch_b,
        ArrayDataKind::ArrayValue,
        &vec![assign_b, assign_a.clone(), fetch_a.clone()]
    ));
}

#[test]
fn property_fetch_rules() {
    assert!(should_ignore_property_fetch(&PathKind::PropertyFetch(2), &vec![PathKind::PropertyAssignment(1)]));
    assert!(!should_ignore_property_fetch(&PathKind::PropertyFetch(1), &vec![PathKind::PropertyAssignment(1)]));
    assert!(!should_ignore_property_fetch(&PathKind::PropertyFetch(1), &vec![PathKind::Default]));
}

#[test]
fn use_node_from_source() {
    let x = source(1, 7, true, VariableSourceKind::InoutParam);
    let (id, node) = VariableUseNode::from(&x);
    assert_eq!(id, x.id);
    assert_eq!(node.kind, VariableSourceKind::InoutParam);
    assert_eq!(node.pos.start_offset, 7);
    assert!(node.path_types.is_empty());
}

/// `let x = foo();` whose source is flagged pure while the value has effects:
/// never referenced and removable; the autofix then keeps the call.
#[test]
fn never_referenced_with_effectful_value_is_hard() {
    let mut g = DataFlowGraph::new(GraphKind::FunctionBody);
    let x = source(1, 0, true, VariableSourceKind::Default);
    g.add_node(x.clone());
    assert_eq!(is_variable_used(&g, &x), VariableUsage::NeverReferenced);
    let (unused, _) = check_variables_used(&g);
    assert_eq!(unused, vec![x]);
    let p = |s: u32, e: u32| Pos { start_offset: s, end_offset: e, line: 1, beg_of_line: 0 };
    let stmt = Stmt {
        pos: p(0, 14),
        kind: StmtKind::Expr(Expr {
            pos: p(0, 13),
            kind: ExprKind::Assign(
                Box::new(Expr { pos: p(4, 5), kind: ExprKind::Other(vec![]) }),
                Box::new(Expr { pos: p(8, 13), kind: ExprKind::Other(vec![]) }),
            ),
        }),
    };
    let mut d = FunctionAnalysisData { expr_effects: vec![((8, 13), 8)], replacements: vec![] };
    add_unused_expression_replacements(&vec![stmt], &mut d, &unused, &vec![]);
    assert_eq!(d.replacements.len(), 1);
    assert_eq!(d.replacements[0].0, (0, 8));
    assert!(matches!(d.replacements[0].1, Replacement::Remove));
}

#[test]
fn children_keep_the_source_position_and_kind() {

    let mut g = DataFlowGraph::new(GraphKind::FunctionBody);
    let x = source(1, 3, true, VariableSourceKind::InoutParam);
    let a = vertex(5);
    g.add_node(x.clone());
    g.add_node(a.clone());
    g.add_path(&x.id, &a.id, PathKind::Aggregate, vec![], vec![]);
    let (id, start) = VariableUseNode::from(&x);
    let children = get_variable_child_nodes(&g, &id, &start, &vec![]).unwrap();
    assert_eq!(children.len(), 1);
    assert_eq!(children[0].0, a.id);
    assert_eq!(children[0].1.pos.start_offset, 3);
    assert_eq!(children[0].1.kind, VariableSourceKind::InoutParam);
    assert_eq!(children[0].1.path_types, vec![PathKind::Aggregate]);
}
