use hakana_flow::graph::{DataFlowGraph, GraphKind};
use hakana_flow::node::{
    DataFlowNode, DataFlowNodeId, DataFlowNodeKind, FilePath, FunctionLikeIdentifier, HPos,
    VariableSourceKind,
};
use hakana_flow::path::PathKind;
use hakana_flow::ttype::TUnion;

fn pos(start: u32) -> HPos {
    HPos {
        file_path: FilePath(1),
        start_offset: start,
        end_offset: start + 1,
        start_line: 1,
        end_line: 1,
        start_column: 0,
        end_column: 0,
    }
}

fn f() -> FunctionLikeIdentifier {
    FunctionLikeIdentifier::Function(9)
}

fn vertex(id: &DataFlowNodeId) -> DataFlowNode {
    DataFlowNode { id: id.clone(), kind: DataFlowNodeKind::Vertex { pos: Some(pos(0)), is_specialized: false } }
}

fn union_of(nodes: Vec<DataFlowNode>) -> TUnion {
    TUnion { types: vec![], parent_nodes: nodes }
}

/// call(3) -> a -> b -> c, with p a parameter source feeding b.
fn chain() -> (DataFlowGraph, DataFlowNodeId, DataFlowNodeId, DataFlowNodeId, DataFlowNodeId, DataFlowNodeId) {
    let mut g = DataFlowGraph::new(GraphKind::FunctionBody);
    let call = DataFlowNodeId::CallTo(FunctionLikeIdentifier::Function(3));
    let a = DataFlowNodeId::Var(f(), 1, 0, 2);
    let b = DataFlowNodeId::Var(f(), 2, 10, 12);
    let c = DataFlowNodeId::Synthetic(77);
    let p = DataFlowNodeId::Param(f(), 0);
    g.add_node(vertex(&call));
    g.add_node(vertex(&a));
    g.add_node(vertex(&b));
    g.add_node(vertex(&c));
    g.add_node(DataFlowNode {
        id: p.clone(),
        kind: DataFlowNodeKind::VariableUseSource { pos: pos(40), kind: VariableSourceKind::PrivateParam, pure: false },
    });
    g.add_path(&call, &a, PathKind::Default, vec![], vec![]);
    g.add_path(&a, &b, PathKind::Default, vec![], vec![]);
    g.add_path(&p, &b, PathKind::Default, vec![], vec![]);
    g.add_path(&b, &c, PathKind::Aggregate, vec![], vec![]);
    (g, call, a, b, c, p)
}

#[test]
fn origins_walk_back_to_the_roots() {
    let (g, call, _a, _b, c, p) = chain();
    let origins = g.get_origin_node_ids(&c, &vec![], false);
    assert_eq!(origins.len(), 2);
    assert!(origins.contains(&call));
    assert!(origins.contains(&p));
}

#[test]
fn origin_walk_is_repeatable() {
    let (g, _call, _a, _b, c, _p) = chain();
    let first = g.get_origin_node_ids(&c, &vec![], false);
    let second = g.get_origin_node_ids(&c, &vec![], false);
    assert_eq!(first, second);
}

#[test]
fn var_ids_only_stops_at_variables() {
    let (g, _call, _a, b, c, _p) = chain();
    let origins = g.get_origin_node_ids(&c, &vec![], true);
    assert_eq!(origins, vec![b]);
}

#[test]
fn ignored_label_stops_the_walk() {
    let (g, _call, _a, _b, c, _p) = chain();
    let origins = g.get_origin_node_ids(&c, &vec![PathKind::Aggregate], false);
    assert_eq!(origins, vec![c]);
}

#[test]
fn unknown_node_has_no_origins() {
    let (g, ..) = chain();
    let origins = g.get_origin_node_ids(&DataFlowNodeId::Synthetic(1), &vec![], false);
    assert!(origins.is_empty());
}

#[test]
fn source_functions_and_params() {
    let (g, _call, _a, _b, c, _p) = chain();
    let u = union_of(vec![vertex(&c)]);
    assert_eq!(g.get_source_functions(&u, &vec![]), vec![FunctionLikeIdentifier::Function(3)]);
    assert!(g.is_from_param(&u));
    let only_a = union_of(vec![vertex(&DataFlowNodeId::Var(f(), 1, 0, 2))]);
    assert!(!g.is_from_param(&only_a));
}

#[test]
fn source_properties() {
    let mut g = DataFlowGraph::new(GraphKind::FunctionBody);
    let prop = DataFlowNodeId::SpecializedProperty(5, 6, FilePath(2), 44);
    let v = DataFlowNodeId::Synthetic(3);
    g.add_node(vertex(&prop));
    g.add_node(vertex(&v));
    g.add_path(&prop, &v, PathKind::Default, vec![], vec![]);
    assert_eq!(g.get_source_properties(&union_of(vec![vertex(&v)])), vec![(5, 6)]);
}

#[test]
fn mixed_data_is_counted_against_calls() {
    let (mut g, call, _a, b, _c, _p) = chain();
    g.add_mixed_data(&vertex(&b), &"file.php:3:4".to_string());
    assert_eq!(g.mixed_source_counts.len(), 1);
    assert_eq!(g.mixed_source_counts[0].0, call);
    assert_eq!(g.mixed_source_counts[0].1, vec!["file.php:3:4".to_string()]);
}
