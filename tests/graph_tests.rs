use hakana_flow::graph::{DataFlowGraph, GraphKind, WholeProgramKind};
use hakana_flow::node::{
    DataFlowNode, DataFlowNodeId, DataFlowNodeKind, FilePath, FunctionLikeIdentifier, HPos,
    VariableSourceKind,
};
use hakana_flow::path::PathKind;

fn pos(start: u32, end: u32) -> HPos {
    HPos {
        file_path: FilePath(1),
        start_offset: start,
        end_offset: end,
        start_line: 1,
        end_line: 1,
        start_column: 0,
        end_column: 0,
    }
}

fn var(name: u32, start: u32) -> DataFlowNodeId {
    DataFlowNodeId::Var(FunctionLikeIdentifier::Function(9), name, start, start + 2)
}

fn vertex(id: DataFlowNodeId) -> DataFlowNode {
    DataFlowNode { id, kind: DataFlowNodeKind::Vertex { pos: Some(pos(0, 1)), is_specialized: false } }
}

#[test]
fn self_loop_is_dropped() {
    let mut g = DataFlowGraph::new(GraphKind::FunctionBody);
    let a = var(1, 0);
    g.add_node(vertex(a.clone()));
    g.add_path(&a, &a, PathKind::Default, vec![], vec![]);
    assert!(g.forward_edges.is_empty());
    assert!(g.backward_edges.is_empty());
}

#[test]
fn function_body_records_backward_edge() {
    let mut g = DataFlowGraph::new(GraphKind::FunctionBody);
    let a = var(1, 0);
    let b = var(2, 10);
    g.add_path(&a, &b, PathKind::Default, vec![], vec![]);
    assert_eq!(g.forward_edges.len(), 1);
    assert_eq!(g.forward_edges[0].0, a);
    assert_eq!(g.forward_edges[0].1[0].0, b);
    assert_eq!(g.backward_edges.len(), 1);
    assert_eq!(g.backward_edges[0].0, b);
    assert_eq!(g.backward_edges[0].1, vec![a]);
}

#[test]
fn whole_program_records_no_backward_edge() {
    let mut g = DataFlowGraph::new(GraphKind::WholeProgram(WholeProgramKind::Taint));
    g.add_path(&var(1, 0), &var(2, 10), PathKind::Default, vec![], vec![]);
    assert_eq!(g.forward_edges.len(), 1);
    assert!(g.backward_edges.is_empty());
}

#[test]
fn use_source_goes_to_sources() {
    let mut g = DataFlowGraph::new(GraphKind::FunctionBody);
    g.add_node(DataFlowNode {
        id: var(1, 0),
        kind: DataFlowNodeKind::VariableUseSource {
            pos: pos(0, 2),
            kind: VariableSourceKind::Default,
            pure: true,
        },
    });
    assert_eq!(g.sources.len(), 1);
    assert!(g.vertices.is_empty());
    assert!(g.sinks.is_empty());
}

fn call(f: u32) -> DataFlowNodeId {
    DataFlowNodeId::CallTo(FunctionLikeIdentifier::Function(f))
}

#[test]
fn merging_graphs_of_different_kinds_fails() {
    let mut g = DataFlowGraph::new(GraphKind::FunctionBody);
    let other = DataFlowGraph::new(GraphKind::WholeProgram(WholeProgramKind::Query));
    let r = g.add_graph(other);
    let err = r.unwrap_err();
    assert_eq!(err.expected, GraphKind::FunctionBody);
    assert_eq!(err.found, GraphKind::WholeProgram(WholeProgramKind::Query));
}

#[test]
fn merging_an_empty_graph_changes_nothing() {
    let mut g = DataFlowGraph::new(GraphKind::FunctionBody);
    let a = var(1, 0);
    let b = var(2, 10);
    g.add_node(vertex(a.clone()));
    g.add_node(vertex(b.clone()));
    g.add_path(&a, &b, PathKind::Aggregate, vec![], vec![]);
    assert!(g.add_graph(DataFlowGraph::new(GraphKind::FunctionBody)).is_ok());
    assert_eq!(g.vertices.len(), 2);
    assert_eq!(g.forward_edges.len(), 1);
    assert_eq!(g.forward_edges[0].1.len(), 1);
    assert_eq!(g.forward_edges[0].1[0].1.kind, PathKind::Aggregate);
    assert_eq!(g.backward_edges.len(), 1);
    assert_eq!(g.backward_edges[0].1, vec![a]);
}

#[test]
fn merge_later_edge_wins_and_sources_union() {
    let mut g = DataFlowGraph::new(GraphKind::FunctionBody);
    let a = var(1, 0);
    let b = var(2, 10);
    let c = var(3, 20);
    g.add_path(&a, &b, PathKind::Default, vec![], vec![]);
    let mut h = DataFlowGraph::new(GraphKind::FunctionBody);
    h.add_path(&a, &b, PathKind::Coalesce, vec![], vec![]);
    h.add_path(&a, &c, PathKind::Default, vec![], vec![]);
    assert!(g.add_graph(h).is_ok());
    assert_eq!(g.forward_edges.len(), 1);
    let edges = &g.forward_edges[0].1;
    assert_eq!(edges.len(), 2);
    let to_b = edges.iter().find(|e| e.0 == b).unwrap();
    assert_eq!(to_b.1.kind, PathKind::Coalesce);
    assert!(edges.iter().any(|e| e.0 == c));
    let back_c = g.backward_edges.iter().find(|e| e.0 == c).unwrap();
    assert_eq!(back_c.1, vec![a]);
}

#[test]
fn specialized_vertex_is_recorded_in_whole_program_graph() {
    let mut g = DataFlowGraph::new(GraphKind::WholeProgram(WholeProgramKind::Taint));
    let id = DataFlowNodeId::SpecializedCallTo(FunctionLikeIdentifier::Function(4), FilePath(7), 33);
    g.add_node(DataFlowNode {
        id: id.clone(),
        kind: DataFlowNodeKind::Vertex { pos: None, is_specialized: true },
    });
    assert_eq!(g.vertices.len(), 1);
    assert_eq!(g.specializations.len(), 1);
    assert_eq!(g.specializations[0].0, call(4));
    assert_eq!(g.specializations[0].1.len(), 1);
    assert_eq!(g.specializations[0].1[0].0, FilePath(7));
    assert_eq!(g.specializations[0].1[0].1, 33);
    assert_eq!(g.specialized_calls.len(), 1);
    assert_eq!(g.specialized_calls[0].1, vec![call(4)]);
}

#[test]
fn specialized_vertex_is_not_recorded_in_function_body_graph() {
    let mut g = DataFlowGraph::new(GraphKind::FunctionBody);
    let id = DataFlowNodeId::SpecializedCallTo(FunctionLikeIdentifier::Function(4), FilePath(7), 33);
    g.add_node(DataFlowNode { id, kind: DataFlowNodeKind::Vertex { pos: None, is_specialized: true } });
    assert!(g.specializations.is_empty());
    assert!(g.specialized_calls.is_empty());
}

#[test]
fn get_node_prefers_vertices_then_sources() {
    let mut g = DataFlowGraph::new(GraphKind::FunctionBody);
    let a = var(1, 0);
    g.add_node(DataFlowNode { id: a.clone(), kind: DataFlowNodeKind::DataSource { pos: None } });
    assert!(matches!(g.get_node(&a).unwrap().kind, DataFlowNodeKind::DataSource { .. }));
    g.add_node(vertex(a.clone()));
    assert!(matches!(g.get_node(&a).unwrap().kind, DataFlowNodeKind::Vertex { .. }));
    assert!(g.get_node(&var(5, 50)).is_none());
}

#[test]
fn sink_goes_to_sinks() {
    let mut g = DataFlowGraph::new(GraphKind::FunctionBody);
    g.add_node(DataFlowNode { id: var(1, 0), kind: DataFlowNodeKind::VariableUseSink { pos: pos(0, 2) } });
    assert_eq!(g.sinks.len(), 1);
    assert!(g.sources.is_empty());
}

#[test]
fn merging_whole_program_graphs_keeps_specializations_inverse() {
    let mut g = DataFlowGraph::new(GraphKind::WholeProgram(WholeProgramKind::Taint));
    let mut h = DataFlowGraph::new(GraphKind::WholeProgram(WholeProgramKind::Taint));
    let id = DataFlowNodeId::SpecializedCallTo(FunctionLikeIdentifier::Function(4), FilePath(7), 33);
    h.add_node(DataFlowNode { id, kind: DataFlowNodeKind::Vertex { pos: None, is_specialized: true } });
    assert!(g.add_graph(h).is_ok());
    assert_eq!(g.specializations.len(), 1);
    assert_eq!(g.specialized_calls.len(), 1);
    assert_eq!(g.specialized_calls[0].0 .0, FilePath(7));
    assert_eq!(g.specialized_calls[0].1, vec![call(4)]);
}
