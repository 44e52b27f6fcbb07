use hakana_flow::expander::{add_shape_field_taints, ShapeFieldTaint, StaticClassType, TypeExpansionOptions};
use hakana_flow::graph::{DataFlowGraph, GraphKind};
use hakana_flow::node::{DataFlowNodeId, DataFlowNodeKind, FilePath, HPos, SinkType};
use hakana_flow::path::{ArrayDataKind, PathKind};
use hakana_flow::ttype::DictKey;

fn pos(start: u32) -> HPos {
    HPos {
        file_path: FilePath(1),
        start_offset: start,
        end_offset: start + 6,
        start_line: 2,
        end_line: 2,
        start_column: 0,
        end_column: 6,
    }
}

/// `type T = shape('secret' => string)` with `'secret'` marked as a taint source.
#[test]
fn shape_field_taint_adds_two_nodes_and_an_edge() {
    let mut g = DataFlowGraph::new(GraphKind::FunctionBody);
    let t = 17;
    let taints = vec![ShapeFieldTaint {
        key: DictKey::String("secret".to_string()),
        pos: pos(30),
        types: vec![SinkType::UserSecret],
    }];
    let shape = add_shape_field_taints(&mut g, t, pos(0), taints).unwrap();
    assert_eq!(shape.id, DataFlowNodeId::Symbol(t));
    let field = DataFlowNodeId::ShapeFieldAccess(t, "secret".to_string());
    assert_eq!(g.sources.len(), 1);
    assert_eq!(g.sources[0].0, field);
    match &g.sources[0].1.kind {
        DataFlowNodeKind::TaintSource { pos: p, types } => {
            assert_eq!(p.unwrap().start_offset, 30);
            assert_eq!(types, &vec![SinkType::UserSecret]);
        }
        _ => panic!("expected a taint source"),
    }
    assert_eq!(g.vertices.len(), 1);
    assert_eq!(g.vertices[0].0, DataFlowNodeId::Symbol(t));
    assert_eq!(g.forward_edges.len(), 1);
    assert_eq!(g.forward_edges[0].0, field);
    assert_eq!(g.forward_edges[0].1.len(), 1);
    assert_eq!(g.forward_edges[0].1[0].0, DataFlowNodeId::Symbol(t));
    assert_eq!(
        g.forward_edges[0].1[0].1.kind,
        PathKind::ArrayAssignment(ArrayDataKind::ArrayValue, "secret".to_string())
    );
}

#[test]
fn integer_shape_key_is_named_in_decimal() {
    let mut g = DataFlowGraph::new(GraphKind::FunctionBody);
    let taints = vec![ShapeFieldTaint { key: DictKey::Int(120), pos: pos(30), types: vec![] }];
    assert!(add_shape_field_taints(&mut g, 3, pos(0), taints).is_ok());
    assert_eq!(g.sources[0].0, DataFlowNodeId::ShapeFieldAccess(3, "120".to_string()));
    assert_eq!(
        g.forward_edges[0].1[0].1.kind,
        PathKind::ArrayAssignment(ArrayDataKind::ArrayValue, "120".to_string())
    );
}

#[test]
fn enum_shape_key_is_refused() {
    let mut g = DataFlowGraph::new(GraphKind::FunctionBody);
    let taints = vec![
        ShapeFieldTaint { key: DictKey::Int(1), pos: pos(30), types: vec![] },
        ShapeFieldTaint { key: DictKey::Enum(8, 9), pos: pos(40), types: vec![] },
    ];
    let err = add_shape_field_taints(&mut g, 3, pos(0), taints).unwrap_err();
    assert_eq!(err.enum_name, 8);
    assert_eq!(err.member_name, 9);
    assert!(g.sources.is_empty() && g.vertices.is_empty() && g.forward_edges.is_empty());
}

#[test]
fn default_expansion_options() {
    let o = TypeExpansionOptions::default();
    assert!(o.evaluate_class_constants && o.expand_templates && o.expand_hakana_types && o.expand_typenames);
    assert!(!o.evaluate_conditional_types && !o.function_is_final && !o.expand_generic && !o.expand_all_type_aliases);
    assert!(matches!(o.static_class_type, StaticClassType::Absent));
    assert!(o.file_path.is_none() && o.self_class.is_none() && o.parent_class.is_none());
}

#[test]
fn later_field_with_same_key_text_wins() {
    let mut g = DataFlowGraph::new(GraphKind::FunctionBody);
    let taints = vec![
        ShapeFieldTaint { key: DictKey::Int(1), pos: pos(30), types: vec![] },
        ShapeFieldTaint { key: DictKey::String("1".to_string()), pos: pos(40), types: vec![SinkType::Sql] },
    ];
    assert!(add_shape_field_taints(&mut g, 3, pos(0), taints).is_ok());
    assert_eq!(g.sources.len(), 1);
    match &g.sources[0].1.kind {
        DataFlowNodeKind::TaintSource { pos: p, types } => {
            assert_eq!(p.unwrap().start_offset, 40);
            assert_eq!(types, &vec![SinkType::Sql]);
        }
        _ => panic!("expected a taint source"),
    }
    assert_eq!(g.forward_edges.len(), 1);
}
