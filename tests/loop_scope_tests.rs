use hakana_flow::loop_scope::LoopScope;
use hakana_flow::ttype::{TAtomic, TUnion};

#[test]
fn new_loop_scope_keeps_parent_vars() {
    let vars = vec![("$x".to_string(), TUnion { types: vec![TAtomic::TInt], parent_nodes: vec![] })];
    let scope = LoopScope::new(vars);
    assert_eq!(scope.iteration_count, 0);
    assert_eq!(scope.parent_context_vars.len(), 1);
    assert_eq!(scope.parent_context_vars[0].0, "$x");
    assert!(scope.redefined_loop_vars.is_empty());
    assert!(scope.final_actions.is_empty());
}
