//! What the analyzer records about the variables of a loop across its iterations.
use crate::ttype::TUnion;
use vstd::prelude::*;

verus! {

/// How control leaves a block.
#[derive(Clone, Copy, Debug, PartialEq, Eq, Hash, Structural)]
pub enum ControlAction {
    End,
    Break,
    BreakImmediateLoop,
    Continue,
    LeaveSwitch,
    Return,
}

/// The name of a variable, as written.
pub type VarName = String;

/// The variables of a loop: their types in the enclosing scope, and those the
/// loop redefines, surely or possibly, with the ways control leaves it.
#[derive(Debug)]
pub struct LoopScope {
    pub iteration_count: usize,
    pub parent_context_vars: Vec<(VarName, TUnion)>,
    pub redefined_loop_vars: Vec<(VarName, TUnion)>,
    pub possibly_redefined_loop_vars: Vec<(VarName, TUnion)>,
    pub possibly_redefined_loop_parent_vars: Vec<(VarName, TUnion)>,
    pub possibly_defined_loop_parent_vars: Vec<(VarName, TUnion)>,
    pub final_actions: Vec<ControlAction>,
}

impl LoopScope {
    /// The scope of a loop entered with the enclosing variables `parent_context_vars`.
    pub fn new(parent_context_vars: Vec<(VarName, TUnion)>) -> (r: LoopScope)
        ensures
            r.parent_context_vars == parent_context_vars,
            r.iteration_count == 0,
            r.redefined_loop_vars@.len() == 0,
            r.possibly_redefined_loop_vars@.len() == 0,
            r.possibly_redefined_loop_parent_vars@.len() == 0,
            r.possibly_defined_loop_parent_vars@.len() == 0,
            r.final_actions@.len() == 0,
    {
        LoopScope {
            parent_context_vars,
            iteration_count: 0,
            redefined_loop_vars: Vec::new(),
            possibly_redefined_loop_vars: Vec::new(),
            possibly_redefined_loop_parent_vars: Vec::new(),
            possibly_defined_loop_parent_vars: Vec::new(),
            final_actions: Vec::new(),
        }
    }
}

} // verus!
