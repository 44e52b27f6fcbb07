//! Data-flow core of a whole-program type analyzer and taint analyzer.
pub mod keyed;
pub mod node;
pub mod path;
pub mod graph;
pub mod origins;
pub mod ttype;
pub mod queries;
pub mod unused;
pub mod diff;
pub mod autofix;
pub mod expander;
pub mod loop_scope;
pub mod const_fetch;
