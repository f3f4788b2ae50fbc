//! The differentiation engine: variables, the graph that records them, parameters and the
//! backward walk.
pub mod differences;
pub mod grad_fn;
pub mod graph;
pub mod laws;
pub mod ops;
pub mod parameter;
pub mod variable;
