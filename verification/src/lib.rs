//! Reverse-mode automatic differentiation over integer tensors, with the layers, the
//! optimizer and the trainer of a small neural-network library on top of it.
//!
//! A forward pass records every differentiable operation as a node of an
//! [`autograd::graph::Graph`]: the operation computes its value and registers, for each input
//! that is tracked, an edge with the transform that takes the gradient of the output to the
//! gradient of that input ([`autograd::variable::VariableBuilder`]).
//! [`autograd::variable::Variable::backward`] walks the nodes in reverse creation order,
//! sums what arrives at each node, and returns one gradient for each trainable
//! [`autograd::parameter::Parameter`] that something reached. What the walk computes is
//! [`autograd::graph::adjoint`]; what holds of it in general is proved in
//! [`autograd::laws`].
//!
//! Scalars are 64-bit integers with saturating arithmetic, so every operation is total, and
//! exact as long as no result leaves the range of `i64`. Sums are taken in a fixed order,
//! front to back. A tensor carries the precision and the location that it is declared with;
//! operations combine only tensors that agree in both.
//!
//! The modules, leaves first:
//! - [`error`], [`scalar`]: what is refused, and arithmetic on one scalar;
//! - [`tensor`], [`linalg`], [`index`]: tensors, matrices, and tensors rearranged by index
//!   maps;
//! - [`geometry`], [`pool`], [`conv`]: the index maps of pooling and of convolution;
//! - [`autograd`]: the graph, variables, parameters, the operations and the laws;
//! - [`layer`]: the layers and their builders;
//! - [`optimizer`], [`criterion`], [`labels`], [`network`]: gradient descent, the loss,
//!   class labels, and the trainer;
//! - [`kernel`]: how work is laid out on an accelerator.
pub mod autograd;
pub mod conv;
pub mod criterion;
pub mod error;
pub mod geometry;
pub mod index;
pub mod kernel;
pub mod labels;
pub mod layer;
pub mod linalg;
pub mod network;
pub mod optimizer;
pub mod pool;
pub mod scalar;
mod shared;
pub mod tensor;
