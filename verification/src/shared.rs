//! Tensors behind reference-counted pointers.
use crate::tensor::Tensor;
use std::sync::Arc;
use vstd::prelude::*;

verus! {

/// `Arc::clone`: another pointer to the same tensor. The contract says that the new pointer
/// reads the value that the given one reads.
#[verifier::external_body]
pub(crate) fn arc_share(a: &Arc<Tensor>) -> (r: Arc<Tensor>)
    ensures
        r == *a,
{
    Arc::clone(a)
}

/// `Arc::get_mut`: the tensor behind the pointer, mutably, where no other pointer to it
/// exists, and `None` otherwise. The contract says that a reference handed out starts at the
/// current value and that the pointer reads whatever is left behind it; with `None` nothing
/// changes. Which of the two comes back depends on the pointers alive elsewhere, and the
/// contract leaves it open.
#[verifier::external_body]
pub(crate) fn arc_unique(a: &mut Arc<Tensor>) -> (r: Option<&mut Tensor>)
    ensures
        match r {
            Some(t) => *t == **old(a) && **final(a) == *final(t),
            None => *final(a) == *old(a),
        },
{
    Arc::get_mut(a)
}

} // verus!
