//! Losses.
use crate::autograd::grad_fn::{GradFn, GradFnView};
use crate::autograd::graph::{Graph, GraphView};
use crate::autograd::variable::{built, edge_for, Variable, Variable2};
use crate::error::Error;
use crate::tensor::{Tensor, TensorView};
use std::sync::Arc;
use vstd::prelude::*;

verus! {

/// The kernels that compute the cross entropy, by the number of classes that each can
/// take.
#[derive(Clone, Copy, Debug, PartialEq, Eq, Structural)]
pub enum CrossEntropyKernel {
    /// Up to 64 classes.
    Classes64,
    /// Up to 256 classes.
    Classes256,
    /// Up to 1024 classes.
    Classes1024,
}

/// The kernel for `nclasses` classes: the smallest one that takes them, `None` above 1024
/// classes.
pub open spec fn kernel_for(nclasses: usize) -> Option<CrossEntropyKernel> {
    if nclasses <= 64 {
        Some(CrossEntropyKernel::Classes64)
    } else if nclasses <= 256 {
        Some(CrossEntropyKernel::Classes256)
    } else if nclasses <= 1024 {
        Some(CrossEntropyKernel::Classes1024)
    } else {
        None
    }
}

/// Picks the kernel that computes the cross entropy over `nclasses` classes. Refused with
/// `Unimplemented` exactly above 1024 classes.
pub fn cross_entropy_kernel(nclasses: usize) -> (r: Result<CrossEntropyKernel, Error>)
    ensures
        match r {
            Ok(k) => kernel_for(nclasses) == Some(k),
            Err(e) => e == Error::Unimplemented && kernel_for(nclasses) is None,
        },
{
    if nclasses <= 64 {
        Ok(CrossEntropyKernel::Classes64)
    } else if nclasses <= 256 {
        Ok(CrossEntropyKernel::Classes256)
    } else if nclasses <= 1024 {
        Ok(CrossEntropyKernel::Classes1024)
    } else {
        Err(Error::Unimplemented)
    }
}

/// What a cross-entropy kernel has computed for one input and one target: the loss of each
/// element, and the derivative of the total loss by each element of the input.
#[derive(Debug)]
pub struct CrossEntropy {
    pub losses: Tensor,
    pub slope: Tensor,
}

/// Why the cross-entropy loss of `input` against `target` cannot be recorded, if it cannot:
/// `Mismatch` where the input is not a matrix or the target is of another kind;
/// `Unimplemented` above 1024 classes; `Mismatch` where the kernel's results are not of the
/// input's kind.
pub open spec fn cross_entropy_error(
    input: TensorView,
    target: TensorView,
    losses: TensorView,
    slope: TensorView,
) -> Option<Error> {
    if !input.is_matrix() || target.kind != input.kind {
        Some(Error::Mismatch)
    } else if kernel_for(input.cols()) is None {
        Some(Error::Unimplemented)
    } else if losses.kind != input.kind || slope.kind != input.kind {
        Some(Error::Mismatch)
    } else {
        None
    }
}

/// What `Variable2::cross_entropy_loss` does.
pub open spec fn cross_entropy_recorded(
    input: Variable,
    target: TensorView,
    losses: TensorView,
    slope: TensorView,
    before: GraphView,
    after: GraphView,
    r: Result<Variable, Error>,
) -> bool {
    match cross_entropy_error(input.value@, target, losses, slope) {
        Some(e) => r == Err::<Variable, Error>(e) && after == before,
        None => built(edge_for(input, GradFnView::ScaleBy(slope)), losses.sum(), before, after, r),
    }
}

impl Variable2 {
    /// The cross-entropy loss of this matrix of scores, one row for each sample and one
    /// column for each class, against `target` of the same kind: a scalar, the sum of the
    /// losses that the kernel computed. The input receives the output's gradient times the
    /// slope that the kernel computed.
    pub fn cross_entropy_loss(&self, target: &Tensor, computed: CrossEntropy, graph: &mut Graph) -> (r:
        Result<Variable, Error>)
        requires
            self.wf(),
            target.wf(),
            computed.losses.wf(),
            computed.slope.wf(),
            old(graph).wf(),
        ensures
            final(graph).wf(),
            r matches Ok(v) ==> v.wf(),
            cross_entropy_recorded(
                *self,
                target@,
                computed.losses@,
                computed.slope@,
                old(graph)@,
                final(graph)@,
                r,
            ),
    {
        let input = self.value();
        if input.shape().len() != 2 || !target.kind().same(input.kind()) {
            return Err(Error::Mismatch);
        }
        match cross_entropy_kernel(input.shape()[1]) {
            Ok(_) => {},
            Err(e) => {
                return Err(e);
            },
        }
        let CrossEntropy { losses, slope } = computed;
        if !losses.kind().same(input.kind()) || !slope.kind().same(input.kind()) {
            return Err(Error::Mismatch);
        }
        let value = losses.sum();
        let mut builder = Variable::builder();
        builder.edge_of(self, GradFn::ScaleBy(Arc::new(slope)));
        builder.build(graph, value)
    }
}

} // verus!
