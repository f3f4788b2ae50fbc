//! The differentiable operations: each computes a value and records how its gradient flows
//! back to its inputs.
use crate::autograd::grad_fn::{GradFn, GradFnView};
use crate::autograd::graph::{Graph, GraphView};
use crate::autograd::variable::{built, edge_for, Variable};
use crate::error::Error;
use crate::shared::arc_share;
use crate::tensor::{checked_size, copy_shape, shape_size, TensorView};
use std::sync::Arc;
use vstd::prelude::*;

verus! {

/// The shape of a tensor with its axes behind the first folded into one.
pub open spec fn flat_shape(shape: Seq<usize>) -> Seq<usize> {
    seq![shape[0], shape_size(shape.subrange(1, shape.len() as int)) as usize]
}

/// Whether a tensor of the given shape can be flattened: it has a first axis, and the axes
/// behind it span a number of elements that fits in `usize`.
pub open spec fn can_flatten(shape: Seq<usize>) -> bool {
    shape.len() >= 1 && shape_size(shape.subrange(1, shape.len() as int)) <= usize::MAX
}

/// A shape spans its first axis times what the axes behind it span.
pub proof fn lemma_size_split(shape: Seq<usize>)
    requires
        shape.len() >= 1,
    ensures
        shape_size(shape) == shape[0] * shape_size(shape.subrange(1, shape.len() as int)),
    decreases shape.len(),
{
    let rest = shape.subrange(1, shape.len() as int);
    if shape.len() == 1 {
        assert(shape.drop_last().len() == 0);
        assert(rest.len() == 0);
        assert(shape_size(shape.drop_last()) == 1);
        assert(shape_size(rest) == 1);
        assert(1 * (shape[0] as nat) == shape[0] * 1) by (nonlinear_arith);
    } else {
        let front = shape.drop_last();
        lemma_size_split(front);
        assert(front.subrange(1, front.len() as int) =~= rest.drop_last());
        assert(rest.last() == shape.last());
        let a = shape[0] as nat;
        let b = shape_size(rest.drop_last());
        let c = shape.last() as nat;
        assert((a * b) * c == a * (b * c)) by (nonlinear_arith);
    }
}

/// What `Variable::add` does.
pub open spec fn added(
    a: Variable,
    b: Variable,
    before: GraphView,
    after: GraphView,
    r: Result<Variable, Error>,
) -> bool {
    if a.value@.kind == b.value@.kind {
        built(
            edge_for(a, GradFnView::Identity) + edge_for(b, GradFnView::Identity),
            a.value@.add(b.value@),
            before,
            after,
            r,
        )
    } else {
        r == Err::<Variable, Error>(Error::Mismatch) && after == before
    }
}

/// What `Variable::mul` does.
pub open spec fn multiplied(
    a: Variable,
    b: Variable,
    before: GraphView,
    after: GraphView,
    r: Result<Variable, Error>,
) -> bool {
    if a.value@.kind == b.value@.kind {
        built(
            edge_for(a, GradFnView::Mul(b.value@)) + edge_for(b, GradFnView::Mul(a.value@)),
            a.value@.mul(b.value@),
            before,
            after,
            r,
        )
    } else {
        r == Err::<Variable, Error>(Error::Mismatch) && after == before
    }
}

/// What `Variable::sum` does.
pub open spec fn summed(
    a: Variable,
    before: GraphView,
    after: GraphView,
    r: Result<Variable, Error>,
) -> bool {
    built(
        edge_for(a, GradFnView::ScaleBy(TensorView::full(a.value@.kind, 1))),
        a.value@.sum(),
        before,
        after,
        r,
    )
}

/// What `Variable::dot` does.
pub open spec fn dotted(
    a: Variable,
    b: Variable,
    before: GraphView,
    after: GraphView,
    r: Result<Variable, Error>,
) -> bool {
    if a.value@.can_dot(b.value@) {
        built(
            edge_for(a, GradFnView::DotLhs(b.value@)) + edge_for(b, GradFnView::DotRhs(a.value@)),
            a.value@.dot(b.value@),
            before,
            after,
            r,
        )
    } else {
        r == Err::<Variable, Error>(Error::Mismatch) && after == before
    }
}

/// What `Variable::add_rows` does.
pub open spec fn rows_added(
    a: Variable,
    bias: Variable,
    before: GraphView,
    after: GraphView,
    r: Result<Variable, Error>,
) -> bool {
    if a.value@.can_add_rows(bias.value@) {
        built(
            edge_for(a, GradFnView::Identity) + edge_for(bias, GradFnView::SumRows),
            a.value@.add_rows(bias.value@),
            before,
            after,
            r,
        )
    } else {
        r == Err::<Variable, Error>(Error::Mismatch) && after == before
    }
}

/// What `Variable::relu` does.
pub open spec fn rectified(
    a: Variable,
    before: GraphView,
    after: GraphView,
    r: Result<Variable, Error>,
) -> bool {
    if a.value@.kind.scalar_type.is_trainable() {
        built(edge_for(a, GradFnView::Relu(a.value@)), a.value@.relu(), before, after, r)
    } else {
        r == Err::<Variable, Error>(Error::Unimplemented) && after == before
    }
}

/// What `Variable::gather` does.
pub open spec fn gathered(
    a: Variable,
    index: Seq<Option<usize>>,
    shape: Seq<usize>,
    before: GraphView,
    after: GraphView,
    r: Result<Variable, Error>,
) -> bool {
    if a.value@.can_gather(index, shape) {
        built(
            edge_for(a, GradFnView::Gather(index, a.value@.kind)),
            a.value@.gather(index, shape),
            before,
            after,
            r,
        )
    } else {
        r == Err::<Variable, Error>(Error::Mismatch) && after == before
    }
}

/// What `Variable::into_shape` does.
pub open spec fn reshaped(
    a: Variable,
    shape: Seq<usize>,
    before: GraphView,
    after: GraphView,
    r: Result<Variable, Error>,
) -> bool {
    if a.value@.data.len() == shape_size(shape) {
        built(
            edge_for(a, GradFnView::Reshape(a.value@.kind.shape)),
            a.value@.reshape(shape),
            before,
            after,
            r,
        )
    } else {
        r == Err::<Variable, Error>(Error::Mismatch) && after == before
    }
}

/// What `Variable::flatten` does.
pub open spec fn flattened(
    a: Variable,
    before: GraphView,
    after: GraphView,
    r: Result<Variable, Error>,
) -> bool {
    if can_flatten(a.value@.kind.shape) {
        built(
            edge_for(a, GradFnView::Reshape(a.value@.kind.shape)),
            a.value@.reshape(flat_shape(a.value@.kind.shape)),
            before,
            after,
            r,
        )
    } else {
        r == Err::<Variable, Error>(Error::Mismatch) && after == before
    }
}

impl Variable {
    /// `self + rhs`, element by element. Each input receives the output's gradient.
    /// Refused with `Mismatch` where the two kinds differ.
    pub fn add(&self, rhs: &Variable, graph: &mut Graph) -> (r: Result<Variable, Error>)
        requires
            self.wf(),
            rhs.wf(),
            old(graph).wf(),
        ensures
            final(graph).wf(),
            r matches Ok(v) ==> v.wf(),
            added(*self, *rhs, old(graph)@, final(graph)@, r),
    {
        match self.value.add(&rhs.value) {
            Ok(value) => {
                let mut builder = Variable::builder();
                builder.edge_of(self, GradFn::Identity);
                builder.edge_of(rhs, GradFn::Identity);
                builder.build(graph, value)
            },
            Err(e) => Err(e),
        }
    }

    /// `self ⊙ rhs`, element by element. Each input receives the output's gradient times
    /// the other input. Refused with `Mismatch` where the two kinds differ.
    pub fn mul(&self, rhs: &Variable, graph: &mut Graph) -> (r: Result<Variable, Error>)
        requires
            self.wf(),
            rhs.wf(),
            old(graph).wf(),
        ensures
            final(graph).wf(),
            r matches Ok(v) ==> v.wf(),
            multiplied(*self, *rhs, old(graph)@, final(graph)@, r),
    {
        match self.value.mul(&rhs.value) {
            Ok(value) => {
                let mut builder = Variable::builder();
                builder.edge_of(self, GradFn::Mul(arc_share(&rhs.value)));
                builder.edge_of(rhs, GradFn::Mul(arc_share(&self.value)));
                builder.build(graph, value)
            },
            Err(e) => Err(e),
        }
    }

    /// The sum of all elements, a scalar. Every element of the input receives the output's
    /// gradient.
    pub fn sum(&self, graph: &mut Graph) -> (r: Result<Variable, Error>)
        requires
            self.wf(),
            old(graph).wf(),
        ensures
            final(graph).wf(),
            r matches Ok(v) ==> v.wf(),
            summed(*self, old(graph)@, final(graph)@, r),
    {
        let value = self.value.sum();
        let mut builder = Variable::builder();
        builder.edge_of(self, GradFn::ScaleBy(Arc::new(self.value.full_like(1))));
        builder.build(graph, value)
    }

    /// The matrix product `self · rhs`. The left input receives `dy · rhsᵀ`, the right one
    /// `selfᵀ · dy`. Refused with `Mismatch` where the product is not defined.
    pub fn dot(&self, rhs: &Variable, graph: &mut Graph) -> (r: Result<Variable, Error>)
        requires
            self.wf(),
            rhs.wf(),
            old(graph).wf(),
        ensures
            final(graph).wf(),
            r matches Ok(v) ==> v.wf(),
            dotted(*self, *rhs, old(graph)@, final(graph)@, r),
    {
        match self.value.dot(&rhs.value) {
            Ok(value) => {
                let mut builder = Variable::builder();
                builder.edge_of(self, GradFn::DotLhs(arc_share(&rhs.value)));
                builder.edge_of(rhs, GradFn::DotRhs(arc_share(&self.value)));
                builder.build(graph, value)
            },
            Err(e) => Err(e),
        }
    }

    /// `bias` added to every row of this matrix. The matrix receives the output's gradient,
    /// the bias the sum of its rows. Refused with `Mismatch` where `bias` is not a vector as
    /// long as the matrix is wide, of its scalar type and on its device.
    pub fn add_rows(&self, bias: &Variable, graph: &mut Graph) -> (r: Result<Variable, Error>)
        requires
            self.wf(),
            bias.wf(),
            old(graph).wf(),
        ensures
            final(graph).wf(),
            r matches Ok(v) ==> v.wf(),
            rows_added(*self, *bias, old(graph)@, final(graph)@, r),
    {
        match self.value.add_rows(&bias.value) {
            Ok(value) => {
                let mut builder = Variable::builder();
                builder.edge_of(self, GradFn::Identity);
                builder.edge_of(bias, GradFn::SumRows);
                builder.build(graph, value)
            },
            Err(e) => Err(e),
        }
    }

    /// The rectifier, element by element. The input receives the output's gradient where it
    /// was positive and zero elsewhere. Refused with `Unimplemented` where the scalar type is
    /// neither `BF16` nor `F32`.
    pub fn relu(&self, graph: &mut Graph) -> (r: Result<Variable, Error>)
        requires
            self.wf(),
            old(graph).wf(),
        ensures
            final(graph).wf(),
            r matches Ok(v) ==> v.wf(),
            rectified(*self, old(graph)@, final(graph)@, r),
    {
        match self.value.relu() {
            Ok(value) => {
                let mut builder = Variable::builder();
                builder.edge_of(self, GradFn::Relu(arc_share(&self.value)));
                builder.build(graph, value)
            },
            Err(e) => Err(e),
        }
    }

    /// The tensor of the given shape whose element `p` is this tensor's element at the place
    /// `index[p]`, and zero where the map names none. The input receives the output's
    /// gradient scattered back by the map: each element of the input gets the sum of the
    /// gradients of the elements that were gathered from it. Refused with `Mismatch` where
    /// the map does not have one entry for each element of the shape or names a place
    /// outside the input.
    pub fn gather(&self, index: Vec<Option<usize>>, shape: Vec<usize>, graph: &mut Graph) -> (r:
        Result<Variable, Error>)
        requires
            self.wf(),
            old(graph).wf(),
        ensures
            final(graph).wf(),
            r matches Ok(v) ==> v.wf(),
            gathered(*self, index@, shape@, old(graph)@, final(graph)@, r),
    {
        match self.value.gather(&index, shape) {
            Ok(value) => {
                let held: usize = self.value.len();
                assert(shape_size(self.value@.kind.shape) == held);
                let mut builder = Variable::builder();
                builder.edge_of(self, GradFn::Gather(index, self.value.kind().copy()));
                builder.build(graph, value)
            },
            Err(e) => Err(e),
        }
    }

    /// The same elements under another shape. The input receives the output's gradient in
    /// the input's shape. Refused with `Mismatch` where the new shape spans another number
    /// of elements.
    pub fn into_shape(&self, shape: Vec<usize>, graph: &mut Graph) -> (r: Result<Variable, Error>)
        requires
            self.wf(),
            old(graph).wf(),
        ensures
            final(graph).wf(),
            r matches Ok(v) ==> v.wf(),
            reshaped(*self, shape@, old(graph)@, final(graph)@, r),
    {
        match self.value.copy().into_shape(shape) {
            Ok(value) => {
                let mut builder = Variable::builder();
                builder.edge_of(self, GradFn::Reshape(copy_shape(self.value.shape())));
                builder.build(graph, value)
            },
            Err(e) => Err(e),
        }
    }

    /// The same elements as a matrix: the first axis is kept and the axes behind it are
    /// folded into one. The input receives the output's gradient in the input's shape.
    /// Refused with `Mismatch` where the tensor has no axis or the folded axis does not fit
    /// in `usize`.
    pub fn flatten(&self, graph: &mut Graph) -> (r: Result<Variable, Error>)
        requires
            self.wf(),
            old(graph).wf(),
        ensures
            final(graph).wf(),
            r matches Ok(v) ==> v.wf(),
            flattened(*self, old(graph)@, final(graph)@, r),
    {
        let shape = self.value.shape();
        if shape.len() == 0 {
            return Err(Error::Mismatch);
        }
        let mut rest: Vec<usize> = Vec::new();
        let mut i: usize = 1;
        while i < shape.len()
            invariant
                1 <= i <= shape.len(),
                rest@ == shape@.subrange(1, i as int),
            decreases shape.len() - i,
        {
            rest.push(shape[i]);
            assert(shape@.subrange(1, i + 1) =~= shape@.subrange(1, i as int).push(shape@[i as int]));
            i += 1;
        }
        match checked_size(&rest) {
            Some(n) => {
                let mut flat: Vec<usize> = Vec::new();
                flat.push(shape[0]);
                flat.push(n);
                proof {
                    assert(flat@ =~= flat_shape(shape@));
                    lemma_size_split(shape@);
                    crate::linalg::lemma_matrix_size(flat@);
                }
                match self.value.copy().into_shape(flat) {
                    Ok(value) => {
                        let mut builder = Variable::builder();
                        builder.edge_of(self, GradFn::Reshape(copy_shape(shape)));
                        builder.build(graph, value)
                    },
                    Err(e) => Err(e),
                }
            },
            None => Err(Error::Mismatch),
        }
    }
}

} // verus!
