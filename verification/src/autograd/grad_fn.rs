//! The gradient transforms that an edge of the graph can carry.
use crate::error::Error;
use crate::index::index_valid;
use crate::linalg::matrix_kind;
use crate::tensor::{checked_size, copy_shape, shape_size, Kind, KindView, Tensor, TensorView};
use std::sync::Arc;
use vstd::prelude::*;

verus! {

/// How the gradient of an operation's output becomes the gradient of one of its inputs.
///
/// Each variant is the transform of one input of one operation, together with the values
/// that the operation kept for it.
#[derive(Debug)]
pub enum GradFn {
    /// The input is passed through: `dx = dy`.
    Identity,
    /// The input was multiplied element by element with the tensor held: `dx = dy ⊙ c`.
    Mul(Arc<Tensor>),
    /// The input, held here, went through the rectifier.
    Relu(Arc<Tensor>),
    /// The output is a scalar whose derivative by the input is the tensor held:
    /// `dx = dy · c`.
    ScaleBy(Arc<Tensor>),
    /// The input was multiplied from the right by the matrix held: `dx = dy · wᵀ`.
    DotLhs(Arc<Tensor>),
    /// The input was multiplied from the left by the matrix held: `dw = xᵀ · dy`.
    DotRhs(Arc<Tensor>),
    /// The input was a row added to every row of a matrix: `db` is the sum of the rows of
    /// `dy`.
    SumRows,
    /// The input had the shape held and the same elements.
    Reshape(Vec<usize>),
    /// The output was gathered from the input, of the kind held, by the index map held:
    /// `dx` is `dy` scattered back by the map.
    Gather(Vec<Option<usize>>, Kind),
}

/// Whether two kinds agree in scalar type and device.
pub open spec fn same_tags(a: KindView, b: KindView) -> bool {
    a.scalar_type == b.scalar_type && a.device == b.device
}

/// The mathematical content of a gradient transform.
pub enum GradFnView {
    Identity,
    Mul(TensorView),
    Relu(TensorView),
    ScaleBy(TensorView),
    DotLhs(TensorView),
    DotRhs(TensorView),
    SumRows,
    Reshape(Seq<usize>),
    Gather(Seq<Option<usize>>, KindView),
}

impl View for GradFn {
    type V = GradFnView;

    open spec fn view(&self) -> GradFnView {
        match self {
            GradFn::Identity => GradFnView::Identity,
            GradFn::Mul(c) => GradFnView::Mul(c@),
            GradFn::Relu(x) => GradFnView::Relu(x@),
            GradFn::ScaleBy(c) => GradFnView::ScaleBy(c@),
            GradFn::DotLhs(w) => GradFnView::DotLhs(w@),
            GradFn::DotRhs(x) => GradFnView::DotRhs(x@),
            GradFn::SumRows => GradFnView::SumRows,
            GradFn::Reshape(shape) => GradFnView::Reshape(shape@),
            GradFn::Gather(index, kind) => GradFnView::Gather(index@, kind@),
        }
    }
}

impl GradFnView {
    /// The tensors held are well formed, and those of the matrix products are matrices.
    pub open spec fn wf(self) -> bool {
        match self {
            GradFnView::Identity => true,
            GradFnView::Mul(c) => c.wf(),
            GradFnView::Relu(x) => x.wf(),
            GradFnView::ScaleBy(c) => c.wf(),
            GradFnView::DotLhs(w) => w.wf() && w.is_matrix(),
            GradFnView::DotRhs(x) => x.wf() && x.is_matrix(),
            GradFnView::SumRows => true,
            GradFnView::Reshape(_) => true,
            GradFnView::Gather(index, kind) => shape_size(kind.shape) <= usize::MAX && index_valid(
                index,
                shape_size(kind.shape),
            ),
        }
    }

    /// The kinds of output gradient that the transform is defined on.
    pub open spec fn accepts(self, dy: KindView) -> bool {
        match self {
            GradFnView::Identity => true,
            GradFnView::Mul(c) => dy == c.kind,
            GradFnView::Relu(x) => dy == x.kind,
            GradFnView::ScaleBy(c) => dy.shape.len() == 0 && same_tags(dy, c.kind),
            GradFnView::DotLhs(w) => dy.shape.len() == 2 && dy.shape[1] == w.cols() && same_tags(
                dy,
                w.kind,
            ),
            GradFnView::DotRhs(x) => dy.shape.len() == 2 && dy.shape[0] == x.rows() && same_tags(
                dy,
                x.kind,
            ),
            GradFnView::SumRows => dy.shape.len() == 2,
            GradFnView::Reshape(shape) => shape_size(shape) == shape_size(dy.shape),
            GradFnView::Gather(index, kind) => shape_size(dy.shape) == index.len() && same_tags(
                dy,
                kind,
            ),
        }
    }

    /// The kind of the input gradient that the transform gives for an output gradient of
    /// kind `dy`.
    pub open spec fn output_kind(self, dy: KindView) -> KindView {
        match self {
            GradFnView::Identity => dy,
            GradFnView::Mul(c) => dy,
            GradFnView::Relu(x) => dy,
            GradFnView::ScaleBy(c) => c.kind,
            GradFnView::DotLhs(w) => matrix_kind(dy.shape[0], w.rows(), dy),
            GradFnView::DotRhs(x) => matrix_kind(x.cols(), dy.shape[1], x.kind),
            GradFnView::SumRows => KindView {
                shape: seq![dy.shape[1]],
                scalar_type: dy.scalar_type,
                device: dy.device,
            },
            GradFnView::Reshape(shape) => KindView {
                shape,
                scalar_type: dy.scalar_type,
                device: dy.device,
            },
            GradFnView::Gather(index, kind) => kind,
        }
    }

    /// The input gradient that the transform gives for the output gradient `dy`.
    pub open spec fn apply(self, dy: TensorView) -> TensorView {
        match self {
            GradFnView::Identity => dy,
            GradFnView::Mul(c) => dy.mul(c),
            GradFnView::Relu(x) => x.relu_backward(dy),
            GradFnView::ScaleBy(c) => c.scale(dy.data[0]),
            GradFnView::DotLhs(w) => dy.dot(w.transpose()),
            GradFnView::DotRhs(x) => x.transpose().dot(dy),
            GradFnView::SumRows => dy.sum_rows(),
            GradFnView::Reshape(shape) => dy.reshape(shape),
            GradFnView::Gather(index, kind) => dy.scatter(index, kind),
        }
    }
}

impl GradFn {
    pub open spec fn wf(&self) -> bool {
        self@.wf()
    }

    pub open spec fn accepts(&self, dy: KindView) -> bool {
        self@.accepts(dy)
    }

    pub open spec fn output_kind(&self, dy: KindView) -> KindView {
        self@.output_kind(dy)
    }

    pub open spec fn apply_spec(&self, dy: TensorView) -> TensorView {
        self@.apply(dy)
    }

    /// Applies the transform to the output gradient `dy`. Refused with `Mismatch` exactly
    /// where the transform is not defined on gradients of that kind.
    pub fn apply(&self, dy: &Tensor) -> (r: Result<Tensor, Error>)
        requires
            self.wf(),
            dy.wf(),
        ensures
            match r {
                Ok(t) => t.wf() && t@ == self.apply_spec(dy@) && t@.kind == self.output_kind(
                    dy@.kind,
                ),
                Err(e) => e == Error::Mismatch,
            },
            r is Ok <==> self.accepts(dy@.kind),
    {
        match self {
            GradFn::Identity => Ok(dy.copy()),
            GradFn::Mul(c) => dy.mul(c),
            GradFn::Relu(x) => x.relu_backward(dy),
            GradFn::ScaleBy(c) => {
                if dy.shape().len() != 0 || dy.scalar_type() != c.scalar_type() || dy.device()
                    != c.device() {
                    return Err(Error::Mismatch);
                }
                assert(dy@.kind.shape =~= Seq::<usize>::empty());
                assert(dy@.data.len() == 1);
                Ok(c.scale(dy.data()[0]))
            },
            GradFn::DotLhs(w) => {
                match w.transpose() {
                    Ok(wt) => {
                        let r = dy.dot(&wt);
                        proof {
                            if r is Ok {
                                assert(r->Ok_0@.kind =~= self.output_kind(dy@.kind));
                            }
                        }
                        r
                    },
                    Err(e) => Err(e),
                }
            },
            GradFn::DotRhs(x) => {
                match x.transpose() {
                    Ok(xt) => {
                        let r = xt.dot(dy);
                        proof {
                            if r is Ok {
                                assert(r->Ok_0@.kind =~= self.output_kind(dy@.kind));
                            }
                        }
                        r
                    },
                    Err(e) => Err(e),
                }
            },
            GradFn::SumRows => dy.sum_rows(),
            GradFn::Reshape(shape) => dy.copy().into_shape(copy_shape(shape)),
            GradFn::Gather(index, kind) => {
                match dy.scatter(index, kind) {
                    Ok(t) => Ok(t),
                    Err(_) => Err(Error::Mismatch),
                }
            },
        }
    }

    /// The kind of the input gradient for the output gradient of `value`'s kind, or `None`
    /// exactly where the transform is not defined on gradients of that kind.
    pub fn output_for(&self, value: &Tensor) -> (r: Option<Kind>)
        requires
            self.wf(),
            value.wf(),
        ensures
            r is Some <==> self.accepts(value@.kind),
            r matches Some(k) ==> k@ == self.output_kind(value@.kind),
    {
        let dy = value.kind();
        match self {
            GradFn::Identity => Some(dy.copy()),
            GradFn::Mul(c) => if dy.same(c.kind()) {
                Some(dy.copy())
            } else {
                None
            },
            GradFn::Relu(x) => if dy.same(x.kind()) {
                Some(dy.copy())
            } else {
                None
            },
            GradFn::ScaleBy(c) => if dy.shape.len() == 0 && dy.scalar_type == c.scalar_type()
                && dy.device == c.device() {
                Some(c.kind().copy())
            } else {
                None
            },
            GradFn::DotLhs(w) => if dy.shape.len() == 2 && dy.shape[1] == w.shape()[1]
                && dy.scalar_type == w.scalar_type() && dy.device == w.device() {
                let mut shape: Vec<usize> = Vec::new();
                shape.push(dy.shape[0]);
                shape.push(w.shape()[0]);
                let k = Kind { shape, scalar_type: dy.scalar_type, device: dy.device };
                assert(k@.shape =~= self.output_kind(value@.kind).shape);
                Some(k)
            } else {
                None
            },
            GradFn::DotRhs(x) => if dy.shape.len() == 2 && dy.shape[0] == x.shape()[0]
                && dy.scalar_type == x.scalar_type() && dy.device == x.device() {
                let mut shape: Vec<usize> = Vec::new();
                shape.push(x.shape()[1]);
                shape.push(dy.shape[1]);
                let k = Kind { shape, scalar_type: dy.scalar_type, device: dy.device };
                assert(k@.shape =~= self.output_kind(value@.kind).shape);
                Some(k)
            } else {
                None
            },
            GradFn::SumRows => if dy.shape.len() == 2 {
                let mut shape: Vec<usize> = Vec::new();
                shape.push(dy.shape[1]);
                let k = Kind { shape, scalar_type: dy.scalar_type, device: dy.device };
                assert(k@.shape =~= self.output_kind(value@.kind).shape);
                Some(k)
            } else {
                None
            },
            GradFn::Reshape(shape) => {
                let n: usize = value.len();
                match checked_size(shape) {
                    Some(m) => if m == n {
                        Some(
                            Kind {
                                shape: copy_shape(shape),
                                scalar_type: dy.scalar_type,
                                device: dy.device,
                            },
                        )
                    } else {
                        None
                    },
                    None => None,
                }
            },
            GradFn::Gather(index, kind) => if value.len() == index.len() && dy.scalar_type
                == kind.scalar_type && dy.device == kind.device {
                Some(kind.copy())
            } else {
                None
            },
        }
    }
}

} // verus!
