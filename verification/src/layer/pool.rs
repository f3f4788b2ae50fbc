//! Max pooling layers.
use crate::autograd::graph::{Graph, GraphView};
use crate::autograd::ops::gathered;
use crate::autograd::parameter::ParameterView;
use crate::autograd::variable::Variable;
use crate::error::Error;
use crate::layer::builder::{Dimension, Ix1, Ix2, MaxPoolBuilder};
use crate::layer::{
    with_device, with_scalar_type, with_training, Forward, Layer, ParameterMutVec, ParameterVec,
};
use crate::linalg::lemma_vector_size;
use crate::pool::{can_pool, max_pool2_index, pool_index, pooled_shape, pooling, Pooling};
use crate::scalar::{Device, ScalarType};
use crate::tensor::{lemma_size_zero, shape_size, Tensor, TensorView};
use vstd::prelude::*;

verus! {

/// MaxPool.
///
/// See [`MaxPool1`] and [`MaxPool2`].
/// Implemented for `BF16` and `F32`.
#[derive(Debug)]
pub struct MaxPool<D> {
    filter: D,
    stride: D,
}

/// MaxPool with 1 dimension.
///
/// See [`MaxPool`].
pub type MaxPool1 = MaxPool<Ix1>;

/// MaxPool with 2 dimensions.
///
/// See [`MaxPool`].
pub type MaxPool2 = MaxPool<Ix2>;

impl<D: Dimension> MaxPool<D> {
    /// Returns a builder for creating a [`MaxPool`].
    pub fn builder() -> (b: MaxPoolBuilder<D>)
        ensures
            b.filter_view().axes() == D::zeros_spec(),
            b.stride_view() is None,
    {
        MaxPoolBuilder::new()
    }
}

impl<D> MaxPool<D> {
    /// The size of the window.
    pub closed spec fn filter_view(&self) -> D {
        self.filter
    }

    /// How far apart the windows start.
    pub closed spec fn stride_view(&self) -> D {
        self.stride
    }

    /// The size of the window.
    pub fn filter(&self) -> (d: &D)
        ensures
            *d == self.filter_view(),
    {
        &self.filter
    }

    /// How far apart the windows start.
    pub fn stride(&self) -> (d: &D)
        ensures
            *d == self.stride_view(),
    {
        &self.stride
    }

    /// A layer that pools windows of size `filter` that start `stride` apart.
    pub fn from_parts(filter: D, stride: D) -> (pool: MaxPool<D>)
        ensures
            pool.filter_view() == filter,
            pool.stride_view() == stride,
    {
        MaxPool { filter, stride }
    }
}

impl<D> Layer for MaxPool<D> {
    open spec fn wf(&self) -> bool {
        true
    }

    open spec fn parameters_view(&self) -> Seq<ParameterView> {
        Seq::empty()
    }

    /// The layer has no parameters: it stays as it is.
    open spec fn trains(&self, training: bool, after: Self, r: Result<(), Error>) -> bool {
        r is Ok && after.filter_view() == self.filter_view() && after.stride_view()
            == self.stride_view()
    }

    /// The layer has no parameters: it stays as it is.
    open spec fn casts(&self, scalar_type: ScalarType, after: Self, r: Result<(), Error>) -> bool {
        r is Ok && after.filter_view() == self.filter_view() && after.stride_view()
            == self.stride_view()
    }

    /// The layer has no parameters: it stays as it is.
    open spec fn transfers(&self, device: Device, after: Self, r: Result<(), Error>) -> bool {
        r is Ok && after.filter_view() == self.filter_view() && after.stride_view()
            == self.stride_view()
    }

    /// The layer has no parameters: it is handed back as it is.
    open spec fn moves(&self, device: Device, r: Result<Self, Error>) -> bool {
        r == Ok::<Self, Error>(*self)
    }

    open spec fn refuses_views(&self, e: Error) -> bool {
        false
    }

    fn set_training(&mut self, training: bool) -> (r: Result<(), Error>)
        ensures
            r is Ok,
            final(self).filter_view() == old(self).filter_view(),
            final(self).stride_view() == old(self).stride_view(),
    {
        assert(with_training(self.parameters_view(), training) =~= self.parameters_view());
        Ok(())
    }

    fn parameters(&self) -> (v: ParameterVec) {
        ParameterVec::new()
    }

    fn parameters_mut(&mut self) -> (r: Result<ParameterMutVec<'_>, Error>)
        ensures
            r is Ok,
    {
        Ok(ParameterMutVec::new())
    }

    fn cast_mut(&mut self, scalar_type: ScalarType) -> (r: Result<(), Error>)
        ensures
            r is Ok,
            final(self).filter_view() == old(self).filter_view(),
            final(self).stride_view() == old(self).stride_view(),
    {
        assert(with_scalar_type(self.parameters_view(), scalar_type) =~= self.parameters_view());
        Ok(())
    }

    fn to_device_mut(&mut self, device: Device) -> (r: Result<(), Error>)
        ensures
            r is Ok,
            final(self).filter_view() == old(self).filter_view(),
            final(self).stride_view() == old(self).stride_view(),
    {
        assert(with_device(self.parameters_view(), device) =~= self.parameters_view());
        Ok(())
    }

    fn into_device(self, device: Device) -> (r: Result<Self, Error>)
        ensures
            r == Ok::<Self, Error>(self),
    {
        assert(with_device(self.parameters_view(), device) =~= self.parameters_view());
        Ok(self)
    }
}

/// What pooling the images of `input` does: the output gathers the first greatest element of
/// each window, and the input receives the output's gradient at those elements. Refused with
/// `Unimplemented` where the scalar type is neither `BF16` nor `F32`, and with `Mismatch`
/// where the input does not have four axes or the window or a stride is zero in a direction.
pub open spec fn pooled(
    input: Variable,
    filter: Seq<usize>,
    stride: Seq<usize>,
    before: GraphView,
    after: GraphView,
    r: Result<Variable, Error>,
) -> bool {
    let shape = input.value@.kind.shape;
    if !input.value@.kind.scalar_type.is_trainable() {
        r == Err::<Variable, Error>(Error::Unimplemented) && after == before
    } else if !can_pool(shape, filter, stride) {
        r == Err::<Variable, Error>(Error::Mismatch) && after == before
    } else {
        let g = pooling(shape, filter, stride);
        gathered(input, pool_index(input.value@.data, g), pooled_shape(shape, g), before, after, r)
    }
}

/// The shape of a batch of signals with one more axis of length one, as images one column
/// wide.
pub open spec fn as_images(shape: Seq<usize>) -> Seq<usize> {
    seq![shape[0], shape[1], shape[2], 1usize]
}

/// What pooling the signals of `input` does: as pooling images one column wide with windows
/// one column wide, the output without the axis of length one.
pub open spec fn pooled_signals(
    input: Variable,
    filter: usize,
    stride: usize,
    before: GraphView,
    after: GraphView,
    r: Result<Variable, Error>,
) -> bool {
    let shape = input.value@.kind.shape;
    if !input.value@.kind.scalar_type.is_trainable() {
        r == Err::<Variable, Error>(Error::Unimplemented) && after == before
    } else if shape.len() != 3 || filter == 0 || stride == 0 {
        r == Err::<Variable, Error>(Error::Mismatch) && after == before
    } else {
        let g = pooling(as_images(shape), seq![filter, 1usize], seq![stride, 1usize]);
        gathered(
            input,
            pool_index(input.value@.data, g),
            seq![shape[0], shape[1], g.oh as usize],
            before,
            after,
            r,
        )
    }
}

impl Forward for MaxPool<Ix2> {
    open spec fn forwards(
        &self,
        input: Variable,
        before: GraphView,
        after: GraphView,
        r: Result<Variable, Error>,
    ) -> bool {
        pooled(input, self.filter_view()@, self.stride_view()@, before, after, r)
    }

    fn forward(&self, input: Variable, graph: &mut Graph) -> (r: Result<Variable, Error>) {
        if !input.value().scalar_type().trainable() {
            return Err(Error::Unimplemented);
        }
        match max_pool2_index(input.value(), self.filter, self.stride) {
            Ok((index, shape)) => input.gather(index, shape, graph),
            Err(e) => Err(e),
        }
    }
}

impl Forward for MaxPool<Ix1> {
    open spec fn forwards(
        &self,
        input: Variable,
        before: GraphView,
        after: GraphView,
        r: Result<Variable, Error>,
    ) -> bool {
        pooled_signals(input, self.filter_view()@[0], self.stride_view()@[0], before, after, r)
    }

    fn forward(&self, input: Variable, graph: &mut Graph) -> (r: Result<Variable, Error>) {
        let value = input.value();
        if !value.scalar_type().trainable() {
            return Err(Error::Unimplemented);
        }
        let s = value.shape();
        if s.len() != 3 || self.filter[0] == 0 || self.stride[0] == 0 {
            return Err(Error::Mismatch);
        }
        let mut images: Vec<usize> = Vec::new();
        images.push(s[0]);
        images.push(s[1]);
        images.push(s[2]);
        images.push(1);
        proof {
            assert(images@ =~= as_images(s@));
            assert(images@.drop_last() =~= s@);
            assert(shape_size(images@) == shape_size(s@) * 1);
        }
        let as_images = match value.copy().into_shape(images) {
            Ok(t) => t,
            Err(e) => {
                return Err(e);
            },
        };
        let filter: [usize; 2] = [self.filter[0], 1];
        let stride: [usize; 2] = [self.stride[0], 1];
        assert(filter@ =~= seq![self.filter_view()@[0], 1usize]);
        assert(stride@ =~= seq![self.stride_view()@[0], 1usize]);
        match max_pool2_index(&as_images, filter, stride) {
            Ok((index, shape)) => {
                let mut signals: Vec<usize> = Vec::new();
                signals.push(s[0]);
                signals.push(s[1]);
                signals.push(shape[2]);
                proof {
                    let g = pooling(as_images@.kind.shape, filter@, stride@);
                    assert(g.ow == 1 || g.ow == 0);
                    assert(signals@ =~= seq![s@[0], s@[1], g.oh as usize]);
                    assert(shape@.drop_last() =~= signals@);
                    if g.ow == 1 {
                        assert(shape_size(shape@) == shape_size(signals@) * 1);
                    }
                }
                input.gather(index, signals, graph)
            },
            Err(e) => Err(e),
        }
    }
}

/// Why the gradient of pooling cannot be computed, if it cannot.
pub open spec fn pool_backward_error(
    input: TensorView,
    filter: Seq<usize>,
    stride: Seq<usize>,
    output_grad: TensorView,
) -> Option<Error> {
    if !can_pool(input.kind.shape, filter, stride) {
        Some(Error::Mismatch)
    } else {
        output_grad.scatter_error(
            pool_index(input.data, pooling(input.kind.shape, filter, stride)),
            input.kind,
        )
    }
}

impl MaxPool<Ix2> {
    /// The gradient of pooling the images of `input` for the upstream gradient
    /// `output_grad`: each element of the input gets the sum of the gradients of the windows
    /// whose first greatest element it is. Refused with `Mismatch` where the input cannot be
    /// pooled or the gradient does not have one element for each window, the input's scalar
    /// type and the input's device.
    pub fn backward(&self, input: &Tensor, output_grad: &Tensor) -> (r: Result<Tensor, Error>)
        requires
            input.wf(),
            output_grad.wf(),
        ensures
            match r {
                Ok(t) => {
                    &&& pool_backward_error(
                        input@,
                        self.filter_view()@,
                        self.stride_view()@,
                        output_grad@,
                    ) is None
                    &&& t.wf()
                    &&& t@ == output_grad@.scatter(
                        pool_index(
                            input@.data,
                            pooling(input@.kind.shape, self.filter_view()@, self.stride_view()@),
                        ),
                        input@.kind,
                    )
                },
                Err(e) => pool_backward_error(
                    input@,
                    self.filter_view()@,
                    self.stride_view()@,
                    output_grad@,
                ) == Some(e),
            },
    {
        match max_pool2_index(input, self.filter, self.stride) {
            Ok((index, _)) => output_grad.scatter(&index, input.kind()),
            Err(e) => Err(e),
        }
    }
}

} // verus!
