//! Layer builders.
use crate::autograd::parameter::{Parameter, ParameterView};
use crate::error::Error;
use crate::layer::conv::{Conv, ConvOptions};
use crate::layer::dense::Dense;
use crate::layer::pool::MaxPool;
use crate::layer::Identity;
use crate::linalg::{lemma_matrix_size, lemma_vector_size};
use crate::scalar::{Device, ScalarType};
use crate::tensor::{shape_size, KindView, Tensor, TensorView};
use vstd::prelude::*;

verus! {

/// The size of something along each of its axes.
pub trait Dimension: Sized + Copy {
    /// The lengths, axis by axis.
    spec fn axes(&self) -> Seq<usize>;

    /// The lengths of `zeros()`.
    spec fn zeros_spec() -> Seq<usize>;

    /// The lengths of `ones()`.
    spec fn ones_spec() -> Seq<usize>;

    /// Zero along every axis.
    fn zeros() -> (d: Self)
        ensures
            d.axes() == Self::zeros_spec(),
    ;

    /// One along every axis.
    fn ones() -> (d: Self)
        ensures
            d.axes() == Self::ones_spec(),
    ;

    /// The lengths, axis by axis.
    fn to_vec(&self) -> (v: Vec<usize>)
        ensures
            v@ == self.axes(),
    ;
}

/// One axis.
pub type Ix1 = [usize; 1];

/// Two axes.
pub type Ix2 = [usize; 2];

impl Dimension for [usize; 1] {
    open spec fn axes(&self) -> Seq<usize> {
        self@
    }

    open spec fn zeros_spec() -> Seq<usize> {
        seq![0usize]
    }

    open spec fn ones_spec() -> Seq<usize> {
        seq![1usize]
    }

    fn zeros() -> (d: Self) {
        let d: [usize; 1] = [0];
        assert(d@ =~= seq![0usize]);
        d
    }

    fn ones() -> (d: Self) {
        let d: [usize; 1] = [1];
        assert(d@ =~= seq![1usize]);
        d
    }

    fn to_vec(&self) -> (v: Vec<usize>) {
        let mut v: Vec<usize> = Vec::new();
        v.push(self[0]);
        assert(v@ =~= self@);
        v
    }
}

impl Dimension for [usize; 2] {
    open spec fn axes(&self) -> Seq<usize> {
        self@
    }

    open spec fn zeros_spec() -> Seq<usize> {
        seq![0usize, 0usize]
    }

    open spec fn ones_spec() -> Seq<usize> {
        seq![1usize, 1usize]
    }

    fn zeros() -> (d: Self) {
        let d: [usize; 2] = [0, 0];
        assert(d@ =~= seq![0usize, 0usize]);
        d
    }

    fn ones() -> (d: Self) {
        let d: [usize; 2] = [1, 1];
        assert(d@ =~= seq![1usize, 1usize]);
        d
    }

    fn to_vec(&self) -> (v: Vec<usize>) {
        let mut v: Vec<usize> = Vec::new();
        v.push(self[0]);
        v.push(self[1]);
        assert(v@ =~= self@);
        v
    }
}

/// Builder for creating a [`MaxPool`].
#[derive(Debug)]
pub struct MaxPoolBuilder<D: Dimension> {
    filter: D,
    stride: Option<D>,
}

impl<D: Dimension> MaxPoolBuilder<D> {
    /// The size of the pool filter.
    pub closed spec fn filter_view(&self) -> D {
        self.filter
    }

    /// The stride, where one was set.
    pub closed spec fn stride_view(&self) -> Option<D> {
        self.stride
    }

    /// A builder with a filter of size zero and no stride.
    pub fn new() -> (b: MaxPoolBuilder<D>)
        ensures
            b.filter_view().axes() == D::zeros_spec(),
            b.stride_view() is None,
    {
        MaxPoolBuilder { filter: D::zeros(), stride: None }
    }

    /// Sets the size of the pool filter.
    pub fn filter(self, filter: D) -> (b: MaxPoolBuilder<D>)
        ensures
            b.filter_view() == filter,
            b.stride_view() == self.stride_view(),
    {
        MaxPoolBuilder { filter, ..self }
    }

    /// Sets the stride. Defaults to filter.
    pub fn stride(self, stride: D) -> (b: MaxPoolBuilder<D>)
        ensures
            b.filter_view() == self.filter_view(),
            b.stride_view() == Some(stride),
    {
        MaxPoolBuilder { stride: Some(stride), ..self }
    }

    /// Builds the layer.
    pub fn build(self) -> (pool: MaxPool<D>)
        ensures
            pool.filter_view() == self.filter_view(),
            pool.stride_view() == match self.stride_view() {
                Some(stride) => stride,
                None => self.filter_view(),
            },
    {
        let MaxPoolBuilder { filter, stride } = self;
        let stride = match stride {
            Some(stride) => stride,
            None => filter,
        };
        MaxPool::from_parts(filter, stride)
    }
}

/// What a builder cannot decide by itself: the identities of the parameters and the elements
/// that they start with.
#[derive(Debug)]
pub struct Init {
    pub weight_id: u64,
    pub weight: Vec<i64>,
    pub bias_id: u64,
    pub bias: Vec<i64>,
}

/// The settings of a [`ConvBuilder`].
pub struct ConvBuilderView<D, A> {
    pub inputs: usize,
    pub outputs: usize,
    pub filter: D,
    pub padding: D,
    pub stride: D,
    pub dilation: D,
    pub bias: bool,
    pub scalar_type: ScalarType,
    pub device: Device,
    pub activation: A,
}

/// Builder for creating a [`Conv`].
#[derive(Debug)]
pub struct ConvBuilder<D: Dimension, A = Identity> {
    inputs: usize,
    outputs: usize,
    filter: D,
    padding: D,
    stride: D,
    dilation: D,
    bias: bool,
    scalar_type: ScalarType,
    device: Device,
    activation: A,
}

impl<D: Dimension, A> View for ConvBuilder<D, A> {
    type V = ConvBuilderView<D, A>;

    closed spec fn view(&self) -> ConvBuilderView<D, A> {
        ConvBuilderView {
            inputs: self.inputs,
            outputs: self.outputs,
            filter: self.filter,
            padding: self.padding,
            stride: self.stride,
            dilation: self.dilation,
            bias: self.bias,
            scalar_type: self.scalar_type,
            device: self.device,
            activation: self.activation,
        }
    }
}

impl<D: Dimension> ConvBuilder<D> {
    /// The settings that a builder starts with: no inputs, no outputs, a filter of size
    /// zero, no padding, strides and dilations of one, no bias, `F32` on the host, no
    /// activation.
    pub open spec fn fresh(b: ConvBuilderView<D, Identity>) -> bool {
        &&& b.inputs == 0
        &&& b.outputs == 0
        &&& b.filter.axes() == D::zeros_spec()
        &&& b.padding.axes() == D::zeros_spec()
        &&& b.stride.axes() == D::ones_spec()
        &&& b.dilation.axes() == D::ones_spec()
        &&& !b.bias
        &&& b.scalar_type == ScalarType::F32
        &&& b.device == Device::Host
    }

    /// A builder with the settings that every builder starts with.
    pub fn new() -> (b: ConvBuilder<D>)
        ensures
            Self::fresh(b@),
    {
        ConvBuilder {
            inputs: 0,
            outputs: 0,
            filter: D::zeros(),
            padding: D::zeros(),
            stride: D::ones(),
            dilation: D::ones(),
            bias: false,
            scalar_type: ScalarType::F32,
            device: Device::Host,
            activation: Identity,
        }
    }
}

impl<D: Dimension, A> ConvBuilder<D, A> {
    /// Sets the number of input channels.
    pub fn inputs(self, inputs: usize) -> (b: ConvBuilder<D, A>)
        ensures
            b@ == (ConvBuilderView { inputs, ..self@ }),
    {
        ConvBuilder { inputs, ..self }
    }

    /// Sets the number of output channels.
    pub fn outputs(self, outputs: usize) -> (b: ConvBuilder<D, A>)
        ensures
            b@ == (ConvBuilderView { outputs, ..self@ }),
    {
        ConvBuilder { outputs, ..self }
    }

    /// Sets size of the filter.
    pub fn filter(self, filter: D) -> (b: ConvBuilder<D, A>)
        ensures
            b@ == (ConvBuilderView { filter, ..self@ }),
    {
        ConvBuilder { filter, ..self }
    }

    /// Adds padding.
    pub fn padding(self, padding: D) -> (b: ConvBuilder<D, A>)
        ensures
            b@ == (ConvBuilderView { padding, ..self@ }),
    {
        ConvBuilder { padding, ..self }
    }

    /// Sets the stride. Defaults to 1.
    pub fn stride(self, stride: D) -> (b: ConvBuilder<D, A>)
        ensures
            b@ == (ConvBuilderView { stride, ..self@ }),
    {
        ConvBuilder { stride, ..self }
    }

    /// Sets the dilation. Defaults to 1.
    pub fn dilation(self, dilation: D) -> (b: ConvBuilder<D, A>)
        ensures
            b@ == (ConvBuilderView { dilation, ..self@ }),
    {
        ConvBuilder { dilation, ..self }
    }

    /// Add a bias. Defaults to false.
    pub fn bias(self, bias: bool) -> (b: ConvBuilder<D, A>)
        ensures
            b@ == (ConvBuilderView { bias, ..self@ }),
    {
        ConvBuilder { bias, ..self }
    }

    /// Add an activation layer.
    pub fn activation<A2>(self, activation: A2) -> (b: ConvBuilder<D, A2>)
        ensures
            b@ == (ConvBuilderView {
                inputs: self@.inputs,
                outputs: self@.outputs,
                filter: self@.filter,
                padding: self@.padding,
                stride: self@.stride,
                dilation: self@.dilation,
                bias: self@.bias,
                scalar_type: self@.scalar_type,
                device: self@.device,
                activation,
            }),
    {
        let ConvBuilder {
            inputs,
            outputs,
            filter,
            padding,
            stride,
            dilation,
            bias,
            activation: _,
            scalar_type,
            device,
        } = self;
        ConvBuilder {
            inputs,
            outputs,
            filter,
            padding,
            stride,
            dilation,
            bias,
            activation,
            scalar_type,
            device,
        }
    }

    /// Sets the scalar type. Defaults to `F32`.
    ///
    /// `BF16` and `F32` are implemented.
    pub fn scalar_type(self, scalar_type: ScalarType) -> (b: ConvBuilder<D, A>)
        ensures
            b@ == (ConvBuilderView { scalar_type, ..self@ }),
    {
        ConvBuilder { scalar_type, ..self }
    }

    /// Sets the device. Defaults to the host.
    pub fn device(self, device: Device) -> (b: ConvBuilder<D, A>)
        ensures
            b@ == (ConvBuilderView { device, ..self@ }),
    {
        ConvBuilder { device, ..self }
    }

    /// The shape of the weight: the outputs, the inputs, and the axes of the filter.
    pub open spec fn weight_shape(b: ConvBuilderView<D, A>) -> Seq<usize> {
        seq![b.outputs, b.inputs] + b.filter.axes()
    }

    /// Why the layer cannot be built from `init`, if it cannot: `Unimplemented` where the
    /// scalar type is neither `BF16` nor `F32`; else `Mismatch` where the weight does not
    /// get one element for each element of its shape, or where a bias is asked for and does
    /// not get one element for each output or shares the weight's identity.
    pub open spec fn build_error(b: ConvBuilderView<D, A>, init: Init) -> Option<Error> {
        if !b.scalar_type.is_trainable() {
            Some(Error::Unimplemented)
        } else if init.weight@.len() != shape_size(Self::weight_shape(b)) {
            Some(Error::Mismatch)
        } else if b.bias && (init.bias@.len() != b.outputs || init.bias_id == init.weight_id) {
            Some(Error::Mismatch)
        } else {
            None
        }
    }

    /// Builds the layer. The weight has the shape `[outputs, inputs]` followed by the axes
    /// of the filter, and the bias, if there is one, the shape `[outputs]`; both start with
    /// the elements of `init`.
    pub fn build(self, init: Init) -> (r: Result<Conv<D, A>, Error>)
        ensures
            match r {
                Ok(conv) => {
                    &&& Self::build_error(self@, init) is None
                    &&& conv.activation_view() == self@.activation
                    &&& conv.options_view() == (ConvOptions {
                        padding: self@.padding,
                        stride: self@.stride,
                        dilation: self@.dilation,
                    })
                    &&& conv.weight_view() == created(
                        init.weight_id,
                        Self::weight_shape(self@),
                        self@.scalar_type,
                        self@.device,
                        init.weight@,
                    )
                    &&& conv.weight_view().value.wf()
                    &&& conv.bias_view() == if self@.bias {
                        Some(
                            created(
                                init.bias_id,
                                seq![self@.outputs],
                                self@.scalar_type,
                                self@.device,
                                init.bias@,
                            ),
                        )
                    } else {
                        None
                    }
                    &&& conv.bias_view() matches Some(b) ==> b.value.wf()
                },
                Err(e) => Self::build_error(self@, init) == Some(e),
            },
    {
        let ConvBuilder {
            inputs,
            outputs,
            filter,
            padding,
            stride,
            dilation,
            bias,
            activation,
            scalar_type,
            device,
        } = self;
        let Init { weight_id, weight, bias_id, bias: bias_init } = init;
        if !scalar_type.trainable() {
            return Err(Error::Unimplemented);
        }
        let mut shape: Vec<usize> = Vec::new();
        shape.push(outputs);
        shape.push(inputs);
        let mut axes = filter.to_vec();
        shape.append(&mut axes);
        proof {
            assert(shape@ =~= Self::weight_shape(self@));
        }
        let mut weight = match Tensor::from_vec(shape, weight) {
            Ok(t) => t,
            Err(e) => {
                return Err(e);
            },
        };
        weight.cast_mut(scalar_type);
        weight.to_device_mut(device);
        let weight = Parameter::new(weight_id, weight);
        let bias = if bias {
            if bias_id == weight_id {
                return Err(Error::Mismatch);
            }
            let mut shape: Vec<usize> = Vec::new();
            shape.push(outputs);
            proof {
                assert(shape@ =~= seq![outputs]);
                lemma_vector_size(shape@);
            }
            let mut value = match Tensor::from_vec(shape, bias_init) {
                Ok(t) => t,
                Err(e) => {
                    return Err(e);
                },
            };
            value.cast_mut(scalar_type);
            value.to_device_mut(device);
            Some(Parameter::new(bias_id, value))
        } else {
            None
        };
        Conv::from_parts(weight, ConvOptions { padding, stride, dilation }, bias, activation)
    }
}

/// The settings of a [`DenseBuilder`].
pub struct DenseBuilderView<A> {
    pub inputs: usize,
    pub outputs: usize,
    pub bias: bool,
    pub scalar_type: ScalarType,
    pub device: Device,
    pub activation: A,
}

/// Builder for creating a [`Dense`].
#[derive(Debug)]
pub struct DenseBuilder<A = Identity> {
    inputs: usize,
    outputs: usize,
    bias: bool,
    scalar_type: ScalarType,
    device: Device,
    activation: A,
}

impl<A> View for DenseBuilder<A> {
    type V = DenseBuilderView<A>;

    closed spec fn view(&self) -> DenseBuilderView<A> {
        DenseBuilderView {
            inputs: self.inputs,
            outputs: self.outputs,
            bias: self.bias,
            scalar_type: self.scalar_type,
            device: self.device,
            activation: self.activation,
        }
    }
}

/// The parameter that a builder creates: outside training, with the given identity, shape,
/// precision, location and elements.
pub open spec fn created(
    id: u64,
    shape: Seq<usize>,
    scalar_type: ScalarType,
    device: Device,
    data: Seq<i64>,
) -> ParameterView {
    ParameterView {
        id,
        value: TensorView { kind: KindView { shape, scalar_type, device }, data },
        training: false,
    }
}

impl DenseBuilder {
    /// The settings that a builder starts with: no inputs, no outputs, no bias, `F32` on the
    /// host, no activation.
    pub open spec fn fresh() -> DenseBuilderView<Identity> {
        DenseBuilderView {
            inputs: 0,
            outputs: 0,
            bias: false,
            scalar_type: ScalarType::F32,
            device: Device::Host,
            activation: Identity,
        }
    }

    /// A builder with the settings that every builder starts with.
    pub fn new() -> (b: DenseBuilder)
        ensures
            b@ == DenseBuilder::fresh(),
    {
        DenseBuilder {
            inputs: 0,
            outputs: 0,
            bias: false,
            scalar_type: ScalarType::F32,
            device: Device::Host,
            activation: Identity,
        }
    }
}

impl<A> DenseBuilder<A> {
    /// Sets the number of input channels.
    pub fn inputs(self, inputs: usize) -> (b: DenseBuilder<A>)
        ensures
            b@ == (DenseBuilderView { inputs, ..self@ }),
    {
        DenseBuilder { inputs, ..self }
    }

    /// Sets the number of output channels.
    pub fn outputs(self, outputs: usize) -> (b: DenseBuilder<A>)
        ensures
            b@ == (DenseBuilderView { outputs, ..self@ }),
    {
        DenseBuilder { outputs, ..self }
    }

    /// Adds a bias. Defaults to false.
    pub fn bias(self, bias: bool) -> (b: DenseBuilder<A>)
        ensures
            b@ == (DenseBuilderView { bias, ..self@ }),
    {
        DenseBuilder { bias, ..self }
    }

    /// Adds an activation layer.
    pub fn activation<A2>(self, activation: A2) -> (b: DenseBuilder<A2>)
        ensures
            b@ == (DenseBuilderView {
                inputs: self@.inputs,
                outputs: self@.outputs,
                bias: self@.bias,
                scalar_type: self@.scalar_type,
                device: self@.device,
                activation,
            }),
    {
        let DenseBuilder { inputs, outputs, bias, activation: _, scalar_type, device } = self;
        DenseBuilder { inputs, outputs, bias, activation, scalar_type, device }
    }

    /// Sets the scalar type. Defaults to `F32`.
    ///
    /// `BF16` and `F32` are implemented.
    pub fn scalar_type(self, scalar_type: ScalarType) -> (b: DenseBuilder<A>)
        ensures
            b@ == (DenseBuilderView { scalar_type, ..self@ }),
    {
        DenseBuilder { scalar_type, ..self }
    }

    /// Sets the device. Defaults to the host.
    pub fn device(self, device: Device) -> (b: DenseBuilder<A>)
        ensures
            b@ == (DenseBuilderView { device, ..self@ }),
    {
        DenseBuilder { device, ..self }
    }

    /// Why the layer cannot be built from `init`, if it cannot: `Unimplemented` where the
    /// scalar type is neither `BF16` nor `F32`; else `Mismatch` where the weight does not
    /// get one element for each pair of an input and an output, or where a bias is asked
    /// for and does not get one element for each output or shares the weight's identity.
    pub open spec fn build_error(b: DenseBuilderView<A>, init: Init) -> Option<Error> {
        if !b.scalar_type.is_trainable() {
            Some(Error::Unimplemented)
        } else if init.weight@.len() != b.inputs * b.outputs {
            Some(Error::Mismatch)
        } else if b.bias && (init.bias@.len() != b.outputs || init.bias_id == init.weight_id) {
            Some(Error::Mismatch)
        } else {
            None
        }
    }

    /// Builds the layer. The weight has the shape `[inputs, outputs]` and the bias, if there
    /// is one, the shape `[outputs]`; both start with the elements of `init`.
    pub fn build(self, init: Init) -> (r: Result<Dense<A>, Error>)
        ensures
            match r {
                Ok(dense) => {
                    &&& Self::build_error(self@, init) is None
                    &&& dense.activation_view() == self@.activation
                    &&& dense.weight_view() == created(
                        init.weight_id,
                        seq![self@.inputs, self@.outputs],
                        self@.scalar_type,
                        self@.device,
                        init.weight@,
                    )
                    &&& dense.weight_view().value.wf()
                    &&& dense.bias_view() == if self@.bias {
                        Some(
                            created(
                                init.bias_id,
                                seq![self@.outputs],
                                self@.scalar_type,
                                self@.device,
                                init.bias@,
                            ),
                        )
                    } else {
                        None
                    }
                    &&& dense.bias_view() matches Some(b) ==> b.value.wf()
                },
                Err(e) => Self::build_error(self@, init) == Some(e),
            },
    {
        let DenseBuilder { inputs, outputs, bias, activation, scalar_type, device } = self;
        let Init { weight_id, weight, bias_id, bias: bias_init } = init;
        if !scalar_type.trainable() {
            return Err(Error::Unimplemented);
        }
        let mut shape: Vec<usize> = Vec::new();
        shape.push(inputs);
        shape.push(outputs);
        proof {
            assert(shape@ =~= seq![inputs, outputs]);
            lemma_matrix_size(shape@);
        }
        let mut weight = match Tensor::from_vec(shape, weight) {
            Ok(t) => t,
            Err(e) => {
                return Err(e);
            },
        };
        weight.cast_mut(scalar_type);
        weight.to_device_mut(device);
        let weight = Parameter::new(weight_id, weight);
        let bias = if bias {
            if bias_id == weight_id {
                return Err(Error::Mismatch);
            }
            let mut shape: Vec<usize> = Vec::new();
            shape.push(outputs);
            proof {
                assert(shape@ =~= seq![outputs]);
                lemma_vector_size(shape@);
            }
            let mut value = match Tensor::from_vec(shape, bias_init) {
                Ok(t) => t,
                Err(e) => {
                    return Err(e);
                },
            };
            value.cast_mut(scalar_type);
            value.to_device_mut(device);
            Some(Parameter::new(bias_id, value))
        } else {
            None
        };
        Dense::from_parts(weight, bias, activation)
    }
}

} // verus!
