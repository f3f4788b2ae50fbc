//! Convolutional layers.
use crate::autograd::graph::{Graph, GraphView};
use crate::autograd::differences::{
    int_inner, law_patched_finite_difference, patched_exactly, patched_gradient,
    patched_product,
};
use crate::autograd::ops::{dotted, gathered, reshaped, rows_added};
use crate::autograd::parameter::{taken_part, Parameter, ParameterView, ParameterViewMut};
use crate::autograd::variable::Variable;
use crate::conv::{
    can_convolve, convolution, fits, im2col_conv2_index, im2col_index, transpose_index,
    transposed, Conv2Options, Convolution,
};
use crate::error::Error;
use crate::geometry::lemma_image_size;
use crate::layer::builder::{ConvBuilder, Dimension, Ix1, Ix2};
use crate::layer::dense::Step;
use crate::layer::{
    all_wf, with_device, with_scalar_type, with_training, Forward, Identity, Layer,
    ParameterMutVec, ParameterVec,
};
use crate::linalg::lemma_matrix_size;
use crate::scalar::{Device, ScalarType};
use crate::tensor::TensorView;
use vstd::prelude::*;

verus! {

/// The padding, stride and dilation of a convolution over images, each by rows and by
/// columns. The filter is that of the weight.
#[derive(Debug)]
pub struct ConvOptions<D> {
    pub padding: D,
    pub stride: D,
    pub dilation: D,
}

/// The options of a convolution with the filter of a weight of the given shape.
pub open spec fn with_filter(options: ConvOptions<Ix2>, weight: Seq<usize>) -> Conv2Options {
    Conv2Options {
        filter: [weight[2], weight[3]],
        padding: options.padding,
        stride: options.stride,
        dilation: options.dilation,
    }
}

/// Why images cannot be convolved with a weight, if they cannot: `Unimplemented` where the
/// scalar type of the images is neither `BF16` nor `F32`; `Mismatch` where the images
/// or the weight do not have four axes, the weight is not made for the channels of the
/// images, or a filter, stride or dilation is zero in a direction; `TooLarge` where the
/// matrix of patches cannot be held.
pub open spec fn conv2_error(
    scalar_type: ScalarType,
    input: Seq<usize>,
    weight: Seq<usize>,
    options: ConvOptions<Ix2>,
) -> Option<Error> {
    if !scalar_type.is_trainable() {
        Some(Error::Unimplemented)
    } else if input.len() != 4 || weight.len() != 4 || input[1] != weight[1] {
        Some(Error::Mismatch)
    } else if !can_convolve(input, with_filter(options, weight)) {
        Some(Error::Mismatch)
    } else if !fits(convolution(input, with_filter(options, weight))) {
        Some(Error::TooLarge)
    } else {
        None
    }
}

/// The shape of the convolved images: the batch, one channel for each filter, and the rows
/// and columns of the places of the filter.
pub open spec fn convolved_shape(g: Convolution, outputs: usize) -> Seq<usize> {
    seq![g.bs as usize, outputs, g.oh as usize, g.ow as usize]
}

/// The steps of a convolution: the patches are gathered from the images, the filters are
/// laid out one in each column, the patches are multiplied by the filters, the bias, if
/// there is one, is added to every row, and the products are gathered channel by channel.
/// The first step that fails ends the convolution with its error, and the graph stays as
/// that step left it.
pub open spec fn conv2_chain(
    input: Variable,
    weight: Variable,
    bias: Option<Variable>,
    options: ConvOptions<Ix2>,
    before: GraphView,
    patches: Step,
    filters: Step,
    product: Step,
    sum: Step,
    after: GraphView,
    r: Result<Variable, Error>,
) -> bool {
    let ws = weight.value@.kind.shape;
    let g = convolution(input.value@.kind.shape, with_filter(options, ws));
    let outputs = ws[0];
    let places = transposed(g.bs, g.oh * g.ow, outputs as int);
    let shape = convolved_shape(g, outputs);
    match conv2_error(input.value@.kind.scalar_type, input.value@.kind.shape, ws, options) {
        Some(e) => r == Err::<Variable, Error>(e) && after == before,
        None => gathered(
            input,
            im2col_index(g),
            seq![g.rows() as usize, g.cols() as usize],
            before,
            patches.graph,
            patches.result,
        ) && match patches.result {
            Err(e) => r == Err::<Variable, Error>(e) && after == patches.graph,
            Ok(cols) => gathered(
                weight,
                transposed(1, outputs as int, g.cols()),
                seq![g.cols() as usize, outputs],
                patches.graph,
                filters.graph,
                filters.result,
            ) && match filters.result {
                Err(e) => r == Err::<Variable, Error>(e) && after == filters.graph,
                Ok(wt) => dotted(cols, wt, filters.graph, product.graph, product.result)
                    && match product.result {
                    Err(e) => r == Err::<Variable, Error>(e) && after == product.graph,
                    Ok(y) => match bias {
                        None => gathered(y, places, shape, product.graph, after, r),
                        Some(b) => rows_added(y, b, product.graph, sum.graph, sum.result)
                            && match sum.result {
                            Err(e) => r == Err::<Variable, Error>(e) && after == sum.graph,
                            Ok(z) => gathered(z, places, shape, sum.graph, after, r),
                        },
                    },
                },
            },
        },
    }
}

/// What `conv2` does.
pub open spec fn convolved(
    input: Variable,
    weight: Variable,
    bias: Option<Variable>,
    options: ConvOptions<Ix2>,
    before: GraphView,
    after: GraphView,
    r: Result<Variable, Error>,
) -> bool {
    exists|patches: Step, filters: Step, product: Step, sum: Step|
        conv2_chain(
            input,
            weight,
            bias,
            options,
            before,
            patches,
            filters,
            product,
            sum,
            after,
            r,
        )
}

/// The filters of a weight laid out one in each column, for the convolution `g`.
pub open spec fn conv2_filters(weight: TensorView, g: Convolution) -> TensorView {
    weight.gather(
        transposed(1, weight.kind.shape[0] as int, g.cols()),
        seq![g.cols() as usize, weight.kind.shape[0]],
    )
}

/// The images `x` convolved with `weight`, without a bias.
pub open spec fn conv2_value(
    x: TensorView,
    weight: TensorView,
    options: ConvOptions<Ix2>,
) -> TensorView {
    let ws = weight.kind.shape;
    let g = convolution(x.kind.shape, with_filter(options, ws));
    patched_product(
        x,
        conv2_filters(weight, g),
        im2col_index(g),
        seq![g.rows() as usize, g.cols() as usize],
        transposed(g.bs, g.oh * g.ow, ws[0] as int),
        convolved_shape(g, ws[0]),
    )
}

/// The gradient that the transforms of a convolution give for the images, for the output
/// gradient `dy`: scattered back by the map of the patches of this convolution's own filter,
/// padding, stride and dilation.
pub open spec fn conv2_input_gradient(
    x: TensorView,
    weight: TensorView,
    dy: TensorView,
    options: ConvOptions<Ix2>,
) -> TensorView {
    let ws = weight.kind.shape;
    let g = convolution(x.kind.shape, with_filter(options, ws));
    patched_gradient(
        x,
        conv2_filters(weight, g),
        dy,
        im2col_index(g),
        seq![g.rows() as usize, g.cols() as usize],
        transposed(g.bs, g.oh * g.ow, ws[0] as int),
    )
}

/// Whether the convolution of `x` with `weight` can be formed and neither it nor the
/// gradient of the images for `dy` saturates anywhere.
pub open spec fn conv2_exact(
    x: TensorView,
    weight: TensorView,
    dy: TensorView,
    options: ConvOptions<Ix2>,
) -> bool {
    let ws = weight.kind.shape;
    let g = convolution(x.kind.shape, with_filter(options, ws));
    patched_exactly(
        x,
        conv2_filters(weight, g),
        dy,
        im2col_index(g),
        seq![g.rows() as usize, g.cols() as usize],
        transposed(g.bs, g.oh * g.ow, ws[0] as int),
        convolved_shape(g, ws[0]),
    )
}

/// The value of a convolution without a bias is the product of the patches and the
/// filters, gathered channel by channel.
pub proof fn law_conv2_value(
    input: Variable,
    weight: Variable,
    options: ConvOptions<Ix2>,
    before: GraphView,
    after: GraphView,
    r: Result<Variable, Error>,
)
    requires
        convolved(input, weight, None, options, before, after, r),
        r is Ok,
    ensures
        r->Ok_0.value@ == conv2_value(input.value@, weight.value@, options),
{
    let (patches, filters, product, sum) = choose|
        patches: Step,
        filters: Step,
        product: Step,
        sum: Step,
    |
        conv2_chain(
            input,
            weight,
            None,
            options,
            before,
            patches,
            filters,
            product,
            sum,
            after,
            r,
        );
    assert(conv2_chain(
        input,
        weight,
        None,
        options,
        before,
        patches,
        filters,
        product,
        sum,
        after,
        r,
    ));
}

/// Finite differences of a convolution by its images. Moving element `q` of the images by
/// one moves the sum of the products of `dy` and the convolved images, place by place, by
/// element `q` of the gradient that the transforms give for the images, as long as nothing
/// saturates before or after the move.
pub proof fn law_conv2_finite_difference(
    x: TensorView,
    moved: TensorView,
    weight: TensorView,
    dy: TensorView,
    options: ConvOptions<Ix2>,
    q: int,
)
    requires
        conv2_exact(x, weight, dy, options),
        conv2_exact(moved, weight, dy, options),
        0 <= q < x.data.len(),
        x.data[q] < i64::MAX,
        moved.kind == x.kind,
        moved.data == x.data.update(q, (x.data[q] + 1) as i64),
    ensures
        int_inner(conv2_value(moved, weight, options).data, dy.data, dy.data.len()) - int_inner(
            conv2_value(x, weight, options).data,
            dy.data,
            dy.data.len(),
        ) == conv2_input_gradient(x, weight, dy, options).data[q],
{
    let ws = weight.kind.shape;
    let g = convolution(x.kind.shape, with_filter(options, ws));
    law_patched_finite_difference(
        x,
        moved,
        conv2_filters(weight, g),
        dy,
        im2col_index(g),
        seq![g.rows() as usize, g.cols() as usize],
        transposed(g.bs, g.oh * g.ow, ws[0] as int),
        convolved_shape(g, ws[0]),
        q,
    );
}

/// Convolves the images of `input`, of the shape `[batch, inputs, rows, columns]`, with the
/// filters of `weight`, of the shape `[outputs, inputs, filter rows, filter columns]`, and
/// adds `bias`, one element for each output, to every place. The result has the shape
/// `[batch, outputs, places by rows, places by columns]`.
pub fn conv2(
    input: &Variable,
    weight: &Variable,
    options: ConvOptions<Ix2>,
    bias: Option<&Variable>,
    graph: &mut Graph,
) -> (r: Result<Variable, Error>)
    requires
        input.wf(),
        weight.wf(),
        bias matches Some(b) ==> b.wf(),
        old(graph).wf(),
    ensures
        final(graph).wf(),
        r matches Ok(v) ==> v.wf(),
        convolved(
            *input,
            *weight,
            match bias {
                Some(b) => Some(*b),
                None => None,
            },
            options,
            old(graph)@,
            final(graph)@,
            r,
        ),
{
    let ghost before = graph@;
    let ghost bias_spec = match bias {
        Some(b) => Some(*b),
        None => None,
    };
    let ghost start = Step { graph: before, result: Err(Error::Mismatch) };
    if !input.value().scalar_type().trainable() {
        assert(conv2_chain(
            *input,
            *weight,
            bias_spec,
            options,
            before,
            start,
            start,
            start,
            start,
            graph@,
            Err(Error::Unimplemented),
        ));
        return Err(Error::Unimplemented);
    }
    let xs = input.value().shape();
    let ws = weight.value().shape();
    if xs.len() != 4 || ws.len() != 4 {
        assert(conv2_chain(
            *input,
            *weight,
            bias_spec,
            options,
            before,
            start,
            start,
            start,
            start,
            graph@,
            Err(Error::Mismatch),
        ));
        return Err(Error::Mismatch);
    }
    if xs[1] != ws[1] {
        assert(conv2_chain(
            *input,
            *weight,
            bias_spec,
            options,
            before,
            start,
            start,
            start,
            start,
            graph@,
            Err(Error::Mismatch),
        ));
        return Err(Error::Mismatch);
    }
    let bs: usize = xs[0];
    let outputs: usize = ws[0];
    let full = Conv2Options {
        filter: [ws[2], ws[3]],
        padding: options.padding,
        stride: options.stride,
        dilation: options.dilation,
    };
    assert(full.filter@ =~= with_filter(options, ws@).filter@);
    assert(full == with_filter(options, ws@)) by {
        assert(full.filter == with_filter(options, ws@).filter);
    }
    let ghost g = convolution(xs@, full);
    let laid = match im2col_conv2_index(input.value(), &full) {
        Ok(laid) => laid,
        Err(e) => {
            assert(conv2_chain(
                *input,
                *weight,
                bias_spec,
                options,
                before,
                start,
                start,
                start,
                start,
                graph@,
                Err(e),
            ));
            return Err(e);
        },
    };
    let rows: usize = laid.shape[0];
    let cols: usize = laid.shape[1];
    let oh: usize = laid.oh;
    let ow: usize = laid.ow;
    let gathered_patches = input.gather(laid.index, laid.shape, graph);
    let ghost s1 = Step { graph: graph@, result: gathered_patches };
    let patches = match gathered_patches {
        Ok(v) => v,
        Err(e) => {
            assert(conv2_chain(
                *input,
                *weight,
                bias_spec,
                options,
                before,
                s1,
                s1,
                s1,
                s1,
                graph@,
                Err(e),
            ));
            return Err(e);
        },
    };
    // the filters, one in each column
    let held: usize = weight.value().len();
    proof {
        lemma_image_size(ws@);
        assert(((outputs * xs@[1]) * ws@[2]) * ws@[3] == (1 * outputs) * ((xs@[1] * ws@[2])
            * ws@[3])) by (nonlinear_arith);
        assert(held == (1 * outputs) * cols);
    }
    let columns = transpose_index(1, outputs, cols).unwrap();
    let mut filter_shape: Vec<usize> = Vec::new();
    filter_shape.push(cols);
    filter_shape.push(outputs);
    proof {
        lemma_matrix_size(filter_shape@);
        assert(filter_shape@ =~= seq![g.cols() as usize, outputs]);
        assert((1 * cols) * outputs == cols * outputs) by (nonlinear_arith);
        assert((1 * outputs) * cols == cols * outputs) by (nonlinear_arith);
    }
    let gathered_filters = weight.gather(columns, filter_shape, graph);
    let ghost s2 = Step { graph: graph@, result: gathered_filters };
    let filters = match gathered_filters {
        Ok(v) => v,
        Err(e) => {
            assert(conv2_chain(
                *input,
                *weight,
                bias_spec,
                options,
                before,
                s1,
                s2,
                s2,
                s2,
                graph@,
                Err(e),
            ));
            return Err(e);
        },
    };
    let multiplied = patches.dot(&filters, graph);
    let ghost s3 = Step { graph: graph@, result: multiplied };
    let product = match multiplied {
        Ok(v) => v,
        Err(e) => {
            assert(conv2_chain(
                *input,
                *weight,
                bias_spec,
                options,
                before,
                s1,
                s2,
                s3,
                s3,
                graph@,
                Err(e),
            ));
            return Err(e);
        },
    };
    let ghost mut s4 = s3;
    let product = match bias {
        Some(b) => {
            let added = product.add_rows(b, graph);
            proof {
                s4 = Step { graph: graph@, result: added };
            }
            match added {
                Ok(v) => v,
                Err(e) => {
                    assert(conv2_chain(
                        *input,
                        *weight,
                        bias_spec,
                        options,
                        before,
                        s1,
                        s2,
                        s3,
                        s4,
                        graph@,
                        Err(e),
                    ));
                    return Err(e);
                },
            }
        },
        None => product,
    };
    // channel by channel
    let total: usize = product.value().len();
    proof {
        lemma_matrix_size(product.value@.kind.shape);
        assert(total == rows * outputs);
    }
    let places: usize = if bs == 0 {
        0
    } else {
        proof {
            assert(oh * ow <= (bs * oh) * ow) by (nonlinear_arith)
                requires
                    bs >= 1,
                    oh >= 0,
                    ow >= 0,
            ;
        }
        oh * ow
    };
    proof {
        assert((bs * places) * outputs == rows * outputs) by (nonlinear_arith)
            requires
                rows == (bs * oh) * ow,
                bs == 0 ==> places == 0,
                bs != 0 ==> places == oh * ow,
        ;
    }
    let by_channel = transpose_index(bs, places, outputs).unwrap();
    let mut shape: Vec<usize> = Vec::new();
    shape.push(bs);
    shape.push(outputs);
    shape.push(oh);
    shape.push(ow);
    proof {
        assert(shape@ =~= convolved_shape(g, outputs));
        lemma_image_size(shape@);
        assert(((bs * outputs) * oh) * ow == (bs * outputs) * (oh * ow)) by (nonlinear_arith);
        assert((bs * outputs) * places == (bs * outputs) * (oh * ow)) by (nonlinear_arith)
            requires
                bs == 0 ==> places == 0,
                bs != 0 ==> places == oh * ow,
        ;
        assert((bs * places) * outputs == (bs * outputs) * places) by (nonlinear_arith);
        assert(by_channel@ =~= transposed(g.bs, g.oh * g.ow, outputs as int)) by {
            if bs == 0 {
                assert((g.bs * outputs) * (g.oh * g.ow) == 0) by (nonlinear_arith)
                    requires
                        g.bs == 0,
                ;
            }
        }
    }
    let r = product.gather(by_channel, shape, graph);
    proof {
        assert(conv2_chain(
            *input,
            *weight,
            bias_spec,
            options,
            before,
            s1,
            s2,
            s3,
            s4,
            graph@,
            r,
        ));
    }
    r
}

/// Convolutional layer.
///
/// See [`Conv1`] and [`Conv2`].
///
/// Implemented for `BF16` and `F32`.
#[derive(Debug)]
pub struct Conv<D, A = Identity> {
    weight: Parameter,
    padding: D,
    stride: D,
    dilation: D,
    bias: Option<Parameter>,
    activation: A,
}

/// Convolutional layer with 1 dimension.
///
/// See [`Conv`].
pub type Conv1<A = Identity> = Conv<Ix1, A>;

/// Convolutional layer with 2 dimensions.
///
/// See [`Conv`].
pub type Conv2<A = Identity> = Conv<Ix2, A>;

impl<D: Dimension> Conv<D> {
    /// Returns a builder for creating a [`Conv`].
    pub fn builder() -> (b: ConvBuilder<D>)
        ensures
            ConvBuilder::<D>::fresh(b@),
    {
        ConvBuilder::new()
    }
}

impl<D, A> Conv<D, A> {
    /// The weight.
    pub closed spec fn weight_view(&self) -> ParameterView {
        self.weight@
    }

    /// The bias, if the layer has one.
    pub closed spec fn bias_view(&self) -> Option<ParameterView> {
        match self.bias {
            Some(b) => Some(b@),
            None => None,
        }
    }

    /// The padding, stride and dilation.
    pub closed spec fn options_view(&self) -> ConvOptions<D> {
        ConvOptions { padding: self.padding, stride: self.stride, dilation: self.dilation }
    }

    /// The activation that follows the convolution.
    pub closed spec fn activation_view(&self) -> A {
        self.activation
    }

    /// A layer of the given parts. Refused with `Mismatch` exactly where the bias shares the
    /// identity of the weight: their gradients would be summed into one entry.
    pub fn from_parts(
        weight: Parameter,
        options: ConvOptions<D>,
        bias: Option<Parameter>,
        activation: A,
    ) -> (r: Result<Conv<D, A>, Error>)
        ensures
            match r {
                Ok(conv) => {
                    &&& conv.weight_view() == weight@
                    &&& conv.options_view() == options
                    &&& conv.bias_view() == match bias {
                        Some(b) => Some(b@),
                        None => None,
                    }
                    &&& conv.activation_view() == activation
                },
                Err(e) => e == Error::Mismatch,
            },
            r is Err <==> (bias matches Some(b) && b@.id == weight@.id),
    {
        let shared = match &bias {
            Some(b) => b.id() == weight.id(),
            None => false,
        };
        if shared {
            Err(Error::Mismatch)
        } else {
            let ConvOptions { padding, stride, dilation } = options;
            Ok(Conv { weight, padding, stride, dilation, bias, activation })
        }
    }

    /// The weight.
    pub fn weight(&self) -> (p: &Parameter)
        ensures
            p@ == self.weight_view(),
    {
        &self.weight
    }

    /// The bias, if the layer has one.
    pub fn bias(&self) -> (p: Option<&Parameter>)
        ensures
            match p {
                Some(b) => self.bias_view() == Some(b@),
                None => self.bias_view() is None,
            },
    {
        match &self.bias {
            Some(b) => Some(b),
            None => None,
        }
    }

    /// The padding.
    pub fn padding(&self) -> (d: &D)
        ensures
            *d == self.options_view().padding,
    {
        &self.padding
    }

    /// The stride.
    pub fn stride(&self) -> (d: &D)
        ensures
            *d == self.options_view().stride,
    {
        &self.stride
    }

    /// The dilation.
    pub fn dilation(&self) -> (d: &D)
        ensures
            *d == self.options_view().dilation,
    {
        &self.dilation
    }

    /// The activation that follows the convolution.
    pub fn activation(&self) -> (a: &A)
        ensures
            *a == self.activation_view(),
    {
        &self.activation
    }

    /// The parts of the layer: the weight, the options, the bias and the activation.
    pub fn into_parts(self) -> (parts: (Parameter, ConvOptions<D>, Option<Parameter>, A))
        ensures
            parts.0@ == self.weight_view(),
            parts.1 == self.options_view(),
            self.bias_view() == match parts.2 {
                Some(b) => Some(b@),
                None => None,
            },
            parts.3 == self.activation_view(),
    {
        let Conv { weight, padding, stride, dilation, bias, activation } = self;
        (weight, ConvOptions { padding, stride, dilation }, bias, activation)
    }

    /// The weight as a mutable parameter view. Refused with `Shared`, and nothing changed,
    /// where the weight's storage is shared.
    pub fn weight_view_mut(&mut self) -> (r: Result<ParameterViewMut<'_>, Error>)
        ensures
            final(self).bias_view() == old(self).bias_view(),
            final(self).options_view() == old(self).options_view(),
            final(self).activation_view() == old(self).activation_view(),
            match r {
                Ok(view) => view.id == old(self).weight_view().id && view.value@ == old(self).weight_view().value && final(self).weight_view() == (ParameterView {
                    value: final(view.value)@,
                    ..old(self).weight_view()
                }),
                Err(e) => e == Error::Shared && final(self).weight_view() == old(self).weight_view(),
            },
    {
        self.weight.make_view_mut()
    }

    /// The bias as a mutable parameter view, `None` where the layer has no bias. Refused
    /// with `Shared`, and nothing changed, where the bias's storage is shared.
    pub fn bias_view_mut(&mut self) -> (r: Result<Option<ParameterViewMut<'_>>, Error>)
        ensures
            final(self).weight_view() == old(self).weight_view(),
            final(self).options_view() == old(self).options_view(),
            final(self).activation_view() == old(self).activation_view(),
            match r {
                Ok(Some(view)) => old(self).bias_view() matches Some(b) && view.id == b.id
                    && view.value@ == b.value && final(self).bias_view() == Some(
                    ParameterView { value: final(view.value)@, ..b },
                ),
                Ok(None) => old(self).bias_view() is None && final(self).bias_view() is None,
                Err(e) => e == Error::Shared && old(self).bias_view() is Some && final(self).bias_view() == old(self).bias_view(),
            },
    {
        match &mut self.bias {
            Some(b) => match b.make_view_mut() {
                Ok(view) => Ok(Some(view)),
                Err(e) => Err(e),
            },
            None => Ok(None),
        }
    }
}

impl<D, A: Forward> Layer for Conv<D, A> {
    open spec fn wf(&self) -> bool {
        &&& self.weight_view().value.wf()
        &&& self.bias_view() matches Some(b) ==> b.value.wf() && b.id != self.weight_view().id
        &&& self.activation_view().wf()
    }

    open spec fn parameters_view(&self) -> Seq<ParameterView> {
        match self.bias_view() {
            Some(b) => seq![self.weight_view(), b],
            None => seq![self.weight_view()],
        }
    }

    /// The weight and the bias are prepared; nothing else changes.
    open spec fn trains(&self, training: bool, after: Self, r: Result<(), Error>) -> bool {
        &&& r is Ok
        &&& after.weight_view() == self.weight_view().trained(training)
        &&& after.bias_view() == match self.bias_view() {
            Some(b) => Some(b.trained(training)),
            None => None,
        }
        &&& after.activation_view() == self.activation_view()
        &&& after.options_view() == self.options_view()
    }

    /// The weight and the bias are cast; nothing else changes. A precision that is neither
    /// `BF16` nor `F32` is refused with `Unimplemented`, and nothing changes at all.
    open spec fn casts(&self, scalar_type: ScalarType, after: Self, r: Result<(), Error>) -> bool {
        &&& after.activation_view() == self.activation_view()
        &&& after.options_view() == self.options_view()
        &&& if scalar_type.is_trainable() {
            &&& r is Ok
            &&& after.weight_view() == self.weight_view().cast(scalar_type)
            &&& after.bias_view() == match self.bias_view() {
                Some(b) => Some(b.cast(scalar_type)),
                None => None,
            }
        } else {
            &&& r == Err::<(), Error>(Error::Unimplemented)
            &&& after.weight_view() == self.weight_view()
            &&& after.bias_view() == self.bias_view()
        }
    }

    /// The weight and the bias are transferred; nothing else changes.
    open spec fn transfers(&self, device: Device, after: Self, r: Result<(), Error>) -> bool {
        &&& r is Ok
        &&& after.weight_view() == self.weight_view().moved(device)
        &&& after.bias_view() == match self.bias_view() {
            Some(b) => Some(b.moved(device)),
            None => None,
        }
        &&& after.activation_view() == self.activation_view()
        &&& after.options_view() == self.options_view()
    }

    /// The layer is handed back with the weight and the bias moved; nothing else changes.
    open spec fn moves(&self, device: Device, r: Result<Self, Error>) -> bool {
        &&& r matches Ok(after)
        &&& after.weight_view() == self.weight_view().moved(device)
        &&& after.bias_view() == match self.bias_view() {
            Some(b) => Some(b.moved(device)),
            None => None,
        }
        &&& after.activation_view() == self.activation_view()
        &&& after.options_view() == self.options_view()
    }

    /// The views are refused where the storage of the weight or of the bias is shared.
    open spec fn refuses_views(&self, e: Error) -> bool {
        e == Error::Shared
    }

    fn set_training(&mut self, training: bool) -> (r: Result<(), Error>)
        ensures
            r is Ok,
            final(self).activation_view() == old(self).activation_view(),
            final(self).options_view() == old(self).options_view(),
    {
        self.weight.set_training(training);
        match &mut self.bias {
            Some(b) => {
                b.set_training(training);
            },
            None => {},
        }
        assert(self.parameters_view() =~= with_training(old(self).parameters_view(), training));
        Ok(())
    }

    fn parameters(&self) -> (v: ParameterVec) {
        let mut parameters = ParameterVec::new();
        parameters.push(self.weight.share());
        match &self.bias {
            Some(b) => {
                parameters.push(b.share());
            },
            None => {},
        }
        assert(crate::layer::parameter_vec_items(parameters) =~= self.parameters_view());
        parameters
    }

    fn parameters_mut(&mut self) -> (r: Result<ParameterMutVec<'_>, Error>)
        ensures
            r matches Err(e) ==> e == Error::Shared,
    {
        let mut parameters = ParameterMutVec::new();
        proof {
            let after = *final(self);
            assert(all_wf(after.parameters_view()) && after.activation_view().wf() && (
            after.bias_view() matches Some(b) ==> b.id != after.weight_view().id)
                ==> after.wf()) by {
                if all_wf(after.parameters_view()) {
                    assert(after.parameters_view()[0].value.wf());
                    if after.bias_view() is Some {
                        assert(after.parameters_view()[1].value.wf());
                    }
                }
            }
            assert(after.weight_view() == old(self).weight_view() && after.bias_view() == old(self).bias_view() ==> after.parameters_view() =~= old(self).parameters_view());
        }
        match self.weight.make_view_mut() {
            Ok(weight) => match &mut self.bias {
                Some(b) => match b.make_view_mut() {
                    Ok(bias) => {
                        parameters.push(weight);
                        parameters.push(bias);
                        Ok(parameters)
                    },
                    Err(e) => Err(e),
                },
                None => {
                    parameters.push(weight);
                    Ok(parameters)
                },
            },
            Err(e) => Err(e),
        }
    }

    fn cast_mut(&mut self, scalar_type: ScalarType) -> (r: Result<(), Error>)
        ensures
            r is Ok <==> scalar_type.is_trainable(),
            r matches Err(e) ==> e == Error::Unimplemented && final(self).parameters_view() == old(self).parameters_view(),
            final(self).activation_view() == old(self).activation_view(),
            final(self).options_view() == old(self).options_view(),
    {
        match self.weight.cast_mut(scalar_type) {
            Ok(_) => {},
            Err(e) => {
                return Err(e);
            },
        }
        match &mut self.bias {
            Some(b) => {
                let cast = b.cast_mut(scalar_type);
                assert(cast is Ok);
            },
            None => {},
        }
        assert(self.parameters_view() =~= with_scalar_type(
            old(self).parameters_view(),
            scalar_type,
        ));
        Ok(())
    }

    fn to_device_mut(&mut self, device: Device) -> (r: Result<(), Error>)
        ensures
            r is Ok,
            final(self).activation_view() == old(self).activation_view(),
            final(self).options_view() == old(self).options_view(),
    {
        self.weight.to_device_mut(device);
        match &mut self.bias {
            Some(b) => {
                b.to_device_mut(device);
            },
            None => {},
        }
        assert(self.parameters_view() =~= with_device(old(self).parameters_view(), device));
        Ok(())
    }

    fn into_device(self, device: Device) -> (r: Result<Self, Error>)
        ensures
            r matches Ok(layer) && layer.activation_view() == self.activation_view()
                && layer.options_view() == self.options_view(),
    {
        let Conv { weight, padding, stride, dilation, bias, activation } = self;
        let weight = weight.into_device(device);
        let bias = match bias {
            Some(b) => Some(b.into_device(device)),
            None => None,
        };
        let layer = Conv { weight, padding, stride, dilation, bias, activation };
        assert(layer.parameters_view() =~= with_device(self.parameters_view(), device));
        Ok(layer)
    }
}

impl<A: Forward> Conv<Ix2, A> {
    /// The steps of the forward pass: the weight takes part, the bias, if there is one,
    /// takes part, the input is convolved, and the activation runs. The first step that
    /// fails ends the pass with its error, and the graph stays as that step left it.
    pub open spec fn chain(
        &self,
        input: Variable,
        before: GraphView,
        w: Step,
        b: Step,
        c: Step,
        after: GraphView,
        r: Result<Variable, Error>,
    ) -> bool {
        &&& taken_part(self.weight_view(), before, w.graph, w.result)
        &&& match w.result {
            Err(e) => r == Err::<Variable, Error>(e) && after == w.graph,
            Ok(wv) => match self.bias_view() {
                None => convolved(input, wv, None, self.options_view(), w.graph, c.graph, c.result)
                    && match c.result {
                    Err(e) => r == Err::<Variable, Error>(e) && after == c.graph,
                    Ok(cv) => self.activation_view().forwards(cv, c.graph, after, r),
                },
                Some(bias) => taken_part(bias, w.graph, b.graph, b.result) && match b.result {
                    Err(e) => r == Err::<Variable, Error>(e) && after == b.graph,
                    Ok(bv) => convolved(
                        input,
                        wv,
                        Some(bv),
                        self.options_view(),
                        b.graph,
                        c.graph,
                        c.result,
                    ) && match c.result {
                        Err(e) => r == Err::<Variable, Error>(e) && after == c.graph,
                        Ok(cv) => self.activation_view().forwards(cv, c.graph, after, r),
                    },
                },
            },
        }
    }
}

impl<A: Forward> Forward for Conv<Ix2, A> {
    open spec fn forwards(
        &self,
        input: Variable,
        before: GraphView,
        after: GraphView,
        r: Result<Variable, Error>,
    ) -> bool {
        exists|w: Step, b: Step, c: Step| self.chain(input, before, w, b, c, after, r)
    }

    fn forward(&self, input: Variable, graph: &mut Graph) -> (r: Result<Variable, Error>) {
        let ghost before = graph@;
        let taken = self.weight.to_variable(graph);
        let ghost w = Step { graph: graph@, result: taken };
        let weight = match taken {
            Ok(weight) => weight,
            Err(e) => {
                assert(self.chain(input, before, w, w, w, graph@, Err(e)));
                return Err(e);
            },
        };
        let options = ConvOptions {
            padding: self.padding,
            stride: self.stride,
            dilation: self.dilation,
        };
        match &self.bias {
            None => {
                let convolved = conv2(&input, &weight, options, None, graph);
                let ghost c = Step { graph: graph@, result: convolved };
                let output = match convolved {
                    Ok(output) => output,
                    Err(e) => {
                        assert(self.chain(input, before, w, w, c, graph@, Err(e)));
                        return Err(e);
                    },
                };
                let r = self.activation.forward(output, graph);
                assert(self.chain(input, before, w, w, c, graph@, r));
                r
            },
            Some(bias) => {
                let taken = bias.to_variable(graph);
                let ghost b = Step { graph: graph@, result: taken };
                let bias = match taken {
                    Ok(bias) => bias,
                    Err(e) => {
                        assert(self.chain(input, before, w, b, b, graph@, Err(e)));
                        return Err(e);
                    },
                };
                let convolved = conv2(&input, &weight, options, Some(&bias), graph);
                let ghost c = Step { graph: graph@, result: convolved };
                let output = match convolved {
                    Ok(output) => output,
                    Err(e) => {
                        assert(self.chain(input, before, w, b, c, graph@, Err(e)));
                        return Err(e);
                    },
                };
                let r = self.activation.forward(output, graph);
                assert(self.chain(input, before, w, b, c, graph@, r));
                r
            },
        }
    }
}

/// The options of a convolution over signals, as a convolution over images one column wide:
/// no padding by columns, and a stride and a dilation of one by columns.
pub open spec fn as_image_options(options: ConvOptions<Ix1>) -> ConvOptions<Ix2> {
    ConvOptions {
        padding: [options.padding@[0], 0usize],
        stride: [options.stride@[0], 1usize],
        dilation: [options.dilation@[0], 1usize],
    }
}

/// The variable behind a reference that may be missing.
pub open spec fn held(bias: Option<&Variable>) -> Option<Variable> {
    match bias {
        Some(b) => Some(*b),
        None => None,
    }
}

/// A shape with one more axis of length one behind its three axes.
pub open spec fn with_column(shape: Seq<usize>) -> Seq<usize> {
    seq![shape[0], shape[1], shape[2], 1usize]
}

/// The first three axes of a shape, or the shape itself where it has fewer.
pub open spec fn without_column(shape: Seq<usize>) -> Seq<usize> {
    if shape.len() >= 3 {
        seq![shape[0], shape[1], shape[2]]
    } else {
        shape
    }
}

impl<A: Forward> Conv<Ix1, A> {
    /// The end of the forward pass, once the signals and the filters have been laid out as
    /// images one column wide: the convolution, the output without its axis of length one,
    /// and the activation.
    pub open spec fn finish(
        &self,
        images: Variable,
        filters: Variable,
        bias: Option<Variable>,
        before: GraphView,
        c: Step,
        y: Step,
        after: GraphView,
        r: Result<Variable, Error>,
    ) -> bool {
        convolved(
            images,
            filters,
            bias,
            as_image_options(self.options_view()),
            before,
            c.graph,
            c.result,
        ) && match c.result {
            Err(e) => r == Err::<Variable, Error>(e) && after == c.graph,
            Ok(cv) => reshaped(
                cv,
                without_column(cv.value@.kind.shape),
                c.graph,
                y.graph,
                y.result,
            ) && match y.result {
                Err(e) => r == Err::<Variable, Error>(e) && after == y.graph,
                Ok(yv) => self.activation_view().forwards(yv, y.graph, after, r),
            },
        }
    }

    /// The steps of the forward pass: the signals are laid out as images one column wide,
    /// the weight takes part and is laid out in the same way, the bias, if there is one,
    /// takes part, and the pass finishes as `finish` says. Signals or a weight without
    /// three axes are refused with `Mismatch`. The first step that fails ends the pass with
    /// its error, and the graph stays as that step left it.
    pub open spec fn chain(
        &self,
        input: Variable,
        before: GraphView,
        x: Step,
        w: Step,
        f: Step,
        b: Step,
        c: Step,
        y: Step,
        after: GraphView,
        r: Result<Variable, Error>,
    ) -> bool {
        if input.value@.kind.shape.len() != 3 {
            r == Err::<Variable, Error>(Error::Mismatch) && after == before
        } else {
            reshaped(input, with_column(input.value@.kind.shape), before, x.graph, x.result)
                && match x.result {
                Err(e) => r == Err::<Variable, Error>(e) && after == x.graph,
                Ok(xv) => taken_part(self.weight_view(), x.graph, w.graph, w.result)
                    && match w.result {
                    Err(e) => r == Err::<Variable, Error>(e) && after == w.graph,
                    Ok(wv) => if wv.value@.kind.shape.len() != 3 {
                        r == Err::<Variable, Error>(Error::Mismatch) && after == w.graph
                    } else {
                        reshaped(
                            wv,
                            with_column(wv.value@.kind.shape),
                            w.graph,
                            f.graph,
                            f.result,
                        ) && match f.result {
                            Err(e) => r == Err::<Variable, Error>(e) && after == f.graph,
                            Ok(fv) => match self.bias_view() {
                                None => self.finish(xv, fv, None, f.graph, c, y, after, r),
                                Some(bias) => taken_part(bias, f.graph, b.graph, b.result)
                                    && match b.result {
                                    Err(e) => r == Err::<Variable, Error>(e) && after == b.graph,
                                    Ok(bv) => self.finish(
                                        xv,
                                        fv,
                                        Some(bv),
                                        b.graph,
                                        c,
                                        y,
                                        after,
                                        r,
                                    ),
                                },
                            },
                        }
                    },
                },
            }
        }
    }

    fn finish_forward(
        &self,
        images: &Variable,
        filters: &Variable,
        bias: Option<&Variable>,
        graph: &mut Graph,
    ) -> (r: Result<Variable, Error>)
        requires
            self.wf(),
            images.wf(),
            filters.wf(),
            bias matches Some(b) ==> b.wf(),
            old(graph).wf(),
        ensures
            final(graph).wf(),
            r matches Ok(v) ==> v.wf(),
            exists|c: Step, y: Step|
                #[trigger] self.finish(
                    *images,
                    *filters,
                    held(bias),
                    old(graph)@,
                    c,
                    y,
                    final(graph)@,
                    r,
                ),
    {
        let ghost before = graph@;
        let options = self.image_options();
        let convolved = conv2(images, filters, options, bias, graph);
        let ghost c = Step { graph: graph@, result: convolved };
        let output = match convolved {
            Ok(output) => output,
            Err(e) => {
                assert(self.finish(*images, *filters, held(bias), before, c, c, graph@, Err(e)));
                return Err(e);
            },
        };
        let shape = drop_column(output.value().shape());
        let narrowed = output.into_shape(shape, graph);
        let ghost y = Step { graph: graph@, result: narrowed };
        let output = match narrowed {
            Ok(output) => output,
            Err(e) => {
                assert(self.finish(*images, *filters, held(bias), before, c, y, graph@, Err(e)));
                return Err(e);
            },
        };
        let r = self.activation.forward(output, graph);
        assert(self.finish(*images, *filters, held(bias), before, c, y, graph@, r));
        r
    }

    fn image_options(&self) -> (options: ConvOptions<Ix2>)
        ensures
            options == as_image_options(self.options_view()),
    {
        let options = ConvOptions {
            padding: [self.padding[0], 0],
            stride: [self.stride[0], 1],
            dilation: [self.dilation[0], 1],
        };
        proof {
            let expected = as_image_options(self.options_view());
            assert(options.padding@ =~= expected.padding@);
            assert(options.stride@ =~= expected.stride@);
            assert(options.dilation@ =~= expected.dilation@);
            assert(options.padding =~= expected.padding);
            assert(options.stride =~= expected.stride);
            assert(options.dilation =~= expected.dilation);
        }
        options
    }
}

fn drop_column(shape: &Vec<usize>) -> (r: Vec<usize>)
    ensures
        r@ == without_column(shape@),
{
    if shape.len() >= 3 {
        let mut r: Vec<usize> = Vec::new();
        r.push(shape[0]);
        r.push(shape[1]);
        r.push(shape[2]);
        assert(r@ =~= without_column(shape@));
        r
    } else {
        crate::tensor::copy_shape(shape)
    }
}

fn add_column(shape: &Vec<usize>) -> (r: Vec<usize>)
    requires
        shape@.len() == 3,
    ensures
        r@ == with_column(shape@),
{
    let mut r: Vec<usize> = Vec::new();
    r.push(shape[0]);
    r.push(shape[1]);
    r.push(shape[2]);
    r.push(1);
    assert(r@ =~= with_column(shape@));
    r
}

impl<A: Forward> Forward for Conv<Ix1, A> {
    open spec fn forwards(
        &self,
        input: Variable,
        before: GraphView,
        after: GraphView,
        r: Result<Variable, Error>,
    ) -> bool {
        exists|x: Step, w: Step, f: Step, b: Step, c: Step, y: Step|
            self.chain(input, before, x, w, f, b, c, y, after, r)
    }

    fn forward(&self, input: Variable, graph: &mut Graph) -> (r: Result<Variable, Error>) {
        let ghost before = graph@;
        let ghost start = Step { graph: before, result: Err(Error::Mismatch) };
        if input.value().shape().len() != 3 {
            assert(self.chain(
                input,
                before,
                start,
                start,
                start,
                start,
                start,
                start,
                graph@,
                Err(Error::Mismatch),
            ));
            return Err(Error::Mismatch);
        }
        let widened = input.into_shape(add_column(input.value().shape()), graph);
        let ghost x = Step { graph: graph@, result: widened };
        let images = match widened {
            Ok(v) => v,
            Err(e) => {
                assert(self.chain(input, before, x, x, x, x, x, x, graph@, Err(e)));
                return Err(e);
            },
        };
        let taken = self.weight.to_variable(graph);
        let ghost w = Step { graph: graph@, result: taken };
        let weight = match taken {
            Ok(v) => v,
            Err(e) => {
                assert(self.chain(input, before, x, w, w, w, w, w, graph@, Err(e)));
                return Err(e);
            },
        };
        if weight.value().shape().len() != 3 {
            assert(self.chain(input, before, x, w, w, w, w, w, graph@, Err(Error::Mismatch)));
            return Err(Error::Mismatch);
        }
        let widened = weight.into_shape(add_column(weight.value().shape()), graph);
        let ghost f = Step { graph: graph@, result: widened };
        let filters = match widened {
            Ok(v) => v,
            Err(e) => {
                assert(self.chain(input, before, x, w, f, f, f, f, graph@, Err(e)));
                return Err(e);
            },
        };
        match &self.bias {
            None => {
                let ghost mid = graph@;
                let r = self.finish_forward(&images, &filters, None, graph);
                proof {
                    let (c, y) = choose|c: Step, y: Step|
                        #[trigger] self.finish(images, filters, None, mid, c, y, graph@, r);
                    assert(self.chain(input, before, x, w, f, f, c, y, graph@, r));
                }
                r
            },
            Some(bias) => {
                let taken = bias.to_variable(graph);
                let ghost b = Step { graph: graph@, result: taken };
                let bias = match taken {
                    Ok(v) => v,
                    Err(e) => {
                        assert(self.chain(input, before, x, w, f, b, b, b, graph@, Err(e)));
                        return Err(e);
                    },
                };
                let ghost mid = graph@;
                let r = self.finish_forward(&images, &filters, Some(&bias), graph);
                proof {
                    let (c, y) = choose|c: Step, y: Step|
                        #[trigger] self.finish(images, filters, Some(bias), mid, c, y, graph@, r);
                    assert(self.chain(input, before, x, w, f, b, c, y, graph@, r));
                }
                r
            },
        }
    }
}

} // verus!
