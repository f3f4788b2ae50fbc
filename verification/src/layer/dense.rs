//! The fully connected layer.
use crate::autograd::graph::{Graph, GraphView};
use crate::autograd::ops::{dotted, gathered, rows_added};
use crate::conv::{transpose_index, transposed};
use crate::linalg::lemma_matrix_size;
use crate::autograd::parameter::{taken_part, Parameter, ParameterView, ParameterViewMut};
use crate::autograd::variable::{Variable, Variable2};
use crate::error::Error;
use crate::layer::builder::DenseBuilder;
use crate::layer::{
    all_wf, with_device, with_scalar_type, with_training, Forward, Identity, Layer,
    ParameterMutVec, ParameterVec,
};
use crate::scalar::{Device, ScalarType};
use vstd::prelude::*;

verus! {

/// A fully connected linear layer: `activation(input · weight + bias)`, where the weight has
/// one row for each input and one column for each output.
///
/// Implemented for `BF16` and `F32`.
#[derive(Debug)]
pub struct Dense<A = Identity> {
    weight: Parameter,
    bias: Option<Parameter>,
    activation: A,
}

/// Where one step of a forward pass has led: the graph after it and what it gave.
pub struct Step {
    pub graph: GraphView,
    pub result: Result<Variable, Error>,
}

impl Dense {
    /// Returns a builder for creating a [`Dense`].
    pub fn builder() -> (b: DenseBuilder)
        ensures
            b@ == DenseBuilder::fresh(),
    {
        DenseBuilder::new()
    }
}

impl<A> Dense<A> {
    /// The weight.
    pub closed spec fn weight_view(&self) -> ParameterView {
        self.weight@
    }

    /// The bias, if the layer has one.
    pub closed spec fn bias_view(&self) -> Option<ParameterView> {
        match self.bias {
            Some(b) => Some(b@),
            None => None,
        }
    }

    /// The activation that follows the linear map.
    pub closed spec fn activation_view(&self) -> A {
        self.activation
    }

    /// A layer of the given parts. Refused with `Mismatch` exactly where the bias shares the
    /// identity of the weight: their gradients would be summed into one entry.
    pub fn from_parts(weight: Parameter, bias: Option<Parameter>, activation: A) -> (r: Result<
        Dense<A>,
        Error,
    >)
        ensures
            match r {
                Ok(d) => {
                    &&& d.weight_view() == weight@
                    &&& d.bias_view() == match bias {
                        Some(b) => Some(b@),
                        None => None,
                    }
                    &&& d.activation_view() == activation
                },
                Err(e) => e == Error::Mismatch,
            },
            r is Err <==> (bias matches Some(b) && b@.id == weight@.id),
    {
        let shared = match &bias {
            Some(b) => b.id() == weight.id(),
            None => false,
        };
        if shared {
            Err(Error::Mismatch)
        } else {
            Ok(Dense { weight, bias, activation })
        }
    }

    /// The weight.
    pub fn weight(&self) -> (p: &Parameter)
        ensures
            p@ == self.weight_view(),
    {
        &self.weight
    }

    /// The bias, if the layer has one.
    pub fn bias(&self) -> (p: Option<&Parameter>)
        ensures
            match p {
                Some(b) => self.bias_view() == Some(b@),
                None => self.bias_view() is None,
            },
    {
        match &self.bias {
            Some(b) => Some(b),
            None => None,
        }
    }

    /// The activation that follows the linear map.
    pub fn activation(&self) -> (a: &A)
        ensures
            *a == self.activation_view(),
    {
        &self.activation
    }

    /// The parts of the layer: the weight, the bias and the activation.
    pub fn into_parts(self) -> (parts: (Parameter, Option<Parameter>, A))
        ensures
            parts.0@ == self.weight_view(),
            self.bias_view() == match parts.1 {
                Some(b) => Some(b@),
                None => None,
            },
            parts.2 == self.activation_view(),
    {
        (self.weight, self.bias, self.activation)
    }

    /// The weight as a mutable parameter view. Refused with `Shared`, and nothing changed,
    /// where the weight's storage is shared.
    pub fn weight_view_mut(&mut self) -> (r: Result<ParameterViewMut<'_>, Error>)
        ensures
            final(self).bias_view() == old(self).bias_view(),
            final(self).activation_view() == old(self).activation_view(),
            match r {
                Ok(view) => view.id == old(self).weight_view().id && view.value@ == old(self).weight_view().value && final(self).weight_view() == (ParameterView {
                    value: final(view.value)@,
                    ..old(self).weight_view()
                }),
                Err(e) => e == Error::Shared && final(self).weight_view() == old(self).weight_view(),
            },
    {
        self.weight.make_view_mut()
    }

    /// The bias as a mutable parameter view, `None` where the layer has no bias. Refused
    /// with `Shared`, and nothing changed, where the bias's storage is shared.
    pub fn bias_view_mut(&mut self) -> (r: Result<Option<ParameterViewMut<'_>>, Error>)
        ensures
            final(self).weight_view() == old(self).weight_view(),
            final(self).activation_view() == old(self).activation_view(),
            match r {
                Ok(Some(view)) => old(self).bias_view() matches Some(b) && view.id == b.id
                    && view.value@ == b.value && final(self).bias_view() == Some(
                    ParameterView { value: final(view.value)@, ..b },
                ),
                Ok(None) => old(self).bias_view() is None && final(self).bias_view() is None,
                Err(e) => e == Error::Shared && old(self).bias_view() is Some && final(self).bias_view() == old(self).bias_view(),
            },
    {
        match &mut self.bias {
            Some(b) => match b.make_view_mut() {
                Ok(view) => Ok(Some(view)),
                Err(e) => Err(e),
            },
            None => Ok(None),
        }
    }
}

impl<A: Forward> Dense<A> {
    /// The steps of the forward pass: the weight takes part, the input is multiplied by it,
    /// the bias, if there is one, takes part and is added to every row, and the activation
    /// runs. The first step that fails ends the pass with its error, and the graph stays
    /// as that step left it.
    pub open spec fn chain(
        &self,
        input: Variable,
        before: GraphView,
        w: Step,
        y: Step,
        b: Step,
        z: Step,
        after: GraphView,
        r: Result<Variable, Error>,
    ) -> bool {
        &&& taken_part(self.weight_view(), before, w.graph, w.result)
        &&& match w.result {
            Err(e) => r == Err::<Variable, Error>(e) && after == w.graph,
            Ok(wv) => dotted(input, wv, w.graph, y.graph, y.result) && match y.result {
                Err(e) => r == Err::<Variable, Error>(e) && after == y.graph,
                Ok(yv) => match self.bias_view() {
                    None => self.activation_view().forwards(yv, y.graph, after, r),
                    Some(bias) => taken_part(bias, y.graph, b.graph, b.result) && match b.result {
                        Err(e) => r == Err::<Variable, Error>(e) && after == b.graph,
                        Ok(bv) => rows_added(yv, bv, b.graph, z.graph, z.result)
                            && match z.result {
                            Err(e) => r == Err::<Variable, Error>(e) && after == z.graph,
                            Ok(zv) => self.activation_view().forwards(zv, z.graph, after, r),
                        },
                    },
                },
            },
        }
    }
}

impl<A: Forward> Layer for Dense<A> {
    open spec fn wf(&self) -> bool {
        &&& self.weight_view().value.wf()
        &&& self.bias_view() matches Some(b) ==> b.value.wf() && b.id != self.weight_view().id
        &&& self.activation_view().wf()
    }

    open spec fn parameters_view(&self) -> Seq<ParameterView> {
        match self.bias_view() {
            Some(b) => seq![self.weight_view(), b],
            None => seq![self.weight_view()],
        }
    }

    /// The weight and the bias are prepared; nothing else changes.
    open spec fn trains(&self, training: bool, after: Self, r: Result<(), Error>) -> bool {
        &&& r is Ok
        &&& after.weight_view() == self.weight_view().trained(training)
        &&& after.bias_view() == match self.bias_view() {
            Some(b) => Some(b.trained(training)),
            None => None,
        }
        &&& after.activation_view() == self.activation_view()
    }

    /// The weight and the bias are cast; nothing else changes. A precision that is neither
    /// `BF16` nor `F32` is refused with `Unimplemented`, and nothing changes at all.
    open spec fn casts(&self, scalar_type: ScalarType, after: Self, r: Result<(), Error>) -> bool {
        &&& after.activation_view() == self.activation_view()
        &&& if scalar_type.is_trainable() {
            &&& r is Ok
            &&& after.weight_view() == self.weight_view().cast(scalar_type)
            &&& after.bias_view() == match self.bias_view() {
                Some(b) => Some(b.cast(scalar_type)),
                None => None,
            }
        } else {
            &&& r == Err::<(), Error>(Error::Unimplemented)
            &&& after.weight_view() == self.weight_view()
            &&& after.bias_view() == self.bias_view()
        }
    }

    /// The weight and the bias are transferred; nothing else changes.
    open spec fn transfers(&self, device: Device, after: Self, r: Result<(), Error>) -> bool {
        &&& r is Ok
        &&& after.weight_view() == self.weight_view().moved(device)
        &&& after.bias_view() == match self.bias_view() {
            Some(b) => Some(b.moved(device)),
            None => None,
        }
        &&& after.activation_view() == self.activation_view()
    }

    /// The layer is handed back with the weight and the bias moved; nothing else changes.
    open spec fn moves(&self, device: Device, r: Result<Self, Error>) -> bool {
        &&& r matches Ok(after)
        &&& after.weight_view() == self.weight_view().moved(device)
        &&& after.bias_view() == match self.bias_view() {
            Some(b) => Some(b.moved(device)),
            None => None,
        }
        &&& after.activation_view() == self.activation_view()
    }

    /// The views are refused where the storage of the weight or of the bias is shared.
    open spec fn refuses_views(&self, e: Error) -> bool {
        e == Error::Shared
    }

    fn set_training(&mut self, training: bool) -> (r: Result<(), Error>)
        ensures
            r is Ok,
            final(self).activation_view() == old(self).activation_view(),
    {
        self.weight.set_training(training);
        match &mut self.bias {
            Some(b) => {
                b.set_training(training);
            },
            None => {},
        }
        assert(self.parameters_view() =~= with_training(old(self).parameters_view(), training));
        Ok(())
    }

    fn parameters(&self) -> (v: ParameterVec) {
        let mut parameters = ParameterVec::new();
        parameters.push(self.weight.share());
        match &self.bias {
            Some(b) => {
                parameters.push(b.share());
            },
            None => {},
        }
        assert(crate::layer::parameter_vec_items(parameters) =~= self.parameters_view());
        parameters
    }

    fn parameters_mut(&mut self) -> (r: Result<ParameterMutVec<'_>, Error>)
        ensures
            r matches Err(e) ==> e == Error::Shared,
    {
        let mut parameters = ParameterMutVec::new();
        proof {
            let after = *final(self);
            assert(all_wf(after.parameters_view()) && after.activation_view().wf() && (
            after.bias_view() matches Some(b) ==> b.id != after.weight_view().id)
                ==> after.wf()) by {
                if all_wf(after.parameters_view()) {
                    assert(after.parameters_view()[0].value.wf());
                    if after.bias_view() is Some {
                        assert(after.parameters_view()[1].value.wf());
                    }
                }
            }
            assert(after.weight_view() == old(self).weight_view() && after.bias_view() == old(self).bias_view() ==> after.parameters_view() =~= old(self).parameters_view());
        }
        match self.weight.make_view_mut() {
            Ok(weight) => match &mut self.bias {
                Some(b) => match b.make_view_mut() {
                    Ok(bias) => {
                        parameters.push(weight);
                        parameters.push(bias);
                        Ok(parameters)
                    },
                    Err(e) => Err(e),
                },
                None => {
                    parameters.push(weight);
                    Ok(parameters)
                },
            },
            Err(e) => Err(e),
        }
    }

    fn cast_mut(&mut self, scalar_type: ScalarType) -> (r: Result<(), Error>)
        ensures
            r is Ok <==> scalar_type.is_trainable(),
            r matches Err(e) ==> e == Error::Unimplemented && final(self).parameters_view() == old(self).parameters_view(),
            final(self).activation_view() == old(self).activation_view(),
    {
        match self.weight.cast_mut(scalar_type) {
            Ok(_) => {},
            Err(e) => {
                return Err(e);
            },
        }
        match &mut self.bias {
            Some(b) => {
                let cast = b.cast_mut(scalar_type);
                assert(cast is Ok);
            },
            None => {},
        }
        assert(self.parameters_view() =~= with_scalar_type(
            old(self).parameters_view(),
            scalar_type,
        ));
        Ok(())
    }

    fn to_device_mut(&mut self, device: Device) -> (r: Result<(), Error>)
        ensures
            r is Ok,
            final(self).activation_view() == old(self).activation_view(),
    {
        self.weight.to_device_mut(device);
        match &mut self.bias {
            Some(b) => {
                b.to_device_mut(device);
            },
            None => {},
        }
        assert(self.parameters_view() =~= with_device(old(self).parameters_view(), device));
        Ok(())
    }

    fn into_device(self, device: Device) -> (r: Result<Self, Error>)
        ensures
            r matches Ok(layer) && layer.activation_view() == self.activation_view(),
    {
        let Dense { weight, bias, activation } = self;
        let weight = weight.into_device(device);
        let bias = match bias {
            Some(b) => Some(b.into_device(device)),
            None => None,
        };
        let layer = Dense { weight, bias, activation };
        assert(layer.parameters_view() =~= with_device(self.parameters_view(), device));
        Ok(layer)
    }
}

impl<A: Forward> Forward for Dense<A> {
    open spec fn forwards(
        &self,
        input: Variable,
        before: GraphView,
        after: GraphView,
        r: Result<Variable, Error>,
    ) -> bool {
        exists|w: Step, y: Step, b: Step, z: Step| self.chain(input, before, w, y, b, z, after, r)
    }

    fn forward(&self, input: Variable, graph: &mut Graph) -> (r: Result<Variable, Error>) {
        let ghost before = graph@;
        let taken = self.weight.to_variable(graph);
        let ghost w = Step { graph: graph@, result: taken };
        let weight = match taken {
            Ok(weight) => weight,
            Err(e) => {
                assert(self.chain(input, before, w, w, w, w, graph@, Err(e)));
                return Err(e);
            },
        };
        let product = input.dot(&weight, graph);
        let ghost y = Step { graph: graph@, result: product };
        let output = match product {
            Ok(output) => output,
            Err(e) => {
                assert(self.chain(input, before, w, y, y, y, graph@, Err(e)));
                return Err(e);
            },
        };
        match &self.bias {
            None => {
                let r = self.activation.forward(output, graph);
                assert(self.chain(input, before, w, y, y, y, graph@, r));
                r
            },
            Some(bias) => {
                let taken = bias.to_variable(graph);
                let ghost b = Step { graph: graph@, result: taken };
                let bias = match taken {
                    Ok(bias) => bias,
                    Err(e) => {
                        assert(self.chain(input, before, w, y, b, b, graph@, Err(e)));
                        return Err(e);
                    },
                };
                let sum = output.add_rows(&bias, graph);
                let ghost z = Step { graph: graph@, result: sum };
                let output = match sum {
                    Ok(output) => output,
                    Err(e) => {
                        assert(self.chain(input, before, w, y, b, z, graph@, Err(e)));
                        return Err(e);
                    },
                };
                let r = self.activation.forward(output, graph);
                assert(self.chain(input, before, w, y, b, z, graph@, r));
                r
            },
        }
    }
}

/// The steps of `Variable2::dense`: the weight takes part and is transposed, the input is
/// multiplied by it, and the bias, if there is one, takes part and is added to every row.
/// A weight whose scalar type is neither `BF16` nor `F32` is refused with `Unimplemented`
/// before anything is recorded, and a weight that is not a matrix with `Mismatch` once it
/// has taken part. The first step that fails ends the operation with its error, and the
/// graph stays as that step left it.
pub open spec fn dense_chain(
    input: Variable,
    weight: ParameterView,
    bias: Option<ParameterView>,
    before: GraphView,
    w: Step,
    t: Step,
    y: Step,
    b: Step,
    after: GraphView,
    r: Result<Variable, Error>,
) -> bool {
    if !weight.value.kind.scalar_type.is_trainable() {
        r == Err::<Variable, Error>(Error::Unimplemented) && after == before
    } else {
        taken_part(weight, before, w.graph, w.result) && match w.result {
            Err(e) => r == Err::<Variable, Error>(e) && after == w.graph,
            Ok(wv) => if !weight.value.is_matrix() {
                r == Err::<Variable, Error>(Error::Mismatch) && after == w.graph
            } else {
                gathered(
                    wv,
                    transposed(1, weight.value.rows() as int, weight.value.cols() as int),
                    seq![weight.value.cols(), weight.value.rows()],
                    w.graph,
                    t.graph,
                    t.result,
                ) && match t.result {
                    Err(e) => r == Err::<Variable, Error>(e) && after == t.graph,
                    Ok(tv) => dotted(input, tv, t.graph, y.graph, y.result) && match y.result {
                        Err(e) => r == Err::<Variable, Error>(e) && after == y.graph,
                        Ok(yv) => match bias {
                            None => r == Ok::<Variable, Error>(yv) && after == y.graph,
                            Some(bp) => taken_part(bp, y.graph, b.graph, b.result)
                                && match b.result {
                                Err(e) => r == Err::<Variable, Error>(e) && after == b.graph,
                                Ok(bv) => rows_added(yv, bv, b.graph, after, r),
                            },
                        },
                    },
                }
            },
        }
    }
}

/// The view of a parameter behind a reference that may be missing.
pub open spec fn viewed(bias: Option<&Parameter>) -> Option<ParameterView> {
    match bias {
        Some(b) => Some(b@),
        None => None,
    }
}

impl Variable2 {
    /// The linear map `self · weightᵀ + bias` of a batch of rows, where the weight has one
    /// row for each output and one column for each input and the bias one element for each
    /// output.
    pub fn dense(&self, weight: &Parameter, bias: Option<&Parameter>, graph: &mut Graph) -> (r:
        Result<Variable, Error>)
        requires
            self.wf(),
            weight.wf(),
            bias matches Some(b) ==> b.wf(),
            old(graph).wf(),
        ensures
            final(graph).wf(),
            r matches Ok(v) ==> v.wf(),
            exists|w: Step, t: Step, y: Step, b: Step|
                #[trigger] dense_chain(
                    *self,
                    weight@,
                    viewed(bias),
                    old(graph)@,
                    w,
                    t,
                    y,
                    b,
                    final(graph)@,
                    r,
                ),
    {
        let ghost before = graph@;
        let ghost start = Step { graph: before, result: Err(Error::Mismatch) };
        if !weight.value().scalar_type().trainable() {
            assert(dense_chain(
                *self,
                weight@,
                viewed(bias),
                before,
                start,
                start,
                start,
                start,
                graph@,
                Err(Error::Unimplemented),
            ));
            return Err(Error::Unimplemented);
        }
        let taken = weight.to_variable(graph);
        let ghost w = Step { graph: graph@, result: taken };
        let wv = match taken {
            Ok(v) => v,
            Err(e) => {
                assert(dense_chain(*self, weight@, viewed(bias), before, w, w, w, w, graph@, Err(e)));
                return Err(e);
            },
        };
        let ws = wv.value().shape();
        if ws.len() != 2 {
            assert(dense_chain(
                *self,
                weight@,
                viewed(bias),
                before,
                w,
                w,
                w,
                w,
                graph@,
                Err(Error::Mismatch),
            ));
            return Err(Error::Mismatch);
        }
        let rows: usize = ws[0];
        let cols: usize = ws[1];
        let held: usize = wv.value().len();
        proof {
            lemma_matrix_size(ws@);
            assert((1 * rows) * cols == rows * cols) by (nonlinear_arith);
        }
        let index = transpose_index(1, rows, cols).unwrap();
        let mut shape: Vec<usize> = Vec::new();
        shape.push(cols);
        shape.push(rows);
        proof {
            assert(shape@ =~= seq![cols, rows]);
        }
        let turned = wv.gather(index, shape, graph);
        let ghost t = Step { graph: graph@, result: turned };
        let tv = match turned {
            Ok(v) => v,
            Err(e) => {
                assert(dense_chain(*self, weight@, viewed(bias), before, w, t, t, t, graph@, Err(e)));
                return Err(e);
            },
        };
        let multiplied = self.dot(&tv, graph);
        let ghost y = Step { graph: graph@, result: multiplied };
        let yv = match multiplied {
            Ok(v) => v,
            Err(e) => {
                assert(dense_chain(*self, weight@, viewed(bias), before, w, t, y, y, graph@, Err(e)));
                return Err(e);
            },
        };
        match bias {
            None => {
                assert(dense_chain(*self, weight@, viewed(bias), before, w, t, y, y, graph@, Ok(yv)));
                Ok(yv)
            },
            Some(bias_parameter) => {
                let taken = bias_parameter.to_variable(graph);
                let ghost b = Step { graph: graph@, result: taken };
                let bv = match taken {
                    Ok(v) => v,
                    Err(e) => {
                        assert(dense_chain(
                            *self,
                            weight@,
                            viewed(bias),
                            before,
                            w,
                            t,
                            y,
                            b,
                            graph@,
                            Err(e),
                        ));
                        return Err(e);
                    },
                };
                let r = yv.add_rows(&bv, graph);
                assert(dense_chain(*self, weight@, viewed(bias), before, w, t, y, b, graph@, r));
                r
            },
        }
    }
}

} // verus!
