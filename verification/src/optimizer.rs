//! Optimizers: what turns gradients into updates of parameters.
use crate::autograd::parameter::ParameterViewMut;
use crate::error::Error;
use crate::scalar::{sat_mul, scalar_mul};
use crate::tensor::{Tensor, TensorView};
use std::collections::HashMap;
use vstd::prelude::*;

verus! {

broadcast use vstd::std_specs::hash::group_hash_axioms;

/// Every gradient of the map is a well-formed tensor.
pub open spec fn gradients_wf(gradients: Map<u64, Tensor>) -> bool {
    forall|id: u64| #[trigger] gradients.contains_key(id) ==> gradients[id].wf()
}

/// An update rule for parameters.
pub trait Optimizer: Sized {
    /// Whether the optimizer can run as it is configured. It can, unless the optimizer says
    /// otherwise.
    open spec fn ready(&self) -> bool {
        true
    }

    /// What `update` does to the parameter `id` of value `value`: the optimizer afterwards,
    /// the value afterwards and the result. An optimizer that says nothing promises nothing.
    open spec fn updates(
        &self,
        after: Self,
        id: u64,
        value: TensorView,
        gradients: Map<u64, Tensor>,
        updated: TensorView,
        r: Result<(), Error>,
    ) -> bool {
        true
    }

    /// Whether the optimizer can run as it is configured: what a caller tests before it
    /// hands parameters to `update`.
    fn is_ready(&self) -> (r: bool)
        ensures
            r == self.ready(),
    ;

    /// Updates one parameter in place, given the gradients of one backward walk; the
    /// parameter's gradient is found under the parameter's identity. Called once for each
    /// parameter after each walk.
    fn update(&mut self, parameter: ParameterViewMut<'_>, gradients: &HashMap<u64, Tensor>) -> (r:
        Result<(), Error>)
        requires
            old(self).ready(),
            parameter.value.wf(),
            gradients_wf(gradients@),
        ensures
            final(self).ready(),
            final(parameter.value).wf(),
            old(self).updates(
                *final(self),
                parameter.id,
                old(parameter.value)@,
                gradients@,
                final(parameter.value)@,
                r,
            ),
    ;
}

/// Stochastic gradient descent.
#[derive(Debug)]
pub struct Sgd {
    learning_rate: i64,
    momentum: i64,
}

/// The settings of [`Sgd`].
pub struct SgdView {
    pub learning_rate: i64,
    pub momentum: i64,
}

impl View for Sgd {
    type V = SgdView;

    closed spec fn view(&self) -> SgdView {
        SgdView { learning_rate: self.learning_rate, momentum: self.momentum }
    }
}

/// Builder for creating an [`Sgd`].
#[derive(Debug)]
pub struct SgdBuilder {
    learning_rate: i64,
    momentum: i64,
}

impl View for SgdBuilder {
    type V = SgdView;

    closed spec fn view(&self) -> SgdView {
        SgdView { learning_rate: self.learning_rate, momentum: self.momentum }
    }
}

impl Default for SgdBuilder {
    /// A learning rate of one and no momentum.
    fn default() -> (b: SgdBuilder)
        ensures
            b@ == (SgdView { learning_rate: 1, momentum: 0 }),
    {
        SgdBuilder { learning_rate: 1, momentum: 0 }
    }
}

impl SgdBuilder {
    /// Sets the learning rate: the step is the gradient times the learning rate.
    pub fn learning_rate(self, learning_rate: i64) -> (b: SgdBuilder)
        ensures
            b@ == (SgdView { learning_rate, ..self@ }),
    {
        SgdBuilder { learning_rate, ..self }
    }

    /// Sets the momentum.
    pub fn momentum(self, momentum: i64) -> (b: SgdBuilder)
        ensures
            b@ == (SgdView { momentum, ..self@ }),
    {
        SgdBuilder { momentum, ..self }
    }

    /// Builds the optimizer.
    pub fn build(self) -> (sgd: Sgd)
        ensures
            sgd@ == self@,
    {
        Sgd { learning_rate: self.learning_rate, momentum: self.momentum }
    }
}

impl Default for Sgd {
    fn default() -> (sgd: Sgd)
        ensures
            sgd@ == (SgdView { learning_rate: 1, momentum: 0 }),
    {
        Sgd::builder().build()
    }
}

/// One step of gradient descent on one value: `value + alpha * grad`. Refused with
/// `Mismatch`, and nothing changed, exactly where the two kinds differ.
pub fn sgd(value: &mut Tensor, grad: &Tensor, alpha: i64) -> (r: Result<(), Error>)
    requires
        old(value).wf(),
        grad.wf(),
    ensures
        final(value).wf(),
        match r {
            Ok(_) => final(value)@ == old(value)@.scaled_add(alpha, grad@),
            Err(e) => e == Error::Mismatch && final(value)@ == old(value)@,
        },
        r is Ok <==> old(value)@.kind == grad@.kind,
{
    value.scaled_add(alpha, grad)
}

impl Sgd {
    /// Returns a builder for creating an [`Sgd`].
    pub fn builder() -> (b: SgdBuilder)
        ensures
            b@ == (SgdView { learning_rate: 1, momentum: 0 }),
    {
        SgdBuilder::default()
    }

    /// The learning rate.
    pub fn learning_rate(&self) -> (l: i64)
        ensures
            l == self@.learning_rate,
    {
        self.learning_rate
    }

    /// The momentum.
    pub fn momentum(&self) -> (m: i64)
        ensures
            m == self@.momentum,
    {
        self.momentum
    }

    /// What a parameter of value `value` holds after an update with `gradients`: the value
    /// less the learning rate times the parameter's gradient, or the value as it was where
    /// the parameter has no gradient.
    pub open spec fn step(self, id: u64, value: TensorView, gradients: Map<u64, Tensor>) -> TensorView {
        if gradients.contains_key(id) && gradients[id]@.kind == value.kind {
            value.scaled_add(sat_mul(-1i64, self@.learning_rate), gradients[id]@)
        } else {
            value
        }
    }
}

impl Optimizer for Sgd {
    /// Descent with momentum is not implemented: the optimizer can run where the momentum
    /// is zero or less, which counts as none.
    open spec fn ready(&self) -> bool {
        self@.momentum <= 0
    }

    fn is_ready(&self) -> (r: bool) {
        self.momentum <= 0
    }

    /// The optimizer stays as it is and the value takes one step. Refused with `Mismatch`,
    /// and nothing changed, exactly where the parameter has a gradient of another kind than
    /// its value.
    open spec fn updates(
        &self,
        after: Self,
        id: u64,
        value: TensorView,
        gradients: Map<u64, Tensor>,
        updated: TensorView,
        r: Result<(), Error>,
    ) -> bool {
        &&& after@ == self@
        &&& updated == self.step(id, value, gradients)
        &&& r matches Err(e) ==> e == Error::Mismatch
        &&& r is Err <==> gradients.contains_key(id) && gradients[id]@.kind != value.kind
    }

    fn update(&mut self, parameter: ParameterViewMut<'_>, gradients: &HashMap<u64, Tensor>) -> (r:
        Result<(), Error>)
    {
        match gradients.get(&parameter.id) {
            Some(grad) => {
                assert(gradients@.contains_key(parameter.id));
                sgd(parameter.value, grad, scalar_mul(-1, self.learning_rate))
            },
            None => Ok(()),
        }
    }
}

} // verus!
