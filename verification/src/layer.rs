//! Layers: what a network is composed of.
use crate::autograd::grad_fn::GradFn;
use crate::autograd::graph::{Graph, GraphView};
use crate::autograd::ops::{flattened, rectified};
use crate::autograd::parameter::{Parameter, ParameterView, ParameterViewMut};
use crate::autograd::variable::Variable;
use crate::error::Error;
use crate::scalar::{Device, ScalarType};
use crate::shared::{arc_share, arc_unique};
use crate::tensor::Tensor;
use smallvec::SmallVec;
use std::sync::Arc;
use vstd::prelude::*;

pub mod builder;
pub mod conv;
pub mod dense;
pub mod pair;
pub mod pool;
pub mod sequence;

verus! {

/// The parameters of a layer, as handles that share the layer's storage.
///
/// See [`Layer::parameters`].
#[verifier::external_body]
pub struct ParameterVec {
    inner: SmallVec<[Parameter; 2]>,
}

/// What a `ParameterVec` holds: its parameters, first to last, each by its view.
pub uninterp spec fn parameter_vec_items(v: ParameterVec) -> Seq<ParameterView>;

/// `SmallVec::new`: a vector that holds nothing.
#[verifier::external_body]
fn parameter_vec_new() -> (v: ParameterVec)
    ensures
        parameter_vec_items(v) == Seq::<ParameterView>::empty(),
{
    ParameterVec { inner: SmallVec::new() }
}

/// `SmallVec::push`: the vector with `p` behind what it held.
#[verifier::external_body]
fn parameter_vec_push(v: &mut ParameterVec, p: Parameter)
    ensures
        parameter_vec_items(*final(v)) == parameter_vec_items(*old(v)).push(p@),
{
    v.inner.push(p)
}

/// `SmallVec::len`: the number of parameters held.
#[verifier::external_body]
fn parameter_vec_len(v: &ParameterVec) -> (n: usize)
    ensures
        n == parameter_vec_items(*v).len(),
{
    v.inner.len()
}

/// `SmallVec::get`, by way of the slice that the vector dereferences to: the parameter at
/// place `i`, or `None` where the vector holds `i` parameters or fewer.
#[verifier::external_body]
fn parameter_vec_get(v: &ParameterVec, i: usize) -> (p: Option<&Parameter>)
    ensures
        match p {
            Some(p) => i < parameter_vec_items(*v).len() && p@ == parameter_vec_items(*v)[i as int],
            None => i >= parameter_vec_items(*v).len(),
        },
{
    v.inner.get(i)
}

impl ParameterVec {
    /// A vector without parameters.
    pub fn new() -> (v: ParameterVec)
        ensures
            parameter_vec_items(v) == Seq::<ParameterView>::empty(),
    {
        parameter_vec_new()
    }

    /// Adds `p` behind the parameters held.
    pub fn push(&mut self, p: Parameter)
        ensures
            parameter_vec_items(*final(self)) == parameter_vec_items(*old(self)).push(p@),
    {
        parameter_vec_push(self, p)
    }

    /// The number of parameters held.
    pub fn len(&self) -> (n: usize)
        ensures
            n == parameter_vec_items(*self).len(),
    {
        parameter_vec_len(self)
    }

    /// The parameter at place `i`, if there is one.
    pub fn get(&self, i: usize) -> (p: Option<&Parameter>)
        ensures
            match p {
                Some(p) => i < parameter_vec_items(*self).len() && p@ == parameter_vec_items(
                    *self,
                )[i as int],
                None => i >= parameter_vec_items(*self).len(),
            },
    {
        parameter_vec_get(self, i)
    }

    /// Adds handles on the parameters of `other` behind the parameters held.
    pub fn extend(&mut self, other: &ParameterVec)
        ensures
            parameter_vec_items(*final(self)) == parameter_vec_items(*old(self))
                + parameter_vec_items(*other),
    {
        let n: usize = other.len();
        let mut i: usize = 0;
        while i < n
            invariant
                i <= n,
                n == parameter_vec_items(*other).len(),
                parameter_vec_items(*self) == parameter_vec_items(*old(self))
                    + parameter_vec_items(*other).take(i as int),
            decreases n - i,
        {
            match other.get(i) {
                Some(p) => {
                    self.push(p.share());
                    assert(parameter_vec_items(*other).take(i + 1) =~= parameter_vec_items(
                        *other,
                    ).take(i as int).push(parameter_vec_items(*other)[i as int]));
                    assert(parameter_vec_items(*self) =~= parameter_vec_items(*old(self))
                        + parameter_vec_items(*other).take(i + 1));
                },
                None => {},
            }
            i += 1;
        }
        assert(parameter_vec_items(*other).take(n as int) =~= parameter_vec_items(*other));
    }
}

/// The mutable views of the parameters of a layer.
///
/// See [`Layer::parameters_mut`].
#[verifier::external_body]
pub struct ParameterMutVec<'a> {
    inner: SmallVec<[ParameterViewMut<'a>; 2]>,
}

/// What a `ParameterMutVec` holds: its views, first to last.
pub uninterp spec fn parameter_mut_vec_items(v: ParameterMutVec) -> Seq<ParameterViewMut>;

/// `SmallVec::new`: a vector that holds nothing.
#[verifier::external_body]
fn parameter_mut_vec_new<'a>() -> (v: ParameterMutVec<'a>)
    ensures
        parameter_mut_vec_items(v) == Seq::<ParameterViewMut>::empty(),
{
    ParameterMutVec { inner: SmallVec::new() }
}

/// `SmallVec::push`: the vector with `view` behind what it held.
#[verifier::external_body]
fn parameter_mut_vec_push<'a>(v: &mut ParameterMutVec<'a>, view: ParameterViewMut<'a>)
    ensures
        parameter_mut_vec_items(*final(v)) == parameter_mut_vec_items(*old(v)).push(view),
{
    v.inner.push(view)
}

/// `SmallVec::append`: the views of `other` are moved behind what the vector held, in their
/// order, and `other` is left empty.
#[verifier::external_body]
fn parameter_mut_vec_append<'a>(v: &mut ParameterMutVec<'a>, other: &mut ParameterMutVec<'a>)
    ensures
        parameter_mut_vec_items(*final(v)) == parameter_mut_vec_items(*old(v))
            + parameter_mut_vec_items(*old(other)),
        parameter_mut_vec_items(*final(other)) == Seq::<ParameterViewMut>::empty(),
{
    v.inner.append(&mut other.inner)
}

/// `SmallVec::len`: the number of views held.
#[verifier::external_body]
fn parameter_mut_vec_len(v: &ParameterMutVec) -> (n: usize)
    ensures
        n == parameter_mut_vec_items(*v).len(),
{
    v.inner.len()
}

/// `SmallVec::into_vec`: the views held, first to last, as a `Vec`.
#[verifier::external_body]
fn parameter_mut_vec_into_vec<'a>(v: ParameterMutVec<'a>) -> (views: Vec<ParameterViewMut<'a>>)
    ensures
        views@ == parameter_mut_vec_items(v),
{
    v.inner.into_vec()
}

impl<'a> View for ParameterMutVec<'a> {
    type V = Seq<ParameterViewMut<'a>>;

    open spec fn view(&self) -> Seq<ParameterViewMut<'a>> {
        parameter_mut_vec_items(*self)
    }
}

impl<'a> ParameterMutVec<'a> {
    /// A vector without views.
    pub fn new() -> (v: ParameterMutVec<'a>)
        ensures
            parameter_mut_vec_items(v) == Seq::<ParameterViewMut>::empty(),
    {
        parameter_mut_vec_new()
    }

    /// Adds `view` behind the views held.
    pub fn push(&mut self, view: ParameterViewMut<'a>)
        ensures
            parameter_mut_vec_items(*final(self)) == parameter_mut_vec_items(*old(self)).push(
                view,
            ),
    {
        parameter_mut_vec_push(self, view)
    }

    /// Moves the views of `other` behind the views held.
    pub fn append(&mut self, other: &mut ParameterMutVec<'a>)
        ensures
            parameter_mut_vec_items(*final(self)) == parameter_mut_vec_items(*old(self))
                + parameter_mut_vec_items(*old(other)),
            parameter_mut_vec_items(*final(other)) == Seq::<ParameterViewMut>::empty(),
    {
        parameter_mut_vec_append(self, other)
    }

    /// The number of views held.
    pub fn len(&self) -> (n: usize)
        ensures
            n == parameter_mut_vec_items(*self).len(),
    {
        parameter_mut_vec_len(self)
    }

    /// The views held, first to last.
    pub fn into_vec(self) -> (views: Vec<ParameterViewMut<'a>>)
        ensures
            views@ == parameter_mut_vec_items(self),
    {
        parameter_mut_vec_into_vec(self)
    }
}

/// Every parameter's value is a well-formed tensor.
pub open spec fn all_wf(ps: Seq<ParameterView>) -> bool {
    forall|i: int| 0 <= i < ps.len() ==> (#[trigger] ps[i]).value.wf()
}

/// The parameters prepared for training or inference.
pub open spec fn with_training(ps: Seq<ParameterView>, training: bool) -> Seq<ParameterView> {
    Seq::new(ps.len(), |i: int| ps[i].trained(training))
}

/// The parameters declared with another precision.
pub open spec fn with_scalar_type(ps: Seq<ParameterView>, scalar_type: ScalarType) -> Seq<
    ParameterView,
> {
    Seq::new(ps.len(), |i: int| ps[i].cast(scalar_type))
}

/// The parameters at another location.
pub open spec fn with_device(ps: Seq<ParameterView>, device: Device) -> Seq<ParameterView> {
    Seq::new(ps.len(), |i: int| ps[i].moved(device))
}

/// The identities of the parameters, in order.
pub open spec fn identities(ps: Seq<ParameterView>) -> Seq<u64> {
    Seq::new(ps.len(), |i: int| ps[i].id)
}

/// No two of the parameters share an identity.
pub open spec fn distinct(ps: Seq<ParameterView>) -> bool {
    forall|i: int, j: int| 0 <= i < j < ps.len() ==> (#[trigger] ps[i]).id != (#[trigger] ps[j]).id
}

/// Parameters that keep their identities stay distinct.
pub proof fn lemma_distinct_kept(before: Seq<ParameterView>, after: Seq<ParameterView>)
    requires
        distinct(before),
        identities(after) == identities(before),
    ensures
        distinct(after),
{
    assert(after.len() == identities(after).len());
    assert(before.len() == identities(before).len());
    assert forall|i: int, j: int| 0 <= i < j < after.len() implies (#[trigger] after[i]).id != (
    #[trigger] after[j]).id by {
        assert(identities(after)[i] == after[i].id);
        assert(identities(after)[j] == after[j].id);
        assert(identities(before)[i] == before[i].id);
        assert(identities(before)[j] == before[j].id);
    }
}

/// Two groups of parameters that keep their identities keep them together, and stay
/// distinct together.
pub proof fn lemma_groups_kept(
    a0: Seq<ParameterView>,
    b0: Seq<ParameterView>,
    a1: Seq<ParameterView>,
    b1: Seq<ParameterView>,
)
    requires
        identities(a1) == identities(a0),
        identities(b1) == identities(b0),
    ensures
        identities(a1 + b1) == identities(a0 + b0),
        distinct(a0 + b0) ==> distinct(a1 + b1),
{
    assert(a1.len() == identities(a1).len() && a0.len() == identities(a0).len());
    assert(b1.len() == identities(b1).len() && b0.len() == identities(b0).len());
    assert(identities(a1 + b1) =~= identities(a1) + identities(b1));
    assert(identities(a0 + b0) =~= identities(a0) + identities(b0));
    if distinct(a0 + b0) {
        lemma_distinct_kept(a0 + b0, a1 + b1);
    }
}

/// The views are those of the parameters `ps`, in order: each starts at its parameter's
/// value.
pub open spec fn views_of(ps: Seq<ParameterView>, views: Seq<ParameterViewMut>) -> bool {
    &&& views.len() == ps.len()
    &&& forall|i: int|
        0 <= i < ps.len() ==> (#[trigger] views[i]).id == ps[i].id && views[i].value@
            == ps[i].value
}

/// A part of a network: it may hold parameters, and it can be prepared for training, cast
/// and moved. Whatever a method does, the parameters keep their identities.
///
/// What a method does where it fails is what the layer says of it: see `trains`, `casts`,
/// `transfers`, `moves` and `refuses_views`.
pub trait Layer: Sized {
    /// The layer's parameters hold well-formed tensors. A layer without parameters need not
    /// say anything.
    open spec fn wf(&self) -> bool {
        true
    }

    /// The layer's parameters, in the order in which `parameters` gives them. None, unless
    /// the layer says otherwise.
    open spec fn parameters_view(&self) -> Seq<ParameterView> {
        Seq::empty()
    }

    /// What `set_training` does to the layer: the layer afterwards and the result. A layer
    /// that says nothing promises no more than `set_training` promises of every layer.
    open spec fn trains(&self, training: bool, after: Self, r: Result<(), Error>) -> bool {
        true
    }

    /// What `cast_mut` does to the layer: the layer afterwards and the result. A layer that
    /// says nothing promises no more than `cast_mut` promises of every layer.
    open spec fn casts(&self, scalar_type: ScalarType, after: Self, r: Result<(), Error>) -> bool {
        true
    }

    /// What `to_device_mut` does to the layer: the layer afterwards and the result. A layer
    /// that says nothing promises no more than `to_device_mut` promises of every layer.
    open spec fn transfers(&self, device: Device, after: Self, r: Result<(), Error>) -> bool {
        true
    }

    /// What `into_device` gives. A layer that says nothing promises no more than
    /// `into_device` promises of every layer.
    open spec fn moves(&self, device: Device, r: Result<Self, Error>) -> bool {
        true
    }

    /// Whether `parameters_mut` may refuse the views of the layer with the error `e`. A
    /// layer that says nothing may refuse with any error.
    open spec fn refuses_views(&self, e: Error) -> bool {
        true
    }

    /// Prepares for training or inference: every parameter of the layer is set to
    /// `training`.
    fn set_training(&mut self, training: bool) -> (r: Result<(), Error>)
        requires
            old(self).wf(),
        ensures
            final(self).wf(),
            r is Ok ==> final(self).parameters_view() == with_training(
                old(self).parameters_view(),
                training,
            ),
            identities(final(self).parameters_view()) == identities(old(self).parameters_view()),
            old(self).trains(training, *final(self), r),
    ;

    /// Handles on the parameters of the layer.
    fn parameters(&self) -> (v: ParameterVec)
        requires
            self.wf(),
        ensures
            parameter_vec_items(v) == self.parameters_view(),
    ;

    /// Mutable views of the parameters of the layer, for an optimizer to update them
    /// through. What the views are left with is what the parameters hold afterwards.
    fn parameters_mut(&mut self) -> (r: Result<ParameterMutVec<'_>, Error>)
        requires
            old(self).wf(),
        ensures
            match r {
                Ok(views) => {
                    let views = parameter_mut_vec_items(views);
                    &&& views_of(old(self).parameters_view(), views)
                    &&& forall|i: int| 0 <= i < views.len() ==> (#[trigger] views[i]).value.wf()
                    &&& final(self).parameters_view().len() == views.len()
                    &&& forall|i: int|
                        0 <= i < views.len() ==> #[trigger] final(self).parameters_view()[i]
                            == (ParameterView {
                            value: final(views[i].value)@,
                            ..old(self).parameters_view()[i]
                        })
                    &&& all_wf(final(self).parameters_view()) ==> final(self).wf()
                },
                Err(e) => final(self).wf() && final(self).parameters_view() == old(self).parameters_view()
                    && old(self).refuses_views(e),
            },
    ;

    /// Casts the layer to `scalar_type` in place.
    fn cast_mut(&mut self, scalar_type: ScalarType) -> (r: Result<(), Error>)
        requires
            old(self).wf(),
        ensures
            final(self).wf(),
            r is Ok ==> final(self).parameters_view() == with_scalar_type(
                old(self).parameters_view(),
                scalar_type,
            ),
            identities(final(self).parameters_view()) == identities(old(self).parameters_view()),
            old(self).casts(scalar_type, *final(self), r),
    ;

    /// Transfers the layer to `device` in place.
    fn to_device_mut(&mut self, device: Device) -> (r: Result<(), Error>)
        requires
            old(self).wf(),
        ensures
            final(self).wf(),
            r is Ok ==> final(self).parameters_view() == with_device(
                old(self).parameters_view(),
                device,
            ),
            identities(final(self).parameters_view()) == identities(old(self).parameters_view()),
            old(self).transfers(device, *final(self), r),
    ;

    /// Moves the layer into `device`.
    fn into_device(self, device: Device) -> (r: Result<Self, Error>)
        requires
            self.wf(),
        ensures
            r matches Ok(layer) ==> layer.wf() && layer.parameters_view() == with_device(
                self.parameters_view(),
                device,
            ),
            self.moves(device, r),
    ;
}

/// A layer that can be run.
pub trait Forward: Layer {
    /// What `forward` does to `input` and to the graph: the result, and the graph
    /// afterwards. A layer that says nothing promises nothing.
    open spec fn forwards(
        &self,
        input: Variable,
        before: GraphView,
        after: GraphView,
        r: Result<Variable, Error>,
    ) -> bool {
        true
    }

    /// Executes the forward pass given `input`, recording it in `graph`.
    fn forward(&self, input: Variable, graph: &mut Graph) -> (r: Result<Variable, Error>)
        requires
            self.wf(),
            input.wf(),
            old(graph).wf(),
        ensures
            final(graph).wf(),
            r matches Ok(v) ==> v.wf(),
            self.forwards(input, old(graph)@, final(graph)@, r),
    ;
}

/// A layer that may be absent: an absent layer has no parameters and passes its input on.
impl<T: Layer> Layer for Option<T> {
    open spec fn wf(&self) -> bool {
        match self {
            Some(layer) => layer.wf(),
            None => true,
        }
    }

    open spec fn parameters_view(&self) -> Seq<ParameterView> {
        match self {
            Some(layer) => layer.parameters_view(),
            None => Seq::empty(),
        }
    }

    /// A layer that is there is prepared as it says; a layer that is absent stays absent.
    open spec fn trains(&self, training: bool, after: Self, r: Result<(), Error>) -> bool {
        match self {
            Some(layer) => after matches Some(prepared) && layer.trains(training, prepared, r),
            None => after is None && r is Ok,
        }
    }

    /// A layer that is there is cast as it says; a layer that is absent stays absent.
    open spec fn casts(&self, scalar_type: ScalarType, after: Self, r: Result<(), Error>) -> bool {
        match self {
            Some(layer) => after matches Some(cast) && layer.casts(scalar_type, cast, r),
            None => after is None && r is Ok,
        }
    }

    /// A layer that is there is transferred as it says; a layer that is absent stays
    /// absent.
    open spec fn transfers(&self, device: Device, after: Self, r: Result<(), Error>) -> bool {
        match self {
            Some(layer) => after matches Some(moved) && layer.transfers(device, moved, r),
            None => after is None && r is Ok,
        }
    }

    /// A layer that is there is moved as it says; a layer that is absent stays absent.
    open spec fn moves(&self, device: Device, r: Result<Self, Error>) -> bool {
        match self {
            Some(layer) => exists|moved: Result<T, Error>|
                #[trigger] layer.moves(device, moved) && match moved {
                    Ok(l) => r == Ok::<Self, Error>(Some(l)),
                    Err(e) => r == Err::<Self, Error>(e),
                },
            None => r == Ok::<Self, Error>(None),
        }
    }

    /// A layer that is there refuses its views as it says; a layer that is absent has none
    /// to refuse.
    open spec fn refuses_views(&self, e: Error) -> bool {
        match self {
            Some(layer) => layer.refuses_views(e),
            None => false,
        }
    }

    fn set_training(&mut self, training: bool) -> (r: Result<(), Error>)
        ensures
            *old(self) is None ==> r is Ok,
            *final(self) is Some <==> *old(self) is Some,
    {
        match self {
            Some(layer) => layer.set_training(training),
            None => {
                assert(with_training(Seq::<ParameterView>::empty(), training) =~= Seq::<
                    ParameterView,
                >::empty());
                Ok(())
            },
        }
    }

    fn parameters(&self) -> (v: ParameterVec) {
        match self {
            Some(layer) => layer.parameters(),
            None => ParameterVec::new(),
        }
    }

    fn parameters_mut(&mut self) -> (r: Result<ParameterMutVec<'_>, Error>)
        ensures
            *old(self) is None ==> r is Ok,
    {
        match self {
            Some(layer) => layer.parameters_mut(),
            None => Ok(ParameterMutVec::new()),
        }
    }

    fn cast_mut(&mut self, scalar_type: ScalarType) -> (r: Result<(), Error>)
        ensures
            *old(self) is None ==> r is Ok,
            *final(self) is Some <==> *old(self) is Some,
    {
        match self {
            Some(layer) => layer.cast_mut(scalar_type),
            None => {
                assert(with_scalar_type(Seq::<ParameterView>::empty(), scalar_type) =~= Seq::<
                    ParameterView,
                >::empty());
                Ok(())
            },
        }
    }

    fn to_device_mut(&mut self, device: Device) -> (r: Result<(), Error>)
        ensures
            *old(self) is None ==> r is Ok,
            *final(self) is Some <==> *old(self) is Some,
    {
        match self {
            Some(layer) => layer.to_device_mut(device),
            None => {
                assert(with_device(Seq::<ParameterView>::empty(), device) =~= Seq::<
                    ParameterView,
                >::empty());
                Ok(())
            },
        }
    }

    fn into_device(self, device: Device) -> (r: Result<Self, Error>)
        ensures
            self is None ==> r == Ok::<Self, Error>(None),
            r matches Ok(layer) ==> (layer is Some <==> self is Some),
    {
        match self {
            Some(layer) => match layer.into_device(device) {
                Ok(layer) => Ok(Some(layer)),
                Err(e) => Err(e),
            },
            None => {
                assert(with_device(Seq::<ParameterView>::empty(), device) =~= Seq::<
                    ParameterView,
                >::empty());
                Ok(None)
            },
        }
    }
}

impl<T: Forward> Forward for Option<T> {
    open spec fn forwards(
        &self,
        input: Variable,
        before: GraphView,
        after: GraphView,
        r: Result<Variable, Error>,
    ) -> bool {
        match self {
            Some(layer) => layer.forwards(input, before, after, r),
            None => r == Ok::<Variable, Error>(input) && after == before,
        }
    }

    fn forward(&self, input: Variable, graph: &mut Graph) -> (r: Result<Variable, Error>) {
        match self {
            Some(layer) => layer.forward(input, graph),
            None => Ok(input),
        }
    }
}

/// Flatten.
///
/// See [`Variable::flatten`].
#[derive(Default, Clone, Copy, Debug)]
pub struct Flatten;

/// Identity.
#[derive(Default, Clone, Copy, Debug)]
pub struct Identity;

/// ReLU.
///
/// Implemented for `BF16` and `F32`.
#[derive(Default, Clone, Copy, Debug)]
pub struct Relu;

impl Layer for Flatten {
    open spec fn wf(&self) -> bool {
        true
    }

    open spec fn parameters_view(&self) -> Seq<ParameterView> {
        Seq::empty()
    }

    open spec fn trains(&self, training: bool, after: Self, r: Result<(), Error>) -> bool {
        r is Ok
    }

    open spec fn casts(&self, scalar_type: ScalarType, after: Self, r: Result<(), Error>) -> bool {
        r is Ok
    }

    open spec fn transfers(&self, device: Device, after: Self, r: Result<(), Error>) -> bool {
        r is Ok
    }

    open spec fn moves(&self, device: Device, r: Result<Self, Error>) -> bool {
        r is Ok
    }

    open spec fn refuses_views(&self, e: Error) -> bool {
        false
    }

    fn set_training(&mut self, training: bool) -> (r: Result<(), Error>)
        ensures
            r is Ok,
    {
        assert(with_training(self.parameters_view(), training) =~= self.parameters_view());
        Ok(())
    }

    fn parameters(&self) -> (v: ParameterVec) {
        ParameterVec::new()
    }

    fn parameters_mut(&mut self) -> (r: Result<ParameterMutVec<'_>, Error>)
        ensures
            r is Ok,
    {
        Ok(ParameterMutVec::new())
    }

    fn cast_mut(&mut self, scalar_type: ScalarType) -> (r: Result<(), Error>)
        ensures
            r is Ok,
    {
        assert(with_scalar_type(self.parameters_view(), scalar_type) =~= self.parameters_view());
        Ok(())
    }

    fn to_device_mut(&mut self, device: Device) -> (r: Result<(), Error>)
        ensures
            r is Ok,
    {
        assert(with_device(self.parameters_view(), device) =~= self.parameters_view());
        Ok(())
    }

    fn into_device(self, device: Device) -> (r: Result<Self, Error>)
        ensures
            r is Ok,
    {
        assert(with_device(self.parameters_view(), device) =~= self.parameters_view());
        Ok(self)
    }
}

impl Forward for Flatten {
    open spec fn forwards(
        &self,
        input: Variable,
        before: GraphView,
        after: GraphView,
        r: Result<Variable, Error>,
    ) -> bool {
        flattened(input, before, after, r)
    }

    fn forward(&self, input: Variable, graph: &mut Graph) -> (r: Result<Variable, Error>) {
        input.flatten(graph)
    }
}

impl Layer for Identity {
    open spec fn wf(&self) -> bool {
        true
    }

    open spec fn parameters_view(&self) -> Seq<ParameterView> {
        Seq::empty()
    }

    open spec fn trains(&self, training: bool, after: Self, r: Result<(), Error>) -> bool {
        r is Ok
    }

    open spec fn casts(&self, scalar_type: ScalarType, after: Self, r: Result<(), Error>) -> bool {
        r is Ok
    }

    open spec fn transfers(&self, device: Device, after: Self, r: Result<(), Error>) -> bool {
        r is Ok
    }

    open spec fn moves(&self, device: Device, r: Result<Self, Error>) -> bool {
        r is Ok
    }

    open spec fn refuses_views(&self, e: Error) -> bool {
        false
    }

    fn set_training(&mut self, training: bool) -> (r: Result<(), Error>)
        ensures
            r is Ok,
    {
        assert(with_training(self.parameters_view(), training) =~= self.parameters_view());
        Ok(())
    }

    fn parameters(&self) -> (v: ParameterVec) {
        ParameterVec::new()
    }

    fn parameters_mut(&mut self) -> (r: Result<ParameterMutVec<'_>, Error>)
        ensures
            r is Ok,
    {
        Ok(ParameterMutVec::new())
    }

    fn cast_mut(&mut self, scalar_type: ScalarType) -> (r: Result<(), Error>)
        ensures
            r is Ok,
    {
        assert(with_scalar_type(self.parameters_view(), scalar_type) =~= self.parameters_view());
        Ok(())
    }

    fn to_device_mut(&mut self, device: Device) -> (r: Result<(), Error>)
        ensures
            r is Ok,
    {
        assert(with_device(self.parameters_view(), device) =~= self.parameters_view());
        Ok(())
    }

    fn into_device(self, device: Device) -> (r: Result<Self, Error>)
        ensures
            r is Ok,
    {
        assert(with_device(self.parameters_view(), device) =~= self.parameters_view());
        Ok(self)
    }
}

impl Forward for Identity {
    open spec fn forwards(
        &self,
        input: Variable,
        before: GraphView,
        after: GraphView,
        r: Result<Variable, Error>,
    ) -> bool {
        r == Ok::<Variable, Error>(input) && after == before
    }

    fn forward(&self, input: Variable, graph: &mut Graph) -> (r: Result<Variable, Error>) {
        Ok(input)
    }
}

impl Layer for Relu {
    open spec fn wf(&self) -> bool {
        true
    }

    open spec fn parameters_view(&self) -> Seq<ParameterView> {
        Seq::empty()
    }

    open spec fn trains(&self, training: bool, after: Self, r: Result<(), Error>) -> bool {
        r is Ok
    }

    open spec fn casts(&self, scalar_type: ScalarType, after: Self, r: Result<(), Error>) -> bool {
        r is Ok
    }

    open spec fn transfers(&self, device: Device, after: Self, r: Result<(), Error>) -> bool {
        r is Ok
    }

    open spec fn moves(&self, device: Device, r: Result<Self, Error>) -> bool {
        r is Ok
    }

    open spec fn refuses_views(&self, e: Error) -> bool {
        false
    }

    fn set_training(&mut self, training: bool) -> (r: Result<(), Error>)
        ensures
            r is Ok,
    {
        assert(with_training(self.parameters_view(), training) =~= self.parameters_view());
        Ok(())
    }

    fn parameters(&self) -> (v: ParameterVec) {
        ParameterVec::new()
    }

    fn parameters_mut(&mut self) -> (r: Result<ParameterMutVec<'_>, Error>)
        ensures
            r is Ok,
    {
        Ok(ParameterMutVec::new())
    }

    fn cast_mut(&mut self, scalar_type: ScalarType) -> (r: Result<(), Error>)
        ensures
            r is Ok,
    {
        assert(with_scalar_type(self.parameters_view(), scalar_type) =~= self.parameters_view());
        Ok(())
    }

    fn to_device_mut(&mut self, device: Device) -> (r: Result<(), Error>)
        ensures
            r is Ok,
    {
        assert(with_device(self.parameters_view(), device) =~= self.parameters_view());
        Ok(())
    }

    fn into_device(self, device: Device) -> (r: Result<Self, Error>)
        ensures
            r is Ok,
    {
        assert(with_device(self.parameters_view(), device) =~= self.parameters_view());
        Ok(self)
    }
}

impl Forward for Relu {
    open spec fn forwards(
        &self,
        input: Variable,
        before: GraphView,
        after: GraphView,
        r: Result<Variable, Error>,
    ) -> bool {
        rectified(input, before, after, r)
    }

    fn forward(&self, input: Variable, graph: &mut Graph) -> (r: Result<Variable, Error>) {
        let mut builder = Variable::builder();
        builder.edge_of(&input, GradFn::Relu(arc_share(&input.value)));
        match scalar_relu(input.into_value()) {
            Ok(value) => builder.build_shared(graph, value),
            Err(e) => Err(e),
        }
    }
}

/// The rectifier applied to every element of `input`: in place where nothing else shares
/// the storage of `input`, in new storage where something does. Refused with
/// `Unimplemented` exactly where the scalar type is neither `BF16` nor `F32`.
pub fn scalar_relu(input: Arc<Tensor>) -> (r: Result<Arc<Tensor>, Error>)
    requires
        input@.wf(),
    ensures
        match r {
            Ok(t) => t@.wf() && t@ == input@.relu(),
            Err(e) => e == Error::Unimplemented,
        },
        r is Ok <==> input@.kind.scalar_type.is_trainable(),
{
    let mut input = input;
    if !input.scalar_type().trainable() {
        return Err(Error::Unimplemented);
    }
    match arc_unique(&mut input) {
        Some(unique) => {
            let rectified = unique.relu_mut();
            assert(rectified is Ok);
        },
        None => {
            return match input.relu() {
                Ok(t) => Ok(Arc::new(t)),
                Err(e) => Err(e),
            };
        },
    }
    Ok(input)
}

/// The rectifier's gradient at `input` for the upstream gradient `output_grad`: in place
/// where nothing else shares the storage of `output_grad`, in new storage where something
/// does. Refused with `Mismatch` exactly where the two kinds differ.
pub fn scalar_relu_backward(input: &Tensor, output_grad: Arc<Tensor>) -> (r: Result<
    Arc<Tensor>,
    Error,
>)
    requires
        input.wf(),
        output_grad@.wf(),
    ensures
        match r {
            Ok(t) => t@.wf() && t@ == input@.relu_backward(output_grad@),
            Err(e) => e == Error::Mismatch,
        },
        r is Ok <==> input@.kind == output_grad@.kind,
{
    let mut output_grad = output_grad;
    if !input.kind().same(output_grad.kind()) {
        return Err(Error::Mismatch);
    }
    match arc_unique(&mut output_grad) {
        Some(unique) => {
            let turned = input.relu_backward_mut(unique);
            assert(turned is Ok);
        },
        None => {
            return match input.relu_backward(&output_grad) {
                Ok(t) => Ok(Arc::new(t)),
                Err(e) => Err(e),
            };
        },
    }
    Ok(output_grad)
}

impl Relu {
    /// The gradient of the rectifier at `input` for the upstream gradient `output_grad`:
    /// `output_grad` where `input` is positive, zero where it is zero or negative. Refused
    /// with `Mismatch` exactly where the two kinds differ.
    pub fn backward(&self, input: &Tensor, output_grad: Arc<Tensor>) -> (r: Result<
        Arc<Tensor>,
        Error,
    >)
        requires
            input.wf(),
            output_grad@.wf(),
        ensures
            match r {
                Ok(t) => t@.wf() && t@ == input@.relu_backward(output_grad@),
                Err(e) => e == Error::Mismatch,
            },
            r is Ok <==> input@.kind == output_grad@.kind,
    {
        scalar_relu_backward(input, output_grad)
    }
}

} // verus!
