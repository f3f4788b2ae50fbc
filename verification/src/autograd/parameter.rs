//! Trainable parameters and the mutable views that an optimizer updates them through.
use crate::autograd::graph::{Graph, GraphView, Node, NodeId};
use crate::autograd::variable::Variable;
use crate::error::Error;
use crate::scalar::{Device, ScalarType};
use crate::shared::{arc_share, arc_unique};
use crate::tensor::{Tensor, TensorView};
use std::sync::Arc;
use vstd::prelude::*;

verus! {

/// The mathematical content of a parameter.
pub struct ParameterView {
    pub id: u64,
    pub value: TensorView,
    pub training: bool,
}

impl ParameterView {
    /// The parameter prepared for training or inference.
    pub open spec fn trained(self, training: bool) -> ParameterView {
        ParameterView { training, ..self }
    }

    /// The parameter declared with another precision.
    pub open spec fn cast(self, scalar_type: ScalarType) -> ParameterView {
        ParameterView { value: self.value.cast(scalar_type), ..self }
    }

    /// The parameter at another location.
    pub open spec fn moved(self, device: Device) -> ParameterView {
        ParameterView { value: self.value.moved(device), ..self }
    }
}

/// A trainable value with an identity that its gradient is found under.
///
/// Two parameters of one model must not share an identity: their gradients would be summed
/// into one entry.
#[derive(Debug)]
pub struct Parameter {
    id: u64,
    value: Arc<Tensor>,
    training: bool,
}

impl View for Parameter {
    type V = ParameterView;

    closed spec fn view(&self) -> ParameterView {
        ParameterView { id: self.id, value: self.value@, training: self.training }
    }
}

/// Exclusive access to the storage of a parameter, for an update in place.
pub struct ParameterViewMut<'a> {
    pub id: u64,
    pub value: &'a mut Tensor,
}

/// Whether `g` holds a node for the parameter `id` that recorded another kind of value.
pub open spec fn recorded_otherwise(p: ParameterView, g: GraphView) -> bool {
    exists|i: int|
        0 <= i < g.nodes.len() && (#[trigger] g.nodes[i]).parameter == Some(p.id)
            && g.nodes[i].kind@ != p.value.kind
}

/// Why the parameter cannot take part in the forward pass that `g` records, if it cannot.
pub open spec fn to_variable_error(p: ParameterView, g: GraphView) -> Option<Error> {
    if !p.training {
        None
    } else if g.consumed {
        Some(Error::Consumed)
    } else if recorded_otherwise(p, g) {
        Some(Error::Mismatch)
    } else {
        None
    }
}

/// `after` is `before` with one more node, which stands for the parameter `p` and has no
/// edges.
pub open spec fn gained_parameter(before: GraphView, after: GraphView, p: ParameterView) -> bool {
    let node = after.nodes.last();
    &&& after.scope == before.scope
    &&& after.consumed == before.consumed
    &&& after.nodes.len() == before.nodes.len() + 1
    &&& after.nodes.drop_last() == before.nodes
    &&& node.kind@ == p.value.kind
    &&& node.parameter == Some(p.id)
    &&& node.edges@.len() == 0
}

/// What `Parameter::to_variable` does. Outside training the result is untracked and the graph
/// stays as it was. In training the result points at the one node that stands for the
/// parameter: the node recorded before, or a new one where there was none.
pub open spec fn taken_part(
    p: ParameterView,
    before: GraphView,
    after: GraphView,
    r: Result<Variable, Error>,
) -> bool {
    match to_variable_error(p, before) {
        Some(e) => r == Err::<Variable, Error>(e) && after == before,
        None => r matches Ok(v) && v.value@ == p.value && if !p.training {
            v.node is None && after == before
        } else if before.has_parameter(p.id) {
            &&& after == before
            &&& v.node matches Some(id)
            &&& before.contains(id)
            &&& before.nodes[id.index as int].parameter == Some(p.id)
        } else {
            &&& v.node == Some(NodeId { scope: before.scope, index: before.nodes.len() as usize })
            &&& gained_parameter(before, after, p)
        },
    }
}

impl<'a> ParameterViewMut<'a> {
    /// The view of the parameter `id` over what a request for exclusive access gave:
    /// `Shared` where it gave nothing.
    pub fn from_unique(id: u64, unique: Option<&'a mut Tensor>) -> (r: Result<
        ParameterViewMut<'a>,
        Error,
    >)
        ensures
            match r {
                Ok(view) => unique matches Some(t) && view.id == id && *view.value == *t && *final(view.value)
                    == *final(t),
                Err(e) => unique is None && e == Error::Shared,
            },
    {
        match unique {
            Some(value) => Ok(ParameterViewMut { id, value }),
            None => Err(Error::Shared),
        }
    }

    /// The identity of the parameter viewed.
    pub fn id(&self) -> (id: u64)
        ensures
            id == self.id,
    {
        self.id
    }
}

impl Parameter {
    pub open spec fn wf(&self) -> bool {
        self@.value.wf()
    }

    /// A parameter with the given identity and value, outside training.
    pub fn new(id: u64, value: Tensor) -> (p: Parameter)
        ensures
            p@ == (ParameterView { id, value: value@, training: false }),
    {
        Parameter { id, value: Arc::new(value), training: false }
    }

    /// The identity that the parameter's gradient is found under.
    pub fn id(&self) -> (id: u64)
        ensures
            id == self@.id,
    {
        self.id
    }

    /// The current value.
    pub fn value(&self) -> (t: &Tensor)
        ensures
            t@ == self@.value,
    {
        &self.value
    }

    /// Whether the parameter records its uses.
    pub fn is_training(&self) -> (t: bool)
        ensures
            t == self@.training,
    {
        self.training
    }

    /// Prepares for training or inference.
    pub fn set_training(&mut self, training: bool)
        ensures
            final(self)@ == old(self)@.trained(training),
    {
        self.training = training;
    }

    /// Another handle on the same parameter, sharing its storage.
    pub fn share(&self) -> (p: Parameter)
        ensures
            p@ == self@,
    {
        Parameter { id: self.id, value: arc_share(&self.value), training: self.training }
    }

    /// A variable that shares the parameter's value. In training it points at the node that
    /// stands for this parameter in `graph`, so that every use of the parameter in one
    /// forward pass sends its gradient to the same place.
    pub fn to_variable(&self, graph: &mut Graph) -> (r: Result<Variable, Error>)
        requires
            self.wf(),
            old(graph).wf(),
        ensures
            final(graph).wf(),
            r matches Ok(v) ==> v.wf(),
            taken_part(self@, old(graph)@, final(graph)@, r),
    {
        let ghost before = graph@;
        if !self.training {
            return Ok(Variable { value: arc_share(&self.value), node: None });
        }
        if graph.is_consumed() {
            return Err(Error::Consumed);
        }
        match graph.find_parameter(self.id) {
            Some(index) => {
                if graph.kind_of(index).same(self.value.kind()) {
                    proof {
                        assert forall|i: int|
                            0 <= i < before.nodes.len() && (#[trigger] before.nodes[i]).parameter
                                == Some(self.id) implies i == index by {
                            if i < index {
                                assert(before.nodes[i].parameter != before.nodes[index as int].parameter);
                            } else if i > index {
                                assert(before.nodes[index as int].parameter != before.nodes[i].parameter);
                            }
                        }
                    }
                    Ok(
                        Variable {
                            value: arc_share(&self.value),
                            node: Some(NodeId { scope: graph.scope(), index }),
                        },
                    )
                } else {
                    Err(Error::Mismatch)
                }
            },
            None => {
                let node = Node {
                    kind: self.value.kind().copy(),
                    edges: Vec::new(),
                    parameter: Some(self.id),
                };
                let scope: u64 = graph.scope();
                let index: usize = graph.push(node);
                proof {
                    assert(graph@.nodes.drop_last() =~= before.nodes);
                }
                Ok(Variable { value: arc_share(&self.value), node: Some(NodeId { scope, index }) })
            },
        }
    }

    /// Exclusive access to the parameter's storage. Refused with `Shared`, and nothing
    /// changed, where the storage is shared with a variable or another handle that is still
    /// alive; the value is never copied to get around that.
    pub fn make_view_mut(&mut self) -> (r: Result<ParameterViewMut<'_>, Error>)
        ensures
            match r {
                Ok(view) => view.id == old(self)@.id && view.value@ == old(self)@.value
                    && final(self)@ == (ParameterView { value: final(view.value)@, ..old(self)@ }),
                Err(e) => e == Error::Shared && final(self)@ == old(self)@,
            },
    {
        let id: u64 = self.id;
        ParameterViewMut::from_unique(id, arc_unique(&mut self.value))
    }

    /// Declares another precision for the value. The value gets storage of its own, so
    /// handles that shared the old storage keep the old precision. Refused with
    /// `Unimplemented`, and nothing changed, exactly where the precision is neither `BF16`
    /// nor `F32`.
    pub fn cast_mut(&mut self, scalar_type: ScalarType) -> (r: Result<(), Error>)
        ensures
            match r {
                Ok(_) => final(self)@ == old(self)@.cast(scalar_type),
                Err(e) => e == Error::Unimplemented && final(self)@ == old(self)@,
            },
            r is Ok <==> scalar_type.is_trainable(),
    {
        if !scalar_type.trainable() {
            return Err(Error::Unimplemented);
        }
        let mut value = self.value.copy();
        value.cast_mut(scalar_type);
        self.value = Arc::new(value);
        Ok(())
    }

    /// Declares another location for the value. The value gets storage of its own, so
    /// handles that shared the old storage stay where they were.
    pub fn to_device_mut(&mut self, device: Device)
        ensures
            final(self)@ == old(self)@.moved(device),
    {
        let mut value = self.value.copy();
        value.to_device_mut(device);
        self.value = Arc::new(value);
    }

    /// The parameter moved to another location.
    pub fn into_device(self, device: Device) -> (p: Parameter)
        ensures
            p@ == self@.moved(device),
    {
        let mut p = self;
        p.to_device_mut(device);
        p
    }
}

} // verus!
