//! Variables and the builder that every differentiable operation records its output with.
use crate::autograd::grad_fn::{GradFn, GradFnView};
use crate::autograd::graph::{edge_wf, gradients_of, Edge, Graph, GraphView, Node, NodeId};
use crate::error::Error;
use crate::shared::arc_share;
use crate::tensor::{copy_shape, KindView, Tensor, TensorView};
use std::collections::HashMap;
use std::sync::Arc;
use vstd::prelude::*;

verus! {

broadcast use vstd::std_specs::hash::group_hash_axioms;

/// A value and, where gradients are tracked, the node that recorded it.
#[derive(Debug)]
pub struct Variable {
    pub value: Arc<Tensor>,
    pub node: Option<NodeId>,
}

/// A variable that holds a matrix. Every variable can hold a tensor of any rank; the
/// operations on matrices check the rank.
pub type Variable2 = Variable;

/// An edge as an operation registers it: the node of the input and the transform.
pub struct PendingEdge {
    pub node: NodeId,
    pub grad_fn: GradFnView,
}

/// The edge of an input: one edge where the input is tracked, none where it is not.
pub open spec fn edge_for(input: Variable, grad_fn: GradFnView) -> Seq<PendingEdge> {
    match input.node {
        Some(node) => seq![PendingEdge { node, grad_fn }],
        None => Seq::empty(),
    }
}

/// Whether every edge points into the graph.
pub open spec fn in_scope(edges: Seq<PendingEdge>, g: GraphView) -> bool {
    forall|k: int| 0 <= k < edges.len() ==> g.contains((#[trigger] edges[k]).node)
}

/// Whether every edge's transform takes gradients of kind `kind` to gradients of the kind
/// of the node that the edge points at.
pub open spec fn compatible(edges: Seq<PendingEdge>, g: GraphView, kind: KindView) -> bool {
    forall|k: int|
        0 <= k < edges.len() ==> (#[trigger] edges[k]).grad_fn.accepts(kind)
            && edges[k].grad_fn.output_kind(kind) == g.nodes[edges[k].node.index as int].kind@
}

/// Why a value of kind `kind` with the given edges cannot be recorded in `g`, if it cannot.
/// A value without edges is never refused.
pub open spec fn build_error(edges: Seq<PendingEdge>, g: GraphView, kind: KindView) -> Option<
    Error,
> {
    if edges.len() == 0 {
        None
    } else if g.consumed {
        Some(Error::Consumed)
    } else if !in_scope(edges, g) {
        Some(Error::Scope)
    } else if !compatible(edges, g, kind) {
        Some(Error::Mismatch)
    } else {
        None
    }
}

/// `after` is `before` with one more node, which has the given kind and edges and stands
/// for no parameter.
pub open spec fn grew(before: GraphView, after: GraphView, kind: KindView, edges: Seq<PendingEdge>) -> bool {
    let node = after.nodes.last();
    &&& after.scope == before.scope
    &&& after.consumed == before.consumed
    &&& after.nodes.len() == before.nodes.len() + 1
    &&& after.nodes.drop_last() == before.nodes
    &&& node.kind@ == kind
    &&& node.parameter is None
    &&& node.edges@.len() == edges.len()
    &&& forall|k: int|
        0 <= k < edges.len() ==> (#[trigger] node.edges@[k]).pred == edges[k].node.index
            && node.edges@[k].grad_fn@ == edges[k].grad_fn
}

/// What recording `value` with `edges` does: without edges the result is an untracked
/// variable and the graph stays as it was; with edges the graph gains one node and the
/// result points at it; where the edges cannot be recorded the error says why and the graph
/// stays as it was.
pub open spec fn built(
    edges: Seq<PendingEdge>,
    value: TensorView,
    before: GraphView,
    after: GraphView,
    r: Result<Variable, Error>,
) -> bool {
    match build_error(edges, before, value.kind) {
        Some(e) => r == Err::<Variable, Error>(e) && after == before,
        None => r matches Ok(v) && v.value@ == value && if edges.len() == 0 {
            v.node is None && after == before
        } else {
            v.node == Some(NodeId { scope: before.scope, index: before.nodes.len() as usize })
                && grew(before, after, value.kind, edges)
        },
    }
}

/// Why the backward walk from `v` over `g` is refused, if it is. A variable that is not
/// tracked is never refused: there is nothing to differentiate.
pub open spec fn backward_error(v: Variable, g: GraphView) -> Option<Error> {
    match v.node {
        None => None,
        Some(id) => if g.consumed {
            Some(Error::Consumed)
        } else if !g.contains(id) || g.nodes[id.index as int].kind@ != v.value@.kind {
            Some(Error::Scope)
        } else if v.value@.kind.shape.len() != 0 {
            Some(Error::Mismatch)
        } else {
            None
        },
    }
}

/// What the backward walk from `v` does. Where it is refused the graph stays as it was. From
/// a variable that is not tracked it gives an empty map and leaves the graph as it was. From
/// a tracked scalar it uses the graph up and gives, for each parameter that something
/// reached, the gradient of `v` by that parameter.
pub open spec fn walked(
    v: Variable,
    before: GraphView,
    after: GraphView,
    r: Result<HashMap<u64, Tensor>, Error>,
) -> bool {
    match backward_error(v, before) {
        Some(e) => r == Err::<HashMap<u64, Tensor>, Error>(e) && after == before,
        None => r matches Ok(grads) && match v.node {
            None => grads@ == Map::<u64, Tensor>::empty() && after == before,
            Some(id) => after.consumed && after.nodes.len() == 0 && after.scope == before.scope
                && gradients_of(before.nodes, id.index as int, 0, grads@),
        },
    }
}

/// Collects the edges of one operation's output.
#[derive(Debug)]
pub struct VariableBuilder {
    edges: Vec<Edge>,
    scopes: Vec<u64>,
}

impl View for VariableBuilder {
    type V = Seq<PendingEdge>;

    closed spec fn view(&self) -> Seq<PendingEdge> {
        Seq::new(
            self.edges@.len(),
            |k: int|
                PendingEdge {
                    node: NodeId { scope: self.scopes@[k], index: self.edges@[k].pred },
                    grad_fn: self.edges@[k].grad_fn@,
                },
        )
    }
}

impl VariableBuilder {
    /// Every transform registered is well formed.
    pub closed spec fn wf(&self) -> bool {
        &&& self.scopes@.len() == self.edges@.len()
        &&& forall|k: int| 0 <= k < self.edges@.len() ==> (#[trigger] self.edges@[k]).grad_fn.wf()
    }

    /// Registers one edge: the output depends on the value recorded at `node`, and
    /// `grad_fn` takes the output's gradient to the gradient of that value. An input that is
    /// used twice registers two edges.
    pub fn edge(&mut self, node: NodeId, grad_fn: GradFn)
        requires
            old(self).wf(),
            grad_fn.wf(),
        ensures
            final(self).wf(),
            final(self)@ == old(self)@.push(PendingEdge { node, grad_fn: grad_fn@ }),
    {
        self.edges.push(Edge { pred: node.index, grad_fn });
        self.scopes.push(node.scope);
        assert(self@ =~= old(self)@.push(PendingEdge { node, grad_fn: grad_fn@ }));
    }

    /// Registers the edge of `input`, if `input` is tracked.
    pub fn edge_of(&mut self, input: &Variable, grad_fn: GradFn)
        requires
            old(self).wf(),
            grad_fn.wf(),
        ensures
            final(self).wf(),
            final(self)@ == old(self)@ + edge_for(*input, grad_fn@),
    {
        match input.node {
            Some(node) => {
                self.edge(node, grad_fn);
                assert(self@ =~= old(self)@ + edge_for(*input, grad_fn@));
            },
            None => {
                assert(self@ =~= old(self)@ + edge_for(*input, grad_fn@));
            },
        }
    }

    /// Finishes the output: records `value` in `graph` with the edges registered.
    pub fn build(self, graph: &mut Graph, value: Tensor) -> (r: Result<Variable, Error>)
        requires
            self.wf(),
            value.wf(),
            old(graph).wf(),
        ensures
            final(graph).wf(),
            r matches Ok(v) ==> v.wf(),
            built(self@, value@, old(graph)@, final(graph)@, r),
    {
        self.build_shared(graph, Arc::new(value))
    }

    /// Finishes the output: records `value`, which may be shared, in `graph` with the edges
    /// registered.
    pub fn build_shared(self, graph: &mut Graph, value: Arc<Tensor>) -> (r: Result<
        Variable,
        Error,
    >)
        requires
            self.wf(),
            value@.wf(),
            old(graph).wf(),
        ensures
            final(graph).wf(),
            r matches Ok(v) ==> v.wf(),
            built(self@, value@, old(graph)@, final(graph)@, r),
    {
        let ghost edges = self@;
        let ghost before = graph@;
        if self.edges.len() == 0 {
            return Ok(Variable { value, node: None });
        }
        if graph.is_consumed() {
            return Err(Error::Consumed);
        }
        let mut k: usize = 0;
        while k < self.edges.len()
            invariant
                k <= self.edges@.len(),
                self.wf(),
                self@ == edges,
                edges.len() == self.edges@.len(),
                edges.len() > 0,
                graph@ == before,
                before == old(graph)@,
                before.wf(),
                !before.consumed,
                forall|i: int| 0 <= i < k ==> before.contains((#[trigger] edges[i]).node),
            decreases self.edges@.len() - k,
        {
            if self.scopes[k] != graph.scope() || self.edges[k].pred >= graph.len() {
                assert(!before.contains(edges[k as int].node));
                return Err(Error::Scope);
            }
            k += 1;
        }
        let mut k: usize = 0;
        while k < self.edges.len()
            invariant
                k <= self.edges@.len(),
                self.wf(),
                value@.wf(),
                self@ == edges,
                edges.len() == self.edges@.len(),
                edges.len() > 0,
                graph@ == before,
                before == old(graph)@,
                before.wf(),
                !before.consumed,
                in_scope(edges, before),
                forall|i: int|
                    0 <= i < k ==> (#[trigger] edges[i]).grad_fn.accepts(value@.kind)
                        && edges[i].grad_fn.output_kind(value@.kind)
                        == before.nodes[edges[i].node.index as int].kind@,
            decreases self.edges@.len() - k,
        {
            let e = &self.edges[k];
            assert(before.contains(edges[k as int].node));
            let fits = match e.grad_fn.output_for(&value) {
                Some(kind) => kind.same(graph.kind_of(e.pred)),
                None => false,
            };
            if !fits {
                assert(!(edges[k as int].grad_fn.accepts(value@.kind)
                    && edges[k as int].grad_fn.output_kind(value@.kind)
                    == before.nodes[edges[k as int].node.index as int].kind@));
                return Err(Error::Mismatch);
            }
            k += 1;
        }
        let node = Node { kind: value.kind().copy(), edges: self.edges, parameter: None };
        proof {
            let after = before.nodes.push(node);
            assert forall|k: int| 0 <= k < node.edges@.len() implies edge_wf(
                after,
                before.nodes.len() as int,
                #[trigger] node.edges@[k],
            ) by {
                assert(before.contains(edges[k].node));
                assert(edges[k].grad_fn.accepts(value@.kind));
            }
        }
        let scope: u64 = graph.scope();
        let index: usize = graph.push(node);
        proof {
            assert(graph@.nodes.drop_last() =~= before.nodes);
            assert(grew(before, graph@, value@.kind, edges));
        }
        Ok(Variable { value, node: Some(NodeId { scope, index }) })
    }
}

impl Variable {
    /// The value is a well-formed tensor.
    pub open spec fn wf(&self) -> bool {
        self.value@.wf()
    }

    /// A variable that holds `value` and is not tracked.
    pub fn from(value: Tensor) -> (v: Variable)
        ensures
            v.value@ == value@,
            v.node is None,
    {
        Variable { value: Arc::new(value), node: None }
    }

    /// A builder without edges.
    pub fn builder() -> (b: VariableBuilder)
        ensures
            b.wf(),
            b@ == Seq::<PendingEdge>::empty(),
    {
        let b = VariableBuilder { edges: Vec::new(), scopes: Vec::new() };
        assert(b@ =~= Seq::<PendingEdge>::empty());
        b
    }

    /// The value.
    pub fn value(&self) -> (t: &Tensor)
        ensures
            t@ == self.value@,
    {
        &self.value
    }

    /// The node that recorded the value, if gradients are tracked.
    pub fn node(&self) -> (n: Option<NodeId>)
        ensures
            n == self.node,
    {
        self.node
    }

    /// The value, shared.
    pub fn into_value(self) -> (t: Arc<Tensor>)
        ensures
            t == self.value,
    {
        self.value
    }

    /// Computes the gradients of this variable by every parameter that contributed to it.
    ///
    /// The variable must be a scalar: a tensor without axes. The walk uses the graph up, so
    /// a second walk over the same graph is refused with `Consumed`. On a variable that is
    /// not tracked there is nothing to differentiate: the result is an empty map and the
    /// graph is left as it was.
    pub fn backward(&self, graph: &mut Graph) -> (r: Result<HashMap<u64, Tensor>, Error>)
        requires
            self.wf(),
            old(graph).wf(),
        ensures
            final(graph).wf(),
            walked(*self, old(graph)@, final(graph)@, r),
    {
        match self.node {
            None => Ok(HashMap::new()),
            Some(id) => {
                if graph.is_consumed() {
                    return Err(Error::Consumed);
                }
                if !graph.contains(id) {
                    return Err(Error::Scope);
                }
                if !graph.kind_of(id.index).same(self.value.kind()) {
                    return Err(Error::Scope);
                }
                if self.value.shape().len() != 0 {
                    return Err(Error::Mismatch);
                }
                let seed = self.value.full_like(1);
                Ok(graph.backward_from(id.index, seed))
            },
        }
    }
}

} // verus!
