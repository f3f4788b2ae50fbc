//! What holds of every graph and every walk.
use crate::autograd::grad_fn::GradFnView;
use crate::autograd::graph::{
    accumulate, add_edges, adjoint, edge_wf, gather, gradients_of, node_wf, nodes_wf, Edge,
    GraphView, Node, NodeId,
};
use crate::autograd::ops::{multiplied, summed};
use crate::autograd::parameter::gained_parameter;
use crate::autograd::parameter::{taken_part, to_variable_error, ParameterView};
use crate::autograd::variable::grew;
use crate::autograd::variable::{
    backward_error, build_error, built, compatible, edge_for, in_scope, walked, PendingEdge,
    Variable,
};
use crate::error::Error;
use crate::index::lemma_scatter_len;
use crate::linalg::{lemma_matrix_size, lemma_vector_size};
use crate::scalar::sat_mul;
use crate::tensor::{shape_size, KindView, Tensor, TensorView};
use std::collections::HashMap;
use vstd::prelude::*;

verus! {

/// Whether edge `k` of node `j` points at node `i`.
pub open spec fn points_at(nodes: Seq<Node>, j: int, k: int, i: int) -> bool {
    0 <= k < nodes[j].edges@.len() && nodes[j].edges@[k].pred == i
}

/// Whether no edge of the nodes `lo, .., hi - 1` points at node `i`.
pub open spec fn none_point_at(nodes: Seq<Node>, lo: int, hi: int, i: int) -> bool {
    forall|j: int, k: int| lo <= j < hi ==> !#[trigger] points_at(nodes, j, k, i)
}

/// Whether edge `k0` is the only one of node `j` that points at node `i`.
pub open spec fn only_edge(nodes: Seq<Node>, j: int, k0: int, i: int) -> bool {
    &&& points_at(nodes, j, k0, i)
    &&& forall|k: int| k != k0 ==> !#[trigger] points_at(nodes, j, k, i)
}

proof fn lemma_edges_none(acc: Option<TensorView>, edges: Seq<Edge>, i: int, g: TensorView, k: nat)
    requires
        k <= edges.len(),
        forall|q: int| 0 <= q < k ==> (#[trigger] edges[q]).pred != i,
    ensures
        add_edges(acc, edges, i, g, k) == acc,
    decreases k,
{
    if k > 0 {
        lemma_edges_none(acc, edges, i, g, (k - 1) as nat);
    }
}

proof fn lemma_edges_one(
    acc: Option<TensorView>,
    edges: Seq<Edge>,
    i: int,
    g: TensorView,
    k: nat,
    k0: int,
)
    requires
        k <= edges.len(),
        0 <= k0 < k,
        edges[k0].pred == i,
        forall|q: int| 0 <= q < k && q != k0 ==> (#[trigger] edges[q]).pred != i,
    ensures
        add_edges(acc, edges, i, g, k) == accumulate(acc, edges[k0].grad_fn.apply_spec(g)),
    decreases k,
{
    if k - 1 == k0 {
        lemma_edges_none(acc, edges, i, g, (k - 1) as nat);
    } else {
        lemma_edges_one(acc, edges, i, g, (k - 1) as nat, k0);
    }
}

proof fn lemma_gather_skip(nodes: Seq<Node>, root: int, i: int, lo: int, hi: int)
    requires
        0 <= i < lo <= hi <= root + 1,
        root < nodes.len(),
        none_point_at(nodes, lo, hi, i),
    ensures
        gather(nodes, root, i, lo) == gather(nodes, root, i, hi),
    decreases hi - lo,
{
    if lo < hi {
        lemma_gather_skip(nodes, root, i, lo + 1, hi);
        match adjoint(nodes, root, lo) {
            None => {},
            Some(g) => {
                let edges = nodes[lo].edges@;
                assert forall|q: int| 0 <= q < edges.len() implies (#[trigger] edges[q]).pred
                    != i by {
                    assert(!points_at(nodes, lo, q, i));
                }
                lemma_edges_none(gather(nodes, root, i, lo + 1), edges, i, g, edges.len());
            },
        }
    }
}

proof fn lemma_gather_one(nodes: Seq<Node>, root: int, i: int, j: int, k0: int)
    requires
        0 <= i < j <= root < nodes.len(),
        only_edge(nodes, j, k0, i),
    ensures
        gather(nodes, root, i, j) == match adjoint(nodes, root, j) {
            None => gather(nodes, root, i, j + 1),
            Some(g) => accumulate(
                gather(nodes, root, i, j + 1),
                nodes[j].edges@[k0].grad_fn.apply_spec(g),
            ),
        },
{
    match adjoint(nodes, root, j) {
        None => {},
        Some(g) => {
            let edges = nodes[j].edges@;
            assert forall|q: int| 0 <= q < edges.len() && q != k0 implies (#[trigger] edges[q]).pred
                != i by {
                assert(!points_at(nodes, j, q, i));
            }
            lemma_edges_one(gather(nodes, root, i, j + 1), edges, i, g, edges.len(), k0);
        },
    }
}

/// The gradient of the root by itself is one.
pub proof fn law_seed(nodes: Seq<Node>, root: int)
    requires
        0 <= root < nodes.len(),
    ensures
        adjoint(nodes, root, root) == Some(TensorView::full(nodes[root].kind@, 1)),
{
}

/// A node that no edge points at from the nodes between it and the root receives no
/// gradient: the walk skips it, and none of its own edges is invoked.
pub proof fn law_unreached(nodes: Seq<Node>, root: int, i: int)
    requires
        0 <= i < root < nodes.len(),
        none_point_at(nodes, i + 1, root + 1, i),
    ensures
        adjoint(nodes, root, i) is None,
{
    lemma_gather_skip(nodes, root, i, i + 1, root + 1);
}

/// The chain rule. Where a single edge points at node `i`, edge `k` of node `j`, the
/// gradient by `i` is that edge's transform of the gradient by `j`, and there is none where
/// `j` has none.
pub proof fn law_chain(nodes: Seq<Node>, root: int, i: int, j: int, k: int)
    requires
        0 <= i < j <= root < nodes.len(),
        only_edge(nodes, j, k, i),
        none_point_at(nodes, i + 1, j, i),
        none_point_at(nodes, j + 1, root + 1, i),
    ensures
        adjoint(nodes, root, i) == match adjoint(nodes, root, j) {
            None => None,
            Some(g) => Some(nodes[j].edges@[k].grad_fn.apply_spec(g)),
        },
{
    lemma_gather_skip(nodes, root, i, i + 1, j);
    lemma_gather_one(nodes, root, i, j, k);
    lemma_gather_skip(nodes, root, i, j + 1, root + 1);
}

/// Fan-out. Where a value is used by two operations, so that two edges point at its node
/// `i`, edge `k1` of node `j1` and edge `k2` of the earlier node `j2`, the gradient by `i`
/// is the sum of both contributions, not one of them.
pub proof fn law_fan_out(nodes: Seq<Node>, root: int, i: int, j1: int, k1: int, j2: int, k2: int)
    requires
        0 <= i < j2 < j1 <= root < nodes.len(),
        only_edge(nodes, j1, k1, i),
        only_edge(nodes, j2, k2, i),
        none_point_at(nodes, i + 1, j2, i),
        none_point_at(nodes, j2 + 1, j1, i),
        none_point_at(nodes, j1 + 1, root + 1, i),
        adjoint(nodes, root, j1) is Some,
        adjoint(nodes, root, j2) is Some,
    ensures
        adjoint(nodes, root, i) == Some(
            nodes[j1].edges@[k1].grad_fn.apply_spec(adjoint(nodes, root, j1)->Some_0).add(
                nodes[j2].edges@[k2].grad_fn.apply_spec(adjoint(nodes, root, j2)->Some_0),
            ),
        ),
{
    lemma_gather_skip(nodes, root, i, i + 1, j2);
    lemma_gather_one(nodes, root, i, j2, k2);
    lemma_gather_skip(nodes, root, i, j2 + 1, j1);
    lemma_gather_one(nodes, root, i, j1, k1);
    lemma_gather_skip(nodes, root, i, j1 + 1, root + 1);
}

/// A value used twice by one operation. Where the two edges `k1 < k2` of node `j` are the
/// only ones that point at node `i`, the gradient by `i` is the sum of both transforms of
/// the gradient by `j`.
pub proof fn law_used_twice(nodes: Seq<Node>, root: int, i: int, j: int, k1: int, k2: int)
    requires
        0 <= i < j <= root < nodes.len(),
        0 <= k1 < k2 < nodes[j].edges@.len(),
        points_at(nodes, j, k1, i),
        points_at(nodes, j, k2, i),
        forall|k: int| k != k1 && k != k2 ==> !#[trigger] points_at(nodes, j, k, i),
        none_point_at(nodes, i + 1, j, i),
        none_point_at(nodes, j + 1, root + 1, i),
        adjoint(nodes, root, j) is Some,
    ensures
        adjoint(nodes, root, i) == Some(
            nodes[j].edges@[k1].grad_fn.apply_spec(adjoint(nodes, root, j)->Some_0).add(
                nodes[j].edges@[k2].grad_fn.apply_spec(adjoint(nodes, root, j)->Some_0),
            ),
        ),
{
    let g = adjoint(nodes, root, j)->Some_0;
    let edges = nodes[j].edges@;
    lemma_gather_skip(nodes, root, i, i + 1, j);
    lemma_gather_skip(nodes, root, i, j + 1, root + 1);
    let start = gather(nodes, root, i, j + 1);
    assert(start is None);
    assert forall|q: int| 0 <= q < edges.len() && q != k1 && q != k2 implies (#[trigger] edges[q]).pred
        != i by {
        assert(!points_at(nodes, j, q, i));
    }
    lemma_edges_one(start, edges, i, g, k2 as nat, k1);
    lemma_edges_rest(start, edges, i, g, k2 + 1, edges.len());
}

proof fn lemma_edges_rest(
    acc: Option<TensorView>,
    edges: Seq<Edge>,
    i: int,
    g: TensorView,
    from: int,
    k: nat,
)
    requires
        0 <= from <= k <= edges.len(),
        forall|q: int| from <= q < k ==> (#[trigger] edges[q]).pred != i,
    ensures
        add_edges(acc, edges, i, g, k) == add_edges(acc, edges, i, g, from as nat),
    decreases k,
{
    if k > from {
        lemma_edges_rest(acc, edges, i, g, from, (k - 1) as nat);
    }
}

/// A value rectified twice. Where the value `x` at node `i` is rectified by the nodes `j1`
/// and `j2` and used by nothing else, its gradient is the sum of what both let through:
/// each gradient where `x` is positive, and zero elsewhere.
pub proof fn law_rectified_twice(
    nodes: Seq<Node>,
    root: int,
    i: int,
    j1: int,
    j2: int,
    x: TensorView,
)
    requires
        0 <= i < j2 < j1 <= root < nodes.len(),
        only_edge(nodes, j1, 0, i),
        only_edge(nodes, j2, 0, i),
        nodes[j1].edges@[0].grad_fn@ == GradFnView::Relu(x),
        nodes[j2].edges@[0].grad_fn@ == GradFnView::Relu(x),
        none_point_at(nodes, i + 1, j2, i),
        none_point_at(nodes, j2 + 1, j1, i),
        none_point_at(nodes, j1 + 1, root + 1, i),
        adjoint(nodes, root, j1) is Some,
        adjoint(nodes, root, j2) is Some,
    ensures
        adjoint(nodes, root, i) == Some(
            x.relu_backward(adjoint(nodes, root, j1)->Some_0).add(
                x.relu_backward(adjoint(nodes, root, j2)->Some_0),
            ),
        ),
{
    law_fan_out(nodes, root, i, j1, 0, j2, 0);
}

/// Inference records nothing. An operation whose inputs are not tracked gives an untracked
/// output and leaves the graph as it was, whatever transforms it would have registered.
pub proof fn law_untracked_inputs(
    a: Variable,
    fa: GradFnView,
    b: Variable,
    fb: GradFnView,
    value: TensorView,
    before: GraphView,
    after: GraphView,
    r: Result<Variable, Error>,
)
    requires
        a.node is None,
        b.node is None,
        built(edge_for(a, fa) + edge_for(b, fb), value, before, after, r),
    ensures
        r matches Ok(v) && v.node is None && v.value@ == value,
        after == before,
{
    assert((edge_for(a, fa) + edge_for(b, fb)).len() == 0);
}

/// Outside training a parameter takes part untracked and leaves the graph as it was.
pub proof fn law_inference_parameter(
    p: ParameterView,
    before: GraphView,
    after: GraphView,
    r: Result<Variable, Error>,
)
    requires
        !p.training,
        taken_part(p, before, after, r),
    ensures
        r matches Ok(v) && v.node is None,
        after == before,
{
}

/// The backward walk from an untracked variable is a successful no-op, however often it is
/// asked for: the gradient map is empty and the graph is left as it was.
pub proof fn law_untracked_backward(
    v: Variable,
    before: GraphView,
    after: GraphView,
    r: Result<HashMap<u64, Tensor>, Error>,
)
    requires
        v.node is None,
        walked(v, before, after, r),
    ensures
        r matches Ok(grads) && grads@ == Map::<u64, Tensor>::empty(),
        after == before,
{
}

/// A graph is walked once. After a walk from a tracked variable, a walk over the same graph
/// from any tracked variable is refused with `Consumed` and changes nothing.
pub proof fn law_single_use(
    first: Variable,
    second: Variable,
    g0: GraphView,
    g1: GraphView,
    g2: GraphView,
    r1: Result<HashMap<u64, Tensor>, Error>,
    r2: Result<HashMap<u64, Tensor>, Error>,
)
    requires
        first.node is Some,
        second.node is Some,
        walked(first, g0, g1, r1),
        r1 is Ok,
        walked(second, g1, g2, r2),
    ensures
        r2 == Err::<HashMap<u64, Tensor>, Error>(Error::Consumed),
        g2 == g1,
{
}

/// One parameter, one node. A parameter used twice in one forward pass points at the same
/// node both times, and the second use records nothing, so both uses send their gradients
/// to the same entry of the gradient map.
pub proof fn law_parameter_identity(
    p: ParameterView,
    g0: GraphView,
    g1: GraphView,
    g2: GraphView,
    r1: Result<Variable, Error>,
    r2: Result<Variable, Error>,
)
    requires
        p.training,
        g0.wf(),
        g1.wf(),
        taken_part(p, g0, g1, r1),
        r1 is Ok,
        taken_part(p, g1, g2, r2),
    ensures
        r2 matches Ok(v2) && v2.node == r1->Ok_0.node,
        g2 == g1,
{
    let v1 = r1->Ok_0;
    let id = v1.node->Some_0;
    let n = id.index as int;
    assert(g1.nodes[n].parameter == Some(p.id) && g1.nodes[n].kind@ == p.value.kind) by {
        if !g0.has_parameter(p.id) {
            assert(g1.nodes.last() == g1.nodes[n]);
        } else {
            assert(g1 == g0);
            if g0.nodes[n].kind@ != p.value.kind {
                assert(false);
            }
        }
    }
    assert(g1.has_parameter(p.id));
    assert forall|i: int|
        0 <= i < g1.nodes.len() && (#[trigger] g1.nodes[i]).parameter == Some(p.id) implies i
        == n by {
        if i < n {
            assert(g1.nodes[i].parameter != g1.nodes[n].parameter);
        } else if i > n {
            assert(g1.nodes[n].parameter != g1.nodes[i].parameter);
        }
    }
    assert(to_variable_error(p, g1) is None);
    let v2 = r2->Ok_0;
    assert(v2.node->Some_0.index == n);
}

/// Whether a gradient that may be missing is a well-formed tensor of the given kind.
pub open spec fn of_kind(g: Option<TensorView>, kind: KindView) -> bool {
    g matches Some(t) ==> t.wf() && t.kind == kind
}

/// A transform that accepts the kind of a gradient gives a well-formed gradient of the kind
/// that it announces.
pub proof fn law_transform_kind(f: GradFnView, dy: TensorView)
    requires
        f.wf(),
        dy.wf(),
        f.accepts(dy.kind),
    ensures
        f.apply(dy).wf(),
        f.apply(dy).kind == f.output_kind(dy.kind),
{
    match f {
        GradFnView::Identity => {},
        GradFnView::Mul(c) => {},
        GradFnView::Relu(x) => {},
        GradFnView::ScaleBy(c) => {},
        GradFnView::DotLhs(w) => {
            lemma_matrix_size(f.apply(dy).kind.shape);
        },
        GradFnView::DotRhs(x) => {
            lemma_matrix_size(f.apply(dy).kind.shape);
        },
        GradFnView::SumRows => {
            lemma_vector_size(f.apply(dy).kind.shape);
        },
        GradFnView::Reshape(shape) => {},
        GradFnView::Gather(index, kind) => {
            lemma_scatter_len(dy.data, index, shape_size(kind.shape), index.len());
        },
    }
}

proof fn lemma_edges_kind(
    acc: Option<TensorView>,
    nodes: Seq<Node>,
    j: int,
    i: int,
    g: TensorView,
    k: nat,
)
    requires
        0 <= i < j < nodes.len(),
        node_wf(nodes, j),
        k <= nodes[j].edges@.len(),
        g.wf(),
        g.kind == nodes[j].kind@,
        of_kind(acc, nodes[i].kind@),
    ensures
        of_kind(add_edges(acc, nodes[j].edges@, i, g, k), nodes[i].kind@),
    decreases k,
{
    if k > 0 {
        lemma_edges_kind(acc, nodes, j, i, g, (k - 1) as nat);
        let e = nodes[j].edges@[k - 1];
        assert(edge_wf(nodes, j, e));
        if e.pred == i {
            law_transform_kind(e.grad_fn@, g);
        }
    }
}

proof fn lemma_gather_kind(nodes: Seq<Node>, root: int, i: int, j: int)
    requires
        nodes_wf(nodes),
        0 <= i < j <= root + 1,
        root < nodes.len(),
    ensures
        of_kind(gather(nodes, root, i, j), nodes[i].kind@),
    decreases root - i, root - j + 1,
{
    if j > root {
        if i == root {
            let seed = TensorView::full(nodes[root].kind@, 1);
            assert(seed.wf());
        }
    } else {
        lemma_gather_kind(nodes, root, i, j + 1);
        law_gradient_kind(nodes, root, j);
        match adjoint(nodes, root, j) {
            None => {},
            Some(g) => {
                assert(node_wf(nodes, j));
                lemma_edges_kind(
                    gather(nodes, root, i, j + 1),
                    nodes,
                    j,
                    i,
                    g,
                    nodes[j].edges@.len(),
                );
            },
        }
    }
}

/// Gradients fit their nodes. In a well-formed graph, the gradient by a node, where there is
/// one, is a well-formed tensor of the kind of the value that the node recorded: every
/// transform hands on a gradient that is compatible with the input that it belongs to.
pub proof fn law_gradient_kind(nodes: Seq<Node>, root: int, i: int)
    requires
        nodes_wf(nodes),
        0 <= root < nodes.len(),
    ensures
        0 <= i < nodes.len() ==> of_kind(adjoint(nodes, root, i), nodes[i].kind@),
    decreases root - i, root - i + 1,
{
    if 0 <= i <= root {
        lemma_gather_kind(nodes, root, i, i + 1);
    }
}

/// The nodes that recording `sum(x ⊙ w)` in an empty graph leaves: the parameter, the
/// product with one edge to the parameter, and the sum with one edge to the product.
pub open spec fn sum_of_products_recorded(nodes: Seq<Node>, x: TensorView, id: u64) -> bool {
    &&& nodes.len() == 3
    &&& nodes[0].parameter == Some(id)
    &&& nodes[1].parameter is None
    &&& nodes[2].parameter is None
    &&& nodes[0].kind@ == x.kind
    &&& nodes[1].kind@ == x.kind
    &&& nodes[2].kind@ == x.scalar_kind()
    &&& nodes[0].edges@.len() == 0
    &&& nodes[1].edges@.len() == 1
    &&& nodes[1].edges@[0].pred == 0
    &&& nodes[1].edges@[0].grad_fn@ == GradFnView::Mul(x)
    &&& nodes[2].edges@.len() == 1
    &&& nodes[2].edges@[0].pred == 1
    &&& nodes[2].edges@[0].grad_fn@ == GradFnView::ScaleBy(TensorView::full(x.kind, 1))
}

proof fn lemma_parameter_recorded(
    p: ParameterView,
    g0: GraphView,
    g1: GraphView,
    w: Result<Variable, Error>,
)
    requires
        g0.nodes.len() == 0,
        !g0.consumed,
        p.training,
        taken_part(p, g0, g1, w),
    ensures
        w matches Ok(wv) && wv.node == Some(NodeId { scope: g0.scope, index: 0 }) && wv.value@
            == p.value,
        g1.scope == g0.scope,
        !g1.consumed,
        g1.nodes.len() == 1,
        g1.nodes[0].parameter == Some(p.id),
        g1.nodes[0].kind@ == p.value.kind,
        g1.nodes[0].edges@.len() == 0,
{
    assert(!g0.has_parameter(p.id));
    assert(to_variable_error(p, g0) is None);
    assert(gained_parameter(g0, g1, p));
    assert(g1.nodes[0] == g1.nodes.last());
}

proof fn lemma_product_recorded(
    x: Variable,
    wv: Variable,
    g1: GraphView,
    g2: GraphView,
    m: Result<Variable, Error>,
)
    requires
        x.node is None,
        wv.node == Some(NodeId { scope: g1.scope, index: 0 }),
        x.value@.kind == wv.value@.kind,
        !g1.consumed,
        g1.nodes.len() == 1,
        g1.nodes[0].kind@ == x.value@.kind,
        multiplied(x, wv, g1, g2, m),
    ensures
        m matches Ok(mv) && mv.node == Some(NodeId { scope: g1.scope, index: 1 }) && mv.value@.kind
            == x.value@.kind,
        g2.scope == g1.scope,
        !g2.consumed,
        g2.nodes.len() == 2,
        g2.nodes[0] == g1.nodes[0],
        g2.nodes[1].parameter is None,
        g2.nodes[1].kind@ == x.value@.kind,
        g2.nodes[1].edges@.len() == 1,
        g2.nodes[1].edges@[0].pred == 0,
        g2.nodes[1].edges@[0].grad_fn@ == GradFnView::Mul(x.value@),
{
    let n0 = NodeId { scope: g1.scope, index: 0 };
    let kind = x.value@.kind;
    let edges = edge_for(x, GradFnView::Mul(wv.value@)) + edge_for(wv, GradFnView::Mul(x.value@));
    assert(edges =~= seq![PendingEdge { node: n0, grad_fn: GradFnView::Mul(x.value@) }]);
    assert(in_scope(edges, g1)) by {
        assert(g1.contains(edges[0].node));
    }
    assert(compatible(edges, g1, kind));
    assert(build_error(edges, g1, kind) is None);
    assert(grew(g1, g2, kind, edges));
    assert(g2.nodes[0] == g2.nodes.drop_last()[0]);
    assert(g2.nodes[1] == g2.nodes.last());
}

proof fn lemma_sum_recorded(mv: Variable, g2: GraphView, g3: GraphView, s: Result<Variable, Error>)
    requires
        mv.node == Some(NodeId { scope: g2.scope, index: 1 }),
        !g2.consumed,
        g2.nodes.len() == 2,
        g2.nodes[1].kind@ == mv.value@.kind,
        summed(mv, g2, g3, s),
    ensures
        s matches Ok(sv) && sv.node == Some(NodeId { scope: g2.scope, index: 2 }) && sv.value@.kind
            == mv.value@.scalar_kind(),
        g3.scope == g2.scope,
        !g3.consumed,
        g3.nodes.len() == 3,
        g3.nodes[0] == g2.nodes[0],
        g3.nodes[1] == g2.nodes[1],
        g3.nodes[2].parameter is None,
        g3.nodes[2].kind@ == mv.value@.scalar_kind(),
        g3.nodes[2].edges@.len() == 1,
        g3.nodes[2].edges@[0].pred == 1,
        g3.nodes[2].edges@[0].grad_fn@ == GradFnView::ScaleBy(
            TensorView::full(mv.value@.kind, 1),
        ),
{
    let n1 = NodeId { scope: g2.scope, index: 1 };
    let ones = TensorView::full(mv.value@.kind, 1);
    let edges = edge_for(mv, GradFnView::ScaleBy(ones));
    assert(edges =~= seq![PendingEdge { node: n1, grad_fn: GradFnView::ScaleBy(ones) }]);
    let total = mv.value@.sum();
    assert(in_scope(edges, g2)) by {
        assert(g2.contains(edges[0].node));
    }
    assert(compatible(edges, g2, total.kind));
    assert(build_error(edges, g2, total.kind) is None);
    assert(grew(g2, g3, total.kind, edges));
    assert(g3.nodes[0] == g3.nodes.drop_last()[0]);
    assert(g3.nodes[1] == g3.nodes.drop_last()[1]);
    assert(g3.nodes[2] == g3.nodes.last());
}

/// The gradients over the nodes of `sum(x ⊙ w)`: one for the sum, ones for the product, and
/// `x` for the parameter.
pub proof fn law_sum_of_products_gradients(nodes: Seq<Node>, x: TensorView, id: u64)
    requires
        x.wf(),
        sum_of_products_recorded(nodes, x, id),
    ensures
        adjoint(nodes, 2, 2) == Some(TensorView::full(x.scalar_kind(), 1)),
        adjoint(nodes, 2, 1) == Some(TensorView::full(x.kind, 1)),
        adjoint(nodes, 2, 0) == Some(x),
{
    let ones = TensorView::full(x.kind, 1);
    let seed = TensorView::full(x.scalar_kind(), 1);
    law_seed(nodes, 2);
    assert(only_edge(nodes, 2, 0, 1));
    assert(none_point_at(nodes, 2, 2, 1));
    assert(none_point_at(nodes, 3, 3, 1));
    law_chain(nodes, 2, 1, 2, 0);
    assert(shape_size(seed.kind.shape) == 1) by {
        assert(seed.kind.shape.len() == 0);
    }
    assert(seed.data[0] == 1);
    let by_product = nodes[2].edges@[0].grad_fn.apply_spec(seed);
    assert(by_product == ones) by {
        assert(by_product.data =~= ones.data);
    }
    assert(only_edge(nodes, 1, 0, 0));
    assert(none_point_at(nodes, 1, 1, 0));
    assert(none_point_at(nodes, 2, 3, 0)) by {
        assert forall|j: int, k: int| 2 <= j < 3 implies !#[trigger] points_at(nodes, j, k, 0) by {}
    }
    law_chain(nodes, 2, 0, 1, 0);
    let by_parameter = nodes[1].edges@[0].grad_fn.apply_spec(ones);
    assert(by_parameter == x) by {
        assert(by_parameter == ones.mul(x));
        assert(ones.data.len() == x.data.len());
        assert forall|i: int| 0 <= i < x.data.len() implies #[trigger] by_parameter.data[i]
            == x.data[i] by {
            assert(ones.data[i] == 1);
            assert(sat_mul(1i64, x.data[i]) == x.data[i]);
        }
        assert(by_parameter.data =~= x.data);
    }
}

/// The gradient of a sum of products. Where `y = sum(x ⊙ w)` is recorded in an empty graph,
/// with `x` untracked and `w` a parameter in training, the backward walk from `y` gives one
/// gradient, that of `w`, and it is `x`.
pub proof fn law_sum_of_products(
    x: Variable,
    p: ParameterView,
    g0: GraphView,
    g1: GraphView,
    g2: GraphView,
    g3: GraphView,
    g4: GraphView,
    w: Result<Variable, Error>,
    m: Result<Variable, Error>,
    s: Result<Variable, Error>,
    grads: Result<HashMap<u64, Tensor>, Error>,
)
    requires
        g0.nodes.len() == 0,
        !g0.consumed,
        x.node is None,
        x.value@.wf(),
        p.training,
        x.value@.kind == p.value.kind,
        taken_part(p, g0, g1, w),
        w matches Ok(wv) ==> multiplied(x, wv, g1, g2, m),
        m matches Ok(mv) ==> summed(mv, g2, g3, s),
        s matches Ok(sv) ==> walked(sv, g3, g4, grads),
    ensures
        w is Ok && m is Ok && s is Ok,
        grads matches Ok(map) && map@.contains_key(p.id) && map@[p.id]@ == x.value@,
        grads matches Ok(map) ==> forall|id: u64| map@.contains_key(id) ==> id == p.id,
{
    lemma_parameter_recorded(p, g0, g1, w);
    lemma_product_recorded(x, w->Ok_0, g1, g2, m);
    lemma_sum_recorded(m->Ok_0, g2, g3, s);
    let nodes = g3.nodes;
    assert(sum_of_products_recorded(nodes, x.value@, p.id));
    law_sum_of_products_gradients(nodes, x.value@, p.id);
    let sv = s->Ok_0;
    assert(backward_error(sv, g3) is None);
    let map = grads->Ok_0;
    assert(gradients_of(nodes, 2, 0, map@));
    assert(map@.contains_key(p.id));
    assert forall|id: u64| map@.contains_key(id) implies id == p.id by {
        let i = choose|i: int|
            0 <= i <= 2 && (#[trigger] nodes[i]).parameter == Some(id) && adjoint(nodes, 2, i)
                is Some;
        assert(i == 0);
    }
}

} // verus!
