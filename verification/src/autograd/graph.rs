//! The graph of one forward pass and the backward walk over it.
use crate::autograd::grad_fn::GradFn;
use crate::tensor::{Kind, Tensor, TensorView};
use std::collections::HashMap;
use vstd::prelude::*;

verus! {

broadcast use vstd::std_specs::hash::group_hash_axioms;

/// A node of a graph: the graph's scope and the node's place in creation order.
#[derive(Clone, Copy, Debug, PartialEq, Eq, Structural)]
pub struct NodeId {
    pub scope: u64,
    pub index: usize,
}

/// One input of an operation: the node that the input came from and the transform that
/// takes the operation's output gradient to the gradient of that input.
#[derive(Debug)]
pub struct Edge {
    pub pred: usize,
    pub grad_fn: GradFn,
}

/// One recorded value: the kind of the value, the edges to the inputs that it was computed
/// from, and the identity of the parameter that it stands for, if any.
#[derive(Debug)]
pub struct Node {
    pub kind: Kind,
    pub edges: Vec<Edge>,
    pub parameter: Option<u64>,
}

/// An edge of node `i` points at an earlier node, and its transform takes gradients of the
/// kind of node `i` to gradients of the kind of the node pointed at.
pub open spec fn edge_wf(nodes: Seq<Node>, i: int, e: Edge) -> bool {
    &&& e.pred < i
    &&& e.grad_fn.wf()
    &&& e.grad_fn.accepts(nodes[i].kind@)
    &&& e.grad_fn.output_kind(nodes[i].kind@) == nodes[e.pred as int].kind@
}

pub open spec fn node_wf(nodes: Seq<Node>, i: int) -> bool {
    forall|k: int| 0 <= k < nodes[i].edges@.len() ==> edge_wf(nodes, i, #[trigger] nodes[i].edges@[k])
}

/// Every edge is well formed, and no two nodes stand for the same parameter.
pub open spec fn nodes_wf(nodes: Seq<Node>) -> bool {
    &&& forall|i: int| 0 <= i < nodes.len() ==> #[trigger] node_wf(nodes, i)
    &&& forall|i: int, j: int|
        0 <= i < j < nodes.len() && (#[trigger] nodes[i]).parameter is Some ==> nodes[i].parameter
            != (#[trigger] nodes[j]).parameter
}

/// The sum so far with one more contribution: the first contribution starts the sum.
pub open spec fn accumulate(acc: Option<TensorView>, t: TensorView) -> Option<TensorView> {
    match acc {
        None => Some(t),
        Some(a) => Some(a.add(t)),
    }
}

/// `acc` with the contributions that the first `k` of `edges` make to node `i`, in order,
/// where `g` is the gradient of the node that the edges belong to.
pub open spec fn add_edges(
    acc: Option<TensorView>,
    edges: Seq<Edge>,
    i: int,
    g: TensorView,
    k: nat,
) -> Option<TensorView>
    decreases k,
{
    if k == 0 {
        acc
    } else {
        let prev = add_edges(acc, edges, i, g, (k - 1) as nat);
        if edges[k - 1].pred == i {
            accumulate(prev, edges[k - 1].grad_fn.apply_spec(g))
        } else {
            prev
        }
    }
}

/// What node `i` has received once the nodes `root, root - 1, .., j` have handed their
/// gradients on: the root starts with the gradient one, every other node with nothing.
pub open spec fn gather(nodes: Seq<Node>, root: int, i: int, j: int) -> Option<TensorView>
    decreases root - i, root - j + 1,
{
    if j > root {
        if i == root {
            Some(TensorView::full(nodes[root].kind@, 1))
        } else {
            None
        }
    } else if !(0 <= i < j) {
        None
    } else {
        let prev = gather(nodes, root, i, j + 1);
        match adjoint(nodes, root, j) {
            None => prev,
            Some(g) => add_edges(prev, nodes[j].edges@, i, g, nodes[j].edges@.len()),
        }
    }
}

/// The gradient of node `root` by node `i`: the sum, over the edges that point at `i` from
/// later nodes that have a gradient themselves, of the edge's transform of the later node's
/// gradient. The later node comes first, and among the edges of one node the one registered
/// first. `None` where nothing reaches `i`.
pub open spec fn adjoint(nodes: Seq<Node>, root: int, i: int) -> Option<TensorView>
    decreases root - i, root - i + 1,
{
    if 0 <= i <= root {
        gather(nodes, root, i, i + 1)
    } else {
        None
    }
}

/// What a gradient map holds once the backward walk from `root` has passed the nodes
/// `root, .., from`: one entry for each parameter whose node is among them and has a
/// gradient, and that gradient in it.
pub open spec fn gradients_of(nodes: Seq<Node>, root: int, from: int, m: Map<u64, Tensor>) -> bool {
    &&& forall|id: u64| #[trigger]
        m.contains_key(id) <==> exists|i: int|
            from <= i <= root && (#[trigger] nodes[i]).parameter == Some(id) && adjoint(
                nodes,
                root,
                i,
            ) is Some
    &&& forall|i: int|
        from <= i <= root && (#[trigger] nodes[i]).parameter is Some && adjoint(nodes, root, i)
            is Some ==> {
            let t = m[nodes[i].parameter->Some_0];
            t.wf() && Some(t@) == adjoint(nodes, root, i)
        }
}

/// The mathematical content of a graph.
pub struct GraphView {
    pub scope: u64,
    pub nodes: Seq<Node>,
    pub consumed: bool,
}

impl GraphView {
    pub open spec fn wf(self) -> bool {
        &&& nodes_wf(self.nodes)
        &&& self.consumed ==> self.nodes.len() == 0
    }

    /// Whether `id` names a node of this graph.
    pub open spec fn contains(self, id: NodeId) -> bool {
        id.scope == self.scope && id.index < self.nodes.len()
    }

    /// Whether a node stands for the parameter `id`.
    pub open spec fn has_parameter(self, id: u64) -> bool {
        exists|i: int| 0 <= i < self.nodes.len() && (#[trigger] self.nodes[i]).parameter == Some(id)
    }
}

/// The nodes recorded by one forward pass, in creation order.
#[derive(Debug)]
pub struct Graph {
    scope: u64,
    nodes: Vec<Node>,
    consumed: bool,
}

impl View for Graph {
    type V = GraphView;

    closed spec fn view(&self) -> GraphView {
        GraphView { scope: self.scope, nodes: self.nodes@, consumed: self.consumed }
    }
}

/// Nodes that are already there stay well formed when a node is added behind them.
pub proof fn lemma_push_keeps(nodes: Seq<Node>, node: Node)
    requires
        nodes_wf(nodes),
        forall|k: int|
            0 <= k < node.edges@.len() ==> edge_wf(
                nodes.push(node),
                nodes.len() as int,
                #[trigger] node.edges@[k],
            ),
        node.parameter is Some ==> forall|i: int|
            0 <= i < nodes.len() ==> (#[trigger] nodes[i]).parameter != node.parameter,
    ensures
        nodes_wf(nodes.push(node)),
{
    let after = nodes.push(node);
    assert forall|i: int| 0 <= i < after.len() implies #[trigger] node_wf(after, i) by {
        if i < nodes.len() {
            assert(node_wf(nodes, i));
            assert forall|k: int| 0 <= k < after[i].edges@.len() implies edge_wf(
                after,
                i,
                #[trigger] after[i].edges@[k],
            ) by {
                assert(edge_wf(nodes, i, nodes[i].edges@[k]));
            }
        }
    }
}

fn none_gradients(n: usize) -> (v: Vec<Option<Tensor>>)
    ensures
        v@.len() == n,
        forall|i: int| 0 <= i < n ==> v@[i] is None,
{
    let mut v: Vec<Option<Tensor>> = Vec::new();
    let mut i: usize = 0;
    while i < n
        invariant
            i <= n,
            v@.len() == i,
            forall|j: int| 0 <= j < i ==> v@[j] is None,
        decreases n - i,
    {
        v.push(None);
        i += 1;
    }
    v
}

/// The view of a gradient that may be missing.
pub open spec fn gradient_view(g: Option<Tensor>) -> Option<TensorView> {
    match g {
        None => None,
        Some(t) => Some(t@),
    }
}

impl Graph {
    pub open spec fn wf(&self) -> bool {
        self@.wf()
    }

    /// An empty graph with the given scope. The scope tells the variables of this graph from
    /// those of other graphs: graphs that are alive at the same time need different scopes.
    pub fn new(scope: u64) -> (g: Graph)
        ensures
            g.wf(),
            g@.scope == scope,
            g@.nodes.len() == 0,
            !g@.consumed,
    {
        Graph { scope, nodes: Vec::new(), consumed: false }
    }

    /// The tag that tells this graph's nodes from those of other graphs.
    pub fn scope(&self) -> (s: u64)
        ensures
            s == self@.scope,
    {
        self.scope
    }

    /// The number of nodes recorded.
    pub fn len(&self) -> (n: usize)
        ensures
            n == self@.nodes.len(),
    {
        self.nodes.len()
    }

    /// Whether the backward walk has already run.
    pub fn is_consumed(&self) -> (c: bool)
        ensures
            c == self@.consumed,
    {
        self.consumed
    }

    /// Whether `id` names a node of this graph.
    pub fn contains(&self, id: NodeId) -> (c: bool)
        ensures
            c == self@.contains(id),
    {
        id.scope == self.scope && id.index < self.nodes.len()
    }

    /// The kind of the value recorded at `index`.
    pub fn kind_of(&self, index: usize) -> (k: &Kind)
        requires
            index < self@.nodes.len(),
        ensures
            k@ == self@.nodes[index as int].kind@,
    {
        &self.nodes[index].kind
    }

    /// The node that stands for the parameter `id`, if one was recorded.
    pub fn find_parameter(&self, id: u64) -> (r: Option<usize>)
        ensures
            r is Some <==> self@.has_parameter(id),
            r matches Some(n) ==> n < self@.nodes.len() && self@.nodes[n as int].parameter == Some(
                id,
            ),
    {
        let mut i: usize = 0;
        while i < self.nodes.len()
            invariant
                i <= self.nodes.len(),
                forall|j: int| 0 <= j < i ==> (#[trigger] self.nodes@[j]).parameter != Some(id),
            decreases self.nodes.len() - i,
        {
            match self.nodes[i].parameter {
                Some(p) => {
                    if p == id {
                        return Some(i);
                    }
                },
                None => {},
            }
            i += 1;
        }
        None
    }

    /// Records a node behind the others and returns its place.
    pub(crate) fn push(&mut self, node: Node) -> (index: usize)
        requires
            old(self).wf(),
            !old(self)@.consumed,
            forall|k: int|
                0 <= k < node.edges@.len() ==> edge_wf(
                    old(self)@.nodes.push(node),
                    old(self)@.nodes.len() as int,
                    #[trigger] node.edges@[k],
                ),
            node.parameter matches Some(id) ==> !old(self)@.has_parameter(id),
        ensures
            final(self).wf(),
            index == old(self)@.nodes.len(),
            final(self)@.nodes == old(self)@.nodes.push(node),
            final(self)@.scope == old(self)@.scope,
            !final(self)@.consumed,
    {
        proof {
            lemma_push_keeps(self.nodes@, node);
        }
        let index: usize = self.nodes.len();
        self.nodes.push(node);
        index
    }

    /// Walks the graph backward from `root`, whose gradient is `seed`, in reverse creation
    /// order. Each node that has received a gradient hands it through each of its edges,
    /// once, to the node that the edge points at, where the contributions are summed. The
    /// gradients that have reached parameters are returned under the parameters'
    /// identities. The walk uses the graph up.
    pub fn backward_from(&mut self, root: usize, seed: Tensor) -> (grads: HashMap<u64, Tensor>)
        requires
            old(self).wf(),
            root < old(self)@.nodes.len(),
            seed.wf(),
            seed@ == TensorView::full(old(self)@.nodes[root as int].kind@, 1),
        ensures
            final(self).wf(),
            final(self)@.consumed,
            final(self)@.nodes.len() == 0,
            final(self)@.scope == old(self)@.scope,
            gradients_of(old(self)@.nodes, root as int, 0, grads@),
    {
        let ghost nodes = self.nodes@;
        let ghost r = root as int;
        let mut map: HashMap<u64, Tensor> = HashMap::new();
        let recorded: usize = self.nodes.len();
        assert(root < recorded);
        let mut grads: Vec<Option<Tensor>> = none_gradients(root + 1);
        grads.set(root, Some(seed));
        while grads.len() > 0
            invariant
                self.nodes@ == nodes,
                nodes_wf(nodes),
                r == root,
                root < nodes.len(),
                grads@.len() <= root + 1,
                forall|i: int|
                    0 <= i < grads@.len() ==> gradient_view(#[trigger] grads@[i]) == gather(
                        nodes,
                        r,
                        i,
                        grads@.len() as int,
                    ),
                forall|i: int|
                    0 <= i < grads@.len() ==> ((#[trigger] grads@[i]) matches Some(t) ==> t.wf()
                        && t@.kind == nodes[i].kind@),
                gradients_of(nodes, r, grads@.len() as int, map@),
            decreases grads@.len(),
        {
            let ghost before = grads@;
            let ghost map_before = map@;
            let popped = grads.pop();
            let j: usize = grads.len();
            assert(popped == Some(before[j as int]));
            assert(grads@ =~= before.take(j as int));
            assert(gradient_view(before[j as int]) == adjoint(nodes, r, j as int));
            assert(node_wf(nodes, j as int));
            match popped {
                Some(Some(g)) => {
                    let node = &self.nodes[j];
                    let mut k: usize = 0;
                    while k < node.edges.len()
                        invariant
                            self.nodes@ == nodes,
                            nodes_wf(nodes),
                            node_wf(nodes, j as int),
                            *node == nodes[j as int],
                            j < nodes.len(),
                            k <= node.edges@.len(),
                            grads@.len() == j,
                            g.wf(),
                            g@.kind == nodes[j as int].kind@,
                            forall|i: int|
                                0 <= i < j ==> gradient_view(#[trigger] grads@[i]) == add_edges(
                                    gather(nodes, r, i, j + 1),
                                    node.edges@,
                                    i,
                                    g@,
                                    k as nat,
                                ),
                            forall|i: int|
                                0 <= i < j ==> ((#[trigger] grads@[i]) matches Some(t) ==> t.wf()
                                    && t@.kind == nodes[i].kind@),
                        decreases node.edges@.len() - k,
                    {
                        let e = &node.edges[k];
                        assert(edge_wf(nodes, j as int, nodes[j as int].edges@[k as int]));
                        let p: usize = e.pred;
                        let t = e.grad_fn.apply(&g).unwrap();
                        let sum = match &grads[p] {
                            None => t,
                            Some(a) => a.add(&t).unwrap(),
                        };
                        grads.set(p, Some(sum));
                        k += 1;
                    }
                    match node.parameter {
                        Some(id) => {
                            map.insert(id, g);
                        },
                        None => {},
                    }
                },
                _ => {},
            }
            proof {
                let jj = j as int;
                assert forall|i: int| 0 <= i < grads@.len() implies gradient_view(
                    #[trigger] grads@[i],
                ) == gather(nodes, r, i, jj) by {}
                // the map gains the entry of node `j` and keeps the others
                assert forall|id: u64| #[trigger]
                    map@.contains_key(id) <==> exists|i: int|
                        jj <= i <= r && (#[trigger] nodes[i]).parameter == Some(id) && adjoint(
                            nodes,
                            r,
                            i,
                        ) is Some by {
                    if map@.contains_key(id) {
                        if map_before.contains_key(id) {
                            let i = choose|i: int|
                                jj + 1 <= i <= r && (#[trigger] nodes[i]).parameter == Some(id)
                                    && adjoint(nodes, r, i) is Some;
                            assert(jj <= i <= r && nodes[i].parameter == Some(id) && adjoint(
                                nodes,
                                r,
                                i,
                            ) is Some);
                        } else {
                            assert(nodes[jj].parameter == Some(id) && adjoint(nodes, r, jj) is Some);
                        }
                    }
                    if exists|i: int|
                        jj <= i <= r && (#[trigger] nodes[i]).parameter == Some(id) && adjoint(
                            nodes,
                            r,
                            i,
                        ) is Some {
                        let i = choose|i: int|
                            jj <= i <= r && (#[trigger] nodes[i]).parameter == Some(id) && adjoint(
                                nodes,
                                r,
                                i,
                            ) is Some;
                        if i > jj {
                            assert(jj + 1 <= i <= r && nodes[i].parameter == Some(id) && adjoint(
                                nodes,
                                r,
                                i,
                            ) is Some);
                            assert(map_before.contains_key(id));
                        }
                    }
                }
                assert forall|i: int|
                    jj <= i <= r && (#[trigger] nodes[i]).parameter is Some && adjoint(nodes, r, i)
                        is Some implies {
                    let t = map@[nodes[i].parameter->Some_0];
                    t.wf() && Some(t@) == adjoint(nodes, r, i)
                } by {
                    if i > jj {
                        assert(nodes[jj].parameter != nodes[i].parameter);
                    }
                }
            }
        }
        self.nodes = Vec::new();
        self.consumed = true;
        map
    }
}

} // verus!
