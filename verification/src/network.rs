//! Networks and the trainer that fits one to labelled data.
use crate::autograd::graph::Graph;
use crate::criterion::CrossEntropy;
use crate::labels::{accuracy, agreements};
use crate::autograd::variable::Variable;
use crate::error::Error;
use crate::layer::{all_wf, Forward, Layer};
use crate::autograd::parameter::{ParameterView, ParameterViewMut};
use crate::linalg::is_argmax;
use crate::autograd::graph::GraphView;
use crate::autograd::variable::walked;
use crate::criterion::cross_entropy_recorded;
use crate::layer::dense::Step;
use crate::optimizer::{gradients_wf, Optimizer, Sgd};
use crate::tensor::TensorView;
use crate::tensor::Tensor;
use std::collections::HashMap;
use vstd::prelude::*;

verus! {

/// A network: a layer that can be run. Every such layer is a network.
pub trait Network: Forward {

}

impl<T: Forward> Network for T {

}

/// Marks the optimizer that an update has reached.
pub open spec fn passed<O: Optimizer>(o: O) -> bool {
    true
}

/// What handing the first `n` parameters to the optimizer, one after the other, gives, where
/// the optimizer refuses none before the last: the parameters before the last lead to some
/// state of the optimizer, and the last is updated from there.
pub open spec fn applied<O: Optimizer>(
    before: Seq<ParameterView>,
    after: Seq<ParameterView>,
    n: nat,
    start: O,
    end: O,
    gradients: Map<u64, Tensor>,
    r: Result<(), Error>,
) -> bool
    decreases n,
{
    if n == 0 {
        end == start && r is Ok
    } else {
        exists|o: O|
            #[trigger] passed(o) && applied(
                before,
                after,
                (n - 1) as nat,
                start,
                o,
                gradients,
                Ok::<(), Error>(()),
            ) && o.updates(
                end,
                before[n - 1].id,
                before[n - 1].value,
                gradients,
                after[n - 1].value,
                r,
            )
    }
}

/// What `ClassificationTrainer::update` does to the parameters of the network and to the
/// optimizer: the parameters keep their identities and their training flags; those up to
/// the first refusal hold what the optimizer left them with, the others hold what they
/// held. Where the network refuses its views, its error is the result, and the parameters
/// and the optimizer stay as they were.
pub open spec fn updated_all<N: Network, O: Optimizer>(
    network: N,
    start: O,
    gradients: Map<u64, Tensor>,
    after: Seq<ParameterView>,
    end: O,
    r: Result<(), Error>,
) -> bool {
    let before = network.parameters_view();
    (r matches Err(e) && network.refuses_views(e) && after == before && end == start) || {
        &&& after.len() == before.len()
        &&& forall|i: int|
            0 <= i < before.len() ==> (#[trigger] after[i]).id == before[i].id
                && after[i].training == before[i].training
        &&& exists|k: nat|
            {
                &&& k <= before.len()
                &&& #[trigger] applied(before, after, k, start, end, gradients, r)
                &&& r is Ok ==> k == before.len()
                &&& forall|i: int| k <= i < before.len() ==> after[i] == before[i]
            }
    }
}

/// What predicting the classes of the rows of `input` gives: the network runs on `input`,
/// untracked, in a graph of its own, and each row is put in the class of the first greatest
/// element of the row of the output. Whatever refuses the forward pass refuses the
/// prediction; an output that is not a matrix with at least one column is refused with
/// `Mismatch`.
pub open spec fn predicted<N: Network>(
    network: N,
    input: TensorView,
    x: Variable,
    before: GraphView,
    after: GraphView,
    y: Result<Variable, Error>,
    r: Result<Vec<usize>, Error>,
) -> bool {
    &&& x.node is None && x.value@ == input
    &&& before.nodes.len() == 0 && !before.consumed
    &&& network.forwards(x, before, after, y)
    &&& match y {
        Err(e) => r == Err::<Vec<usize>, Error>(e),
        Ok(out) => match r {
            Ok(classes) => classes@.len() == out.value@.rows() && forall|i: int|
                0 <= i < classes@.len() ==> is_argmax(
                    out.value@.data,
                    out.value@.cols() as int,
                    i,
                    #[trigger] classes@[i] as int,
                ),
            Err(e) => e == Error::Mismatch && !(out.value@.is_matrix() && out.value@.cols() > 0),
        },
    }
}

/// What counting the hits of a prediction gives: the number of rows put in the class that
/// `targets` names for them. Whatever refuses the prediction refuses the count; other than
/// one target for each row is refused with `Mismatch`.
pub open spec fn counted(
    predicted: Result<Vec<usize>, Error>,
    targets: Seq<usize>,
    r: Result<usize, Error>,
) -> bool {
    match predicted {
        Err(e) => r == Err::<usize, Error>(e),
        Ok(classes) => if classes@.len() == targets.len() {
            r == Ok::<usize, Error>(agreements(classes@, targets, classes@.len()) as usize)
        } else {
            r == Err::<usize, Error>(Error::Mismatch)
        },
    }
}

/// What one step of training does, given where its parts have led: the loss is recorded,
/// the graph is walked backward from it, and the parameters are updated with the gradients.
/// The first part that fails ends the step with its error; what the parts before it did
/// stays done.
pub open spec fn stepped<N: Network, O: Optimizer>(
    output: Variable,
    target: TensorView,
    losses: TensorView,
    slope: TensorView,
    trained: (N, O),
    before: GraphView,
    loss: Step,
    walk: (GraphView, Result<HashMap<u64, Tensor>, Error>),
    after: (Seq<ParameterView>, O, GraphView),
    r: Result<Tensor, Error>,
) -> bool {
    &&& cross_entropy_recorded(output, target, losses, slope, before, loss.graph, loss.result)
    &&& match loss.result {
        Err(e) => r == Err::<Tensor, Error>(e) && after == (
            trained.0.parameters_view(),
            trained.1,
            loss.graph,
        ),
        Ok(l) => walked(l, loss.graph, walk.0, walk.1) && after.2 == walk.0 && match walk.1 {
            Err(e) => r == Err::<Tensor, Error>(e) && after.0 == trained.0.parameters_view()
                && after.1 == trained.1,
            Ok(gradients) => exists|u: Result<(), Error>|
                #[trigger] updated_all(trained.0, trained.1, gradients@, after.0, after.1, u)
                    && match u {
                    Err(e) => r == Err::<Tensor, Error>(e),
                    Ok(_) => r matches Ok(t) && t@ == l.value@,
                },
        },
    }
}

/// With gradient descent, an update that is not refused leaves the optimizer as it was and
/// every parameter one step against its gradient.
pub proof fn law_descent<N: Network>(
    network: N,
    start: Sgd,
    gradients: Map<u64, Tensor>,
    after: Seq<ParameterView>,
    end: Sgd,
    r: Result<(), Error>,
)
    requires
        updated_all(network, start, gradients, after, end, r),
        r is Ok,
    ensures
        end@ == start@,
        after.len() == network.parameters_view().len(),
        forall|i: int|
            0 <= i < after.len() ==> (#[trigger] after[i]).value == start.step(
                network.parameters_view()[i].id,
                network.parameters_view()[i].value,
                gradients,
            ),
{
    let before = network.parameters_view();
    lemma_descent(before, start, gradients, after, end, before.len());
}

proof fn lemma_descent(
    before: Seq<ParameterView>,
    start: Sgd,
    gradients: Map<u64, Tensor>,
    after: Seq<ParameterView>,
    end: Sgd,
    n: nat,
)
    requires
        n <= before.len(),
        after.len() == before.len(),
        applied(before, after, n, start, end, gradients, Ok::<(), Error>(())),
    ensures
        end@ == start@,
        forall|i: int|
            0 <= i < n ==> (#[trigger] after[i]).value == start.step(
                before[i].id,
                before[i].value,
                gradients,
            ),
    decreases n,
{
    if n > 0 {
        let o = choose|o: Sgd|
            #[trigger] passed(o) && applied(
                before,
                after,
                (n - 1) as nat,
                start,
                o,
                gradients,
                Ok::<(), Error>(()),
            ) && o.updates(
                end,
                before[n - 1].id,
                before[n - 1].value,
                gradients,
                after[n - 1].value,
                Ok::<(), Error>(()),
            );
        lemma_descent(before, start, gradients, after, o, (n - 1) as nat);
    }
}

/// The parameters that the views stand for, as far as an update reads them: their identities
/// and the values that the views start with.
pub open spec fn before_of(views: Seq<ParameterViewMut>) -> Seq<ParameterView> {
    Seq::new(
        views.len(),
        |i: int| ParameterView { id: views[i].id, value: views[i].value@, training: false },
    )
}

/// An update reads the identities and the values of the parameters only.
pub proof fn lemma_applied_same<O: Optimizer>(
    before: Seq<ParameterView>,
    after: Seq<ParameterView>,
    before2: Seq<ParameterView>,
    after2: Seq<ParameterView>,
    n: nat,
    start: O,
    end: O,
    gradients: Map<u64, Tensor>,
    r: Result<(), Error>,
)
    requires
        n <= before.len(),
        before.len() == after.len(),
        before2.len() == before.len(),
        after2.len() == before.len(),
        forall|i: int|
            0 <= i < n ==> (#[trigger] before[i]).id == before2[i].id && before[i].value
                == before2[i].value,
        forall|i: int| 0 <= i < n ==> (#[trigger] after[i]).value == after2[i].value,
        applied(before, after, n, start, end, gradients, r),
    ensures
        applied(before2, after2, n, start, end, gradients, r),
    decreases n,
{
    if n > 0 {
        let o = choose|o: O|
            #[trigger] passed(o) && applied(
                before,
                after,
                (n - 1) as nat,
                start,
                o,
                gradients,
                Ok::<(), Error>(()),
            ) && o.updates(
                end,
                before[n - 1].id,
                before[n - 1].value,
                gradients,
                after[n - 1].value,
                r,
            );
        lemma_applied_same(
            before,
            after,
            before2,
            after2,
            (n - 1) as nat,
            start,
            o,
            gradients,
            Ok::<(), Error>(()),
        );
        assert(before[n - 1].id == before2[n - 1].id);
        assert(after[n - 1].value == after2[n - 1].value);
        assert(passed(o));
    }
}

/// Hands the views to the optimizer, first to last, with the gradients of one backward
/// walk. The first refusal of the optimizer ends the pass with its error: the views before
/// it hold what the optimizer left them with, the view that was refused holds what the
/// optimizer left it with, and the views behind it hold what they held. Without a refusal
/// the result is `Ok`.
pub fn update_views<O: Optimizer>(
    optimizer: &mut O,
    views: Vec<ParameterViewMut<'_>>,
    gradients: &HashMap<u64, Tensor>,
) -> (r: Result<(), Error>)
    requires
        old(optimizer).ready(),
        gradients_wf(gradients@),
        forall|i: int| 0 <= i < views@.len() ==> (#[trigger] views@[i]).value.wf(),
    ensures
        final(optimizer).ready(),
        forall|i: int| 0 <= i < views@.len() ==> final((#[trigger] views@[i]).value).wf(),
        exists|k: nat, after: Seq<ParameterView>|
            {
                &&& k <= views@.len() && after.len() == views@.len()
                &&& forall|i: int|
                    0 <= i < views@.len() ==> (#[trigger] after[i]).value == final(views@[i].value)@
                &&& #[trigger] applied(
                    before_of(views@),
                    after,
                    k,
                    *old(optimizer),
                    *final(optimizer),
                    gradients@,
                    r,
                )
                &&& r is Ok ==> k == views@.len()
                &&& forall|i: int|
                    k <= i < views@.len() ==> (#[trigger] after[i]).value == views@[i].value@
            },
{
    let ghost all = views@;
    let ghost start = *optimizer;
    let ghost before = before_of(all);
    let ghost after = Seq::new(
        all.len(),
        |i: int| ParameterView { id: all[i].id, value: final(all[i].value)@, training: false },
    );
    let mut left = views;
    while left.len() > 0
        invariant
            all == views@,
            start == *old(optimizer),
            left@.len() <= all.len(),
            before == before_of(all),
            after.len() == all.len(),
            forall|i: int|
                0 <= i < all.len() ==> (#[trigger] after[i]).value == final(all[i].value)@,
            applied(
                before,
                after,
                (all.len() - left@.len()) as nat,
                start,
                *optimizer,
                gradients@,
                Ok(()),
            ),
            left@ == all.skip(all.len() - left@.len()),
            optimizer.ready(),
            gradients_wf(gradients@),
            forall|i: int| 0 <= i < left@.len() ==> (#[trigger] left@[i]).value.wf(),
            forall|i: int|
                0 <= i < all.len() - left@.len() ==> final((#[trigger] all[i]).value).wf(),
        decreases left@.len(),
    {
        let ghost done = all.len() - left@.len();
        let ghost rest = left@;
        let view = left.remove(0);
        proof {
            assert(view == rest[0]);
            assert(rest[0] == all[done]);
            assert(left@ =~= all.skip(done + 1)) by {
                assert forall|i: int| 0 <= i < left@.len() implies left@[i] == all.skip(
                    done + 1,
                )[i] by {
                    assert(left@[i] == rest[i + 1]);
                }
            }
            assert forall|i: int| 0 <= i < left@.len() implies (#[trigger] left@[i]).value.wf() by {
                assert(left@[i] == rest[i + 1]);
            }
        }
        let ghost earlier = *optimizer;
        let updated = optimizer.update(view, gradients);
        proof {
            assert(passed(earlier));
            assert(((done + 1) as nat - 1) as nat == done as nat);
            assert(before[done].id == all[done].id && before[done].value == all[done].value@);
            assert(applied(
                before,
                after,
                (done + 1) as nat,
                start,
                *optimizer,
                gradients@,
                updated,
            ));
        }
        match updated {
            Ok(_) => {
                assert(updated->Ok_0 == ());
                assert(updated == Ok::<(), Error>(()));
            },
            Err(e) => {
                proof {
                    assert(updated == Err::<(), Error>(e));
                    assert forall|i: int|
                        0 <= i < all.len() implies final((#[trigger] all[i]).value).wf() by {
                        if i > done {
                            assert(left@[i - done - 1] == all[i]);
                        }
                    }
                    assert forall|i: int| done + 1 <= i < all.len() implies (
                    #[trigger] after[i]).value == all[i].value@ by {
                        assert(left@[i - done - 1] == all[i]);
                    }
                }
                return Err(e);
            },
        }
    }
    Ok(())
}

/// Fits a network to labelled data with an optimizer.
#[derive(Debug)]
pub struct ClassificationTrainer<N: Network, O: Optimizer> {
    network: N,
    optimizer: O,
}

impl<N: Network, O: Optimizer> ClassificationTrainer<N, O> {
    /// The network that is trained.
    pub closed spec fn network_view(&self) -> N {
        self.network
    }

    /// The optimizer that updates the network.
    pub closed spec fn optimizer_view(&self) -> O {
        self.optimizer
    }

    /// The network's parameters are well formed and the optimizer can run.
    pub open spec fn wf(&self) -> bool {
        self.network_view().wf() && self.optimizer_view().ready()
    }

    /// A trainer of the given network with the given optimizer.
    pub fn from_network_optimizer(network: N, optimizer: O) -> (t: Self)
        ensures
            t.network_view() == network,
            t.optimizer_view() == optimizer,
    {
        Self { network, optimizer }
    }

    /// The network that is trained.
    pub fn network(&self) -> (n: &N)
        ensures
            *n == self.network_view(),
    {
        &self.network
    }

    /// The network that is trained, to prepare it for training or to move it.
    pub fn network_mut(&mut self) -> (n: &mut N)
        ensures
            *n == old(self).network_view(),
            final(self).network_view() == *final(n),
            final(self).optimizer_view() == old(self).optimizer_view(),
    {
        &mut self.network
    }

    /// The optimizer that updates the network.
    pub fn optimizer(&self) -> (o: &O)
        ensures
            *o == self.optimizer_view(),
    {
        &self.optimizer
    }

    /// Runs the network on `input`, recording the pass in `graph`.
    pub fn forward(&self, input: Tensor, graph: &mut Graph) -> (r: Result<Variable, Error>)
        requires
            self.wf(),
            input.wf(),
            old(graph).wf(),
        ensures
            final(graph).wf(),
            r matches Ok(v) ==> v.wf(),
            exists|x: Variable|
                x.node is None && x.value@ == input@ && self.network_view().forwards(
                    x,
                    old(graph)@,
                    final(graph)@,
                    r,
                ),
    {
        let x = Variable::from(input);
        self.network.forward(x, graph)
    }

    /// The class that the network gives each row of `input`: the place of the first
    /// greatest element of the row of the network's output. Whatever refuses the forward
    /// pass refuses the prediction; an output that is not a matrix with at least one column
    /// is refused with `Mismatch`.
    pub fn predict(&self, input: Tensor) -> (r: Result<Vec<usize>, Error>)
        requires
            self.wf(),
            input.wf(),
        ensures
            exists|x: Variable, before: GraphView, after: GraphView, y: Result<Variable, Error>|
                #[trigger] predicted(self.network_view(), input@, x, before, after, y, r),
    {
        let mut graph = Graph::new(0);
        let ghost before = graph@;
        let x = Variable::from(input);
        let y = self.network.forward(x, &mut graph);
        let ghost after = graph@;
        let r = match y {
            Ok(out) => out.value().argmax_rows(),
            Err(e) => Err(e),
        };
        proof {
            assert(predicted(self.network_view(), input@, x, before, after, y, r));
        }
        r
    }

    /// One step of training on one batch, once the network has run and the loss kernel has
    /// been computed on its output: the loss is recorded, the graph is walked backward, and
    /// the optimizer updates the parameters with the gradients. Gives the loss. The first
    /// refusal ends the step.
    pub fn train_step(
        &mut self,
        output: &Variable,
        target: &Tensor,
        computed: CrossEntropy,
        graph: &mut Graph,
    ) -> (r: Result<Tensor, Error>)
        requires
            old(self).wf(),
            output.wf(),
            target.wf(),
            computed.losses.wf(),
            computed.slope.wf(),
            old(graph).wf(),
        ensures
            final(self).wf(),
            final(graph).wf(),
            r matches Ok(loss) ==> loss.wf() && loss@ == computed.losses@.sum(),
            exists|loss: Step, walk: (GraphView, Result<HashMap<u64, Tensor>, Error>)|
                #[trigger] stepped(
                    *output,
                    target@,
                    computed.losses@,
                    computed.slope@,
                    (old(self).network_view(), old(self).optimizer_view()),
                    old(graph)@,
                    loss,
                    walk,
                    (
                        final(self).network_view().parameters_view(),
                        final(self).optimizer_view(),
                        final(graph)@,
                    ),
                    r,
                ),
    {
        let ghost trained = (self.network, self.optimizer);
        let ghost before = graph@;
        let ghost target_view = target@;
        let ghost losses = computed.losses@;
        let ghost slope = computed.slope@;
        let recorded = output.cross_entropy_loss(target, computed, graph);
        let ghost s = Step { graph: graph@, result: recorded };
        let loss = match recorded {
            Ok(loss) => loss,
            Err(e) => {
                proof {
                    let walk = (graph@, Err::<HashMap<u64, Tensor>, Error>(e));
                    assert(stepped(
                        *output,
                        target_view,
                        losses,
                        slope,
                        trained,
                        before,
                        s,
                        walk,
                        (self.network.parameters_view(), self.optimizer, graph@),
                        Err(e),
                    ));
                }
                return Err(e);
            },
        };
        let ghost nodes = graph@.nodes;
        let walked_result = loss.backward(graph);
        let ghost walk = (graph@, walked_result);
        let gradients = match walked_result {
            Ok(gradients) => gradients,
            Err(e) => {
                proof {
                    assert(stepped(
                        *output,
                        target_view,
                        losses,
                        slope,
                        trained,
                        before,
                        s,
                        walk,
                        (self.network.parameters_view(), self.optimizer, graph@),
                        Err(e),
                    ));
                }
                return Err(e);
            },
        };
        proof {
            assert forall|id: u64| #[trigger] gradients@.contains_key(id) implies gradients@[id].wf() by {
                if loss.node is Some {
                    let root = loss.node->Some_0.index as int;
                    let i = choose|i: int|
                        0 <= i <= root && (#[trigger] nodes[i]).parameter == Some(id) && crate::autograd::graph::adjoint(
                            nodes,
                            root,
                            i,
                        ) is Some;
                    assert(nodes[i].parameter is Some);
                }
            }
        }
        let u = self.update(&gradients);
        let r = match u {
            Ok(_) => Ok(loss.value().copy()),
            Err(e) => Err(e),
        };
        proof {
            assert(updated_all(
                trained.0,
                trained.1,
                gradients@,
                self.network.parameters_view(),
                self.optimizer,
                u,
            ));
            let after = (self.network.parameters_view(), self.optimizer, graph@);
            let l = s.result->Ok_0;
            let g = walk.1->Ok_0;
            assert(l == loss);
            assert(g == gradients);
            assert(updated_all(trained.0, trained.1, g@, after.0, after.1, u));
            assert(match u {
                Err(e) => r == Err::<Tensor, Error>(e),
                Ok(_) => r matches Ok(t) && t@ == l.value@,
            });
            assert(stepped(
                *output,
                target_view,
                losses,
                slope,
                trained,
                before,
                s,
                walk,
                after,
                r,
            ));
        }
        r
    }

    /// The number of rows of `input` that the network puts in the class that `targets`
    /// names for them. Whatever refuses the prediction refuses the count; other than one
    /// target for each row is refused with `Mismatch`.
    pub fn test_step(&self, input: Tensor, targets: &Vec<usize>) -> (r: Result<usize, Error>)
        requires
            self.wf(),
            input.wf(),
        ensures
            exists|
                x: Variable,
                before: GraphView,
                after: GraphView,
                y: Result<Variable, Error>,
                p: Result<Vec<usize>, Error>,
            |
                #[trigger] predicted(self.network_view(), input@, x, before, after, y, p)
                    && counted(p, targets@, r),
    {
        let p = self.predict(input);
        let r = match &p {
            Ok(classes) => accuracy(classes, targets),
            Err(e) => Err(*e),
        };
        proof {
            if p is Ok {
                crate::labels::lemma_agreements_bound(p->Ok_0@, targets@, p->Ok_0@.len());
            }
            assert(counted(p, targets@, r));
        }
        r
    }

    /// Hands the parameters of the network to the optimizer, one after the other, with the
    /// gradients of one backward walk. Where the network refuses its views, its error is the
    /// result and nothing has changed; else the views go to `update_views`, and the result
    /// is what that gives.
    pub fn update(&mut self, gradients: &HashMap<u64, Tensor>) -> (r: Result<(), Error>)
        requires
            old(self).wf(),
            gradients_wf(gradients@),
        ensures
            final(self).wf(),
            updated_all(
                old(self).network_view(),
                old(self).optimizer_view(),
                gradients@,
                final(self).network_view().parameters_view(),
                final(self).optimizer_view(),
                r,
            ),
    {
        let ghost before = self.network.parameters_view();
        let ghost start = self.optimizer;
        let views = match self.network.parameters_mut() {
            Ok(views) => views.into_vec(),
            Err(e) => {
                return Err(e);
            },
        };
        let ghost all = views@;
        let ghost after = after_borrow(self.network).parameters_view();
        let r = update_views(&mut self.optimizer, views, gradients);
        proof {
            let (k, given) = choose|k: nat, given: Seq<ParameterView>|
                {
                    &&& k <= all.len() && given.len() == all.len()
                    &&& forall|i: int|
                        0 <= i < all.len() ==> (#[trigger] given[i]).value == final(all[i].value)@
                    &&& #[trigger] applied(
                        before_of(all),
                        given,
                        k,
                        start,
                        self.optimizer,
                        gradients@,
                        r,
                    )
                    &&& r is Ok ==> k == all.len()
                    &&& forall|i: int|
                        k <= i < all.len() ==> (#[trigger] given[i]).value == all[i].value@
                };
            assert(all_wf(after)) by {
                assert forall|i: int| 0 <= i < after.len() implies (#[trigger] after[i]).value.wf() by {
                    assert(final(all[i].value).wf());
                }
            }
            lemma_applied_same(
                before_of(all),
                given,
                before,
                after,
                k,
                start,
                self.optimizer,
                gradients@,
                r,
            );
            assert forall|i: int| k <= i < before.len() implies after[i] == before[i] by {
                assert(given[i].value == all[i].value@);
            }
            assert(applied(before, after, k, start, self.optimizer, gradients@, r));
        }
        r
    }
}

} // verus!
