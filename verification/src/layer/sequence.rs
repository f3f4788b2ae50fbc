//! Layers one behind the other.
use crate::autograd::graph::{Graph, GraphView};
use crate::autograd::parameter::ParameterView;
use crate::autograd::variable::Variable;
use crate::error::Error;
use crate::layer::dense::Step;
use crate::layer::{
    all_wf, distinct, identities, lemma_distinct_kept, parameter_vec_items, views_of, with_device, with_scalar_type, with_training, Forward,
    Layer, ParameterMutVec, ParameterVec,
};
use crate::scalar::{Device, ScalarType};
use vstd::prelude::*;

verus! {

/// The parameters of the first `n` layers, layer by layer.
pub open spec fn flat_parameters<T: Layer>(layers: Seq<T>, n: nat) -> Seq<ParameterView>
    decreases n,
{
    if n == 0 {
        Seq::empty()
    } else {
        flat_parameters(layers, (n - 1) as nat) + layers[n - 1].parameters_view()
    }
}

/// Every parameter changed in the same way.
pub open spec fn mapped(
    ps: Seq<ParameterView>,
    f: spec_fn(ParameterView) -> ParameterView,
) -> Seq<ParameterView> {
    Seq::new(ps.len(), |i: int| f(ps[i]))
}

/// Where every layer's parameters were changed in one way, so were the parameters of all
/// layers.
pub proof fn lemma_flat_mapped<T: Layer>(
    before: Seq<T>,
    after: Seq<T>,
    n: nat,
    f: spec_fn(ParameterView) -> ParameterView,
)
    requires
        n <= before.len(),
        n <= after.len(),
        forall|j: int|
            0 <= j < n ==> (#[trigger] after[j]).parameters_view() == mapped(
                before[j].parameters_view(),
                f,
            ),
    ensures
        flat_parameters(after, n) == mapped(flat_parameters(before, n), f),
    decreases n,
{
    if n > 0 {
        lemma_flat_mapped(before, after, (n - 1) as nat, f);
        assert(after[n - 1].parameters_view() == mapped(before[n - 1].parameters_view(), f));
    }
    assert(flat_parameters(after, n) =~= mapped(flat_parameters(before, n), f));
}

/// Where every layer keeps the identities of its parameters, the parameters of all layers
/// keep theirs.
pub proof fn lemma_flat_identities<T: Layer>(before: Seq<T>, after: Seq<T>, n: nat)
    requires
        n <= before.len(),
        n <= after.len(),
        forall|j: int|
            0 <= j < n ==> identities((#[trigger] after[j]).parameters_view()) == identities(
                before[j].parameters_view(),
            ),
    ensures
        identities(flat_parameters(after, n)) == identities(flat_parameters(before, n)),
    decreases n,
{
    if n > 0 {
        lemma_flat_identities(before, after, (n - 1) as nat);
        crate::layer::lemma_groups_kept(
            flat_parameters(before, (n - 1) as nat),
            before[n - 1].parameters_view(),
            flat_parameters(after, (n - 1) as nat),
            after[n - 1].parameters_view(),
        );
    }
}

/// The parameters of the first `n` layers depend on those layers only.
pub proof fn lemma_flat_prefix<T: Layer>(a: Seq<T>, b: Seq<T>, n: nat)
    requires
        n <= a.len(),
        n <= b.len(),
        forall|j: int| 0 <= j < n ==> a[j] == b[j],
    ensures
        flat_parameters(a, n) == flat_parameters(b, n),
    decreases n,
{
    if n > 0 {
        lemma_flat_prefix(a, b, (n - 1) as nat);
    }
}

/// Marks the step that a pass has reached.
pub open spec fn reached(s: Step) -> bool {
    true
}

/// What running the first `n` layers one after the other gives, where none of them fails
/// before the last: the layers before the last lead to some step, and the last runs from
/// there.
pub open spec fn runs<T: Forward>(
    layers: Seq<T>,
    n: nat,
    input: Variable,
    before: GraphView,
    after: GraphView,
    r: Result<Variable, Error>,
) -> bool
    decreases n,
{
    if n == 0 {
        r == Ok::<Variable, Error>(input) && after == before
    } else {
        exists|s: Step|
            #[trigger] reached(s) && runs(layers, (n - 1) as nat, input, before, s.graph, s.result)
                && match s.result {
                Ok(v) => layers[n - 1].forwards(v, s.graph, after, r),
                Err(_) => false,
            }
    }
}

/// Marks the place at which a pass over layers has stopped.
pub open spec fn stopped(k: int) -> bool {
    true
}

/// What doing one thing to each layer in turn gives, where `step` says what the thing does
/// to one layer: the layers before some place are done, the layers behind it stay as they
/// were, and the layer at the place, if there is one, has failed with the result of the
/// pass.
pub open spec fn each<T>(
    before: Seq<T>,
    after: Seq<T>,
    r: Result<(), Error>,
    step: spec_fn(T, T, Result<(), Error>) -> bool,
) -> bool {
    &&& after.len() == before.len()
    &&& exists|k: int|
        {
            &&& #[trigger] stopped(k)
            &&& 0 <= k <= before.len()
            &&& forall|i: int|
                0 <= i < k ==> step(before[i], #[trigger] after[i], Ok::<(), Error>(()))
            &&& if k == before.len() {
                r is Ok
            } else {
                r is Err && step(before[k], after[k], r)
            }
            &&& forall|i: int| k < i < before.len() ==> #[trigger] after[i] == before[i]
        }
}

/// Layers one behind the other: the parameters of all of them, and each run on the output
/// of the one before. The first layer that fails ends a pass.
impl<T: Layer> Layer for Vec<T> {
    open spec fn wf(&self) -> bool {
        &&& forall|i: int| 0 <= i < self@.len() ==> (#[trigger] self@[i]).wf()
        &&& distinct(self.parameters_view())
    }

    open spec fn parameters_view(&self) -> Seq<ParameterView> {
        flat_parameters(self@, self@.len())
    }

    /// Every layer is prepared in turn. The first layer that fails ends the pass with its
    /// error: the layers before it are prepared, and the layers behind it stay as they were.
    open spec fn trains(&self, training: bool, after: Self, r: Result<(), Error>) -> bool {
        each(self@, after@, r, |a: T, b: T, q: Result<(), Error>| a.trains(training, b, q))
    }

    /// Every layer is cast in turn. The first layer that fails ends the pass with its error:
    /// the layers before it are cast, and the layers behind it stay as they were.
    open spec fn casts(&self, scalar_type: ScalarType, after: Self, r: Result<(), Error>) -> bool {
        each(self@, after@, r, |a: T, b: T, q: Result<(), Error>| a.casts(scalar_type, b, q))
    }

    /// Every layer is transferred in turn. The first layer that fails ends the pass with its
    /// error: the layers before it are transferred, and the layers behind it stay as they
    /// were.
    open spec fn transfers(&self, device: Device, after: Self, r: Result<(), Error>) -> bool {
        each(self@, after@, r, |a: T, b: T, q: Result<(), Error>| a.transfers(device, b, q))
    }

    /// The layers are transferred in turn and handed back. Where a layer fails, its error
    /// is the result.
    open spec fn moves(&self, device: Device, r: Result<Self, Error>) -> bool {
        match r {
            Ok(layers) => self.transfers(device, layers, Ok::<(), Error>(())),
            Err(e) => exists|after: Self|
                #[trigger] self.transfers(device, after, Err::<(), Error>(e)),
        }
    }

    /// The views are refused with the error of a layer that refuses its own.
    open spec fn refuses_views(&self, e: Error) -> bool {
        exists|i: int| 0 <= i < self@.len() && (#[trigger] self@[i]).refuses_views(e)
    }

    fn set_training(&mut self, training: bool) -> (r: Result<(), Error>)
        ensures
            final(self)@.len() == old(self)@.len(),
    {
        let ghost f = |p: ParameterView| p.trained(training);
        let mut i: usize = 0;
        while i < self.len()
            invariant
                i <= self@.len(),
                self@.len() == old(self)@.len(),
                forall|j: int| 0 <= j < self@.len() ==> (#[trigger] self@[j]).wf(),
                forall|j: int|
                    0 <= j < i ==> (#[trigger] self@[j]).parameters_view() == mapped(
                        old(self)@[j].parameters_view(),
                        f,
                    ),
                forall|j: int|
                    0 <= j < i ==> old(self)@[j].trains(
                        training,
                        #[trigger] self@[j],
                        Ok::<(), Error>(()),
                    ),
                forall|j: int| i <= j < self@.len() ==> self@[j] == old(self)@[j],
                forall|j: int|
                    0 <= j < self@.len() ==> identities((#[trigger] self@[j]).parameters_view())
                        == identities(old(self)@[j].parameters_view()),
                distinct(flat_parameters(old(self)@, old(self)@.len())),
                f == |p: ParameterView| p.trained(training),
            decreases self@.len() - i,
        {
            let ghost before = self@[i as int].parameters_view();
            let done = self[i].set_training(training);
            match done {
                Ok(_) => {
                    assert(with_training(before, training) =~= mapped(before, f));
                    assert(done->Ok_0 == ());
                    assert(done == Ok::<(), Error>(()));
                },
                Err(e) => {
                    proof {
                        lemma_flat_identities(old(self)@, self@, self@.len());
                        lemma_distinct_kept(
                            flat_parameters(old(self)@, self@.len()),
                            flat_parameters(self@, self@.len()),
                        );
                        assert(stopped(i as int));
                        assert(each(
                            old(self)@,
                            self@,
                            done,
                            |a: T, b: T, q: Result<(), Error>| a.trains(training, b, q),
                        ));
                    }
                    return Err(e);
                },
            }
            i += 1;
        }
        proof {
            lemma_flat_identities(old(self)@, self@, self@.len());
            lemma_distinct_kept(
                flat_parameters(old(self)@, self@.len()),
                flat_parameters(self@, self@.len()),
            );
            lemma_flat_mapped(old(self)@, self@, self@.len(), f);
            assert(mapped(old(self).parameters_view(), f) =~= with_training(
                old(self).parameters_view(),
                training,
            ));
            assert(stopped(self@.len() as int));
            assert(each(
                old(self)@,
                self@,
                Ok::<(), Error>(()),
                |a: T, b: T, q: Result<(), Error>| a.trains(training, b, q),
            ));
        }
        Ok(())
    }

    fn parameters(&self) -> (v: ParameterVec) {
        let mut parameters = ParameterVec::new();
        let mut i: usize = 0;
        while i < self.len()
            invariant
                i <= self@.len(),
                forall|j: int| 0 <= j < self@.len() ==> (#[trigger] self@[j]).wf(),
                parameter_vec_items(parameters) == flat_parameters(self@, i as nat),
            decreases self@.len() - i,
        {
            let of_layer = self[i].parameters();
            parameters.extend(&of_layer);
            i += 1;
        }
        parameters
    }

    fn parameters_mut(&mut self) -> (r: Result<ParameterMutVec<'_>, Error>) {
        proof {
            let before = flat_parameters(old(self)@, old(self)@.len());
            let after = flat_parameters(final(self)@, final(self)@.len());
            assert(identities(after) == identities(before) ==> distinct(after)) by {
                if identities(after) == identities(before) {
                    lemma_distinct_kept(before, after);
                }
            }
        }
        collect_views(self.as_mut_slice())
    }

    fn cast_mut(&mut self, scalar_type: ScalarType) -> (r: Result<(), Error>)
        ensures
            final(self)@.len() == old(self)@.len(),
    {
        let ghost f = |p: ParameterView| p.cast(scalar_type);
        let mut i: usize = 0;
        while i < self.len()
            invariant
                i <= self@.len(),
                self@.len() == old(self)@.len(),
                forall|j: int| 0 <= j < self@.len() ==> (#[trigger] self@[j]).wf(),
                forall|j: int|
                    0 <= j < i ==> (#[trigger] self@[j]).parameters_view() == mapped(
                        old(self)@[j].parameters_view(),
                        f,
                    ),
                forall|j: int|
                    0 <= j < i ==> old(self)@[j].casts(
                        scalar_type,
                        #[trigger] self@[j],
                        Ok::<(), Error>(()),
                    ),
                forall|j: int| i <= j < self@.len() ==> self@[j] == old(self)@[j],
                forall|j: int|
                    0 <= j < self@.len() ==> identities((#[trigger] self@[j]).parameters_view())
                        == identities(old(self)@[j].parameters_view()),
                distinct(flat_parameters(old(self)@, old(self)@.len())),
                f == |p: ParameterView| p.cast(scalar_type),
            decreases self@.len() - i,
        {
            let ghost before = self@[i as int].parameters_view();
            let done = self[i].cast_mut(scalar_type);
            match done {
                Ok(_) => {
                    assert(with_scalar_type(before, scalar_type) =~= mapped(before, f));
                    assert(done->Ok_0 == ());
                    assert(done == Ok::<(), Error>(()));
                },
                Err(e) => {
                    proof {
                        lemma_flat_identities(old(self)@, self@, self@.len());
                        lemma_distinct_kept(
                            flat_parameters(old(self)@, self@.len()),
                            flat_parameters(self@, self@.len()),
                        );
                        assert(stopped(i as int));
                        assert(each(
                            old(self)@,
                            self@,
                            done,
                            |a: T, b: T, q: Result<(), Error>| a.casts(scalar_type, b, q),
                        ));
                    }
                    return Err(e);
                },
            }
            i += 1;
        }
        proof {
            lemma_flat_identities(old(self)@, self@, self@.len());
            lemma_distinct_kept(
                flat_parameters(old(self)@, self@.len()),
                flat_parameters(self@, self@.len()),
            );
            lemma_flat_mapped(old(self)@, self@, self@.len(), f);
            assert(mapped(old(self).parameters_view(), f) =~= with_scalar_type(
                old(self).parameters_view(),
                scalar_type,
            ));
            assert(stopped(self@.len() as int));
            assert(each(
                old(self)@,
                self@,
                Ok::<(), Error>(()),
                |a: T, b: T, q: Result<(), Error>| a.casts(scalar_type, b, q),
            ));
        }
        Ok(())
    }

    fn to_device_mut(&mut self, device: Device) -> (r: Result<(), Error>)
        ensures
            final(self)@.len() == old(self)@.len(),
    {
        let ghost f = |p: ParameterView| p.moved(device);
        let mut i: usize = 0;
        while i < self.len()
            invariant
                i <= self@.len(),
                self@.len() == old(self)@.len(),
                forall|j: int| 0 <= j < self@.len() ==> (#[trigger] self@[j]).wf(),
                forall|j: int|
                    0 <= j < i ==> (#[trigger] self@[j]).parameters_view() == mapped(
                        old(self)@[j].parameters_view(),
                        f,
                    ),
                forall|j: int|
                    0 <= j < i ==> old(self)@[j].transfers(
                        device,
                        #[trigger] self@[j],
                        Ok::<(), Error>(()),
                    ),
                forall|j: int| i <= j < self@.len() ==> self@[j] == old(self)@[j],
                forall|j: int|
                    0 <= j < self@.len() ==> identities((#[trigger] self@[j]).parameters_view())
                        == identities(old(self)@[j].parameters_view()),
                distinct(flat_parameters(old(self)@, old(self)@.len())),
                f == |p: ParameterView| p.moved(device),
            decreases self@.len() - i,
        {
            let ghost before = self@[i as int].parameters_view();
            let done = self[i].to_device_mut(device);
            match done {
                Ok(_) => {
                    assert(with_device(before, device) =~= mapped(before, f));
                    assert(done->Ok_0 == ());
                    assert(done == Ok::<(), Error>(()));
                },
                Err(e) => {
                    proof {
                        lemma_flat_identities(old(self)@, self@, self@.len());
                        lemma_distinct_kept(
                            flat_parameters(old(self)@, self@.len()),
                            flat_parameters(self@, self@.len()),
                        );
                        assert(stopped(i as int));
                        assert(each(
                            old(self)@,
                            self@,
                            done,
                            |a: T, b: T, q: Result<(), Error>| a.transfers(device, b, q),
                        ));
                    }
                    return Err(e);
                },
            }
            i += 1;
        }
        proof {
            lemma_flat_identities(old(self)@, self@, self@.len());
            lemma_distinct_kept(
                flat_parameters(old(self)@, self@.len()),
                flat_parameters(self@, self@.len()),
            );
            lemma_flat_mapped(old(self)@, self@, self@.len(), f);
            assert(mapped(old(self).parameters_view(), f) =~= with_device(
                old(self).parameters_view(),
                device,
            ));
            assert(stopped(self@.len() as int));
            assert(each(
                old(self)@,
                self@,
                Ok::<(), Error>(()),
                |a: T, b: T, q: Result<(), Error>| a.transfers(device, b, q),
            ));
        }
        Ok(())
    }

    fn into_device(self, device: Device) -> (r: Result<Self, Error>)
        ensures
            r matches Ok(layers) ==> layers@.len() == self@.len(),
    {
        let mut layers = self;
        let done = layers.to_device_mut(device);
        match done {
            Ok(_) => {
                assert(done->Ok_0 == ());
                assert(done == Ok::<(), Error>(()));
                Ok(layers)
            },
            Err(e) => {
                assert(self.transfers(device, layers, Err::<(), Error>(e)));
                Err(e)
            },
        }
    }
}

/// The mutable views of the parameters of all the layers, layer by layer. Where a layer
/// refuses its views, its error is the result and the parameters of every layer stay as
/// they were.
pub fn collect_views<'a, T: Layer>(layers: &'a mut [T]) -> (r: Result<ParameterMutVec<'a>, Error>)
    requires
        forall|i: int| 0 <= i < old(layers)@.len() ==> (#[trigger] old(layers)@[i]).wf(),
    ensures
        final(layers)@.len() == old(layers)@.len(),
        match r {
            Ok(views) => {
                let before = flat_parameters(old(layers)@, old(layers)@.len());
                let after = flat_parameters(final(layers)@, final(layers)@.len());
                &&& views_of(before, views@)
                &&& forall|i: int| 0 <= i < views@.len() ==> (#[trigger] views@[i]).value.wf()
                &&& after.len() == views@.len()
                &&& forall|i: int|
                    0 <= i < views@.len() ==> #[trigger] after[i] == (ParameterView {
                        value: final(views@[i].value)@,
                        ..before[i]
                    })
                &&& all_wf(after) ==> forall|i: int|
                    0 <= i < final(layers)@.len() ==> (#[trigger] final(layers)@[i]).wf()
                &&& identities(after) == identities(before)
            },
            Err(e) => {
                &&& forall|i: int|
                    0 <= i < final(layers)@.len() ==> (#[trigger] final(layers)@[i]).wf()
                &&& flat_parameters(final(layers)@, final(layers)@.len()) == flat_parameters(
                    old(layers)@,
                    old(layers)@.len(),
                )
                &&& exists|i: int|
                    0 <= i < old(layers)@.len() && (#[trigger] old(layers)@[i]).refuses_views(e)
            },
        },
    decreases old(layers)@.len(),
{
    let n: usize = layers.len();
    if n == 0 {
        return Ok(ParameterMutVec::new());
    }
    let ghost all_before = layers@;
    let ghost all_after = final(layers)@;
    let (front, last) = layers.split_at_mut(n - 1);
    let ghost front_before = front@;
    let ghost front_after = final(front)@;
    let ghost last_before = last@[0];
    let ghost last_after = final(last)@;
    proof {
        assert(all_after == front_after + last_after);
        lemma_flat_prefix(front_before, all_before, (n - 1) as nat);
    }
    let ghost m = (n - 1) as nat;
    let mut views = match collect_views(front) {
        Ok(views) => views,
        Err(e) => {
            proof {
                assert(last_after == last@);
                let i = choose|i: int|
                    0 <= i < front_before.len() && (#[trigger] front_before[i]).refuses_views(e);
                assert(all_before[i] == front_before[i]);
                assert(all_before[i].refuses_views(e));
                lemma_flat_prefix(all_after, front_after, m);
                assert(all_after[n - 1] == last_before);
                assert(all_before[n - 1] == last_before);
                assert forall|i: int| 0 <= i < all_after.len() implies (
                #[trigger] all_after[i]).wf() by {
                    if i < m {
                        assert(all_after[i] == front_after[i]);
                    } else {
                        assert(all_after[i] == all_before[i]);
                    }
                }
            }
            return Err(e);
        },
    };
    let ghost head = views@;
    let mut tail = match last[0].parameters_mut() {
        Ok(tail) => tail,
        Err(e) => {
                // the views given so far are handed back, each as it was
                let released = views.into_vec();
                assert(released@ == head);
            proof {
                assert(all_before[n - 1] == last_before);
                assert(all_before[n - 1].refuses_views(e));
                lemma_flat_prefix(all_after, front_after, m);
                assert forall|i: int|
                    0 <= i < head.len() implies final((#[trigger] head[i]).value)@
                    == head[i].value@ by {}
                assert(flat_parameters(front_after, m) =~= flat_parameters(front_before, m));
                assert(all_after[n - 1] == last_after[0]);
                assert(all_wf(flat_parameters(front_after, m))) by {
                    assert forall|i: int|
                        0 <= i < flat_parameters(front_after, m).len() implies (
                    #[trigger] flat_parameters(front_after, m)[i]).value.wf() by {
                        assert(head[i].value.wf());
                    }
                }
                assert forall|i: int| 0 <= i < all_after.len() implies (
                #[trigger] all_after[i]).wf() by {
                    if i < m {
                        assert(all_after[i] == front_after[i]);
                    }
                }
            }
            return Err(e);
        },
    };
    let ghost rest = tail@;
    views.append(&mut tail);
    proof {
        assert(views@ =~= head + rest);
        lemma_flat_prefix(all_after, front_after, m);
        assert(all_after[n - 1] == last_after[0]);
        assert(all_before[n - 1] == last_before);
        let before = flat_parameters(all_before, n as nat);
        let after = flat_parameters(all_after, n as nat);
        let front_params = flat_parameters(front_before, m);
        let front_params_after = flat_parameters(front_after, m);
        assert(before == front_params + last_before.parameters_view());
        assert(after == front_params_after + last_after[0].parameters_view());
        assert(head.len() == front_params.len());
        assert(rest.len() == last_before.parameters_view().len());
        assert forall|i: int| 0 <= i < views@.len() implies #[trigger] after[i] == (ParameterView {
            value: final(views@[i].value)@,
            ..before[i]
        }) by {
            if i < head.len() {
                assert(views@[i] == head[i]);
                assert(after[i] == front_params_after[i]);
                assert(before[i] == front_params[i]);
            } else {
                let k = i - head.len();
                assert(views@[i] == rest[k]);
                assert(after[i] == last_after[0].parameters_view()[k]);
                assert(before[i] == last_before.parameters_view()[k]);
            }
        }
        assert forall|i: int| 0 <= i < views@.len() implies (#[trigger] views@[i]).id
            == before[i].id && views@[i].value@ == before[i].value && views@[i].value.wf() by {
            if i < head.len() {
                assert(views@[i] == head[i]);
                assert(before[i] == front_params[i]);
            } else {
                let k = i - head.len();
                assert(views@[i] == rest[k]);
                assert(before[i] == last_before.parameters_view()[k]);
            }
        }
        assert(identities(after) =~= identities(before));
        assert(all_wf(after) ==> forall|i: int|
            0 <= i < all_after.len() ==> (#[trigger] all_after[i]).wf()) by {
            if all_wf(after) {
                assert(all_wf(front_params_after)) by {
                    assert forall|i: int| 0 <= i < front_params_after.len() implies (
                    #[trigger] front_params_after[i]).value.wf() by {
                        assert(after[i] == front_params_after[i]);
                    }
                }
                assert(all_wf(last_after[0].parameters_view())) by {
                    assert forall|k: int|
                        0 <= k < last_after[0].parameters_view().len() implies (
                    #[trigger] last_after[0].parameters_view()[k]).value.wf() by {
                        assert(after[front_params_after.len() + k]
                            == last_after[0].parameters_view()[k]);
                    }
                }
                assert forall|i: int| 0 <= i < all_after.len() implies (
                #[trigger] all_after[i]).wf() by {
                    if i < m {
                        assert(all_after[i] == front_after[i]);
                    }
                }
            }
        }
    }
    Ok(views)
}

impl<T: Forward> Forward for Vec<T> {
    open spec fn forwards(
        &self,
        input: Variable,
        before: GraphView,
        after: GraphView,
        r: Result<Variable, Error>,
    ) -> bool {
        exists|k: nat|
            k <= self@.len() && #[trigger] runs(self@, k, input, before, after, r) && (r is Ok
                ==> k == self@.len())
    }

    fn forward(&self, input: Variable, graph: &mut Graph) -> (r: Result<Variable, Error>) {
        let ghost before = graph@;
        let ghost first = input;
        let mut current = input;
        let mut i: usize = 0;
        while i < self.len()
            invariant
                i <= self@.len(),
                graph.wf(),
                current.wf(),
                forall|j: int| 0 <= j < self@.len() ==> (#[trigger] self@[j]).wf(),
                first == input,
                before == old(graph)@,
                runs(self@, i as nat, first, before, graph@, Ok(current)),
            decreases self@.len() - i,
        {
            let ghost s = Step { graph: graph@, result: Ok(current) };
            let r = self[i].forward(current, graph);
            proof {
                assert((((i + 1) as nat) - 1) as nat == i as nat);
                assert(runs(self@, i as nat, first, before, s.graph, s.result));
                assert(reached(s));
                assert(runs(self@, (i + 1) as nat, first, before, graph@, r));
            }
            match r {
                Ok(output) => {
                    current = output;
                },
                Err(e) => {
                    return Err(e);
                },
            }
            i += 1;
        }
        Ok(current)
    }
}

} // verus!
