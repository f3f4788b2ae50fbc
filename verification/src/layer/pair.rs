//! Two layers, one behind the other. Pairs of pairs compose networks of layers of any types.
use crate::autograd::graph::{Graph, GraphView};
use crate::autograd::parameter::ParameterView;
use crate::autograd::variable::Variable;
use crate::error::Error;
use crate::layer::dense::Step;
use crate::layer::sequence::reached;
use crate::layer::{
    all_wf, distinct, identities, lemma_distinct_kept, lemma_groups_kept, with_device,
    with_scalar_type, with_training, Forward, Layer, ParameterMutVec, ParameterVec,
};
use crate::scalar::{Device, ScalarType};
use vstd::prelude::*;

verus! {

/// Marks the result that the first of two steps has given.
pub open spec fn tried<R>(first: R) -> bool {
    true
}

impl<A: Layer, B: Layer> Layer for (A, B) {
    open spec fn wf(&self) -> bool {
        self.0.wf() && self.1.wf() && distinct(self.parameters_view())
    }

    open spec fn parameters_view(&self) -> Seq<ParameterView> {
        self.0.parameters_view() + self.1.parameters_view()
    }

    /// The first layer is prepared, then the second. Where the first fails, the second stays
    /// as it was and the error of the first is the result; else the result is that of the
    /// second.
    open spec fn trains(&self, training: bool, after: Self, r: Result<(), Error>) -> bool {
        exists|first: Result<(), Error>|
            #[trigger] tried(first) && self.0.trains(training, after.0, first) && match first {
                Err(e) => r == Err::<(), Error>(e) && after.1 == self.1,
                Ok(_) => self.1.trains(training, after.1, r),
            }
    }

    /// The first layer is cast, then the second. Where the first fails, the second stays as
    /// it was and the error of the first is the result; else the result is that of the
    /// second.
    open spec fn casts(&self, scalar_type: ScalarType, after: Self, r: Result<(), Error>) -> bool {
        exists|first: Result<(), Error>|
            #[trigger] tried(first) && self.0.casts(scalar_type, after.0, first) && match first {
                Err(e) => r == Err::<(), Error>(e) && after.1 == self.1,
                Ok(_) => self.1.casts(scalar_type, after.1, r),
            }
    }

    /// The first layer is transferred, then the second. Where the first fails, the second
    /// stays as it was and the error of the first is the result; else the result is that of
    /// the second.
    open spec fn transfers(&self, device: Device, after: Self, r: Result<(), Error>) -> bool {
        exists|first: Result<(), Error>|
            #[trigger] tried(first) && self.0.transfers(device, after.0, first) && match first {
                Err(e) => r == Err::<(), Error>(e) && after.1 == self.1,
                Ok(_) => self.1.transfers(device, after.1, r),
            }
    }

    /// The first layer is moved, then the second, and both are handed back. The first error
    /// is the result.
    open spec fn moves(&self, device: Device, r: Result<Self, Error>) -> bool {
        exists|first: Result<A, Error>|
            #[trigger] tried(first) && self.0.moves(device, first) && match first {
                Err(e) => r == Err::<Self, Error>(e),
                Ok(a) => exists|second: Result<B, Error>|
                    #[trigger] tried(second) && self.1.moves(device, second) && match second {
                        Err(e) => r == Err::<Self, Error>(e),
                        Ok(b) => r == Ok::<Self, Error>((a, b)),
                    },
            }
    }

    /// The views are refused with the error of the layer that refuses its own.
    open spec fn refuses_views(&self, e: Error) -> bool {
        self.0.refuses_views(e) || self.1.refuses_views(e)
    }

    fn set_training(&mut self, training: bool) -> (r: Result<(), Error>) {
        let first = self.0.set_training(training);
        proof {
            assert(tried(first));
        }
        match first {
            Ok(_) => {},
            Err(e) => {
                proof {
            lemma_groups_kept(
                old(self).0.parameters_view(),
                old(self).1.parameters_view(),
                self.0.parameters_view(),
                self.1.parameters_view(),
            );
        }
                return Err(e);
            },
        }
        let second = self.1.set_training(training);
        proof {
            lemma_groups_kept(
                old(self).0.parameters_view(),
                old(self).1.parameters_view(),
                self.0.parameters_view(),
                self.1.parameters_view(),
            );
        }
        match second {
            Ok(_) => {},
            Err(e) => {
                return Err(e);
            },
        }
        assert(self.parameters_view() =~= with_training(old(self).parameters_view(), training));
        second
    }

    fn parameters(&self) -> (v: ParameterVec) {
        let mut parameters = self.0.parameters();
        let second = self.1.parameters();
        parameters.extend(&second);
        parameters
    }

    fn parameters_mut(&mut self) -> (r: Result<ParameterMutVec<'_>, Error>) {
        let ghost first_before = self.0.parameters_view();
        let ghost second_before = self.1.parameters_view();
        let ghost first_after = final(self).0.parameters_view();
        let ghost second_after = final(self).1.parameters_view();
        proof {
            assert(distinct(first_before + second_before));
            assert(identities(first_after + second_after) == identities(
                first_before + second_before,
            ) ==> distinct(first_after + second_after)) by {
                if identities(first_after + second_after) == identities(
                    first_before + second_before,
                ) {
                    lemma_distinct_kept(
                        first_before + second_before,
                        first_after + second_after,
                    );
                }
            }
        }
        let mut views = match self.0.parameters_mut() {
            Ok(views) => views,
            Err(e) => {
                proof {
                    assert(first_after + second_after =~= first_before + second_before);
                }
                return Err(e);
            },
        };
        let ghost head = views@;
        let mut tail = match self.1.parameters_mut() {
            Ok(tail) => tail,
            Err(e) => {
                // the views given so far are handed back, each as it was
                let released = views.into_vec();
                assert(released@ == head);
                proof {
                    assert forall|i: int|
                        0 <= i < head.len() implies final((#[trigger] head[i]).value)@
                        == head[i].value@ by {}
                    assert(first_after =~= first_before);
                    assert(first_after + second_after =~= first_before + second_before);
                    assert(all_wf(first_after)) by {
                        assert forall|i: int| 0 <= i < first_after.len() implies (
                        #[trigger] first_after[i]).value.wf() by {
                            assert(head[i].value.wf());
                        }
                    }
                }
                return Err(e);
            },
        };
        let ghost rest = tail@;
        views.append(&mut tail);
        proof {
            assert(views@ =~= head + rest);
            let before = first_before + second_before;
            let after = first_after + second_after;
            assert forall|i: int| 0 <= i < views@.len() implies #[trigger] after[i] == (ParameterView {
                value: final(views@[i].value)@,
                ..before[i]
            }) && views@[i].id == before[i].id && views@[i].value@ == before[i].value
                && views@[i].value.wf() by {
                if i < head.len() {
                    assert(views@[i] == head[i]);
                    assert(after[i] == first_after[i]);
                    assert(before[i] == first_before[i]);
                } else {
                    let k = i - head.len();
                    assert(views@[i] == rest[k]);
                    assert(after[i] == second_after[k]);
                    assert(before[i] == second_before[k]);
                }
            }
            assert(identities(after) =~= identities(before));
            assert(all_wf(after) ==> all_wf(first_after) && all_wf(second_after)) by {
                if all_wf(after) {
                    assert forall|i: int| 0 <= i < first_after.len() implies (
                    #[trigger] first_after[i]).value.wf() by {
                        assert(after[i] == first_after[i]);
                    }
                    assert forall|k: int| 0 <= k < second_after.len() implies (
                    #[trigger] second_after[k]).value.wf() by {
                        assert(after[first_after.len() + k] == second_after[k]);
                    }
                }
            }
        }
        Ok(views)
    }

    fn cast_mut(&mut self, scalar_type: ScalarType) -> (r: Result<(), Error>) {
        let first = self.0.cast_mut(scalar_type);
        proof {
            assert(tried(first));
        }
        match first {
            Ok(_) => {},
            Err(e) => {
                proof {
            lemma_groups_kept(
                old(self).0.parameters_view(),
                old(self).1.parameters_view(),
                self.0.parameters_view(),
                self.1.parameters_view(),
            );
        }
                return Err(e);
            },
        }
        let second = self.1.cast_mut(scalar_type);
        proof {
            lemma_groups_kept(
                old(self).0.parameters_view(),
                old(self).1.parameters_view(),
                self.0.parameters_view(),
                self.1.parameters_view(),
            );
        }
        match second {
            Ok(_) => {},
            Err(e) => {
                return Err(e);
            },
        }
        assert(self.parameters_view() =~= with_scalar_type(old(self).parameters_view(), scalar_type));
        second
    }

    fn to_device_mut(&mut self, device: Device) -> (r: Result<(), Error>) {
        let first = self.0.to_device_mut(device);
        proof {
            assert(tried(first));
        }
        match first {
            Ok(_) => {},
            Err(e) => {
                proof {
            lemma_groups_kept(
                old(self).0.parameters_view(),
                old(self).1.parameters_view(),
                self.0.parameters_view(),
                self.1.parameters_view(),
            );
        }
                return Err(e);
            },
        }
        let second = self.1.to_device_mut(device);
        proof {
            lemma_groups_kept(
                old(self).0.parameters_view(),
                old(self).1.parameters_view(),
                self.0.parameters_view(),
                self.1.parameters_view(),
            );
        }
        match second {
            Ok(_) => {},
            Err(e) => {
                return Err(e);
            },
        }
        assert(self.parameters_view() =~= with_device(old(self).parameters_view(), device));
        second
    }

    fn into_device(self, device: Device) -> (r: Result<Self, Error>) {
        let (first, second) = self;
        let moved_first = first.into_device(device);
        proof {
            assert(tried(moved_first));
        }
        let first = match moved_first {
            Ok(first) => first,
            Err(e) => {
                return Err(e);
            },
        };
        let moved_second = second.into_device(device);
        proof {
            assert(tried(moved_second));
        }
        let second = match moved_second {
            Ok(second) => second,
            Err(e) => {
                return Err(e);
            },
        };
        let pair = (first, second);
        proof {
            assert(pair.parameters_view() =~= with_device(self.parameters_view(), device));
            assert(identities(pair.parameters_view()) =~= identities(self.parameters_view()));
            lemma_distinct_kept(self.parameters_view(), pair.parameters_view());
        }
        Ok(pair)
    }
}

impl<A: Forward, B: Forward> Forward for (A, B) {
    /// The first layer runs on the input and the second on what the first gives. Where the
    /// first fails, the pass ends with its error and the graph stays as the first left it.
    open spec fn forwards(
        &self,
        input: Variable,
        before: GraphView,
        after: GraphView,
        r: Result<Variable, Error>,
    ) -> bool {
        exists|s: Step|
            #[trigger] reached(s) && self.0.forwards(input, before, s.graph, s.result)
                && match s.result {
                Err(e) => r == Err::<Variable, Error>(e) && after == s.graph,
                Ok(v) => self.1.forwards(v, s.graph, after, r),
            }
    }

    fn forward(&self, input: Variable, graph: &mut Graph) -> (r: Result<Variable, Error>) {
        let first = self.0.forward(input, graph);
        let ghost s = Step { graph: graph@, result: first };
        proof {
            assert(reached(s));
        }
        match first {
            Ok(v) => self.1.forward(v, graph),
            Err(e) => Err(e),
        }
    }
}

} // verus!
