//! Class labels: one-hot targets and the accuracy of predictions.
use crate::error::Error;
use crate::geometry::lemma_split;
use crate::linalg::lemma_matrix_size;
use crate::scalar::{Device, ScalarType};
use crate::tensor::{checked_size, Kind, KindView, Tensor, TensorView};
use vstd::prelude::*;

verus! {

/// The number of places among the first `n` at which the two sequences agree.
pub open spec fn agreements(a: Seq<usize>, b: Seq<usize>, n: nat) -> nat
    decreases n,
{
    if n == 0 {
        0
    } else {
        agreements(a, b, (n - 1) as nat) + if a[n - 1] == b[n - 1] {
            1nat
        } else {
            0nat
        }
    }
}

/// There are no more agreements than places.
pub proof fn lemma_agreements_bound(a: Seq<usize>, b: Seq<usize>, n: nat)
    ensures
        agreements(a, b, n) <= n,
    decreases n,
{
    if n > 0 {
        lemma_agreements_bound(a, b, (n - 1) as nat);
    }
}

/// The number of predictions that hit their target. Refused with `Mismatch` exactly where
/// there is not one target for each prediction.
pub fn accuracy(predictions: &Vec<usize>, targets: &Vec<usize>) -> (r: Result<usize, Error>)
    ensures
        match r {
            Ok(n) => n == agreements(predictions@, targets@, predictions@.len()),
            Err(e) => e == Error::Mismatch,
        },
        r is Ok <==> predictions@.len() == targets@.len(),
{
    if predictions.len() != targets.len() {
        return Err(Error::Mismatch);
    }
    let mut correct: usize = 0;
    let mut i: usize = 0;
    while i < predictions.len()
        invariant
            i <= predictions@.len(),
            predictions@.len() == targets@.len(),
            correct == agreements(predictions@, targets@, i as nat),
            correct <= i,
        decreases predictions@.len() - i,
    {
        if predictions[i] == targets[i] {
            correct += 1;
        }
        i += 1;
    }
    Ok(correct)
}

/// The one-hot matrix of the labels: one row for each label, one column for each class, a
/// one where the column is the label's class and zeros elsewhere. A label that names no
/// class gives a row of zeros.
pub open spec fn one_hot_of(labels: Seq<usize>, classes: usize) -> TensorView {
    TensorView {
        kind: KindView {
            shape: seq![labels.len() as usize, classes],
            scalar_type: ScalarType::F32,
            device: Device::Host,
        },
        data: Seq::new(
            (labels.len() * classes) as nat,
            |p: int|
                if labels[p / (classes as int)] == p % (classes as int) {
                    1i64
                } else {
                    0i64
                },
        ),
    }
}

/// The one-hot matrix of the labels, declared as `F32` on the host. Refused with `TooLarge`
/// exactly where the matrix spans more elements than `usize` can count.
pub fn one_hot(labels: &Vec<usize>, classes: usize) -> (r: Result<Tensor, Error>)
    ensures
        match r {
            Ok(t) => t.wf() && t@ == one_hot_of(labels@, classes),
            Err(e) => e == Error::TooLarge,
        },
        r is Ok <==> labels@.len() * classes <= usize::MAX,
{
    let n: usize = labels.len();
    let mut shape: Vec<usize> = Vec::new();
    shape.push(n);
    shape.push(classes);
    proof {
        assert(shape@ =~= seq![n, classes]);
        lemma_matrix_size(shape@);
    }
    let total: usize = match checked_size(&shape) {
        Some(total) => total,
        None => {
            return Err(Error::TooLarge);
        },
    };
    let mut data: Vec<i64> = Vec::new();
    let mut p: usize = 0;
    while p < total
        invariant
            p <= total,
            total == n * classes,
            n == labels@.len(),
            data@.len() == p,
            forall|q: int|
                0 <= q < p ==> #[trigger] data@[q] == if labels@[q / (classes as int)] == q % (
                classes as int) {
                    1i64
                } else {
                    0i64
                },
        decreases total - p,
    {
        proof {
            assert(classes >= 1) by (nonlinear_arith)
                requires
                    p < n * classes,
                    n >= 0,
                    classes >= 0,
            ;
            lemma_split(p as int, n as int, classes as int);
        }
        let hit: bool = labels[p / classes] == p % classes;
        data.push(if hit {
            1
        } else {
            0
        });
        p += 1;
    }
    let kind = Kind { shape, scalar_type: ScalarType::F32, device: Device::Host };
    proof {
        assert(data@ =~= one_hot_of(labels@, classes).data);
    }
    Ok(Tensor::from_parts(kind, data))
}

} // verus!
