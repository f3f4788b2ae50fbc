//! Tensors rearranged by index maps: gathering elements and scattering gradients back.
use crate::autograd::grad_fn::same_tags;
use crate::error::Error;
use crate::scalar::{sat_add, scalar_add};
use crate::tensor::{checked_size, shape_size, Kind, KindView, Tensor, TensorView};
use vstd::prelude::*;

verus! {

/// Every place that the map names lies among the first `n`.
pub open spec fn index_valid(index: Seq<Option<usize>>, n: nat) -> bool {
    forall|p: int| 0 <= p < index.len() ==> ((#[trigger] index[p]) matches Some(q) ==> q < n)
}

/// What the first `k` elements of `dy` add up to at each of `n` places, where element `p`
/// goes to the place `index[p]`, and nowhere where the map names none. The sums saturate and
/// are taken front to back.
pub open spec fn scatter_to(dy: Seq<i64>, index: Seq<Option<usize>>, n: nat, k: nat) -> Seq<i64>
    decreases k,
{
    if k == 0 {
        Seq::new(n, |i: int| 0i64)
    } else {
        let prev = scatter_to(dy, index, n, (k - 1) as nat);
        match index[k - 1] {
            Some(q) => if q < n {
                prev.update(q as int, sat_add(prev[q as int], dy[k - 1]))
            } else {
                prev
            },
            None => prev,
        }
    }
}

/// Scattering keeps the number of places.
pub proof fn lemma_scatter_len(dy: Seq<i64>, index: Seq<Option<usize>>, n: nat, k: nat)
    ensures
        scatter_to(dy, index, n, k).len() == n,
    decreases k,
{
    if k > 0 {
        lemma_scatter_len(dy, index, n, (k - 1) as nat);
    }
}

impl TensorView {
    /// Whether this tensor can be gathered by `index` into `shape`: the map has one entry
    /// for each element of the shape and names places of this tensor only.
    pub open spec fn can_gather(self, index: Seq<Option<usize>>, shape: Seq<usize>) -> bool {
        index.len() == shape_size(shape) && index_valid(index, self.data.len())
    }

    /// The tensor of the given shape whose element `p` is this tensor's element at the place
    /// `index[p]`, and zero where the map names none.
    pub open spec fn gather(self, index: Seq<Option<usize>>, shape: Seq<usize>) -> TensorView {
        TensorView {
            kind: KindView {
                shape,
                scalar_type: self.kind.scalar_type,
                device: self.kind.device,
            },
            data: Seq::new(
                index.len(),
                |p: int|
                    match index[p] {
                        Some(q) => self.data[q as int],
                        None => 0i64,
                    },
            ),
        }
    }

    /// Why this tensor cannot be scattered by `index` into a tensor of kind `kind`, if it
    /// cannot: `Mismatch` where the map does not have one entry for each element or the
    /// scalar type or device differs; `TooLarge` where the kind spans more elements than
    /// `usize` can count; `Mismatch` where the map names a place outside the kind.
    pub open spec fn scatter_error(self, index: Seq<Option<usize>>, kind: KindView) -> Option<
        Error,
    > {
        if self.data.len() != index.len() || !same_tags(self.kind, kind) {
            Some(Error::Mismatch)
        } else if shape_size(kind.shape) > usize::MAX {
            Some(Error::TooLarge)
        } else if !index_valid(index, shape_size(kind.shape)) {
            Some(Error::Mismatch)
        } else {
            None
        }
    }

    /// The tensor of kind `kind` that holds, at each place, the sum of this tensor's
    /// elements that `index` sends there: what gathering by `index` does to gradients.
    pub open spec fn scatter(self, index: Seq<Option<usize>>, kind: KindView) -> TensorView {
        TensorView {
            kind,
            data: scatter_to(self.data, index, shape_size(kind.shape), index.len()),
        }
    }
}

impl Tensor {
    /// Gathers the elements of this tensor by `index` into a tensor of the given shape.
    /// Refused with `Mismatch` exactly where the map does not have one entry for each
    /// element of the shape or names a place outside this tensor.
    pub fn gather(&self, index: &Vec<Option<usize>>, shape: Vec<usize>) -> (r: Result<
        Tensor,
        Error,
    >)
        requires
            self.wf(),
        ensures
            match r {
                Ok(t) => t.wf() && t@ == self@.gather(index@, shape@),
                Err(e) => e == Error::Mismatch,
            },
            r is Ok <==> self@.can_gather(index@, shape@),
    {
        let total: usize = index.len();
        match checked_size(&shape) {
            Some(n) => {
                if n != total {
                    return Err(Error::Mismatch);
                }
            },
            None => {
                return Err(Error::Mismatch);
            },
        }
        let x = self.data();
        let mut data: Vec<i64> = Vec::new();
        let mut p: usize = 0;
        while p < total
            invariant
                p <= total,
                total == index@.len(),
                total == shape_size(shape@),
                x@ == self@.data,
                data@.len() == p,
                forall|i: int|
                    0 <= i < p ==> ((#[trigger] index@[i]) matches Some(q) ==> q < x@.len()),
                forall|i: int|
                    0 <= i < p ==> #[trigger] data@[i] == match index@[i] {
                        Some(q) => x@[q as int],
                        None => 0i64,
                    },
            decreases total - p,
        {
            match index[p] {
                Some(q) => {
                    if q >= x.len() {
                        assert(!index_valid(index@, x@.len())) by {
                            assert(index@[p as int] == Some(q));
                        }
                        return Err(Error::Mismatch);
                    }
                    data.push(x[q]);
                },
                None => {
                    data.push(0);
                },
            }
            p += 1;
        }
        let kind = Kind { shape, scalar_type: self.scalar_type(), device: self.device() };
        proof {
            assert(data@ =~= self@.gather(index@, kind@.shape).data);
        }
        Ok(Tensor::from_parts(kind, data))
    }

    /// Scatters the elements of this tensor by `index` into a tensor of kind `kind`, summing
    /// what arrives at one place.
    pub fn scatter(&self, index: &Vec<Option<usize>>, kind: &Kind) -> (r: Result<Tensor, Error>)
        requires
            self.wf(),
        ensures
            match r {
                Ok(t) => t.wf() && t@ == self@.scatter(index@, kind@) && self@.scatter_error(
                    index@,
                    kind@,
                ) is None,
                Err(e) => self@.scatter_error(index@, kind@) == Some(e),
            },
    {
        let total: usize = index.len();
        if self.len() != total || self.scalar_type() != kind.scalar_type || self.device()
            != kind.device {
            return Err(Error::Mismatch);
        }
        let n: usize = match checked_size(&kind.shape) {
            Some(n) => n,
            None => {
                return Err(Error::TooLarge);
            },
        };
        let dy = self.data();
        let mut data: Vec<i64> = Vec::new();
        let mut i: usize = 0;
        while i < n
            invariant
                i <= n,
                data@.len() == i,
                forall|j: int| 0 <= j < i ==> data@[j] == 0,
            decreases n - i,
        {
            data.push(0);
            i += 1;
        }
        assert(data@ =~= scatter_to(dy@, index@, n as nat, 0));
        let mut k: usize = 0;
        while k < total
            invariant
                k <= total,
                total == index@.len(),
                dy@.len() == total,
                dy@ == self@.data,
                same_tags(self@.kind, kind@),
                n == shape_size(kind@.shape),
                data@.len() == n,
                data@ == scatter_to(dy@, index@, n as nat, k as nat),
                forall|i: int|
                    0 <= i < k ==> ((#[trigger] index@[i]) matches Some(q) ==> q < n),
            decreases total - k,
        {
            match index[k] {
                Some(q) => {
                    if q >= n {
                        assert(!index_valid(index@, n as nat)) by {
                            assert(index@[k as int] == Some(q));
                        }
                        return Err(Error::Mismatch);
                    }
                    let sum: i64 = scalar_add(data[q], dy[k]);
                    data.set(q, sum);
                },
                None => {},
            }
            k += 1;
        }
        Ok(Tensor::from_parts(kind.copy(), data))
    }
}

} // verus!
