//! Matrices: products, transposes and reductions over rows.
use crate::error::Error;
use crate::scalar::{sat_add, sat_mul, scalar_add, scalar_mul, Device, ScalarType};
use crate::tensor::{shape_size, Kind, KindView, Tensor, TensorView};
use vstd::arithmetic::div_mod::{lemma_fundamental_div_mod_converse, lemma_mod_bound};
use vstd::prelude::*;

verus! {

/// The saturating inner product of row `i` of `a` and column `j` of `b`, over the first `l`
/// terms: `a` has `k` columns and `b` has `n`.
pub open spec fn dot_at(a: Seq<i64>, b: Seq<i64>, k: int, n: int, i: int, j: int, l: nat) -> i64
    decreases l,
{
    if l == 0 {
        0
    } else {
        sat_add(dot_at(a, b, k, n, i, j, (l - 1) as nat), sat_mul(a[i * k + l - 1], b[(l - 1) * n + j]))
    }
}

/// The saturating sum of column `j` of a matrix with `n` columns, over its first `rows` rows.
pub open spec fn column_sum(a: Seq<i64>, n: int, j: int, rows: nat) -> i64
    decreases rows,
{
    if rows == 0 {
        0
    } else {
        sat_add(column_sum(a, n, j, (rows - 1) as nat), a[(rows - 1) * n + j])
    }
}

/// The kind of a matrix with the given rows and columns.
pub open spec fn matrix_kind(rows: usize, cols: usize, like: KindView) -> KindView {
    KindView { shape: seq![rows, cols], scalar_type: like.scalar_type, device: like.device }
}

impl TensorView {
    /// A tensor with two axes.
    pub open spec fn is_matrix(self) -> bool {
        self.kind.shape.len() == 2
    }

    pub open spec fn rows(self) -> usize {
        self.kind.shape[0]
    }

    pub open spec fn cols(self) -> usize {
        self.kind.shape[1]
    }

    /// Whether `self · rhs` is defined: two matrices of one scalar type on one device, the
    /// first with as many columns as the second has rows.
    pub open spec fn can_dot(self, rhs: TensorView) -> bool {
        &&& self.is_matrix()
        &&& rhs.is_matrix()
        &&& self.cols() == rhs.rows()
        &&& self.kind.scalar_type == rhs.kind.scalar_type
        &&& self.kind.device == rhs.kind.device
    }

    /// The matrix product, each entry a saturating inner product taken front to back.
    pub open spec fn dot(self, rhs: TensorView) -> TensorView {
        TensorView {
            kind: matrix_kind(self.rows(), rhs.cols(), self.kind),
            data: Seq::new(
                (self.rows() * rhs.cols()) as nat,
                |p: int|
                    dot_at(
                        self.data,
                        rhs.data,
                        self.cols() as int,
                        rhs.cols() as int,
                        p / (rhs.cols() as int),
                        p % (rhs.cols() as int),
                        self.cols() as nat,
                    ),
            ),
        }
    }

    /// The transpose of a matrix.
    pub open spec fn transpose(self) -> TensorView {
        TensorView {
            kind: matrix_kind(self.cols(), self.rows(), self.kind),
            data: Seq::new(
                (self.rows() * self.cols()) as nat,
                |p: int| self.data[(p % (self.rows() as int)) * self.cols() + p / (self.rows() as int)],
            ),
        }
    }

    /// Whether `bias` can be added to every row of `self`: a matrix and a vector of one
    /// scalar type on one device, the vector as long as the matrix is wide.
    pub open spec fn can_add_rows(self, bias: TensorView) -> bool {
        &&& self.is_matrix()
        &&& bias.kind.shape.len() == 1
        &&& bias.kind.shape[0] == self.cols()
        &&& self.kind.scalar_type == bias.kind.scalar_type
        &&& self.kind.device == bias.kind.device
    }

    /// `bias` added to every row.
    pub open spec fn add_rows(self, bias: TensorView) -> TensorView {
        TensorView {
            kind: self.kind,
            data: Seq::new(
                self.data.len(),
                |p: int| sat_add(self.data[p], bias.data[p % (self.cols() as int)]),
            ),
        }
    }

    /// The kind of one row of a matrix.
    pub open spec fn row_kind(self) -> KindView {
        KindView {
            shape: seq![self.cols()],
            scalar_type: self.kind.scalar_type,
            device: self.kind.device,
        }
    }

    /// The rows of a matrix summed into one row, top to bottom.
    pub open spec fn sum_rows(self) -> TensorView {
        TensorView {
            kind: self.row_kind(),
            data: Seq::new(
                self.cols() as nat,
                |j: int| column_sum(self.data, self.cols() as int, j, self.rows() as nat),
            ),
        }
    }
}

/// A shape of two axes spans their product.
pub proof fn lemma_matrix_size(shape: Seq<usize>)
    requires
        shape.len() == 2,
    ensures
        shape_size(shape) == shape[0] * shape[1],
{
    let s1 = shape.drop_last();
    assert(s1.len() == 1);
    assert(s1.drop_last().len() == 0);
    assert(shape_size(s1.drop_last()) == 1);
    assert(shape_size(s1) == 1 * (s1.last() as nat));
    assert(s1.last() == shape[0]);
    assert(shape.last() == shape[1]);
    assert(1 * (shape[0] as nat) == shape[0] as nat) by (nonlinear_arith);
}

/// A shape of one axis spans its length.
pub proof fn lemma_vector_size(shape: Seq<usize>)
    requires
        shape.len() == 1,
    ensures
        shape_size(shape) == shape[0],
{
    assert(shape.drop_last().len() == 0);
    assert(shape_size(shape.drop_last()) == 1);
    assert(1 * (shape[0] as nat) == shape[0] as nat) by (nonlinear_arith);
}

/// Row `i`, column `j` of a matrix with `n` columns and `m` rows lies inside its storage.
pub proof fn lemma_index(i: int, j: int, m: int, n: int)
    requires
        0 <= i < m,
        0 <= j < n,
    ensures
        0 <= i * n <= i * n + j < m * n,
        (i * n + j) / n == i,
        (i * n + j) % n == j,
{
    assert(0 <= i * n) by (nonlinear_arith)
        requires
            0 <= i,
            0 <= n,
    ;
    assert(i * n + n <= m * n) by (nonlinear_arith)
        requires
            i + 1 <= m,
            0 <= n,
    ;
    lemma_fundamental_div_mod_converse(i * n + j, n, i, j);
}

fn make_matrix_kind(rows: usize, cols: usize, scalar_type: ScalarType, device: Device) -> (k: Kind)
    ensures
        k@.shape == seq![rows, cols],
        k@.scalar_type == scalar_type,
        k@.device == device,
{
    let mut shape: Vec<usize> = Vec::new();
    shape.push(rows);
    shape.push(cols);
    assert(shape@ =~= seq![rows, cols]);
    Kind { shape, scalar_type, device }
}

impl Tensor {
    /// The matrix product `self · rhs`. Refused with `Mismatch` exactly where the product is
    /// not defined.
    pub fn dot(&self, rhs: &Tensor) -> (r: Result<Tensor, Error>)
        requires
            self.wf(),
            rhs.wf(),
        ensures
            match r {
                Ok(t) => t.wf() && t@ == self@.dot(rhs@),
                Err(e) => e == Error::Mismatch,
            },
            r is Ok <==> self@.can_dot(rhs@),
    {
        let sa = self.shape();
        let sb = rhs.shape();
        if sa.len() != 2 || sb.len() != 2 {
            return Err(Error::Mismatch);
        }
        if sa[1] != sb[0] || self.scalar_type() != rhs.scalar_type() || self.device()
            != rhs.device() {
            return Err(Error::Mismatch);
        }
        let m: usize = sa[0];
        let k: usize = sa[1];
        let n: usize = sb[1];
        let a = self.data();
        let b = rhs.data();
        proof {
            lemma_matrix_size(sa@);
            lemma_matrix_size(sb@);
        }
        let mut data: Vec<i64> = Vec::new();
        let mut i: usize = 0;
        while i < m
            invariant
                i <= m,
                a@.len() == m * k,
                a.len() == a@.len(),
                b@.len() == k * n,
                b.len() == b@.len(),
                data@.len() == i * n,
                forall|p: int|
                    0 <= p < data@.len() ==> data@[p] == dot_at(
                        a@,
                        b@,
                        k as int,
                        n as int,
                        p / (n as int),
                        p % (n as int),
                        k as nat,
                    ),
            decreases m - i,
        {
            let mut j: usize = 0;
            while j < n
                invariant
                    i < m,
                    j <= n,
                    a@.len() == m * k,
                a.len() == a@.len(),
                    b@.len() == k * n,
                b.len() == b@.len(),
                    data@.len() == i * n + j,
                    forall|p: int|
                        0 <= p < data@.len() ==> data@[p] == dot_at(
                            a@,
                            b@,
                            k as int,
                            n as int,
                            p / (n as int),
                            p % (n as int),
                            k as nat,
                        ),
                decreases n - j,
            {
                let mut acc: i64 = 0;
                let mut l: usize = 0;
                while l < k
                    invariant
                        i < m,
                        j < n,
                        l <= k,
                        a@.len() == m * k,
                a.len() == a@.len(),
                        b@.len() == k * n,
                b.len() == b@.len(),
                        acc == dot_at(a@, b@, k as int, n as int, i as int, j as int, l as nat),
                    decreases k - l,
                {
                    proof {
                        lemma_index(i as int, l as int, m as int, k as int);
                        lemma_index(l as int, j as int, k as int, n as int);
                    }
                    let x: i64 = a[i * k + l];
                    let y: i64 = b[l * n + j];
                    acc = scalar_add(acc, scalar_mul(x, y));
                    l += 1;
                }
                proof {
                    lemma_index(i as int, j as int, m as int, n as int);
                }
                data.push(acc);
                j += 1;
            }
            assert(i * n + n == (i + 1) * n) by (nonlinear_arith);
            i += 1;
        }
        let kind = make_matrix_kind(m, n, self.scalar_type(), self.device());
        proof {
            lemma_matrix_size(kind@.shape);
            assert(data@ =~= self@.dot(rhs@).data);
        }
        Ok(Tensor::from_parts(kind, data))
    }

    /// The transpose of a matrix. Refused with `Mismatch` exactly where this tensor does not
    /// have two axes.
    pub fn transpose(&self) -> (r: Result<Tensor, Error>)
        requires
            self.wf(),
        ensures
            match r {
                Ok(t) => t.wf() && t@ == self@.transpose(),
                Err(e) => e == Error::Mismatch,
            },
            r is Ok <==> self@.is_matrix(),
    {
        let sa = self.shape();
        if sa.len() != 2 {
            return Err(Error::Mismatch);
        }
        let m: usize = sa[0];
        let n: usize = sa[1];
        let a = self.data();
        proof {
            lemma_matrix_size(sa@);
        }
        let mut data: Vec<i64> = Vec::new();
        let mut j: usize = 0;
        while j < n
            invariant
                j <= n,
                a@.len() == m * n,
                a.len() == a@.len(),
                data@.len() == j * m,
                forall|p: int|
                    0 <= p < data@.len() ==> data@[p] == a@[(p % (m as int)) * n + p / (m as int)],
            decreases n - j,
        {
            let mut i: usize = 0;
            while i < m
                invariant
                    j < n,
                    i <= m,
                    a@.len() == m * n,
                a.len() == a@.len(),
                    data@.len() == j * m + i,
                    forall|p: int|
                        0 <= p < data@.len() ==> data@[p] == a@[(p % (m as int)) * n + p / (
                        m as int)],
                decreases m - i,
            {
                proof {
                    lemma_index(i as int, j as int, m as int, n as int);
                    lemma_index(j as int, i as int, n as int, m as int);
                }
                data.push(a[i * n + j]);
                i += 1;
            }
            assert(j * m + m == (j + 1) * m) by (nonlinear_arith);
            j += 1;
        }
        let kind = make_matrix_kind(n, m, self.scalar_type(), self.device());
        proof {
            lemma_matrix_size(kind@.shape);
            assert(n * m == m * n) by (nonlinear_arith);
            assert(data@ =~= self@.transpose().data);
        }
        Ok(Tensor::from_parts(kind, data))
    }

    /// `bias` added to every row of this matrix. Refused with `Mismatch` exactly where
    /// `bias` is not a vector as long as the matrix is wide, of its scalar type and on its
    /// device.
    pub fn add_rows(&self, bias: &Tensor) -> (r: Result<Tensor, Error>)
        requires
            self.wf(),
            bias.wf(),
        ensures
            match r {
                Ok(t) => t.wf() && t@ == self@.add_rows(bias@),
                Err(e) => e == Error::Mismatch,
            },
            r is Ok <==> self@.can_add_rows(bias@),
    {
        let sa = self.shape();
        let sb = bias.shape();
        if sa.len() != 2 || sb.len() != 1 {
            return Err(Error::Mismatch);
        }
        if sb[0] != sa[1] || self.scalar_type() != bias.scalar_type() || self.device()
            != bias.device() {
            return Err(Error::Mismatch);
        }
        let m: usize = sa[0];
        let n: usize = sa[1];
        let a = self.data();
        let b = bias.data();
        proof {
            lemma_matrix_size(sa@);
            lemma_vector_size(sb@);
        }
        let mut data: Vec<i64> = Vec::new();
        let mut i: usize = 0;
        while i < m
            invariant
                i <= m,
                a@.len() == m * n,
                a.len() == a@.len(),
                b@.len() == n,
                data@.len() == i * n,
                forall|p: int|
                    0 <= p < data@.len() ==> data@[p] == sat_add(a@[p], b@[p % (n as int)]),
            decreases m - i,
        {
            let mut j: usize = 0;
            while j < n
                invariant
                    i < m,
                    j <= n,
                    a@.len() == m * n,
                a.len() == a@.len(),
                    b@.len() == n,
                    data@.len() == i * n + j,
                    forall|p: int|
                        0 <= p < data@.len() ==> data@[p] == sat_add(a@[p], b@[p % (n as int)]),
                decreases n - j,
            {
                proof {
                    lemma_index(i as int, j as int, m as int, n as int);
                }
                data.push(scalar_add(a[i * n + j], b[j]));
                j += 1;
            }
            assert(i * n + n == (i + 1) * n) by (nonlinear_arith);
            i += 1;
        }
        let kind = self.kind().copy();
        proof {
            assert(data@ =~= self@.add_rows(bias@).data);
        }
        Ok(Tensor::from_parts(kind, data))
    }

    /// The rows of this matrix summed into one row. Refused with `Mismatch` exactly where
    /// this tensor does not have two axes.
    pub fn sum_rows(&self) -> (r: Result<Tensor, Error>)
        requires
            self.wf(),
        ensures
            match r {
                Ok(t) => t.wf() && t@ == self@.sum_rows(),
                Err(e) => e == Error::Mismatch,
            },
            r is Ok <==> self@.is_matrix(),
    {
        let sa = self.shape();
        if sa.len() != 2 {
            return Err(Error::Mismatch);
        }
        let m: usize = sa[0];
        let n: usize = sa[1];
        let a = self.data();
        proof {
            lemma_matrix_size(sa@);
        }
        let mut data: Vec<i64> = Vec::new();
        let mut j: usize = 0;
        while j < n
            invariant
                j <= n,
                a@.len() == m * n,
                a.len() == a@.len(),
                data@.len() == j,
                forall|q: int|
                    0 <= q < j ==> data@[q] == column_sum(a@, n as int, q, m as nat),
            decreases n - j,
        {
            let mut acc: i64 = 0;
            let mut i: usize = 0;
            while i < m
                invariant
                    j < n,
                    i <= m,
                    a@.len() == m * n,
                a.len() == a@.len(),
                    acc == column_sum(a@, n as int, j as int, i as nat),
                decreases m - i,
            {
                proof {
                    lemma_index(i as int, j as int, m as int, n as int);
                }
                acc = scalar_add(acc, a[i * n + j]);
                i += 1;
            }
            data.push(acc);
            j += 1;
        }
        let mut shape: Vec<usize> = Vec::new();
        shape.push(n);
        let kind = Kind { shape, scalar_type: self.scalar_type(), device: self.device() };
        proof {
            assert(kind@.shape =~= seq![n]);
            lemma_vector_size(kind@.shape);
            assert(data@ =~= self@.sum_rows().data);
        }
        Ok(Tensor::from_parts(kind, data))
    }
}

} // verus!

verus! {

/// The element in row `i` and column `j` of a matrix with `n` columns.
pub open spec fn entry(a: Seq<i64>, n: int, i: int, j: int) -> i64 {
    a[i * n + j]
}

/// Whether `j` is the place of the first greatest element of row `i` of a matrix with `n`
/// columns.
pub open spec fn is_argmax(a: Seq<i64>, n: int, i: int, j: int) -> bool {
    &&& 0 <= j < n
    &&& forall|l: int| 0 <= l < n ==> #[trigger] entry(a, n, i, l) <= entry(a, n, i, j)
    &&& forall|l: int| 0 <= l < j ==> #[trigger] entry(a, n, i, l) < entry(a, n, i, j)
}

impl Tensor {
    /// For each row of this matrix, the place of its first greatest element. Refused with
    /// `Mismatch` exactly where this tensor does not have two axes or has no columns.
    pub fn argmax_rows(&self) -> (r: Result<Vec<usize>, Error>)
        requires
            self.wf(),
        ensures
            match r {
                Ok(v) => v@.len() == self@.rows() && forall|i: int|
                    0 <= i < v@.len() ==> is_argmax(
                        self@.data,
                        self@.cols() as int,
                        i,
                        #[trigger] v@[i] as int,
                    ),
                Err(e) => e == Error::Mismatch,
            },
            r is Ok <==> self@.is_matrix() && self@.cols() > 0,
    {
        let sa = self.shape();
        if sa.len() != 2 {
            return Err(Error::Mismatch);
        }
        let m: usize = sa[0];
        let n: usize = sa[1];
        if n == 0 {
            return Err(Error::Mismatch);
        }
        let a = self.data();
        proof {
            lemma_matrix_size(sa@);
        }
        let mut out: Vec<usize> = Vec::new();
        let mut i: usize = 0;
        while i < m
            invariant
                i <= m,
                n > 0,
                a@.len() == m * n,
                a.len() == a@.len(),
                out@.len() == i,
                forall|q: int|
                    0 <= q < i ==> is_argmax(a@, n as int, q, #[trigger] out@[q] as int),
            decreases m - i,
        {
            let mut best: usize = 0;
            let mut j: usize = 1;
            proof {
                lemma_index(i as int, 0, m as int, n as int);
            }
            while j < n
                invariant
                    i < m,
                    1 <= j <= n,
                    best < j,
                    a@.len() == m * n,
                    a.len() == a@.len(),
                    forall|l: int|
                        0 <= l < j ==> #[trigger] entry(a@, n as int, i as int, l) <= entry(
                            a@,
                            n as int,
                            i as int,
                            best as int,
                        ),
                    forall|l: int|
                        0 <= l < best ==> #[trigger] entry(a@, n as int, i as int, l) < entry(
                            a@,
                            n as int,
                            i as int,
                            best as int,
                        ),
                decreases n - j,
            {
                proof {
                    lemma_index(i as int, j as int, m as int, n as int);
                    lemma_index(i as int, best as int, m as int, n as int);
                }
                if a[i * n + j] > a[i * n + best] {
                    best = j;
                }
                j += 1;
            }
            out.push(best);
            i += 1;
        }
        Ok(out)
    }
}

} // verus!

verus! {

/// Whether a matrix enters a product as it is or transposed.
#[derive(Clone, Copy, Debug, PartialEq, Eq, Structural)]
pub enum Transpose {
    Yes,
    No,
}

impl TensorView {
    /// This matrix as it enters a product.
    pub open spec fn op(self, t: Transpose) -> TensorView {
        match t {
            Transpose::Yes => self.transpose(),
            Transpose::No => self,
        }
    }

    /// A tensor with one more leading axis of length `batches` that holds this tensor that
    /// many times.
    pub open spec fn broadcast(self, batches: usize) -> TensorView {
        TensorView {
            kind: KindView {
                shape: seq![batches] + self.kind.shape,
                scalar_type: self.kind.scalar_type,
                device: self.kind.device,
            },
            data: Seq::new(
                (batches * self.data.len()) as nat,
                |p: int| self.data[p % (self.data.len() as int)],
            ),
        }
    }

    /// The sum over the leading axis: what broadcasting does to gradients.
    pub open spec fn broadcast_backward(self) -> TensorView {
        let rest = self.kind.shape.subrange(1, self.kind.shape.len() as int);
        TensorView {
            kind: KindView {
                shape: rest,
                scalar_type: self.kind.scalar_type,
                device: self.kind.device,
            },
            data: Seq::new(
                shape_size(rest),
                |j: int|
                    column_sum(self.data, shape_size(rest) as int, j, self.kind.shape[0] as nat),
            ),
        }
    }
}

/// Why `c <- alpha * op(a) · op(b) + beta * c` is refused, if it is: `Mismatch` where `a` or
/// `b` is not a matrix, the product is not defined, or `c` is not of the product's kind.
pub open spec fn gemm_error(
    a: TensorView,
    trans_a: Transpose,
    b: TensorView,
    trans_b: Transpose,
    c: TensorView,
) -> Option<Error> {
    if !a.is_matrix() || !b.is_matrix() || !a.op(trans_a).can_dot(b.op(trans_b)) || c.kind
        != a.op(trans_a).dot(b.op(trans_b)).kind {
        Some(Error::Mismatch)
    } else {
        None
    }
}

/// The general matrix product `c <- alpha * op(a) · op(b) + beta * c`, every step
/// saturating. Where it is refused `c` stays as it was.
pub fn gemm(
    alpha: i64,
    a: &Tensor,
    trans_a: Transpose,
    b: &Tensor,
    trans_b: Transpose,
    beta: i64,
    c: &mut Tensor,
) -> (r: Result<(), Error>)
    requires
        a.wf(),
        b.wf(),
        old(c).wf(),
    ensures
        final(c).wf(),
        match r {
            Ok(_) => gemm_error(a@, trans_a, b@, trans_b, old(c)@) is None && final(c)@ == old(
                c,
            )@.scale(beta).scaled_add(alpha, a@.op(trans_a).dot(b@.op(trans_b))),
            Err(e) => gemm_error(a@, trans_a, b@, trans_b, old(c)@) == Some(e) && final(c)@
                == old(c)@,
        },
{
    let left = match trans_a {
        Transpose::Yes => match a.transpose() {
            Ok(t) => t,
            Err(e) => {
                return Err(e);
            },
        },
        Transpose::No => {
            if a.shape().len() != 2 {
                return Err(Error::Mismatch);
            }
            a.copy()
        },
    };
    let right = match trans_b {
        Transpose::Yes => match b.transpose() {
            Ok(t) => t,
            Err(e) => {
                return Err(e);
            },
        },
        Transpose::No => {
            if b.shape().len() != 2 {
                return Err(Error::Mismatch);
            }
            b.copy()
        },
    };
    let product = match left.dot(&right) {
        Ok(t) => t,
        Err(e) => {
            return Err(e);
        },
    };
    if !c.kind().same(product.kind()) {
        return Err(Error::Mismatch);
    }
    let mut scaled = c.scale(beta);
    let added = scaled.scaled_add(alpha, &product);
    assert(added is Ok);
    *c = scaled;
    Ok(())
}

impl Tensor {
    /// A tensor with one more leading axis of length `batches` that holds this tensor that
    /// many times. Refused with `TooLarge` exactly where the result spans more elements than
    /// `usize` can count.
    pub fn broadcast(&self, batches: usize) -> (r: Result<Tensor, Error>)
        requires
            self.wf(),
        ensures
            match r {
                Ok(t) => t.wf() && t@ == self@.broadcast(batches),
                Err(e) => e == Error::TooLarge,
            },
            r is Ok <==> batches * self@.data.len() <= usize::MAX,
    {
        let x = self.data();
        let len: usize = x.len();
        let total: usize = match batches.checked_mul(len) {
            Some(total) => total,
            None => {
                return Err(Error::TooLarge);
            },
        };
        let mut shape: Vec<usize> = Vec::new();
        shape.push(batches);
        let s = self.shape();
        let mut i: usize = 0;
        while i < s.len()
            invariant
                i <= s@.len(),
                shape@ == seq![batches] + s@.take(i as int),
            decreases s@.len() - i,
        {
            shape.push(s[i]);
            assert(s@.take(i + 1) =~= s@.take(i as int).push(s@[i as int]));
            assert(shape@ =~= seq![batches] + s@.take(i + 1));
            i += 1;
        }
        proof {
            assert(s@.take(s@.len() as int) =~= s@);
            lemma_leading_axis(shape@);
            assert(shape@.subrange(1, shape@.len() as int) =~= s@);
        }
        let mut data: Vec<i64> = Vec::new();
        let mut p: usize = 0;
        while p < total
            invariant
                p <= total,
                total == batches * len,
                x@.len() == len,
                x.len() == len,
                data@.len() == p,
                forall|q: int| 0 <= q < p ==> #[trigger] data@[q] == x@[q % (len as int)],
            decreases total - p,
        {
            proof {
                assert(len >= 1) by (nonlinear_arith)
                    requires
                        p < batches * len,
                        batches >= 0,
                        len >= 0,
                ;
                crate::geometry::lemma_split(p as int, batches as int, len as int);
            }
            data.push(x[p % len]);
            p += 1;
        }
        let kind = Kind { shape, scalar_type: self.scalar_type(), device: self.device() };
        proof {
            assert(data@ =~= self@.broadcast(batches).data);
        }
        Ok(Tensor::from_parts(kind, data))
    }

    /// The sum over the leading axis, front to back. Refused with `Mismatch` exactly where
    /// this tensor has no axis, and with `TooLarge` exactly where the axes behind the leading
    /// one span more elements than `usize` can count, which takes a leading axis of length
    /// zero.
    pub fn broadcast_backward(&self) -> (r: Result<Tensor, Error>)
        requires
            self.wf(),
        ensures
            match r {
                Ok(t) => t.wf() && t@ == self@.broadcast_backward(),
                Err(e) => if self@.kind.shape.len() == 0 {
                    e == Error::Mismatch
                } else {
                    e == Error::TooLarge
                },
            },
            r is Ok <==> self@.kind.shape.len() >= 1 && shape_size(
                self@.kind.shape.subrange(1, self@.kind.shape.len() as int),
            ) <= usize::MAX,
    {
        let s = self.shape();
        if s.len() == 0 {
            return Err(Error::Mismatch);
        }
        let m: usize = s[0];
        let mut rest: Vec<usize> = Vec::new();
        let mut i: usize = 1;
        while i < s.len()
            invariant
                1 <= i <= s@.len(),
                rest@ == s@.subrange(1, i as int),
            decreases s@.len() - i,
        {
            rest.push(s[i]);
            assert(s@.subrange(1, i + 1) =~= s@.subrange(1, i as int).push(s@[i as int]));
            i += 1;
        }
        let a = self.data();
        let total: usize = a.len();
        proof {
            lemma_leading_axis(s@);
        }
        let n: usize = match crate::tensor::checked_size(&rest) {
            Some(n) => n,
            None => {
                return Err(Error::TooLarge);
            },
        };
        let mut data: Vec<i64> = Vec::new();
        let mut j: usize = 0;
        while j < n
            invariant
                j <= n,
                a@.len() == m * n,
                a.len() == a@.len(),
                data@.len() == j,
                forall|q: int| 0 <= q < j ==> data@[q] == column_sum(a@, n as int, q, m as nat),
            decreases n - j,
        {
            let mut acc: i64 = 0;
            let mut i: usize = 0;
            while i < m
                invariant
                    j < n,
                    i <= m,
                    a@.len() == m * n,
                    a.len() == a@.len(),
                    acc == column_sum(a@, n as int, j as int, i as nat),
                decreases m - i,
            {
                proof {
                    lemma_index(i as int, j as int, m as int, n as int);
                }
                acc = scalar_add(acc, a[i * n + j]);
                i += 1;
            }
            data.push(acc);
            j += 1;
        }
        let kind = Kind { shape: rest, scalar_type: self.scalar_type(), device: self.device() };
        proof {
            assert(data@ =~= self@.broadcast_backward().data);
        }
        Ok(Tensor::from_parts(kind, data))
    }
}

/// A shape spans its leading axis times what the axes behind it span.
pub proof fn lemma_leading_axis(shape: Seq<usize>)
    requires
        shape.len() >= 1,
    ensures
        shape_size(shape) == shape[0] * shape_size(shape.subrange(1, shape.len() as int)),
{
    crate::autograd::ops::lemma_size_split(shape);
}

} // verus!
