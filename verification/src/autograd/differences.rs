//! Gradients against finite differences: what moving one element of an input by one does to
//! a value, and the sums that the transforms of the backward walk give for that element.
//! The library's arithmetic saturates, so each law asks that nothing saturates before or
//! after the move.
use crate::autograd::grad_fn::GradFnView;
use crate::autograd::graph::accumulate;
use crate::conv::transposed;
use crate::geometry::{lemma_split, place};
use crate::index::{index_valid, lemma_scatter_len, scatter_to};
use crate::linalg::{
    column_sum, dot_at, lemma_index, lemma_matrix_size, lemma_vector_size, matrix_kind,
};
use crate::scalar::{sat_add, sat_mul};
use crate::tensor::{shape_size, sum_to, KindView, TensorView};
use vstd::prelude::*;

verus! {

/// The sum of the first `n` elements of `s` as an integer, without bounds.
pub open spec fn int_sum(s: Seq<i64>, n: nat) -> int
    decreases n,
{
    if n == 0 {
        0
    } else {
        int_sum(s, (n - 1) as nat) + s[n - 1]
    }
}

/// The product of the elements at place `j`, as an integer, without bounds.
pub open spec fn int_product(x: Seq<i64>, w: Seq<i64>, j: int) -> int {
    x[j] * w[j]
}

/// The products of the elements of `x` and `w`, place by place, as the library computes
/// them.
pub open spec fn products(x: Seq<i64>, w: Seq<i64>) -> Seq<i64> {
    Seq::new(x.len(), |j: int| sat_mul(x[j], w[j]))
}

/// Whether `sum(x ⊙ w)` is computed without saturating: every product and every partial sum
/// of the products lies in the range of `i64`.
pub open spec fn computes_exactly(x: Seq<i64>, w: Seq<i64>) -> bool {
    &&& forall|j: int|
        0 <= j < x.len() ==> i64::MIN <= #[trigger] int_product(x, w, j) <= i64::MAX
    &&& forall|k: nat|
        k <= x.len() ==> i64::MIN <= #[trigger] int_sum(products(x, w), k) <= i64::MAX
}

proof fn lemma_sum_exact(s: Seq<i64>, n: nat)
    requires
        n <= s.len(),
        forall|k: nat| k <= n ==> i64::MIN <= #[trigger] int_sum(s, k) <= i64::MAX,
    ensures
        sum_to(s, n) == int_sum(s, n),
    decreases n,
{
    if n > 0 {
        lemma_sum_exact(s, (n - 1) as nat);
        assert(i64::MIN <= int_sum(s, n) <= i64::MAX);
    }
}

proof fn lemma_sum_moved(s: Seq<i64>, t: Seq<i64>, i: int, n: nat)
    requires
        s.len() == t.len(),
        n <= s.len(),
        0 <= i < s.len(),
        forall|j: int| 0 <= j < s.len() && j != i ==> s[j] == t[j],
    ensures
        int_sum(t, n) - int_sum(s, n) == if i < n {
            t[i] - s[i]
        } else {
            0
        },
    decreases n,
{
    if n > 0 {
        lemma_sum_moved(s, t, i, (n - 1) as nat);
    }
}

/// Finite differences agree with the gradient. Moving one element of `w` by one moves
/// `sum(x ⊙ w)` by the element of `x` at that place, which is the gradient that the backward
/// walk gives for that element (`law_sum_of_products`), as long as nothing saturates before
/// or after the move.
pub proof fn law_finite_difference(x: TensorView, w: TensorView, moved: TensorView, i: int)
    requires
        w.data.len() == x.data.len(),
        0 <= i < x.data.len(),
        w.data[i] < i64::MAX,
        moved.data == w.data.update(i, (w.data[i] + 1) as i64),
        computes_exactly(x.data, w.data),
        computes_exactly(x.data, moved.data),
    ensures
        x.mul(moved).sum().data[0] - x.mul(w).sum().data[0] == x.data[i],
{
    let n = x.data.len();
    let before = products(x.data, w.data);
    let after = products(x.data, moved.data);
    assert(x.mul(w).data =~= before);
    assert(x.mul(moved).data =~= after);
    lemma_sum_exact(before, n);
    lemma_sum_exact(after, n);
    assert forall|j: int| 0 <= j < n && j != i implies before[j] == after[j] by {}
    lemma_sum_moved(before, after, i, n);
    assert(int_product(x.data, w.data, i) == x.data[i] * w.data[i]);
    assert(int_product(x.data, moved.data, i) == x.data[i] * (w.data[i] + 1));
    assert(before[i] == x.data[i] * w.data[i]);
    assert(after[i] == x.data[i] * (w.data[i] + 1));
    assert(x.data[i] * (w.data[i] + 1) - x.data[i] * w.data[i] == x.data[i]) by (nonlinear_arith);
}

/// Transposing twice gives the matrix back.
pub proof fn law_transpose_twice(w: TensorView)
    requires
        w.wf(),
        w.is_matrix(),
    ensures
        w.transpose().transpose() == w,
{
    let r = w.rows() as int;
    let c = w.cols() as int;
    let t = w.transpose();
    let tt = t.transpose();
    lemma_matrix_size(w.kind.shape);
    assert(r * c == c * r) by (nonlinear_arith);
    assert(tt.kind.shape =~= w.kind.shape);
    assert forall|p: int| 0 <= p < tt.data.len() implies tt.data[p] == w.data[p] by {
        assert(c >= 1 && r >= 1) by (nonlinear_arith)
            requires
                0 <= p < c * r,
                c >= 0,
                r >= 0,
        ;
        lemma_split(p, r, c);
        let i = p % c;
        let j = p / c;
        lemma_index(i, j, c, r);
        let q = i * r + j;
        assert(t.data[q] == w.data[(q % r) * c + q / r]);
    }
    assert(tt.data =~= w.data);
}

/// Gathering a matrix by the transposing map gives its transpose.
pub proof fn law_gathered_transpose(w: TensorView)
    requires
        w.wf(),
        w.is_matrix(),
        w.data.len() <= usize::MAX,
    ensures
        w.gather(
            transposed(1, w.rows() as int, w.cols() as int),
            seq![w.cols(), w.rows()],
        ) == w.transpose(),
{
    let r = w.rows() as int;
    let c = w.cols() as int;
    let index = transposed(1, r, c);
    let g = w.gather(index, seq![w.cols(), w.rows()]);
    let t = w.transpose();
    lemma_matrix_size(w.kind.shape);
    assert((1 * c) * r == r * c) by (nonlinear_arith);
    assert forall|p: int| 0 <= p < g.data.len() implies g.data[p] == t.data[p] by {
        assert(c >= 1 && r >= 1) by (nonlinear_arith)
            requires
                0 <= p < r * c,
                c >= 0,
                r >= 0,
        ;
        assert(c * r == r * c) by (nonlinear_arith);
        lemma_split(p, c, r);
        let i = p % r;
        let j = p / r;
        vstd::arithmetic::div_mod::lemma_small_mod(j as nat, c as nat);
        vstd::arithmetic::div_mod::lemma_basic_div(j, c);
        lemma_index(i, j, r, c);
        assert(place(0, r, c, i, j) == i * c + j) by (nonlinear_arith);
        assert(index[p] == Some((i * c + j) as usize));
    }
    assert(g.data =~= t.data);
}

proof fn lemma_product_transposed_at(
    a: TensorView,
    b: TensorView,
    i: int,
    j: int,
    l: nat,
)
    requires
        a.wf(),
        b.wf(),
        a.can_dot(b),
        0 <= i < a.rows(),
        0 <= j < b.cols(),
        l <= a.cols(),
    ensures
        dot_at(a.data, b.data, a.cols() as int, b.cols() as int, i, j, l) == dot_at(
            b.transpose().data,
            a.transpose().data,
            a.cols() as int,
            a.rows() as int,
            j,
            i,
            l,
        ),
    decreases l,
{
    if l > 0 {
        lemma_product_transposed_at(a, b, i, j, (l - 1) as nat);
        let m = a.rows() as int;
        let k = a.cols() as int;
        let n = b.cols() as int;
        let t = l - 1;
        lemma_matrix_size(a.kind.shape);
        lemma_matrix_size(b.kind.shape);
        lemma_index(j, t, n, k);
        lemma_index(t, i, k, m);
        lemma_index(i, t, m, k);
        lemma_index(t, j, k, n);
        assert(n * k == k * n) by (nonlinear_arith);
        assert(k * m == m * k) by (nonlinear_arith);
        let x = a.data[i * k + t];
        let y = b.data[t * n + j];
        assert(b.transpose().data[j * k + t] == y);
        assert(a.transpose().data[t * m + i] == x);
        assert(x * y == y * x) by (nonlinear_arith);
    }
}

/// The transpose of a product is the product of the transposes, the other way round.
pub proof fn law_product_transposed(a: TensorView, b: TensorView)
    requires
        a.wf(),
        b.wf(),
        a.can_dot(b),
    ensures
        a.dot(b).transpose() == b.transpose().dot(a.transpose()),
{
    let m = a.rows() as int;
    let k = a.cols() as int;
    let n = b.cols() as int;
    let left = a.dot(b).transpose();
    let right = b.transpose().dot(a.transpose());
    assert(m * n == n * m) by (nonlinear_arith);
    assert(left.kind.shape =~= right.kind.shape);
    assert forall|p: int| 0 <= p < left.data.len() implies left.data[p] == right.data[p] by {
        assert(m >= 1 && n >= 1) by (nonlinear_arith)
            requires
                0 <= p < m * n,
                m >= 0,
                n >= 0,
        ;
        lemma_split(p, n, m);
        let i = p % m;
        let j = p / m;
        lemma_index(i, j, m, n);
        lemma_product_transposed_at(a, b, i, j, k as nat);
    }
    assert(left.data =~= right.data);
}

/// The place in a matrix with `rows` rows and `cols` columns of the element that the
/// transpose holds at `q`.
pub open spec fn transposed_back(rows: int, cols: int, q: int) -> int {
    (q % cols) * rows + q / cols
}

proof fn lemma_transposing_map(rows: int, cols: int, p: int)
    requires
        0 <= rows,
        0 <= cols,
        0 <= p < rows * cols,
        rows * cols <= usize::MAX,
    ensures
        transposed(1, rows, cols)[p] matches Some(q) && 0 <= q < rows * cols && transposed_back(
            rows,
            cols,
            q as int,
        ) == p && q == (p % rows) * cols + p / rows,
        0 <= transposed_back(rows, cols, p) < rows * cols,
        transposed(1, rows, cols)[transposed_back(rows, cols, p)] == Some(p as usize),
{
    assert(cols >= 1 && rows >= 1) by (nonlinear_arith)
        requires
            0 <= p < rows * cols,
            rows >= 0,
            cols >= 0,
    ;
    assert(cols * rows == rows * cols) by (nonlinear_arith);
    assert((1 * cols) * rows == rows * cols) by (nonlinear_arith);
    let index = transposed(1, rows, cols);
    lemma_split(p, cols, rows);
    let i = p % rows;
    let j = p / rows;
    vstd::arithmetic::div_mod::lemma_small_mod(j as nat, cols as nat);
    vstd::arithmetic::div_mod::lemma_basic_div(j, cols);
    lemma_index(i, j, rows, cols);
    assert(place(0, rows, cols, i, j) == i * cols + j) by (nonlinear_arith);
    assert(index[p] == Some((i * cols + j) as usize));
    lemma_split(p, rows, cols);
    let a = p / cols;
    let b = p % cols;
    let t = transposed_back(rows, cols, p);
    lemma_index(b, a, cols, rows);
    vstd::arithmetic::div_mod::lemma_small_mod(b as nat, cols as nat);
    vstd::arithmetic::div_mod::lemma_basic_div(b, cols);
    assert(place(0, rows, cols, a, b) == a * cols + b) by (nonlinear_arith);
    assert(index[t] == Some((a * cols + b) as usize));
}

proof fn lemma_scattered_transpose(g: Seq<i64>, rows: int, cols: int, k: nat, q: int)
    requires
        0 <= rows,
        0 <= cols,
        rows * cols <= usize::MAX,
        g.len() == rows * cols,
        k <= rows * cols,
        0 <= q < rows * cols,
    ensures
        scatter_to(g, transposed(1, rows, cols), (rows * cols) as nat, k).len() == rows * cols,
        scatter_to(g, transposed(1, rows, cols), (rows * cols) as nat, k)[q] == if transposed_back(
            rows,
            cols,
            q,
        ) < k {
            g[transposed_back(rows, cols, q)]
        } else {
            0i64
        },
    decreases k,
{
    let index = transposed(1, rows, cols);
    let n = (rows * cols) as nat;
    lemma_scatter_len(g, index, n, k);
    lemma_transposing_map(rows, cols, q);
    if k > 0 {
        let prev = scatter_to(g, index, n, (k - 1) as nat);
        lemma_scatter_len(g, index, n, (k - 1) as nat);
        lemma_scattered_transpose(g, rows, cols, (k - 1) as nat, q);
        lemma_transposing_map(rows, cols, k - 1);
        let to = index[k - 1]->Some_0 as int;
        lemma_scattered_transpose(g, rows, cols, (k - 1) as nat, to);
        assert(prev[to] == 0i64);
        assert(sat_add(prev[to], g[k - 1]) == g[k - 1]);
        assert(scatter_to(g, index, n, k) == prev.update(to, g[k - 1]));
    }
}

/// Scattering a matrix back by the transposing map transposes it: every place receives
/// exactly one element.
pub proof fn law_scattered_transpose(g: TensorView, kind: KindView)
    requires
        g.wf(),
        g.is_matrix(),
        g.data.len() <= usize::MAX,
        kind == matrix_kind(g.cols(), g.rows(), g.kind),
    ensures
        g.scatter(transposed(1, g.cols() as int, g.rows() as int), kind) == g.transpose(),
{
    let rows = g.cols() as int;
    let cols = g.rows() as int;
    let index = transposed(1, rows, cols);
    lemma_matrix_size(g.kind.shape);
    lemma_matrix_size(kind.shape);
    assert(rows * cols == cols * rows) by (nonlinear_arith);
    assert((1 * cols) * rows == rows * cols) by (nonlinear_arith);
    let s = g.scatter(index, kind);
    let t = g.transpose();
    lemma_scatter_len(g.data, index, (rows * cols) as nat, index.len());
    assert forall|q: int| 0 <= q < s.data.len() implies s.data[q] == t.data[q] by {
        lemma_scattered_transpose(g.data, rows, cols, (rows * cols) as nat, q);
        lemma_transposing_map(rows, cols, q);
    }
    assert(s.data =~= t.data);
}

/// The weight gradient of a dense layer. For `y = x · wᵀ`, where the transpose was gathered
/// from the weight, the gradient that reaches the weight for the output gradient `dy` is
/// `dyᵀ · x`.
pub proof fn law_dense_weight_gradient(x: TensorView, w: TensorView, dy: TensorView)
    requires
        x.wf(),
        w.wf(),
        dy.wf(),
        w.is_matrix(),
        w.data.len() <= usize::MAX,
        x.can_dot(w.transpose()),
        dy.kind == x.dot(w.transpose()).kind,
    ensures
        GradFnView::Gather(transposed(1, w.rows() as int, w.cols() as int), w.kind).apply(
            GradFnView::DotRhs(x).apply(dy),
        ) == dy.transpose().dot(x),
{
    let g = x.transpose().dot(dy);
    lemma_matrix_size(x.kind.shape);
    lemma_matrix_size(w.kind.shape);
    lemma_matrix_size(dy.kind.shape);
    assert(x.transpose().wf()) by {
        lemma_matrix_size(x.transpose().kind.shape);
        assert(x.rows() * x.cols() == x.cols() * x.rows()) by (nonlinear_arith);
    }
    assert(g.kind.shape =~= seq![w.cols(), w.rows()]);
    assert(w.kind.shape =~= seq![w.rows(), w.cols()]);
    assert(w.kind == matrix_kind(g.cols(), g.rows(), g.kind));
    assert(g.wf()) by {
        lemma_matrix_size(g.kind.shape);
    }
    assert(w.rows() * w.cols() == w.cols() * w.rows()) by (nonlinear_arith);
    law_scattered_transpose(g, w.kind);
    law_product_transposed(x.transpose(), dy);
    law_transpose_twice(x);
}

/// The gradients of a dense layer. For `y = x · w`, the input receives `dy · wᵀ` and the
/// weight `xᵀ · dy`; for `y = x · wᵀ`, the input receives `dy · w`. A bias added to every row
/// receives the sums of the columns of `dy`, and what had arrived before is added to, not
/// written over.
pub proof fn law_dense_gradients(x: TensorView, w: TensorView, dy: TensorView, before: TensorView)
    requires
        w.wf(),
        w.is_matrix(),
    ensures
        GradFnView::DotLhs(w).apply(dy) == dy.dot(w.transpose()),
        GradFnView::DotRhs(x).apply(dy) == x.transpose().dot(dy),
        GradFnView::DotLhs(w.transpose()).apply(dy) == dy.dot(w),
        GradFnView::SumRows.apply(dy) == dy.sum_rows(),
        forall|j: int|
            0 <= j < dy.cols() ==> #[trigger] dy.sum_rows().data[j] == column_sum(
                dy.data,
                dy.cols() as int,
                j,
                dy.rows() as nat,
            ),
        accumulate(None, dy) == Some(dy),
        accumulate(Some(before), GradFnView::DotLhs(w.transpose()).apply(dy)) == Some(
            before.add(dy.dot(w)),
        ),
        accumulate(Some(before), GradFnView::SumRows.apply(dy)) == Some(
            before.add(dy.sum_rows()),
        ),
        forall|j: int|
            0 <= j < dy.cols() && j < before.data.len() ==> #[trigger] before.add(
                dy.sum_rows(),
            ).data[j] == sat_add(
                before.data[j],
                column_sum(dy.data, dy.cols() as int, j, dy.rows() as nat),
            ),
{
    law_transpose_twice(w);
}

/// A contribution is added, never written over. Whatever the transform, the gradient that
/// had arrived at a node and the transform of `dy` leave their sum, element by element, and
/// the first contribution starts the sum.
pub proof fn law_contribution_added(f: GradFnView, before: TensorView, dy: TensorView)
    ensures
        accumulate(None, f.apply(dy)) == Some(f.apply(dy)),
        accumulate(Some(before), f.apply(dy)) == Some(before.add(f.apply(dy))),
        forall|i: int|
            0 <= i < before.data.len() ==> #[trigger] before.add(f.apply(dy)).data[i] == sat_add(
                before.data[i],
                f.apply(dy).data[i],
            ),
{
}

/// The gradient of a copy to every batch. The source of a broadcast receives, at each place,
/// the sum of the gradients of its copies, and what had arrived before is added to.
pub proof fn law_broadcast_gradient(before: TensorView, dy: TensorView, i: int)
    requires
        dy.kind.shape.len() >= 1,
        0 <= i < shape_size(dy.kind.shape.subrange(1, dy.kind.shape.len() as int)),
        before.data.len() == shape_size(dy.kind.shape.subrange(1, dy.kind.shape.len() as int)),
    ensures
        before.add(dy.broadcast_backward()).data[i] == sat_add(
            before.data[i],
            column_sum(
                dy.data,
                shape_size(dy.kind.shape.subrange(1, dy.kind.shape.len() as int)) as int,
                i,
                dy.kind.shape[0] as nat,
            ),
        ),
{
}

/// The sum of the products of the first `n` elements of `a` and `b`, place by place, as an
/// integer, without bounds.
pub open spec fn int_inner(a: Seq<i64>, b: Seq<i64>, n: nat) -> int
    decreases n,
{
    if n == 0 {
        0
    } else {
        int_inner(a, b, (n - 1) as nat) + a[n - 1] * b[n - 1]
    }
}

proof fn lemma_inner_zero(a: Seq<i64>, n: nat, l: nat)
    requires
        l <= n,
    ensures
        int_inner(a, Seq::new(n, |i: int| 0i64), l) == 0,
    decreases l,
{
    if l > 0 {
        lemma_inner_zero(a, n, (l - 1) as nat);
        assert(a[l - 1] * 0 == 0) by (nonlinear_arith);
    }
}

proof fn lemma_inner_right_updated(a: Seq<i64>, s: Seq<i64>, q: int, v: i64, l: nat)
    requires
        0 <= q < s.len(),
        l <= s.len(),
    ensures
        int_inner(a, s.update(q, v), l) == int_inner(a, s, l) + if q < l {
            a[q] * (v - s[q])
        } else {
            0
        },
    decreases l,
{
    if l > 0 {
        lemma_inner_right_updated(a, s, q, v, (l - 1) as nat);
        if q == l - 1 {
            let x = a[q] as int;
            let y = s[q] as int;
            let z = v as int;
            assert(x * z == x * y + x * (z - y)) by (nonlinear_arith);
        }
    }
}

proof fn lemma_inner_left_updated(a: Seq<i64>, s: Seq<i64>, q: int, v: i64, l: nat)
    requires
        0 <= q < a.len(),
        l <= a.len(),
    ensures
        int_inner(a.update(q, v), s, l) == int_inner(a, s, l) + if q < l {
            (v - a[q]) * s[q]
        } else {
            0
        },
    decreases l,
{
    if l > 0 {
        lemma_inner_left_updated(a, s, q, v, (l - 1) as nat);
        if q == l - 1 {
            let x = a[q] as int;
            let y = s[q] as int;
            let z = v as int;
            assert(z * y == x * y + (z - x) * y) by (nonlinear_arith);
        }
    }
}

proof fn lemma_inner_commutes(a: Seq<i64>, b: Seq<i64>, n: nat)
    ensures
        int_inner(a, b, n) == int_inner(b, a, n),
    decreases n,
{
    if n > 0 {
        lemma_inner_commutes(a, b, (n - 1) as nat);
        assert(a[n - 1] * b[n - 1] == b[n - 1] * a[n - 1]) by (nonlinear_arith);
    }
}

/// Whether element `k` of `g` is scattered without saturating: the sum at the place that
/// the map sends it to stays in the range of `i64`.
pub open spec fn scatter_step_exact(g: Seq<i64>, index: Seq<Option<usize>>, n: nat, k: int) -> bool {
    match index[k] {
        Some(q) => q < n ==> i64::MIN <= scatter_to(g, index, n, k as nat)[q as int] + g[k]
            <= i64::MAX,
        None => true,
    }
}

/// Whether `g` is scattered by `index` to `n` places without saturating anywhere.
pub open spec fn scatters_exactly(g: Seq<i64>, index: Seq<Option<usize>>, n: nat) -> bool {
    forall|k: int| 0 <= k < index.len() ==> #[trigger] scatter_step_exact(g, index, n, k)
}

proof fn lemma_scatter_adjoint(
    x: TensorView,
    g: Seq<i64>,
    index: Seq<Option<usize>>,
    shape: Seq<usize>,
    k: nat,
)
    requires
        g.len() == index.len(),
        k <= index.len(),
        index_valid(index, x.data.len()),
        scatters_exactly(g, index, x.data.len()),
    ensures
        int_inner(x.gather(index, shape).data, g, k) == int_inner(
            x.data,
            scatter_to(g, index, x.data.len(), k),
            x.data.len(),
        ),
    decreases k,
{
    let n = x.data.len();
    if k == 0 {
        lemma_inner_zero(x.data, n, n);
    } else {
        let u = k - 1;
        lemma_scatter_adjoint(x, g, index, shape, u as nat);
        let prev = scatter_to(g, index, n, u as nat);
        lemma_scatter_len(g, index, n, u as nat);
        assert(scatter_step_exact(g, index, n, u));
        match index[u] {
            Some(q) => {
                assert(q < n);
                let v = sat_add(prev[q as int], g[u]);
                assert(v == prev[q as int] + g[u]);
                lemma_inner_right_updated(x.data, prev, q as int, v, n);
                assert(x.gather(index, shape).data[u] == x.data[q as int]);
            },
            None => {
                assert(x.gather(index, shape).data[u] == 0i64);
                assert(0 * g[u] == 0) by (nonlinear_arith);
            },
        }
    }
}

/// Gathering and scattering are adjoint. The products of the gathered elements of `x` and
/// the elements of `g` add up to what the products of the elements of `x` and of `g`
/// scattered back add up to, as long as the scattering does not saturate: scattering back
/// is the gradient of gathering, whatever the index map, that of the patches of a
/// convolution among them.
pub proof fn law_scatter_adjoint(
    x: TensorView,
    g: TensorView,
    index: Seq<Option<usize>>,
    shape: Seq<usize>,
)
    requires
        x.wf(),
        x.can_gather(index, shape),
        g.data.len() == index.len(),
        scatters_exactly(g.data, index, x.data.len()),
    ensures
        int_inner(x.gather(index, shape).data, g.data, index.len()) == int_inner(
            x.data,
            GradFnView::Gather(index, x.kind).apply(g).data,
            x.data.len(),
        ),
{
    lemma_scatter_adjoint(x, g.data, index, shape, index.len());
}

/// Finite differences of a gathering. Moving element `q` of `x` by one moves the sum of the
/// products of the gathered elements and the elements of `g` by element `q` of `g`
/// scattered back, which is the gradient that the transform of the gathering gives for that
/// element, as long as the scattering does not saturate.
pub proof fn law_gather_moved(
    x: TensorView,
    moved: TensorView,
    g: TensorView,
    index: Seq<Option<usize>>,
    shape: Seq<usize>,
    q: int,
)
    requires
        x.wf(),
        x.can_gather(index, shape),
        g.data.len() == index.len(),
        scatters_exactly(g.data, index, x.data.len()),
        0 <= q < x.data.len(),
        x.data[q] < i64::MAX,
        moved.kind == x.kind,
        moved.data == x.data.update(q, (x.data[q] + 1) as i64),
    ensures
        int_inner(moved.gather(index, shape).data, g.data, index.len()) - int_inner(
            x.gather(index, shape).data,
            g.data,
            index.len(),
        ) == GradFnView::Gather(index, x.kind).apply(g).data[q],
{
    let n = x.data.len();
    let back = scatter_to(g.data, index, n, index.len());
    lemma_scatter_len(g.data, index, n, index.len());
    lemma_scatter_adjoint(x, g.data, index, shape, index.len());
    lemma_scatter_adjoint(moved, g.data, index, shape, index.len());
    lemma_inner_left_updated(x.data, back, q, (x.data[q] + 1) as i64, n);
    assert(1 * back[q] == back[q]) by (nonlinear_arith);
}

/// The inner product of row `i` of `a` and column `j` of `b` over the first `l` terms, as an
/// integer, without bounds: `a` has `k` columns and `b` has `n`.
pub open spec fn int_dot(a: Seq<i64>, b: Seq<i64>, k: int, n: int, i: int, j: int, l: nat) -> int
    decreases l,
{
    if l == 0 {
        0
    } else {
        int_dot(a, b, k, n, i, j, (l - 1) as nat) + a[i * k + l - 1] * b[(l - 1) * n + j]
    }
}

/// Term `t` of the inner product of row `i` of `a` and column `j` of `b`, as an integer,
/// without bounds.
pub open spec fn int_term(a: Seq<i64>, b: Seq<i64>, k: int, n: int, i: int, j: int, t: int) -> int {
    a[i * k + t] * b[t * n + j]
}

/// Whether the entry in row `i` and column `j` of `a · b` is computed without saturating:
/// every term and every partial sum of the terms lies in the range of `i64`.
pub open spec fn dot_exact(a: Seq<i64>, b: Seq<i64>, k: int, n: int, i: int, j: int) -> bool {
    &&& forall|t: int|
        0 <= t < k ==> i64::MIN <= #[trigger] int_term(a, b, k, n, i, j, t) <= i64::MAX
    &&& forall|l: nat| l <= k ==> i64::MIN <= #[trigger] int_dot(a, b, k, n, i, j, l) <= i64::MAX
}

proof fn lemma_dot_exact(a: Seq<i64>, b: Seq<i64>, k: int, n: int, i: int, j: int, l: nat)
    requires
        l <= k,
        dot_exact(a, b, k, n, i, j),
    ensures
        dot_at(a, b, k, n, i, j, l) == int_dot(a, b, k, n, i, j, l),
    decreases l,
{
    if l > 0 {
        lemma_dot_exact(a, b, k, n, i, j, (l - 1) as nat);
        assert(i64::MIN <= int_term(a, b, k, n, i, j, l - 1) <= i64::MAX);
        assert(i64::MIN <= int_dot(a, b, k, n, i, j, l) <= i64::MAX);
    }
}

proof fn lemma_dot_moved_right(
    a: Seq<i64>,
    b: Seq<i64>,
    moved: Seq<i64>,
    k: int,
    n: int,
    i: int,
    j: int,
    t: int,
    c: int,
    l: nat,
)
    requires
        l <= k,
        0 <= t < k,
        0 <= c < n,
        0 <= j < n,
        b.len() == k * n,
        b[t * n + c] < i64::MAX,
        moved == b.update(t * n + c, (b[t * n + c] + 1) as i64),
    ensures
        int_dot(a, moved, k, n, i, j, l) - int_dot(a, b, k, n, i, j, l) == if j == c && t < l {
            a[i * k + t] as int
        } else {
            0
        },
    decreases l,
{
    if l > 0 {
        lemma_dot_moved_right(a, b, moved, k, n, i, j, t, c, (l - 1) as nat);
        let u = l - 1;
        lemma_index(u, j, k, n);
        lemma_index(t, c, k, n);
        let x = a[i * k + u] as int;
        let y = b[u * n + j] as int;
        if u == t && j == c {
            assert(moved[u * n + j] == y + 1);
            assert(x * (y + 1) - x * y == x) by (nonlinear_arith);
        } else {
            assert(u * n + j != t * n + c);
            assert(moved[u * n + j] == y);
        }
    }
}

proof fn lemma_dot_moved_left(
    a: Seq<i64>,
    b: Seq<i64>,
    moved: Seq<i64>,
    v: i64,
    m: int,
    k: int,
    n: int,
    i: int,
    j: int,
    r: int,
    t: int,
    l: nat,
)
    requires
        l <= k,
        0 <= r < m,
        0 <= i < m,
        0 <= t < k,
        a.len() == m * k,
        moved == a.update(r * k + t, v),
    ensures
        int_dot(moved, b, k, n, i, j, l) - int_dot(a, b, k, n, i, j, l) == if i == r && t < l {
            (v - a[r * k + t]) * b[t * n + j]
        } else {
            0
        },
    decreases l,
{
    if l > 0 {
        lemma_dot_moved_left(a, b, moved, v, m, k, n, i, j, r, t, (l - 1) as nat);
        let u = l - 1;
        lemma_index(i, u, m, k);
        lemma_index(r, t, m, k);
        let x = a[i * k + u] as int;
        let y = b[u * n + j] as int;
        if u == t && i == r {
            let z = v as int;
            assert(moved[i * k + u] == z);
            assert(z * y - x * y == (z - x) * y) by (nonlinear_arith);
        } else {
            assert(i * k + u != r * k + t);
            assert(moved[i * k + u] == x);
        }
    }
}

/// Finite differences of a matrix product by its second factor. Moving the element of `w`
/// in row `t` and column `c` by one moves the entry of `x · w` in row `i` and column `c` by
/// the element of `x` in row `i` and column `t`, and leaves the other columns as they were,
/// as long as the entry does not saturate before or after the move. That element of `x` is
/// the factor by which the gradient `xᵀ · dy` of `w` counts `dy` at that entry.
pub proof fn law_product_moved_right(
    x: TensorView,
    w: TensorView,
    moved: TensorView,
    t: int,
    c: int,
    i: int,
    j: int,
)
    requires
        x.wf(),
        w.wf(),
        x.can_dot(w),
        0 <= t < w.rows(),
        0 <= c < w.cols(),
        0 <= i < x.rows(),
        0 <= j < w.cols(),
        w.data[t * w.cols() + c] < i64::MAX,
        moved.kind == w.kind,
        moved.data == w.data.update(
            t * w.cols() + c,
            (w.data[t * w.cols() + c] + 1) as i64,
        ),
        dot_exact(x.data, w.data, x.cols() as int, w.cols() as int, i, j),
        dot_exact(x.data, moved.data, x.cols() as int, w.cols() as int, i, j),
    ensures
        x.dot(moved).data[i * w.cols() + j] - x.dot(w).data[i * w.cols() + j] == if j == c {
            x.data[i * x.cols() + t] as int
        } else {
            0
        },
        x.transpose().data[t * x.rows() + i] == x.data[i * x.cols() + t],
{
    let m = x.rows() as int;
    let k = x.cols() as int;
    let n = w.cols() as int;
    lemma_matrix_size(x.kind.shape);
    lemma_matrix_size(w.kind.shape);
    lemma_index(i, j, m, n);
    lemma_index(t, i, k, m);
    assert(k * m == m * k) by (nonlinear_arith);
    lemma_dot_exact(x.data, w.data, k, n, i, j, k as nat);
    lemma_dot_exact(x.data, moved.data, k, n, i, j, k as nat);
    lemma_dot_moved_right(x.data, w.data, moved.data, k, n, i, j, t, c, k as nat);
}

/// Finite differences of a matrix product by its first factor. Moving the element of `x` in
/// row `r` and column `t` by one moves the entry of `x · w` in row `r` and column `j` by the
/// element of `w` in row `t` and column `j`, and leaves the other rows as they were, as long
/// as the entry does not saturate before or after the move. That element of `w` is the
/// factor by which the gradient `dy · wᵀ` of `x` counts `dy` at that entry.
pub proof fn law_product_moved_left(
    x: TensorView,
    w: TensorView,
    moved: TensorView,
    r: int,
    t: int,
    i: int,
    j: int,
)
    requires
        x.wf(),
        w.wf(),
        x.can_dot(w),
        0 <= r < x.rows(),
        0 <= t < x.cols(),
        0 <= i < x.rows(),
        0 <= j < w.cols(),
        x.data[r * x.cols() + t] < i64::MAX,
        moved.kind == x.kind,
        moved.data == x.data.update(
            r * x.cols() + t,
            (x.data[r * x.cols() + t] + 1) as i64,
        ),
        dot_exact(x.data, w.data, x.cols() as int, w.cols() as int, i, j),
        dot_exact(moved.data, w.data, x.cols() as int, w.cols() as int, i, j),
    ensures
        moved.dot(w).data[i * w.cols() + j] - x.dot(w).data[i * w.cols() + j] == if i == r {
            w.data[t * w.cols() + j] as int
        } else {
            0
        },
        w.transpose().data[j * w.rows() + t] == w.data[t * w.cols() + j],
{
    let m = x.rows() as int;
    let k = x.cols() as int;
    let n = w.cols() as int;
    lemma_matrix_size(x.kind.shape);
    lemma_matrix_size(w.kind.shape);
    lemma_index(i, j, m, n);
    lemma_index(j, t, n, k);
    assert(k * n == n * k) by (nonlinear_arith);
    lemma_dot_exact(x.data, w.data, k, n, i, j, k as nat);
    lemma_dot_exact(moved.data, w.data, k, n, i, j, k as nat);
    let v = (x.data[r * k + t] + 1) as i64;
    lemma_dot_moved_left(x.data, w.data, moved.data, v, m, k, n, i, j, r, t, k as nat);
    assert((v - x.data[r * k + t]) * w.data[t * n + j] == w.data[t * n + j]) by (nonlinear_arith)
        requires
            v - x.data[r * k + t] == 1,
    ;
}

/// Whether every entry of `x · w` is computed without saturating.
pub open spec fn product_exact(x: TensorView, w: TensorView) -> bool {
    forall|i: int, j: int|
        0 <= i < x.rows() && 0 <= j < w.cols() ==> #[trigger] dot_exact(
            x.data,
            w.data,
            x.cols() as int,
            w.cols() as int,
            i,
            j,
        )
}

/// How many of the rows of a matrix with `n` columns have their entry in column `c` among
/// the first `p` entries.
pub open spec fn rows_passed(p: int, n: int, c: int) -> nat {
    if p % n > c {
        (p / n + 1) as nat
    } else {
        (p / n) as nat
    }
}

proof fn lemma_rows_passed(u: int, m: int, n: int, c: int)
    requires
        0 <= u < m * n,
        0 <= c < n,
    ensures
        rows_passed(u + 1, n, c) == if u % n == c {
            rows_passed(u, n, c) + 1
        } else {
            rows_passed(u, n, c)
        },
        rows_passed(u, n, c) == if u % n > c {
            u / n + 1
        } else {
            u / n
        },
        rows_passed(u, n, c) <= m,
        u % n == c ==> rows_passed(u, n, c) == u / n,
{
    lemma_split(u, m, n);
    let i = u / n;
    let j = u % n;
    if j < n - 1 {
        lemma_index(i, j + 1, m, n);
    } else {
        assert((i + 1) * n == i * n + n) by (nonlinear_arith);
        lemma_index(i + 1, 0, m + 1, n);
    }
}

proof fn lemma_loss_moved_right(
    x: TensorView,
    w: TensorView,
    moved: TensorView,
    dy: Seq<i64>,
    t: int,
    c: int,
    p: nat,
)
    requires
        x.wf(),
        w.wf(),
        x.can_dot(w),
        0 <= t < w.rows(),
        0 <= c < w.cols(),
        w.data[t * w.cols() + c] < i64::MAX,
        moved.kind == w.kind,
        moved.data == w.data.update(
            t * w.cols() + c,
            (w.data[t * w.cols() + c] + 1) as i64,
        ),
        product_exact(x, w),
        product_exact(x, moved),
        dy.len() == x.rows() * w.cols(),
        p <= dy.len(),
    ensures
        int_inner(dy, x.dot(moved).data, p) - int_inner(dy, x.dot(w).data, p) == int_dot(
            x.transpose().data,
            dy,
            x.rows() as int,
            w.cols() as int,
            t,
            c,
            rows_passed(p as int, w.cols() as int, c),
        ),
    decreases p,
{
    let m = x.rows() as int;
    let n = w.cols() as int;
    if p == 0 {
        vstd::arithmetic::div_mod::lemma_small_mod(0, n as nat);
        vstd::arithmetic::div_mod::lemma_basic_div(0, n);
    } else {
        let u = p - 1;
        lemma_loss_moved_right(x, w, moved, dy, t, c, u as nat);
        lemma_split(u, m, n);
        lemma_rows_passed(u, m, n, c);
        let i = u / n;
        let j = u % n;
        law_product_moved_right(x, w, moved, t, c, i, j);
        let a = x.dot(moved).data[u] as int;
        let b = x.dot(w).data[u] as int;
        let g = dy[u] as int;
        assert(g * a - g * b == g * (a - b)) by (nonlinear_arith);
        if j == c {
            let e = x.data[i * x.cols() + t] as int;
            assert(a - b == e);
            assert(g * e == e * g) by (nonlinear_arith);
            assert(x.transpose().data[t * m + i] == e);
            assert(dy[i * n + c] == g);
        } else {
            assert(a - b == 0);
            assert(g * 0 == 0) by (nonlinear_arith);
        }
    }
}

/// Finite differences of a weighed matrix product by its second factor. Moving the element
/// of `w` in row `t` and column `c` by one moves the sum of the products of `dy` and
/// `x · w`, place by place, by the element in row `t` and column `c` of `xᵀ · dy`, the
/// gradient that the backward walk gives for that element, as long as nothing saturates
/// before or after the move.
pub proof fn law_product_finite_difference_right(
    x: TensorView,
    w: TensorView,
    moved: TensorView,
    dy: TensorView,
    t: int,
    c: int,
)
    requires
        x.wf(),
        w.wf(),
        dy.wf(),
        x.can_dot(w),
        dy.kind == x.dot(w).kind,
        0 <= t < w.rows(),
        0 <= c < w.cols(),
        w.data[t * w.cols() + c] < i64::MAX,
        moved.kind == w.kind,
        moved.data == w.data.update(
            t * w.cols() + c,
            (w.data[t * w.cols() + c] + 1) as i64,
        ),
        product_exact(x, w),
        product_exact(x, moved),
        dot_exact(x.transpose().data, dy.data, x.rows() as int, w.cols() as int, t, c),
    ensures
        int_inner(dy.data, x.dot(moved).data, dy.data.len()) - int_inner(
            dy.data,
            x.dot(w).data,
            dy.data.len(),
        ) == GradFnView::DotRhs(x).apply(dy).data[t * w.cols() + c],
{
    let m = x.rows() as int;
    let k = x.cols() as int;
    let n = w.cols() as int;
    lemma_matrix_size(dy.kind.shape);
    lemma_loss_moved_right(x, w, moved, dy.data, t, c, dy.data.len());
    lemma_index(t, c, k, n);
    if m > 0 {
        lemma_index(m - 1, n - 1, m, n);
        assert((m - 1) * n + n == m * n) by (nonlinear_arith);
        lemma_index(m, 0, m + 1, n);
    } else {
        assert(m * n == 0) by (nonlinear_arith)
            requires
                m == 0,
        ;
        vstd::arithmetic::div_mod::lemma_small_mod(0, n as nat);
        vstd::arithmetic::div_mod::lemma_basic_div(0, n);
    }
    assert(rows_passed(m * n, n, c) == m);
    lemma_dot_exact(x.transpose().data, dy.data, m, n, t, c, m as nat);
}

/// How many of the entries of row `r` of a matrix with `n` columns are among the first `p`
/// entries.
pub open spec fn row_passed(p: int, n: int, r: int) -> nat {
    if p <= r * n {
        0
    } else if p >= r * n + n {
        n as nat
    } else {
        (p - r * n) as nat
    }
}

proof fn lemma_loss_moved_left(
    x: TensorView,
    w: TensorView,
    moved: TensorView,
    dy: Seq<i64>,
    r: int,
    t: int,
    p: nat,
)
    requires
        x.wf(),
        w.wf(),
        x.can_dot(w),
        0 <= r < x.rows(),
        0 <= t < x.cols(),
        x.data[r * x.cols() + t] < i64::MAX,
        moved.kind == x.kind,
        moved.data == x.data.update(
            r * x.cols() + t,
            (x.data[r * x.cols() + t] + 1) as i64,
        ),
        product_exact(x, w),
        product_exact(moved, w),
        dy.len() == x.rows() * w.cols(),
        p <= dy.len(),
    ensures
        int_inner(dy, moved.dot(w).data, p) - int_inner(dy, x.dot(w).data, p) == int_dot(
            dy,
            w.transpose().data,
            w.cols() as int,
            x.cols() as int,
            r,
            t,
            row_passed(p as int, w.cols() as int, r),
        ),
    decreases p,
{
    let m = x.rows() as int;
    let k = x.cols() as int;
    let n = w.cols() as int;
    assert(0 <= r * n) by (nonlinear_arith)
        requires
            0 <= r,
            0 <= n,
    ;
    if p > 0 {
        let u = p - 1;
        lemma_loss_moved_left(x, w, moved, dy, r, t, u as nat);
        lemma_split(u, m, n);
        let i = u / n;
        let j = u % n;
        assert(dot_exact(moved.data, w.data, k, n, i, j));
        law_product_moved_left(x, w, moved, r, t, i, j);
        let a = moved.dot(w).data[u] as int;
        let b = x.dot(w).data[u] as int;
        let g = dy[u] as int;
        assert(g * a - g * b == g * (a - b)) by (nonlinear_arith);
        if i == r {
            let e = w.data[t * n + j] as int;
            assert(a - b == e);
            assert(w.transpose().data[j * k + t] == e);
            assert(u == r * n + j);
            assert(row_passed(u, n, r) == j);
            assert(row_passed(u + 1, n, r) == j + 1);
        } else {
            assert(a - b == 0);
            assert(g * 0 == 0) by (nonlinear_arith);
            if i < r {
                assert(i * n + n <= r * n) by (nonlinear_arith)
                    requires
                        i + 1 <= r,
                        0 <= n,
                ;
            } else {
                assert(i * n >= r * n + n) by (nonlinear_arith)
                    requires
                        i >= r + 1,
                        0 <= n,
                ;
            }
            assert(row_passed(u + 1, n, r) == row_passed(u, n, r));
        }
    }
}

/// Finite differences of a weighed matrix product by its first factor. Moving the element
/// of `x` in row `r` and column `t` by one moves the sum of the products of `dy` and
/// `x · w`, place by place, by the element in row `r` and column `t` of `dy · wᵀ`, the
/// gradient that the backward walk gives for that element, as long as nothing saturates
/// before or after the move.
pub proof fn law_product_finite_difference_left(
    x: TensorView,
    w: TensorView,
    moved: TensorView,
    dy: TensorView,
    r: int,
    t: int,
)
    requires
        x.wf(),
        w.wf(),
        dy.wf(),
        x.can_dot(w),
        dy.kind == x.dot(w).kind,
        0 <= r < x.rows(),
        0 <= t < x.cols(),
        x.data[r * x.cols() + t] < i64::MAX,
        moved.kind == x.kind,
        moved.data == x.data.update(
            r * x.cols() + t,
            (x.data[r * x.cols() + t] + 1) as i64,
        ),
        product_exact(x, w),
        product_exact(moved, w),
        dot_exact(dy.data, w.transpose().data, w.cols() as int, x.cols() as int, r, t),
    ensures
        int_inner(dy.data, moved.dot(w).data, dy.data.len()) - int_inner(
            dy.data,
            x.dot(w).data,
            dy.data.len(),
        ) == GradFnView::DotLhs(w).apply(dy).data[r * x.cols() + t],
{
    let m = x.rows() as int;
    let k = x.cols() as int;
    let n = w.cols() as int;
    lemma_matrix_size(dy.kind.shape);
    lemma_loss_moved_left(x, w, moved, dy.data, r, t, dy.data.len());
    lemma_index(r, t, m, k);
    assert(r * n + n <= m * n) by (nonlinear_arith)
        requires
            r + 1 <= m,
            0 <= n,
    ;
    assert(0 <= r * n) by (nonlinear_arith)
        requires
            0 <= r,
            0 <= n,
    ;
    assert(row_passed(m * n, n, r) == n);
    lemma_dot_exact(dy.data, w.transpose().data, n, k, r, t, n as nat);
}

proof fn lemma_moved_transpose(w: TensorView, moved: TensorView, a: int, b: int)
    requires
        w.wf(),
        w.is_matrix(),
        0 <= a < w.rows(),
        0 <= b < w.cols(),
        w.data[a * w.cols() + b] < i64::MAX,
        moved.kind == w.kind,
        moved.data == w.data.update(a * w.cols() + b, (w.data[a * w.cols() + b] + 1) as i64),
    ensures
        w.transpose().wf(),
        moved.transpose().kind == w.transpose().kind,
        0 <= b * w.rows() + a < w.transpose().data.len(),
        w.transpose().data[b * w.rows() + a] == w.data[a * w.cols() + b],
        moved.transpose().data == w.transpose().data.update(
            b * w.rows() + a,
            (w.transpose().data[b * w.rows() + a] + 1) as i64,
        ),
{
    let m = w.rows() as int;
    let k = w.cols() as int;
    let wt = w.transpose();
    let mt = moved.transpose();
    lemma_matrix_size(w.kind.shape);
    lemma_matrix_size(wt.kind.shape);
    assert(m * k == k * m) by (nonlinear_arith);
    lemma_index(b, a, k, m);
    lemma_index(a, b, m, k);
    let to = wt.data.update(b * m + a, (wt.data[b * m + a] + 1) as i64);
    assert forall|p: int| 0 <= p < mt.data.len() implies mt.data[p] == to[p] by {
        lemma_split(p, k, m);
        lemma_index(p % m, p / m, m, k);
    }
    assert(mt.data =~= to);
}

/// Finite differences of a dense layer by its weight. For `y = x · wᵀ`, where the weight
/// has one row for each output, moving the element of `w` in row `a` and column `b` by one
/// moves the sum of the products of `dy` and `y`, place by place, by the element in row
/// `a` and column `b` of `dyᵀ · x`, which is the gradient that reaches the weight, as long
/// as nothing saturates before or after the move.
pub proof fn law_dense_finite_difference(
    x: TensorView,
    w: TensorView,
    moved: TensorView,
    dy: TensorView,
    a: int,
    b: int,
)
    requires
        x.wf(),
        w.wf(),
        dy.wf(),
        w.is_matrix(),
        w.data.len() <= usize::MAX,
        x.can_dot(w.transpose()),
        dy.kind == x.dot(w.transpose()).kind,
        0 <= a < w.rows(),
        0 <= b < w.cols(),
        w.data[a * w.cols() + b] < i64::MAX,
        moved.kind == w.kind,
        moved.data == w.data.update(a * w.cols() + b, (w.data[a * w.cols() + b] + 1) as i64),
        product_exact(x, w.transpose()),
        product_exact(x, moved.transpose()),
        dot_exact(x.transpose().data, dy.data, x.rows() as int, w.rows() as int, b, a),
    ensures
        GradFnView::Gather(transposed(1, w.rows() as int, w.cols() as int), w.kind).apply(
            GradFnView::DotRhs(x).apply(dy),
        ) == dy.transpose().dot(x),
        int_inner(dy.data, x.dot(moved.transpose()).data, dy.data.len()) - int_inner(
            dy.data,
            x.dot(w.transpose()).data,
            dy.data.len(),
        ) == dy.transpose().dot(x).data[a * w.cols() + b],
{
    let m = w.rows() as int;
    let k = w.cols() as int;
    let wt = w.transpose();
    let mt = moved.transpose();
    lemma_moved_transpose(w, moved, a, b);
    law_product_finite_difference_right(x, wt, mt, dy, b, a);
    law_dense_weight_gradient(x, w, dy);
    let g = x.transpose().dot(dy);
    lemma_matrix_size(x.kind.shape);
    lemma_matrix_size(w.kind.shape);
    lemma_matrix_size(dy.kind.shape);
    assert(x.transpose().wf()) by {
        lemma_matrix_size(x.transpose().kind.shape);
        assert(x.rows() * x.cols() == x.cols() * x.rows()) by (nonlinear_arith);
    }
    assert(g.kind.shape =~= seq![w.cols(), w.rows()]);
    assert(w.kind.shape =~= seq![w.rows(), w.cols()]);
    assert(w.kind == matrix_kind(g.cols(), g.rows(), g.kind));
    assert(g.wf()) by {
        lemma_matrix_size(g.kind.shape);
    }
    assert(m * k == k * m) by (nonlinear_arith);
    law_scattered_transpose(g, w.kind);
    lemma_index(a, b, m, k);
    lemma_index(b, a, k, m);
    assert(g.transpose().data[a * k + b] == g.data[b * m + a]);
}

/// Finite differences of a dense layer by its input. For `y = x · wᵀ`, moving the element
/// of `x` in row `r` and column `t` by one moves the sum of the products of `dy` and `y`,
/// place by place, by the element in row `r` and column `t` of `dy · w`, which is the
/// gradient that reaches the input, as long as nothing saturates before or after the move.
pub proof fn law_dense_finite_difference_input(
    x: TensorView,
    w: TensorView,
    moved: TensorView,
    dy: TensorView,
    r: int,
    t: int,
)
    requires
        x.wf(),
        w.wf(),
        dy.wf(),
        w.is_matrix(),
        x.can_dot(w.transpose()),
        dy.kind == x.dot(w.transpose()).kind,
        0 <= r < x.rows(),
        0 <= t < x.cols(),
        x.data[r * x.cols() + t] < i64::MAX,
        moved.kind == x.kind,
        moved.data == x.data.update(r * x.cols() + t, (x.data[r * x.cols() + t] + 1) as i64),
        product_exact(x, w.transpose()),
        product_exact(moved, w.transpose()),
        dot_exact(dy.data, w.data, w.rows() as int, x.cols() as int, r, t),
    ensures
        GradFnView::DotLhs(w.transpose()).apply(dy) == dy.dot(w),
        int_inner(dy.data, moved.dot(w.transpose()).data, dy.data.len()) - int_inner(
            dy.data,
            x.dot(w.transpose()).data,
            dy.data.len(),
        ) == dy.dot(w).data[r * x.cols() + t],
{
    let wt = w.transpose();
    lemma_matrix_size(w.kind.shape);
    lemma_matrix_size(wt.kind.shape);
    assert(w.rows() * w.cols() == w.cols() * w.rows()) by (nonlinear_arith);
    law_transpose_twice(w);
    law_product_finite_difference_left(x, wt, moved, dy, r, t);
}

/// The sum of column `j` of a matrix with `n` columns over its first `rows` rows, as an
/// integer, without bounds.
pub open spec fn int_column(a: Seq<i64>, n: int, j: int, rows: nat) -> int
    decreases rows,
{
    if rows == 0 {
        0
    } else {
        int_column(a, n, j, (rows - 1) as nat) + a[(rows - 1) * n + j]
    }
}

/// Whether column `j` is summed without saturating over the first `rows` rows.
pub open spec fn column_exact(a: Seq<i64>, n: int, j: int, rows: nat) -> bool {
    forall|l: nat| l <= rows ==> i64::MIN <= #[trigger] int_column(a, n, j, l) <= i64::MAX
}

/// Entry `p` of a matrix with the bias added to its row, as an integer, without bounds.
pub open spec fn int_row_added(y: TensorView, bias: TensorView, p: int) -> int {
    y.data[p] + bias.data[p % (y.cols() as int)]
}

/// Whether the bias is added to every row without saturating.
pub open spec fn rows_added_exactly(y: TensorView, bias: TensorView) -> bool {
    forall|p: int|
        0 <= p < y.data.len() ==> i64::MIN <= #[trigger] int_row_added(y, bias, p) <= i64::MAX
}

proof fn lemma_column_exact(a: Seq<i64>, n: int, j: int, rows: nat, l: nat)
    requires
        l <= rows,
        column_exact(a, n, j, rows),
    ensures
        column_sum(a, n, j, l) == int_column(a, n, j, l),
    decreases l,
{
    if l > 0 {
        lemma_column_exact(a, n, j, rows, (l - 1) as nat);
        assert(i64::MIN <= int_column(a, n, j, l) <= i64::MAX);
    }
}

/// Finite differences of a bias. Moving element `c` of the bias by one moves every entry of
/// column `c` of the rows with the bias added by one and leaves the other columns as they
/// were, as long as the entry does not saturate: the bias receives the sums of the columns
/// of the gradient.
pub proof fn law_bias_moved(y: TensorView, bias: TensorView, moved: TensorView, c: int, p: int)
    requires
        y.wf(),
        y.can_add_rows(bias),
        bias.wf(),
        0 <= c < y.cols(),
        0 <= p < y.data.len(),
        moved.kind == bias.kind,
        bias.data[c] < i64::MAX,
        moved.data == bias.data.update(c, (bias.data[c] + 1) as i64),
        i64::MIN <= y.data[p] + bias.data[p % (y.cols() as int)] < i64::MAX,
    ensures
        y.add_rows(moved).data[p] - y.add_rows(bias).data[p] == if p % (y.cols() as int) == c {
            1int
        } else {
            0
        },
{
    lemma_vector_size(bias.kind.shape);
    vstd::arithmetic::div_mod::lemma_mod_pos_bound(p, y.cols() as int);
}

proof fn lemma_loss_bias_moved(
    y: TensorView,
    bias: TensorView,
    moved: TensorView,
    dy: Seq<i64>,
    c: int,
    p: nat,
)
    requires
        y.wf(),
        bias.wf(),
        y.can_add_rows(bias),
        0 <= c < y.cols(),
        bias.data[c] < i64::MAX,
        moved.kind == bias.kind,
        moved.data == bias.data.update(c, (bias.data[c] + 1) as i64),
        rows_added_exactly(y, bias),
        rows_added_exactly(y, moved),
        dy.len() == y.data.len(),
        p <= dy.len(),
    ensures
        int_inner(dy, y.add_rows(moved).data, p) - int_inner(dy, y.add_rows(bias).data, p)
            == int_column(dy, y.cols() as int, c, rows_passed(p as int, y.cols() as int, c)),
    decreases p,
{
    let m = y.rows() as int;
    let n = y.cols() as int;
    lemma_matrix_size(y.kind.shape);
    lemma_vector_size(bias.kind.shape);
    if p == 0 {
        vstd::arithmetic::div_mod::lemma_small_mod(0, n as nat);
        vstd::arithmetic::div_mod::lemma_basic_div(0, n);
    } else {
        let u = p - 1;
        lemma_loss_bias_moved(y, bias, moved, dy, c, u as nat);
        lemma_split(u, m, n);
        lemma_rows_passed(u, m, n, c);
        let j = u % n;
        assert(i64::MIN <= int_row_added(y, bias, u) <= i64::MAX);
        assert(i64::MIN <= int_row_added(y, moved, u) <= i64::MAX);
        let a = y.add_rows(moved).data[u] as int;
        let b = y.add_rows(bias).data[u] as int;
        let g = dy[u] as int;
        assert(g * a - g * b == g * (a - b)) by (nonlinear_arith);
        if j == c {
            assert(a - b == 1);
            assert(g * 1 == g) by (nonlinear_arith);
        } else {
            assert(a - b == 0);
            assert(g * 0 == 0) by (nonlinear_arith);
        }
    }
}

/// Finite differences of a weighed sum by the bias. Moving element `c` of the bias by one
/// moves the sum of the products of `dy` and the rows with the bias added, place by place,
/// by the sum of column `c` of `dy`, the gradient that the backward walk gives for that
/// element, as long as nothing saturates before or after the move.
pub proof fn law_bias_finite_difference(
    y: TensorView,
    bias: TensorView,
    moved: TensorView,
    dy: TensorView,
    c: int,
)
    requires
        y.wf(),
        bias.wf(),
        dy.wf(),
        y.can_add_rows(bias),
        dy.kind == y.kind,
        0 <= c < y.cols(),
        bias.data[c] < i64::MAX,
        moved.kind == bias.kind,
        moved.data == bias.data.update(c, (bias.data[c] + 1) as i64),
        rows_added_exactly(y, bias),
        rows_added_exactly(y, moved),
        column_exact(dy.data, y.cols() as int, c, y.rows() as nat),
    ensures
        int_inner(dy.data, y.add_rows(moved).data, dy.data.len()) - int_inner(
            dy.data,
            y.add_rows(bias).data,
            dy.data.len(),
        ) == GradFnView::SumRows.apply(dy).data[c],
{
    let m = y.rows() as int;
    let n = y.cols() as int;
    lemma_matrix_size(y.kind.shape);
    lemma_loss_bias_moved(y, bias, moved, dy.data, c, dy.data.len());
    lemma_index(m, 0, m + 1, n);
    assert(rows_passed(m * n, n, c) == m);
    lemma_column_exact(dy.data, n, c, m as nat, m as nat);
}

/// The sum of the products of the first `p` elements of `dy` and the entries of `x · w`, as
/// an integer, without bounds: `x` has `k` columns and `w` has `n`.
pub open spec fn int_loss(dy: Seq<i64>, x: Seq<i64>, w: Seq<i64>, k: int, n: int, p: nat) -> int
    decreases p,
{
    if p == 0 {
        0
    } else {
        int_loss(dy, x, w, k, n, (p - 1) as nat) + dy[p - 1] * int_dot(
            x,
            w,
            k,
            n,
            (p - 1) / n,
            (p - 1) % n,
            k as nat,
        )
    }
}

/// The first `q` elements of `x`, followed by zeros.
pub open spec fn zero_from(x: Seq<i64>, q: int) -> Seq<i64> {
    Seq::new(
        x.len(),
        |i: int|
            if i < q {
                x[i]
            } else {
                0i64
            },
    )
}

proof fn lemma_loss_exact(x: TensorView, w: TensorView, dy: Seq<i64>, p: nat)
    requires
        x.wf(),
        w.wf(),
        x.can_dot(w),
        product_exact(x, w),
        dy.len() == x.rows() * w.cols(),
        p <= dy.len(),
    ensures
        int_inner(dy, x.dot(w).data, p) == int_loss(
            dy,
            x.data,
            w.data,
            x.cols() as int,
            w.cols() as int,
            p,
        ),
    decreases p,
{
    if p > 0 {
        let u = p - 1;
        let n = w.cols() as int;
        lemma_loss_exact(x, w, dy, u as nat);
        assert(n > 0) by (nonlinear_arith)
            requires
                0 <= u < x.rows() * n,
                0 <= n,
        ;
        lemma_split(u, x.rows() as int, n);
        assert(dot_exact(x.data, w.data, x.cols() as int, n, u / n, u % n));
        lemma_dot_exact(x.data, w.data, x.cols() as int, n, u / n, u % n, x.cols() as nat);
    }
}

proof fn lemma_dot_of_zeros(len: nat, b: Seq<i64>, k: int, n: int, i: int, j: int, l: nat)
    requires
        0 <= i,
        0 <= k,
        l <= k,
        i * k + k <= len,
    ensures
        int_dot(Seq::new(len, |i: int| 0i64), b, k, n, i, j, l) == 0,
    decreases l,
{
    if l > 0 {
        lemma_dot_of_zeros(len, b, k, n, i, j, (l - 1) as nat);
        assert(0 <= i * k) by (nonlinear_arith)
            requires
                0 <= i,
                0 <= k,
        ;
        assert(0 * b[(l - 1) * n + j] == 0) by (nonlinear_arith);
    }
}

proof fn lemma_loss_of_zeros(dy: Seq<i64>, len: nat, w: Seq<i64>, m: int, k: int, n: int, p: nat)
    requires
        0 <= m,
        0 <= k,
        0 <= n,
        len == m * k,
        p <= m * n,
    ensures
        int_loss(dy, Seq::new(len, |i: int| 0i64), w, k, n, p) == 0,
    decreases p,
{
    if p > 0 {
        let u = p - 1;
        lemma_loss_of_zeros(dy, len, w, m, k, n, u as nat);
        assert(n > 0) by (nonlinear_arith)
            requires
                0 <= u < m * n,
                0 <= m,
                0 <= n,
        ;
        lemma_split(u, m, n);
        let i = u / n;
        assert(i * k + k <= m * k) by (nonlinear_arith)
            requires
                i + 1 <= m,
                0 <= k,
        ;
        lemma_dot_of_zeros(len, w, k, n, i, u % n, k as nat);
        assert(dy[u] * 0 == 0) by (nonlinear_arith);
    }
}

proof fn lemma_loss_changed(
    x: Seq<i64>,
    w: TensorView,
    changed: Seq<i64>,
    v: i64,
    dy: Seq<i64>,
    m: int,
    r: int,
    t: int,
    p: nat,
)
    requires
        w.wf(),
        w.is_matrix(),
        0 <= r < m,
        0 <= t < w.rows(),
        x.len() == m * w.rows(),
        changed == x.update(r * w.rows() + t, v),
        dy.len() == m * w.cols(),
        p <= dy.len(),
    ensures
        int_loss(dy, changed, w.data, w.rows() as int, w.cols() as int, p) - int_loss(
            dy,
            x,
            w.data,
            w.rows() as int,
            w.cols() as int,
            p,
        ) == (v - x[r * w.rows() + t]) * int_dot(
            dy,
            w.transpose().data,
            w.cols() as int,
            w.rows() as int,
            r,
            t,
            row_passed(p as int, w.cols() as int, r),
        ),
    decreases p,
{
    let k = w.rows() as int;
    let n = w.cols() as int;
    let d = v - x[r * k + t];
    assert(0 <= r * n) by (nonlinear_arith)
        requires
            0 <= r,
            0 <= n,
    ;
    if p == 0 {
        assert(d * 0 == 0) by (nonlinear_arith);
    } else {
        let u = p - 1;
        lemma_loss_changed(x, w, changed, v, dy, m, r, t, u as nat);
        lemma_split(u, m, n);
        let i = u / n;
        let j = u % n;
        lemma_dot_moved_left(x, w.data, changed, v, m, k, n, i, j, r, t, k as nat);
        let a = int_dot(changed, w.data, k, n, i, j, k as nat);
        let b = int_dot(x, w.data, k, n, i, j, k as nat);
        let g = dy[u] as int;
        let before = int_dot(dy, w.transpose().data, n, k, r, t, row_passed(u, n, r));
        assert(g * a - g * b == g * (a - b)) by (nonlinear_arith);
        if i == r {
            let e = w.data[t * n + j] as int;
            lemma_matrix_size(w.kind.shape);
            lemma_index(j, t, n, k);
            lemma_index(t, j, k, n);
            assert(k * n == n * k) by (nonlinear_arith);
            assert(w.transpose().data[j * k + t] == e);
            assert(u == r * n + j);
            assert(row_passed(u, n, r) == j);
            assert(row_passed(u + 1, n, r) == j + 1);
            assert(a - b == d * e);
            assert(d * before + g * (d * e) == d * (before + g * e)) by (nonlinear_arith);
        } else {
            assert(a - b == 0);
            assert(g * 0 == 0) by (nonlinear_arith);
            if i < r {
                assert(i * n + n <= r * n) by (nonlinear_arith)
                    requires
                        i + 1 <= r,
                        0 <= n,
                ;
            } else {
                assert(i * n >= r * n + n) by (nonlinear_arith)
                    requires
                        i >= r + 1,
                        0 <= n,
                ;
            }
            assert(row_passed(u + 1, n, r) == row_passed(u, n, r));
        }
    }
}

proof fn lemma_product_adjoint(x: TensorView, w: TensorView, dy: TensorView, q: nat)
    requires
        x.wf(),
        w.wf(),
        dy.wf(),
        x.can_dot(w),
        dy.kind == x.dot(w).kind,
        product_exact(dy, w.transpose()),
        q <= x.data.len(),
    ensures
        int_loss(
            dy.data,
            zero_from(x.data, q as int),
            w.data,
            x.cols() as int,
            w.cols() as int,
            dy.data.len(),
        ) == int_inner(dy.dot(w.transpose()).data, x.data, q),
    decreases q,
{
    let m = x.rows() as int;
    let k = x.cols() as int;
    let n = w.cols() as int;
    lemma_matrix_size(x.kind.shape);
    lemma_matrix_size(w.kind.shape);
    lemma_matrix_size(dy.kind.shape);
    if q == 0 {
        assert(zero_from(x.data, 0) =~= Seq::new(x.data.len(), |i: int| 0i64));
        lemma_loss_of_zeros(dy.data, x.data.len(), w.data, m, k, n, dy.data.len());
    } else {
        let u = q - 1;
        lemma_product_adjoint(x, w, dy, u as nat);
        lemma_split(u, m, k);
        let r = u / k;
        let t = u % k;
        let from = zero_from(x.data, u);
        let to = zero_from(x.data, q as int);
        assert(to =~= from.update(r * k + t, x.data[u]));
        lemma_loss_changed(from, w, to, x.data[u], dy.data, m, r, t, dy.data.len());
        assert(r * n + n <= m * n) by (nonlinear_arith)
            requires
                r + 1 <= m,
                0 <= n,
        ;
        assert(0 <= r * n) by (nonlinear_arith)
            requires
                0 <= r,
                0 <= n,
        ;
        assert(row_passed(m * n, n, r) == n);
        assert(dot_exact(dy.data, w.transpose().data, n, k, r, t));
        lemma_dot_exact(dy.data, w.transpose().data, n, k, r, t, n as nat);
        lemma_index(r, t, m, k);
        let e = dy.dot(w.transpose()).data[u] as int;
        let z = x.data[u] as int;
        assert(from[r * k + t] == 0i64);
        assert((z - 0) * e == e * z) by (nonlinear_arith);
    }
}

/// A matrix product and the gradient of its first factor are adjoint. The products of the
/// elements of `dy` and the entries of `x · w` add up to what the products of the entries
/// of `dy · wᵀ` and the elements of `x` add up to, whatever `x` holds, as long as neither
/// product saturates: `dy · wᵀ` is the gradient of the first factor.
pub proof fn law_product_adjoint(x: TensorView, w: TensorView, dy: TensorView)
    requires
        x.wf(),
        w.wf(),
        dy.wf(),
        x.can_dot(w),
        dy.kind == x.dot(w).kind,
        product_exact(x, w),
        product_exact(dy, w.transpose()),
    ensures
        int_inner(dy.data, x.dot(w).data, dy.data.len()) == int_inner(
            GradFnView::DotLhs(w).apply(dy).data,
            x.data,
            x.data.len(),
        ),
{
    lemma_matrix_size(dy.kind.shape);
    lemma_loss_exact(x, w, dy.data, dy.data.len());
    lemma_product_adjoint(x, w, dy, x.data.len());
    assert(zero_from(x.data, x.data.len() as int) =~= x.data);
}

/// The patches gathered from `x` by the map `patches`, multiplied by the filters `w` and
/// gathered by the map `places`: what a convolution computes before the bias is added.
pub open spec fn patched_product(
    x: TensorView,
    w: TensorView,
    patches: Seq<Option<usize>>,
    patch_shape: Seq<usize>,
    places: Seq<Option<usize>>,
    shape: Seq<usize>,
) -> TensorView {
    x.gather(patches, patch_shape).dot(w).gather(places, shape)
}

/// The gradient that the output gradient `dy` of the product of the patches leaves at the
/// products, before they were gathered by `places`.
pub open spec fn product_gradient(
    x: TensorView,
    w: TensorView,
    dy: TensorView,
    patches: Seq<Option<usize>>,
    patch_shape: Seq<usize>,
    places: Seq<Option<usize>>,
) -> TensorView {
    GradFnView::Gather(places, x.gather(patches, patch_shape).dot(w).kind).apply(dy)
}

/// The gradient that the transforms of the three steps give for `x`: `dy` is scattered back
/// by `places`, multiplied by the transposed filters and scattered back by `patches`.
pub open spec fn patched_gradient(
    x: TensorView,
    w: TensorView,
    dy: TensorView,
    patches: Seq<Option<usize>>,
    patch_shape: Seq<usize>,
    places: Seq<Option<usize>>,
) -> TensorView {
    GradFnView::Gather(patches, x.kind).apply(
        GradFnView::DotLhs(w).apply(product_gradient(x, w, dy, patches, patch_shape, places)),
    )
}

/// Whether the product of the patches can be formed and neither it nor its gradient
/// saturates anywhere.
pub open spec fn patched_exactly(
    x: TensorView,
    w: TensorView,
    dy: TensorView,
    patches: Seq<Option<usize>>,
    patch_shape: Seq<usize>,
    places: Seq<Option<usize>>,
    shape: Seq<usize>,
) -> bool {
    let cols = x.gather(patches, patch_shape);
    let back = product_gradient(x, w, dy, patches, patch_shape, places);
    &&& x.wf()
    &&& w.wf()
    &&& x.can_gather(patches, patch_shape)
    &&& cols.can_dot(w)
    &&& cols.dot(w).can_gather(places, shape)
    &&& dy.data.len() == places.len()
    &&& product_exact(cols, w)
    &&& scatters_exactly(dy.data, places, cols.dot(w).data.len())
    &&& product_exact(back, w.transpose())
    &&& scatters_exactly(GradFnView::DotLhs(w).apply(back).data, patches, x.data.len())
}

/// A convolution and the gradient of its input are adjoint. The products of the elements
/// of `dy` and the products of the patches add up to what the products of the elements of
/// `x` and its gradient add up to, whatever `x` holds, as long as nothing saturates: the
/// gradient scattered back by the map of the patches, with the filter, padding, stride and
/// dilation that the map was made with, is the gradient of the input.
pub proof fn law_patched_adjoint(
    x: TensorView,
    w: TensorView,
    dy: TensorView,
    patches: Seq<Option<usize>>,
    patch_shape: Seq<usize>,
    places: Seq<Option<usize>>,
    shape: Seq<usize>,
)
    requires
        patched_exactly(x, w, dy, patches, patch_shape, places, shape),
    ensures
        int_inner(
            patched_product(x, w, patches, patch_shape, places, shape).data,
            dy.data,
            places.len(),
        ) == int_inner(
            x.data,
            patched_gradient(x, w, dy, patches, patch_shape, places).data,
            x.data.len(),
        ),
{
    let cols = x.gather(patches, patch_shape);
    let y = cols.dot(w);
    let back = product_gradient(x, w, dy, patches, patch_shape, places);
    let dcols = GradFnView::DotLhs(w).apply(back);
    lemma_matrix_size(cols.kind.shape);
    lemma_matrix_size(w.kind.shape);
    lemma_matrix_size(y.kind.shape);
    lemma_scatter_len(dy.data, places, y.data.len(), places.len());
    assert(cols.wf());
    assert(y.wf());
    assert(back.wf());
    law_scatter_adjoint(y, dy, places, shape);
    lemma_inner_commutes(y.data, back.data, y.data.len());
    law_product_adjoint(cols, w, back);
    lemma_inner_commutes(dcols.data, cols.data, cols.data.len());
    law_scatter_adjoint(x, dcols, patches, patch_shape);
}

/// Finite differences of a convolution by its input. Moving element `q` of `x` by one
/// moves the sum of the products of `dy` and the products of the patches, place by place,
/// by element `q` of the gradient that the transforms give for `x`, as long as nothing
/// saturates before or after the move.
pub proof fn law_patched_finite_difference(
    x: TensorView,
    moved: TensorView,
    w: TensorView,
    dy: TensorView,
    patches: Seq<Option<usize>>,
    patch_shape: Seq<usize>,
    places: Seq<Option<usize>>,
    shape: Seq<usize>,
    q: int,
)
    requires
        patched_exactly(x, w, dy, patches, patch_shape, places, shape),
        patched_exactly(moved, w, dy, patches, patch_shape, places, shape),
        0 <= q < x.data.len(),
        x.data[q] < i64::MAX,
        moved.kind == x.kind,
        moved.data == x.data.update(q, (x.data[q] + 1) as i64),
    ensures
        int_inner(
            patched_product(moved, w, patches, patch_shape, places, shape).data,
            dy.data,
            places.len(),
        ) - int_inner(
            patched_product(x, w, patches, patch_shape, places, shape).data,
            dy.data,
            places.len(),
        ) == patched_gradient(x, w, dy, patches, patch_shape, places).data[q],
{
    let dx = patched_gradient(x, w, dy, patches, patch_shape, places);
    law_patched_adjoint(x, w, dy, patches, patch_shape, places, shape);
    law_patched_adjoint(moved, w, dy, patches, patch_shape, places, shape);
    assert(patched_gradient(moved, w, dy, patches, patch_shape, places) == dx);
    let back = product_gradient(x, w, dy, patches, patch_shape, places);
    let dcols = GradFnView::DotLhs(w).apply(back);
    lemma_scatter_len(dcols.data, patches, x.data.len(), patches.len());
    lemma_inner_left_updated(x.data, dx.data, q, (x.data[q] + 1) as i64, x.data.len());
    assert(1 * dx.data[q] == dx.data[q]) by (nonlinear_arith);
}

} // verus!
