//! Tensors with four axes: images in batches, channel by channel, row by row.
use crate::linalg::lemma_index;
use crate::tensor::{lemma_size_zero, shape_size};
use vstd::arithmetic::div_mod::lemma_fundamental_div_mod;
use vstd::prelude::*;

verus! {

/// A shape of four axes spans their product.
pub proof fn lemma_image_size(shape: Seq<usize>)
    requires
        shape.len() == 4,
    ensures
        shape_size(shape) == ((shape[0] * shape[1]) * shape[2]) * shape[3],
{
    let s3 = shape.drop_last();
    let s2 = s3.drop_last();
    let s1 = s2.drop_last();
    assert(s1.drop_last().len() == 0);
    assert(shape_size(s1.drop_last()) == 1);
    assert(s1.last() == shape[0]);
    assert(s2.last() == shape[1]);
    assert(s3.last() == shape[2]);
    assert(shape.last() == shape[3]);
    assert(shape_size(s1) == 1 * (shape[0] as nat));
    assert(1 * (shape[0] as nat) == shape[0] as nat) by (nonlinear_arith);
    assert(shape_size(s1) == shape[0]);
    assert(shape_size(s2) == shape_size(s1) * (shape[1] as nat));
    assert(shape_size(s2) == shape[0] * shape[1]);
    assert(shape_size(s3) == shape_size(s2) * (shape[2] as nat));
    assert(shape_size(s3) == (shape[0] * shape[1]) * shape[2]);
    assert(shape_size(shape) == shape_size(s3) * (shape[3] as nat));
}

/// The place of row `y`, column `x` of plane `plane` in a tensor whose planes have `h` rows
/// and `w` columns.
pub open spec fn place(plane: int, h: int, w: int, y: int, x: int) -> int {
    (plane * h + y) * w + x
}

/// A place inside the planes lies inside the storage.
pub proof fn lemma_place(plane: int, planes: int, h: int, w: int, y: int, x: int)
    requires
        0 <= plane < planes,
        0 <= y < h,
        0 <= x < w,
    ensures
        0 <= plane * h <= plane * h + y < planes * h,
        0 <= (plane * h + y) * w <= place(plane, h, w, y, x) < (planes * h) * w,
        place(plane, h, w, y, x) / w == plane * h + y,
        place(plane, h, w, y, x) % w == x,
        (plane * h + y) / h == plane,
        (plane * h + y) % h == y,
{
    lemma_index(plane, y, planes, h);
    lemma_index(plane * h + y, x, planes * h, w);
}

/// The largest multiple of `s` that is no greater than `a` is no greater than `a`.
pub proof fn lemma_steps(a: int, s: int)
    requires
        0 <= a,
        0 < s,
    ensures
        0 <= (a / s) * s <= a,
        0 <= a / s <= a,
{
    lemma_fundamental_div_mod(a, s);
    assert(0 <= a % s < s);
    assert((a / s) * s == s * (a / s)) by (nonlinear_arith);
    assert(0 <= a / s) by (nonlinear_arith)
        requires
            a == s * (a / s) + a % s,
            0 <= a % s < s,
            0 <= a,
            0 < s,
    ;
    assert(a / s <= a) by (nonlinear_arith)
        requires
            a == s * (a / s) + a % s,
            0 <= a % s,
            0 <= a / s,
            1 <= s,
    ;
}

/// A product of factors that are at least one is at least each of its factors.
pub proof fn lemma_factors(a: int, b: int)
    requires
        1 <= a,
        1 <= b,
    ensures
        a <= a * b,
        b <= a * b,
        1 <= a * b,
{
    assert(a <= a * b && b <= a * b) by (nonlinear_arith)
        requires
            1 <= a,
            1 <= b,
    ;
}

/// A product is monotone in both factors.
pub proof fn lemma_product_le(a: int, b: int, c: int, d: int)
    requires
        0 <= a <= c,
        0 <= b <= d,
    ensures
        0 <= a * b <= c * d,
{
    assert(0 <= a * b <= c * d) by (nonlinear_arith)
        requires
            0 <= a <= c,
            0 <= b <= d,
    ;
}

/// A shape of four axes one of which is zero spans nothing.
pub proof fn lemma_empty_image(shape: Seq<usize>)
    requires
        shape.len() == 4,
        shape[0] == 0 || shape[1] == 0 || shape[2] == 0 || shape[3] == 0,
    ensures
        shape_size(shape) == 0,
{
    if shape[0] == 0 {
        lemma_size_zero(shape, 0);
    } else if shape[1] == 0 {
        lemma_size_zero(shape, 1);
    } else if shape[2] == 0 {
        lemma_size_zero(shape, 2);
    } else {
        lemma_size_zero(shape, 3);
    }
}

} // verus!

verus! {

/// A place in a matrix splits into a row and a column.
pub proof fn lemma_split(p: int, rows: int, cols: int)
    requires
        0 <= p < rows * cols,
        0 < cols,
    ensures
        0 <= p / cols < rows,
        0 <= p % cols < cols,
        p == (p / cols) * cols + p % cols,
{
    lemma_fundamental_div_mod(p, cols);
    vstd::arithmetic::div_mod::lemma_mod_pos_bound(p, cols);
    vstd::arithmetic::div_mod::lemma_div_pos_is_pos(p, cols);
    assert(rows * cols == cols * rows) by (nonlinear_arith);
    vstd::arithmetic::div_mod::lemma_multiply_divide_lt(p, cols, rows);
    assert((p / cols) * cols == cols * (p / cols)) by (nonlinear_arith);
}

/// The product of two values of `usize` fits in `u128`.
pub proof fn lemma_wide_product(a: usize, b: usize)
    ensures
        0 <= a * b <= 0xffff_ffff_ffff_fffe_0000_0000_0000_0001,
        a * b <= u128::MAX,
{
    assert(0 <= a <= 0xffff_ffff_ffff_ffff && 0 <= b <= 0xffff_ffff_ffff_ffff);
    assert(0 <= a * b <= 0xffff_ffff_ffff_fffe_0000_0000_0000_0001) by (nonlinear_arith)
        requires
            0 <= a <= 0xffff_ffff_ffff_ffff,
            0 <= b <= 0xffff_ffff_ffff_ffff,
    ;
}

} // verus!
