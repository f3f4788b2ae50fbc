//! Convolution over images as a matrix product: which element of the input each entry of the
//! matrix of patches is.
use crate::error::Error;
use crate::geometry::{
    lemma_image_size, lemma_place, lemma_product_le, lemma_split, lemma_steps,
    lemma_wide_product,
    place,
};
use crate::index::index_valid;
use crate::linalg::{lemma_index, lemma_matrix_size};
use crate::tensor::{checked_size, shape_size, Tensor};
use vstd::prelude::*;

verus! {

/// The filter, padding, stride and dilation of a convolution over images, each by rows and
/// by columns.
#[derive(Clone, Copy, Debug)]
pub struct Conv2Options {
    pub filter: [usize; 2],
    pub padding: [usize; 2],
    pub stride: [usize; 2],
    pub dilation: [usize; 2],
}

/// The number of places along an axis of length `input`, padded by `padding` on both sides,
/// at which a filter of `filter` taps that lie `dilation` apart can be laid, the places
/// `stride` apart.
pub open spec fn conv_len(input: int, filter: int, padding: int, stride: int, dilation: int) -> int {
    let span = dilation * (filter - 1) + 1;
    if input + 2 * padding >= span {
        (input + 2 * padding - span) / stride + 1
    } else {
        0
    }
}

/// The geometry of one convolution.
pub struct Convolution {
    pub bs: int,
    pub c: int,
    pub ih: int,
    pub iw: int,
    pub oh: int,
    pub ow: int,
    pub fh: int,
    pub fw: int,
    pub ph: int,
    pub pw: int,
    pub sh: int,
    pub sw: int,
    pub dh: int,
    pub dw: int,
}

impl Convolution {
    /// The rows of the matrix of patches: one for each place of the filter in each image.
    pub open spec fn rows(self) -> int {
        (self.bs * self.oh) * self.ow
    }

    /// The columns of the matrix of patches: one for each tap of the filter in each
    /// channel.
    pub open spec fn cols(self) -> int {
        (self.c * self.fh) * self.fw
    }
}

/// Whether images of the given shape can be convolved: four axes, and a filter, strides and
/// dilations of at least one in both directions.
pub open spec fn can_convolve(shape: Seq<usize>, o: Conv2Options) -> bool {
    &&& shape.len() == 4
    &&& o.filter@[0] >= 1 && o.filter@[1] >= 1
    &&& o.stride@[0] >= 1 && o.stride@[1] >= 1
    &&& o.dilation@[0] >= 1 && o.dilation@[1] >= 1
}

/// The geometry of convolving images of the given shape.
pub open spec fn convolution(shape: Seq<usize>, o: Conv2Options) -> Convolution {
    Convolution {
        bs: shape[0] as int,
        c: shape[1] as int,
        ih: shape[2] as int,
        iw: shape[3] as int,
        oh: conv_len(
            shape[2] as int,
            o.filter@[0] as int,
            o.padding@[0] as int,
            o.stride@[0] as int,
            o.dilation@[0] as int,
        ),
        ow: conv_len(
            shape[3] as int,
            o.filter@[1] as int,
            o.padding@[1] as int,
            o.stride@[1] as int,
            o.dilation@[1] as int,
        ),
        fh: o.filter@[0] as int,
        fw: o.filter@[1] as int,
        ph: o.padding@[0] as int,
        pw: o.padding@[1] as int,
        sh: o.stride@[0] as int,
        sw: o.stride@[1] as int,
        dh: o.dilation@[0] as int,
        dw: o.dilation@[1] as int,
    }
}

/// Entry `p` of the matrix of patches, counted row by row: the place in the input of the
/// element under one tap of the filter at one place of the filter, or `None` where the tap
/// lies in the padding.
pub open spec fn im2col_at(g: Convolution, p: int) -> Option<usize> {
    let r = p / g.cols();
    let q = p % g.cols();
    let ox = r % g.ow;
    let oy = (r / g.ow) % g.oh;
    let b = (r / g.ow) / g.oh;
    let kx = q % g.fw;
    let ky = (q / g.fw) % g.fh;
    let ci = (q / g.fw) / g.fh;
    let y = oy * g.sh + ky * g.dh - g.ph;
    let x = ox * g.sw + kx * g.dw - g.pw;
    if 0 <= y < g.ih && 0 <= x < g.iw {
        Some(place(b * g.c + ci, g.ih, g.iw, y, x) as usize)
    } else {
        None
    }
}

/// The index map that gathers the matrix of patches from the images.
pub open spec fn im2col_index(g: Convolution) -> Seq<Option<usize>> {
    Seq::new((g.rows() * g.cols()) as nat, |p: int| im2col_at(g, p))
}

/// Whether the matrix of patches can be held: its extents and its size fit in `usize`.
pub open spec fn fits(g: Convolution) -> bool {
    &&& g.oh <= usize::MAX
    &&& g.ow <= usize::MAX
    &&& g.rows() <= usize::MAX
    &&& g.cols() <= usize::MAX
    &&& g.rows() * g.cols() <= usize::MAX
}

/// Why the matrix of patches of images of the given shape cannot be laid out, if it cannot:
/// `Mismatch` where the images cannot be convolved, `TooLarge` where the matrix cannot be
/// held.
pub open spec fn im2col_error(shape: Seq<usize>, o: Conv2Options) -> Option<Error> {
    if !can_convolve(shape, o) {
        Some(Error::Mismatch)
    } else if !fits(convolution(shape, o)) {
        Some(Error::TooLarge)
    } else {
        None
    }
}

/// What `im2col_conv2_index` gives: the index map, the extents of the output images and the
/// shape of the matrix of patches.
pub struct Patches {
    pub index: Vec<Option<usize>>,
    pub shape: Vec<usize>,
    pub oh: usize,
    pub ow: usize,
}

fn count_places(input: usize, filter: usize, padding: usize, stride: usize, dilation: usize) -> (n:
    Option<usize>)
    requires
        filter >= 1,
        stride >= 1,
        dilation >= 1,
    ensures
        match n {
            Some(n) => n == conv_len(
                input as int,
                filter as int,
                padding as int,
                stride as int,
                dilation as int,
            ),
            None => conv_len(
                input as int,
                filter as int,
                padding as int,
                stride as int,
                dilation as int,
            ) > usize::MAX,
        },
        conv_len(input as int, filter as int, padding as int, stride as int, dilation as int) >= 1
            ==> (conv_len(
            input as int,
            filter as int,
            padding as int,
            stride as int,
            dilation as int,
        ) - 1) * stride + dilation * (filter - 1) + 1 <= input + 2 * padding,
        conv_len(input as int, filter as int, padding as int, stride as int, dilation as int) >= 0,
{
    proof {
        lemma_wide_product(dilation, (filter - 1) as usize);
    }
    let span: u128 = (dilation as u128) * ((filter - 1) as u128) + 1;
    let padded: u128 = (input as u128) + 2 * (padding as u128);
    if padded >= span {
        proof {
            lemma_steps(padded - span, stride as int);
        }
        let n: u128 = (padded - span) / (stride as u128) + 1;
        if n > usize::MAX as u128 {
            None
        } else {
            Some(n as usize)
        }
    } else {
        Some(0)
    }
}

/// The index map that gathers the matrix of patches from the images of `x`: one row for
/// each place of the filter in each image, one column for each tap of the filter in each
/// channel. A convolution is the product of this matrix with the filters.
pub fn im2col_conv2_index(x: &Tensor, options: &Conv2Options) -> (r: Result<Patches, Error>)
    requires
        x.wf(),
    ensures
        match r {
            Ok(patches) => {
                let g = convolution(x@.kind.shape, *options);
                &&& im2col_error(x@.kind.shape, *options) is None
                &&& patches.oh == g.oh
                &&& patches.ow == g.ow
                &&& patches.shape@ == seq![g.rows() as usize, g.cols() as usize]
                &&& patches.index@ == im2col_index(g)
                &&& patches.index@.len() == shape_size(patches.shape@)
                &&& index_valid(patches.index@, x@.data.len())
            },
            Err(e) => im2col_error(x@.kind.shape, *options) == Some(e),
        },
{
    let s = x.shape();
    if s.len() != 4 || options.filter[0] == 0 || options.filter[1] == 0 || options.stride[0] == 0
        || options.stride[1] == 0 || options.dilation[0] == 0 || options.dilation[1] == 0 {
        return Err(Error::Mismatch);
    }
    let bs: usize = s[0];
    let c: usize = s[1];
    let ih: usize = s[2];
    let iw: usize = s[3];
    let fh: usize = options.filter[0];
    let fw: usize = options.filter[1];
    let ph: usize = options.padding[0];
    let pw: usize = options.padding[1];
    let sh: usize = options.stride[0];
    let sw: usize = options.stride[1];
    let dh: usize = options.dilation[0];
    let dw: usize = options.dilation[1];
    let ghost g = convolution(s@, *options);
    let oh: usize = match count_places(ih, fh, ph, sh, dh) {
        Some(n) => n,
        None => {
            return Err(Error::TooLarge);
        },
    };
    let ow: usize = match count_places(iw, fw, pw, sw, dw) {
        Some(n) => n,
        None => {
            return Err(Error::TooLarge);
        },
    };
    let mut row_axes: Vec<usize> = Vec::new();
    row_axes.push(bs);
    row_axes.push(oh);
    row_axes.push(ow);
    let mut col_axes: Vec<usize> = Vec::new();
    col_axes.push(c);
    col_axes.push(fh);
    col_axes.push(fw);
    proof {
        lemma_volume(row_axes@);
        lemma_volume(col_axes@);
    }
    let rows: usize = match checked_size(&row_axes) {
        Some(n) => n,
        None => {
            return Err(Error::TooLarge);
        },
    };
    let cols: usize = match checked_size(&col_axes) {
        Some(n) => n,
        None => {
            return Err(Error::TooLarge);
        },
    };
    let mut shape: Vec<usize> = Vec::new();
    shape.push(rows);
    shape.push(cols);
    proof {
        assert(shape@ =~= seq![g.rows() as usize, g.cols() as usize]);
        lemma_matrix_size(shape@);
    }
    let total: usize = match checked_size(&shape) {
        Some(n) => n,
        None => {
            return Err(Error::TooLarge);
        },
    };
    let len: usize = x.len();
    let mut index: Vec<Option<usize>> = Vec::new();
    proof {
        lemma_image_size(s@);
    }
    let mut p: usize = 0;
    while p < total
        invariant
            p <= total,
            total == rows * cols,
            rows == (bs * oh) * ow,
            cols == (c * fh) * fw,
            len == ((bs * c) * ih) * iw,
            fh >= 1 && fw >= 1 && sh >= 1 && sw >= 1 && dh >= 1 && dw >= 1,
            oh >= 1 ==> (oh - 1) * sh + dh * (fh - 1) + 1 <= ih + 2 * ph,
            ow >= 1 ==> (ow - 1) * sw + dw * (fw - 1) + 1 <= iw + 2 * pw,
            g == convolution(s@, *options),
            g.bs == bs && g.c == c && g.ih == ih && g.iw == iw && g.oh == oh && g.ow == ow,
            g.fh == fh && g.fw == fw && g.ph == ph && g.pw == pw,
            g.sh == sh && g.sw == sw && g.dh == dh && g.dw == dw,
            index@.len() == p,
            forall|i: int| 0 <= i < p ==> #[trigger] index@[i] == im2col_at(g, i),
            forall|i: int| 0 <= i < p ==> ((#[trigger] index@[i]) matches Some(q) ==> q < len),
        decreases total - p,
    {
        proof {
            assert(cols >= 1 && rows >= 1) by (nonlinear_arith)
                requires
                    p < rows * cols,
                    rows >= 0,
                    cols >= 0,
            ;
            assert(ow >= 1 && oh >= 1 && bs >= 1) by (nonlinear_arith)
                requires
                    rows == (bs * oh) * ow,
                    rows >= 1,
                    bs >= 0,
                    oh >= 0,
                    ow >= 0,
            ;
            lemma_split(p as int, rows as int, cols as int);
        }
        let r: usize = p / cols;
        let q: usize = p % cols;
        proof {
            lemma_split(r as int, bs * oh, ow as int);
            lemma_split(r as int / (ow as int), bs as int, oh as int);
            lemma_split(q as int, c * fh, fw as int);
            lemma_split(q as int / (fw as int), c as int, fh as int);
        }
        let ox: usize = r % ow;
        let oy: usize = (r / ow) % oh;
        let b: usize = (r / ow) / oh;
        let kx: usize = q % fw;
        let ky: usize = (q / fw) % fh;
        let ci: usize = (q / fw) / fh;
        proof {
            lemma_wide_product(oy, sh);
            lemma_wide_product(ky, dh);
            lemma_wide_product(ox, sw);
            lemma_wide_product(kx, dw);
            lemma_product_le(oy as int, sh as int, oh - 1, sh as int);
            lemma_product_le(ky as int, dh as int, fh - 1, dh as int);
            lemma_product_le(ox as int, sw as int, ow - 1, sw as int);
            lemma_product_le(kx as int, dw as int, fw - 1, dw as int);
            assert((fh - 1) * dh == dh * (fh - 1)) by (nonlinear_arith);
            assert((fw - 1) * dw == dw * (fw - 1)) by (nonlinear_arith);
        }
        let y: u128 = (oy as u128) * (sh as u128) + (ky as u128) * (dh as u128);
        let x: u128 = (ox as u128) * (sw as u128) + (kx as u128) * (dw as u128);
        let entry: Option<usize> = if y >= ph as u128 && y - (ph as u128) < ih as u128 && x
            >= pw as u128 && x - (pw as u128) < iw as u128 {
            let row: usize = (y - ph as u128) as usize;
            let col: usize = (x - pw as u128) as usize;
            proof {
                lemma_index(b as int, ci as int, bs as int, c as int);
                lemma_place(b * c + ci, bs * c, ih as int, iw as int, row as int, col as int);
            }
            Some(((b * c + ci) * ih + row) * iw + col)
        } else {
            None
        };
        assert(entry == im2col_at(g, p as int));
        index.push(entry);
        p += 1;
    }
    proof {
        assert(index@ =~= im2col_index(g));
    }
    Ok(Patches { index, shape, oh, ow })
}

/// A shape of three axes spans their product.
pub proof fn lemma_volume(shape: Seq<usize>)
    requires
        shape.len() == 3,
    ensures
        shape_size(shape) == (shape[0] * shape[1]) * shape[2],
{
    let s2 = shape.drop_last();
    lemma_matrix_size(s2);
    assert(s2[0] == shape[0] && s2[1] == shape[1]);
    assert(shape.last() == shape[2]);
}

/// Entry `p` of the index map that transposes each of a batch of matrices with `rows` rows
/// and `cols` columns: the place in the input of the element that the output holds at `p`.
pub open spec fn transpose_at(rows: int, cols: int, p: int) -> Option<usize> {
    let i = p % rows;
    let j = (p / rows) % cols;
    let b = (p / rows) / cols;
    Some(place(b, rows, cols, i, j) as usize)
}

/// The index map that transposes each of `batches` matrices with `rows` rows and `cols`
/// columns.
pub open spec fn transposed(batches: int, rows: int, cols: int) -> Seq<Option<usize>> {
    Seq::new(((batches * cols) * rows) as nat, |p: int| transpose_at(rows, cols, p))
}

/// The index map that transposes each of `batches` matrices with `rows` rows and `cols`
/// columns, held one behind the other. Refused with `TooLarge` exactly where the matrices
/// span more elements than `usize` can count.
pub fn transpose_index(batches: usize, rows: usize, cols: usize) -> (r: Result<
    Vec<Option<usize>>,
    Error,
>)
    ensures
        match r {
            Ok(index) => index@ == transposed(batches as int, rows as int, cols as int)
                && index@.len() == (batches * rows) * cols && index_valid(
                index@,
                ((batches * rows) * cols) as nat,
            ),
            Err(e) => e == Error::TooLarge,
        },
        r is Ok <==> (batches * rows) * cols <= usize::MAX,
{
    let mut axes: Vec<usize> = Vec::new();
    axes.push(batches);
    axes.push(rows);
    axes.push(cols);
    proof {
        lemma_volume(axes@);
    }
    let total: usize = match checked_size(&axes) {
        Some(n) => n,
        None => {
            return Err(Error::TooLarge);
        },
    };
    proof {
        assert((batches * rows) * cols == (batches * cols) * rows) by (nonlinear_arith);
    }
    let mut index: Vec<Option<usize>> = Vec::new();
    let mut p: usize = 0;
    while p < total
        invariant
            p <= total,
            total == (batches * rows) * cols,
            total == (batches * cols) * rows,
            index@.len() == p,
            forall|i: int|
                0 <= i < p ==> #[trigger] index@[i] == transpose_at(rows as int, cols as int, i),
            forall|i: int| 0 <= i < p ==> ((#[trigger] index@[i]) matches Some(q) ==> q < total),
        decreases total - p,
    {
        proof {
            assert(rows >= 1 && cols >= 1 && batches >= 1) by (nonlinear_arith)
                requires
                    p < (batches * cols) * rows,
                    batches >= 0,
                    rows >= 0,
                    cols >= 0,
            ;
            lemma_split(p as int, batches * cols, rows as int);
            lemma_split(p as int / (rows as int), batches as int, cols as int);
        }
        let i: usize = p % rows;
        let j: usize = (p / rows) % cols;
        let b: usize = (p / rows) / cols;
        proof {
            lemma_place(b as int, batches as int, rows as int, cols as int, i as int, j as int);
        }
        index.push(Some((b * rows + i) * cols + j));
        p += 1;
    }
    proof {
        assert(index@ =~= transposed(batches as int, rows as int, cols as int));
    }
    Ok(index)
}

} // verus!
