//! Max pooling over images: which element of each window is the greatest.
use crate::error::Error;
use crate::geometry::{
    lemma_empty_image, lemma_factors, lemma_image_size, lemma_place, lemma_product_le,
    lemma_split, lemma_steps, place,
};
use crate::index::index_valid;
use crate::linalg::lemma_index;
use crate::tensor::{shape_size, Tensor, TensorView};
use vstd::prelude::*;

verus! {

/// The number of windows of length `filter` that fit along an axis of length `input` when
/// each starts `stride` behind the one before.
pub open spec fn windows(input: int, filter: int, stride: int) -> int {
    if input >= filter {
        (input - filter) / stride + 1
    } else {
        0
    }
}

/// The geometry of one pooling: the planes of the input, the rows and columns of each plane
/// of the input and of the output, and the rows, columns and strides of the window.
pub struct Pooling {
    pub planes: int,
    pub ih: int,
    pub iw: int,
    pub oh: int,
    pub ow: int,
    pub fh: int,
    pub fw: int,
    pub sh: int,
    pub sw: int,
}

/// Whether an input of the given shape can be pooled: it has four axes, and the window and
/// the strides are at least one in both directions.
pub open spec fn can_pool(shape: Seq<usize>, filter: Seq<usize>, stride: Seq<usize>) -> bool {
    shape.len() == 4 && filter[0] >= 1 && filter[1] >= 1 && stride[0] >= 1 && stride[1] >= 1
}

/// The geometry of pooling an input of the given shape.
pub open spec fn pooling(shape: Seq<usize>, filter: Seq<usize>, stride: Seq<usize>) -> Pooling {
    Pooling {
        planes: shape[0] * shape[1],
        ih: shape[2] as int,
        iw: shape[3] as int,
        oh: windows(shape[2] as int, filter[0] as int, stride[0] as int),
        ow: windows(shape[3] as int, filter[1] as int, stride[1] as int),
        fh: filter[0] as int,
        fw: filter[1] as int,
        sh: stride[0] as int,
        sw: stride[1] as int,
    }
}

/// The place in the input of cell `q` of the window of output element `p`, cells counted
/// row by row.
pub open spec fn cell(g: Pooling, p: int, q: int) -> int {
    let plane = (p / g.ow) / g.oh;
    let oy = (p / g.ow) % g.oh;
    let ox = p % g.ow;
    place(plane, g.ih, g.iw, oy * g.sh + q / g.fw, ox * g.sw + q % g.fw)
}

/// The place in the input of the first greatest element among the first `k` cells of the
/// window of output element `p`.
pub open spec fn window_best(x: Seq<i64>, g: Pooling, p: int, k: nat) -> int
    decreases k,
{
    if k <= 1 {
        cell(g, p, 0)
    } else {
        let prev = window_best(x, g, p, (k - 1) as nat);
        let next = cell(g, p, k - 1);
        if x[next] > x[prev] {
            next
        } else {
            prev
        }
    }
}

/// The element that a window's index names is the greatest of the window, and the first
/// such: no cell of the window holds more, and no cell before it holds as much.
pub proof fn law_window_best(x: Seq<i64>, g: Pooling, p: int, k: nat)
    requires
        k >= 1,
    ensures
        exists|q: int|
            0 <= q < k && #[trigger] cell(g, p, q) == window_best(x, g, p, k) && (forall|e: int|
                0 <= e < k ==> x[#[trigger] cell(g, p, e)] <= x[cell(g, p, q)]) && (forall|e: int|
                0 <= e < q ==> x[#[trigger] cell(g, p, e)] < x[cell(g, p, q)]),
    decreases k,
{
    if k == 1 {
        assert(cell(g, p, 0) == window_best(x, g, p, 1));
    } else {
        law_window_best(x, g, p, (k - 1) as nat);
        let q0 = choose|q: int|
            0 <= q < k - 1 && #[trigger] cell(g, p, q) == window_best(x, g, p, (k - 1) as nat) && (
            forall|e: int| 0 <= e < k - 1 ==> x[#[trigger] cell(g, p, e)] <= x[cell(g, p, q)]) && (
            forall|e: int| 0 <= e < q ==> x[#[trigger] cell(g, p, e)] < x[cell(g, p, q)]);
        let next = cell(g, p, k - 1);
        if x[next] > x[window_best(x, g, p, (k - 1) as nat)] {
            assert(cell(g, p, k - 1) == window_best(x, g, p, k));
        } else {
            assert(cell(g, p, q0) == window_best(x, g, p, k));
        }
    }
}

/// For each element of the pooled output, the place in the input of the first greatest
/// element of its window.
pub open spec fn pool_index(x: Seq<i64>, g: Pooling) -> Seq<Option<usize>> {
    Seq::new(
        ((g.planes * g.oh) * g.ow) as nat,
        |p: int| Some(window_best(x, g, p, (g.fh * g.fw) as nat) as usize),
    )
}

/// Every cell of a window lies inside the images.
pub proof fn lemma_cell_inside(shape: Seq<usize>, filter: Seq<usize>, stride: Seq<usize>, p: int, q: int)
    requires
        can_pool(shape, filter, stride),
        0 <= p < (pooling(shape, filter, stride).planes * pooling(shape, filter, stride).oh)
            * pooling(shape, filter, stride).ow,
        0 <= q < pooling(shape, filter, stride).fh * pooling(shape, filter, stride).fw,
    ensures
        0 <= cell(pooling(shape, filter, stride), p, q) < shape_size(shape),
{
    let g = pooling(shape, filter, stride);
    lemma_image_size(shape);
    assert(g.ow >= 1 && g.oh >= 1 && g.planes >= 1) by (nonlinear_arith)
        requires
            0 <= p < (g.planes * g.oh) * g.ow,
            g.planes >= 0,
            g.oh >= 0,
            g.ow >= 0,
    ;
    lemma_steps(g.ih - g.fh, g.sh);
    lemma_steps(g.iw - g.fw, g.sw);
    lemma_split(p, g.planes * g.oh, g.ow);
    lemma_split(p / g.ow, g.planes, g.oh);
    lemma_split(q, g.fh, g.fw);
    let plane = (p / g.ow) / g.oh;
    let oy = (p / g.ow) % g.oh;
    let ox = p % g.ow;
    lemma_product_le(oy, g.sh, g.oh - 1, g.sh);
    lemma_product_le(ox, g.sw, g.ow - 1, g.sw);
    lemma_place(plane, g.planes, g.ih, g.iw, oy * g.sh + q / g.fw, ox * g.sw + q % g.fw);
}

/// Pooling takes the greatest. Each element of the pooled images is an element of its
/// window, and no element of the window is greater.
pub proof fn law_pooled_is_greatest(
    x: TensorView,
    filter: Seq<usize>,
    stride: Seq<usize>,
    p: int,
    e: int,
)
    requires
        x.wf(),
        x.data.len() <= usize::MAX,
        can_pool(x.kind.shape, filter, stride),
        0 <= p < (pooling(x.kind.shape, filter, stride).planes * pooling(
            x.kind.shape,
            filter,
            stride,
        ).oh) * pooling(x.kind.shape, filter, stride).ow,
        0 <= e < pooling(x.kind.shape, filter, stride).fh * pooling(
            x.kind.shape,
            filter,
            stride,
        ).fw,
    ensures
        ({
            let g = pooling(x.kind.shape, filter, stride);
            let y = x.gather(pool_index(x.data, g), pooled_shape(x.kind.shape, g));
            &&& x.data[cell(g, p, e)] <= y.data[p]
            &&& exists|q: int| 0 <= q < g.fh * g.fw && y.data[p] == x.data[#[trigger] cell(g, p, q)]
        }),
{
    let g = pooling(x.kind.shape, filter, stride);
    let k = (g.fh * g.fw) as nat;
    law_window_best(x.data, g, p, k);
    let q = choose|q: int|
        0 <= q < k && #[trigger] cell(g, p, q) == window_best(x.data, g, p, k) && (forall|e: int|
            0 <= e < k ==> x.data[#[trigger] cell(g, p, e)] <= x.data[cell(g, p, q)]) && (forall|
            e: int,
        | 0 <= e < q ==> x.data[#[trigger] cell(g, p, e)] < x.data[cell(g, p, q)]);
    lemma_cell_inside(x.kind.shape, filter, stride, p, q);
    let y = x.gather(pool_index(x.data, g), pooled_shape(x.kind.shape, g));
    assert(pool_index(x.data, g)[p] == Some(cell(g, p, q) as usize));
    assert(y.data[p] == x.data[cell(g, p, q)]);
    assert(x.data[cell(g, p, e)] <= x.data[cell(g, p, q)]);
}

/// The shape of the pooled output.
pub open spec fn pooled_shape(shape: Seq<usize>, g: Pooling) -> Seq<usize> {
    seq![shape[0], shape[1], g.oh as usize, g.ow as usize]
}

fn count_windows(input: usize, filter: usize, stride: usize) -> (n: usize)
    requires
        filter >= 1,
        stride >= 1,
    ensures
        n == windows(input as int, filter as int, stride as int),
        n <= input,
        n >= 1 ==> (n - 1) * stride + filter <= input,
{
    if input >= filter {
        proof {
            lemma_steps(input - filter, stride as int);
        }
        (input - filter) / stride + 1
    } else {
        0
    }
}

/// The index map of max pooling the images of `x` with windows of `filter` rows and columns
/// that start `stride` apart: for each element of the output, the place of the first
/// greatest element of its window, together with the shape of the output. Gathering `x` by
/// the map gives the pooled images. Refused with `Mismatch` exactly where `x` does not have
/// four axes or the window or a stride is zero in a direction.
pub fn max_pool2_index(x: &Tensor, filter: [usize; 2], stride: [usize; 2]) -> (r: Result<
    (Vec<Option<usize>>, Vec<usize>),
    Error,
>)
    requires
        x.wf(),
    ensures
        r is Ok <==> can_pool(x@.kind.shape, filter@, stride@),
        match r {
            Ok((index, shape)) => {
                let g = pooling(x@.kind.shape, filter@, stride@);
                &&& shape@ == pooled_shape(x@.kind.shape, g)
                &&& index@ == pool_index(x@.data, g)
                &&& index@.len() == shape_size(shape@)
                &&& index_valid(index@, x@.data.len())
            },
            Err(e) => e == Error::Mismatch,
        },
{
    let s = x.shape();
    if s.len() != 4 || filter[0] == 0 || filter[1] == 0 || stride[0] == 0 || stride[1] == 0 {
        return Err(Error::Mismatch);
    }
    let n: usize = s[0];
    let c: usize = s[1];
    let ih: usize = s[2];
    let iw: usize = s[3];
    let fh: usize = filter[0];
    let fw: usize = filter[1];
    let sh: usize = stride[0];
    let sw: usize = stride[1];
    let oh: usize = count_windows(ih, fh, sh);
    let ow: usize = count_windows(iw, fw, sw);
    let ghost g = pooling(s@, filter@, stride@);
    let data = x.data();
    let total: usize = data.len();
    let mut shape: Vec<usize> = Vec::new();
    shape.push(n);
    shape.push(c);
    shape.push(oh);
    shape.push(ow);
    let mut index: Vec<Option<usize>> = Vec::new();
    proof {
        assert(shape@ =~= pooled_shape(s@, g));
        lemma_image_size(s@);
        lemma_image_size(shape@);
    }
    if total == 0 || oh == 0 || ow == 0 {
        proof {
            if oh != 0 && ow != 0 {
                assert(n == 0 || c == 0) by (nonlinear_arith)
                    requires
                        ((n * c) * ih) * iw == 0,
                        ih >= 1,
                        iw >= 1,
                ;
            }
            lemma_empty_image(shape@);
            assert((g.planes * g.oh) * g.ow == 0) by (nonlinear_arith)
                requires
                    g.planes == n * c,
                    g.oh == oh,
                    g.ow == ow,
                    n == 0 || c == 0 || oh == 0 || ow == 0,
            ;
            assert(index@ =~= pool_index(data@, g));
        }
        return Ok((index, shape));
    }
    proof {
        assert(n >= 1 && c >= 1 && ih >= 1 && iw >= 1) by (nonlinear_arith)
            requires
                ((n * c) * ih) * iw >= 1,
                n >= 0,
                c >= 0,
                ih >= 0,
                iw >= 0,
        ;
        lemma_factors(n as int, c as int);
        lemma_factors(n * c, ih as int);
        lemma_factors((n * c) * ih, iw as int);
        lemma_factors(fh as int, fw as int);
        lemma_product_le(n * c, oh as int, n * c, ih as int);
        lemma_product_le((n * c) * oh, ow as int, (n * c) * ih, iw as int);
        lemma_product_le(fh as int, fw as int, ih as int, iw as int);
        lemma_factors(ih as int, iw as int);
        lemma_product_le(1, ih * iw, n * c, ih * iw);
        assert((n * c) * (ih * iw) == ((n * c) * ih) * iw) by (nonlinear_arith);
    }
    let planes: usize = n * c;
    let mut plane: usize = 0;
    proof {
        assert((0 * oh) * ow == 0) by (nonlinear_arith);
    }
    while plane < planes
        invariant
            plane <= planes,
            planes == n * c,
            planes >= 1,
            oh >= 1,
            ow >= 1,
            fh >= 1,
            fw >= 1,
            (oh - 1) * sh + fh <= ih,
            (ow - 1) * sw + fw <= iw,
            (planes * ih) * iw == total,
            (planes * oh) * ow <= total,
            fh * fw <= total,
            data@.len() == total,
            data.len() == total,
            g == pooling(s@, filter@, stride@),
            s@.len() == 4,
            s@[0] == n && s@[1] == c && s@[2] == ih && s@[3] == iw,
            filter@[0] == fh && filter@[1] == fw && stride@[0] == sh && stride@[1] == sw,
            g.oh == oh && g.ow == ow,
            index@.len() == (plane * oh) * ow,
            forall|p: int|
                0 <= p < index@.len() ==> #[trigger] index@[p] == Some(
                    window_best(data@, g, p, (fh * fw) as nat) as usize,
                ),
            forall|p: int|
                0 <= p < index@.len() ==> ((#[trigger] index@[p]) matches Some(q) ==> q < total),
        decreases planes - plane,
    {
        let mut oy: usize = 0;
        while oy < oh
            invariant
                plane < planes,
                oy <= oh,
                planes == n * c,
                oh >= 1,
                ow >= 1,
                fh >= 1,
                fw >= 1,
                (oh - 1) * sh + fh <= ih,
                (ow - 1) * sw + fw <= iw,
                (planes * ih) * iw == total,
                (planes * oh) * ow <= total,
                fh * fw <= total,
                data@.len() == total,
                data.len() == total,
                g == pooling(s@, filter@, stride@),
                s@.len() == 4,
                s@[0] == n && s@[1] == c && s@[2] == ih && s@[3] == iw,
                filter@[0] == fh && filter@[1] == fw && stride@[0] == sh && stride@[1] == sw,
                g.oh == oh && g.ow == ow,
                index@.len() == (plane * oh + oy) * ow,
                forall|p: int|
                    0 <= p < index@.len() ==> #[trigger] index@[p] == Some(
                        window_best(data@, g, p, (fh * fw) as nat) as usize,
                    ),
                forall|p: int|
                    0 <= p < index@.len() ==> ((#[trigger] index@[p]) matches Some(q) ==> q
                        < total),
            decreases oh - oy,
        {
            let mut ox: usize = 0;
            while ox < ow
                invariant
                    plane < planes,
                    oy < oh,
                    ox <= ow,
                    planes == n * c,
                    oh >= 1,
                    ow >= 1,
                    fh >= 1,
                    fw >= 1,
                    (oh - 1) * sh + fh <= ih,
                    (ow - 1) * sw + fw <= iw,
                    (planes * ih) * iw == total,
                    (planes * oh) * ow <= total,
                    fh * fw <= total,
                    data@.len() == total,
                    data.len() == total,
                    g == pooling(s@, filter@, stride@),
                    s@.len() == 4,
                    s@[0] == n && s@[1] == c && s@[2] == ih && s@[3] == iw,
                    filter@[0] == fh && filter@[1] == fw && stride@[0] == sh && stride@[1]
                        == sw,
                    g.oh == oh && g.ow == ow,
                    index@.len() == (plane * oh + oy) * ow + ox,
                    forall|p: int|
                        0 <= p < index@.len() ==> #[trigger] index@[p] == Some(
                            window_best(data@, g, p, (fh * fw) as nat) as usize,
                        ),
                    forall|p: int|
                        0 <= p < index@.len() ==> ((#[trigger] index@[p]) matches Some(q) ==> q
                            < total),
                decreases ow - ox,
            {
                let ghost p = (plane * oh + oy) * ow + ox;
                proof {
                    lemma_place(plane as int, planes as int, oh as int, ow as int, oy as int, ox as int);
                    lemma_product_le(oy as int, sh as int, oh - 1, sh as int);
                    lemma_product_le(ox as int, sw as int, ow - 1, sw as int);
                }
                let top: usize = oy * sh;
                let left: usize = ox * sw;
                proof {
                    lemma_place(plane as int, planes as int, ih as int, iw as int, top as int, left as int);
                    lemma_index(0, 0, fh as int, fw as int);
                }
                let mut best: usize = (plane * ih + top) * iw + left;
                assert(best == cell(g, p, 0));
                let mut ky: usize = 0;
                while ky < fh
                    invariant
                        ky <= fh,
                        plane < planes,
                        fh >= 1,
                        fw >= 1,
                        top + fh <= ih,
                        left + fw <= iw,
                        top == oy * sh,
                        left == ox * sw,
                        (planes * ih) * iw == total,
                        data@.len() == total,
                        data.len() == total,
                        g == pooling(s@, filter@, stride@),
                        s@.len() == 4,
                        s@[0] == n && s@[1] == c && s@[2] == ih && s@[3] == iw,
                        filter@[0] == fh && filter@[1] == fw && stride@[0] == sh && stride@[1]
                            == sw,
                        planes == n * c,
                        (p / (g.ow)) / (g.oh) == plane,
                        (p / (g.ow)) % (g.oh) == oy,
                        p % (g.ow) == ox,
                        best < total,
                        best == window_best(data@, g, p, (ky * fw) as nat),
                    decreases fh - ky,
                {
                    let mut kx: usize = 0;
                    proof {
                        assert(ky * fw + 0 == ky * fw);
                    }
                    while kx < fw
                        invariant
                            ky < fh,
                            kx <= fw,
                            plane < planes,
                            fh >= 1,
                            fw >= 1,
                            top + fh <= ih,
                            left + fw <= iw,
                            top == oy * sh,
                            left == ox * sw,
                            (planes * ih) * iw == total,
                            data@.len() == total,
                            data.len() == total,
                            g == pooling(s@, filter@, stride@),
                            s@.len() == 4,
                            s@[0] == n && s@[1] == c && s@[2] == ih && s@[3] == iw,
                            filter@[0] == fh && filter@[1] == fw && stride@[0] == sh
                                && stride@[1] == sw,
                            planes == n * c,
                            (p / (g.ow)) / (g.oh) == plane,
                            (p / (g.ow)) % (g.oh) == oy,
                            p % (g.ow) == ox,
                            best < total,
                            best == window_best(data@, g, p, (ky * fw + kx) as nat),
                        decreases fw - kx,
                    {
                        let ghost q = ky * fw + kx;
                        proof {
                            lemma_index(ky as int, kx as int, fh as int, fw as int);
                            lemma_place(
                                plane as int,
                                planes as int,
                                ih as int,
                                iw as int,
                                top + ky,
                                left + kx,
                            );
                            assert(cell(g, p, q) == place(
                                plane as int,
                                ih as int,
                                iw as int,
                                top + ky,
                                left + kx,
                            ));
                        }
                        let next: usize = (plane * ih + (top + ky)) * iw + (left + kx);
                        if data[next] > data[best] {
                            best = next;
                        }
                        proof {
                            assert(q + 1 == ky * fw + (kx + 1));
                            if q == 0 {
                                assert(window_best(data@, g, p, 1) == cell(g, p, 0));
                                assert(window_best(data@, g, p, 0) == cell(g, p, 0));
                            }
                        }
                        kx += 1;
                    }
                    proof {
                        assert(ky * fw + fw == (ky + 1) * fw) by (nonlinear_arith);
                    }
                    ky += 1;
                }
                index.push(Some(best));
                ox += 1;
            }
            proof {
                assert((plane * oh + oy) * ow + ow == (plane * oh + (oy + 1)) * ow)
                    by (nonlinear_arith);
            }
            oy += 1;
        }
        proof {
            assert(plane * oh + oh == (plane + 1) * oh) by (nonlinear_arith);
        }
        plane += 1;
    }
    proof {
        assert(index@ =~= pool_index(data@, g));
    }
    Ok((index, shape))
}

} // verus!
