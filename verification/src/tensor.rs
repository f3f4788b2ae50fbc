//! Dense integer tensors in row-major order.
use crate::error::Error;
use crate::scalar::{
    relu_backward_impl, relu_backward_of, relu_impl, relu_of, sat_add, sat_mul, scalar_add,
    scalar_mul, Device, ScalarType,
};
use vstd::prelude::*;

verus! {

/// The number of elements of a tensor of the given shape: the product of its axes.
pub open spec fn shape_size(shape: Seq<usize>) -> nat
    decreases shape.len(),
{
    if shape.len() == 0 {
        1
    } else {
        shape_size(shape.drop_last()) * (shape.last() as nat)
    }
}

/// The saturating sum of the first `n` elements of `s`, taken from the front.
pub open spec fn sum_to(s: Seq<i64>, n: nat) -> i64
    decreases n,
{
    if n == 0 {
        0
    } else {
        sat_add(sum_to(s, (n - 1) as nat), s[n - 1])
    }
}

/// What two tensors must share to be combined element by element.
pub struct KindView {
    pub shape: Seq<usize>,
    pub scalar_type: ScalarType,
    pub device: Device,
}

/// The shape, declared precision and location of a tensor.
#[derive(Debug)]
pub struct Kind {
    pub shape: Vec<usize>,
    pub scalar_type: ScalarType,
    pub device: Device,
}

impl View for Kind {
    type V = KindView;

    open spec fn view(&self) -> KindView {
        KindView { shape: self.shape@, scalar_type: self.scalar_type, device: self.device }
    }
}

/// Whether two shapes have the same axes.
pub fn same_shape(a: &Vec<usize>, b: &Vec<usize>) -> (r: bool)
    ensures
        r == (a@ == b@),
{
    if a.len() != b.len() {
        return false;
    }
    let mut i: usize = 0;
    while i < a.len()
        invariant
            i <= a.len(),
            a.len() == b.len(),
            forall|j: int| 0 <= j < i ==> a@[j] == b@[j],
        decreases a.len() - i,
    {
        if a[i] != b[i] {
            return false;
        }
        i += 1;
    }
    assert(a@ =~= b@);
    true
}

/// A copy of a shape.
pub fn copy_shape(a: &Vec<usize>) -> (r: Vec<usize>)
    ensures
        r@ == a@,
{
    let mut r: Vec<usize> = Vec::new();
    let mut i: usize = 0;
    while i < a.len()
        invariant
            i <= a.len(),
            r@ == a@.take(i as int),
        decreases a.len() - i,
    {
        r.push(a[i]);
        assert(a@.take(i + 1) =~= a@.take(i as int).push(a@[i as int]));
        i += 1;
    }
    assert(a@.take(a.len() as int) =~= a@);
    r
}

impl Kind {
    /// Whether two kinds agree in shape, scalar type and device.
    pub fn same(&self, other: &Kind) -> (r: bool)
        ensures
            r == (self@ == other@),
    {
        same_shape(&self.shape, &other.shape) && self.scalar_type == other.scalar_type
            && self.device == other.device
    }

    /// A copy of this kind.
    pub fn copy(&self) -> (r: Kind)
        ensures
            r@ == self@,
    {
        Kind { shape: copy_shape(&self.shape), scalar_type: self.scalar_type, device: self.device }
    }
}

/// The mathematical content of a tensor: its kind and its elements in row-major order.
pub struct TensorView {
    pub kind: KindView,
    pub data: Seq<i64>,
}

impl TensorView {
    /// A tensor holds exactly as many elements as its shape spans.
    pub open spec fn wf(self) -> bool {
        self.data.len() == shape_size(self.kind.shape)
    }

    /// The tensor of the given kind whose elements are all `value`.
    pub open spec fn full(kind: KindView, value: i64) -> TensorView {
        TensorView { kind, data: Seq::new(shape_size(kind.shape), |i: int| value) }
    }

    /// The element-wise saturating sum.
    pub open spec fn add(self, rhs: TensorView) -> TensorView {
        TensorView {
            kind: self.kind,
            data: Seq::new(self.data.len(), |i: int| sat_add(self.data[i], rhs.data[i])),
        }
    }

    /// The element-wise saturating product.
    pub open spec fn mul(self, rhs: TensorView) -> TensorView {
        TensorView {
            kind: self.kind,
            data: Seq::new(self.data.len(), |i: int| sat_mul(self.data[i], rhs.data[i])),
        }
    }

    /// `self + alpha * rhs`, element by element, each step saturating.
    pub open spec fn scaled_add(self, alpha: i64, rhs: TensorView) -> TensorView {
        TensorView {
            kind: self.kind,
            data: Seq::new(
                self.data.len(),
                |i: int| sat_add(self.data[i], sat_mul(alpha, rhs.data[i])),
            ),
        }
    }

    /// Every element multiplied by `alpha`, saturating.
    pub open spec fn scale(self, alpha: i64) -> TensorView {
        TensorView {
            kind: self.kind,
            data: Seq::new(self.data.len(), |i: int| sat_mul(alpha, self.data[i])),
        }
    }

    /// The rectifier applied to every element.
    pub open spec fn relu(self) -> TensorView {
        TensorView {
            kind: self.kind,
            data: Seq::new(self.data.len(), |i: int| relu_of(self.data[i])),
        }
    }

    /// The rectifier's gradient at input `self` for the upstream gradient `dy`.
    pub open spec fn relu_backward(self, dy: TensorView) -> TensorView {
        TensorView {
            kind: self.kind,
            data: Seq::new(self.data.len(), |i: int| relu_backward_of(self.data[i], dy.data[i])),
        }
    }

    /// The kind of the scalar that reduces a tensor of this kind.
    pub open spec fn scalar_kind(self) -> KindView {
        KindView {
            shape: Seq::empty(),
            scalar_type: self.kind.scalar_type,
            device: self.kind.device,
        }
    }

    /// The sum of all elements, as a tensor without axes.
    pub open spec fn sum(self) -> TensorView {
        TensorView { kind: self.scalar_kind(), data: seq![sum_to(self.data, self.data.len())] }
    }

    /// The same elements declared with another precision.
    pub open spec fn cast(self, scalar_type: ScalarType) -> TensorView {
        TensorView {
            kind: KindView { shape: self.kind.shape, scalar_type, device: self.kind.device },
            data: self.data,
        }
    }

    /// The same elements at another location.
    pub open spec fn moved(self, device: Device) -> TensorView {
        TensorView {
            kind: KindView { shape: self.kind.shape, scalar_type: self.kind.scalar_type, device },
            data: self.data,
        }
    }

    /// The same elements under another shape.
    pub open spec fn reshape(self, shape: Seq<usize>) -> TensorView {
        TensorView {
            kind: KindView {
                shape,
                scalar_type: self.kind.scalar_type,
                device: self.kind.device,
            },
            data: self.data,
        }
    }
}

/// A dense tensor of integers.
#[derive(Debug)]
pub struct Tensor {
    kind: Kind,
    data: Vec<i64>,
}

impl View for Tensor {
    type V = TensorView;

    closed spec fn view(&self) -> TensorView {
        TensorView { kind: self.kind@, data: self.data@ }
    }
}

/// The product of the axes of `shape`, or `None` where it does not fit in `usize`.
pub fn checked_size(shape: &Vec<usize>) -> (r: Option<usize>)
    ensures
        match r {
            Some(n) => n == shape_size(shape@),
            None => shape_size(shape@) > usize::MAX,
        },
{
    let mut has_zero: bool = false;
    let mut i: usize = 0;
    while i < shape.len()
        invariant
            i <= shape.len(),
            has_zero <==> exists|j: int| 0 <= j < i && shape@[j] == 0,
        decreases shape.len() - i,
    {
        if shape[i] == 0 {
            has_zero = true;
        }
        i += 1;
    }
    if has_zero {
        proof {
            let j = choose|j: int| 0 <= j < shape.len() && shape@[j] == 0;
            lemma_size_zero(shape@, j);
        }
        return Some(0);
    }
    let mut n: usize = 1;
    let mut i: usize = 0;
    while i < shape.len()
        invariant
            i <= shape.len(),
            forall|j: int| 0 <= j < shape.len() ==> shape@[j] != 0,
            n == shape_size(shape@.take(i as int)),
            n >= 1,
        decreases shape.len() - i,
    {
        let d: usize = shape[i];
        proof {
            assert(shape@.take(i + 1).drop_last() =~= shape@.take(i as int));
            assert(shape@.take(i + 1).last() == d);
        }
        match n.checked_mul(d) {
            Some(m) => {
                proof {
                    assert(1 <= n * d) by (nonlinear_arith)
                        requires
                            n >= 1,
                            d >= 1,
                    ;
                }
                n = m;
            },
            None => {
                proof {
                    assert(shape_size(shape@.take(i + 1)) > usize::MAX);
                    lemma_size_grows(shape@, i + 1);
                }
                return None;
            },
        }
        i += 1;
    }
    assert(shape@.take(shape.len() as int) =~= shape@);
    Some(n)
}

/// A shape with an axis of length zero spans no element.
pub proof fn lemma_size_zero(shape: Seq<usize>, j: int)
    requires
        0 <= j < shape.len(),
        shape[j] == 0,
    ensures
        shape_size(shape) == 0,
    decreases shape.len(),
{
    if j == shape.len() - 1 {
        assert(shape_size(shape.drop_last()) * 0 == 0) by (nonlinear_arith);
    } else {
        lemma_size_zero(shape.drop_last(), j);
        assert(0 * (shape.last() as nat) == 0) by (nonlinear_arith);
    }
}

/// Where no axis is zero, a shape spans at least as many elements as each of its prefixes.
pub proof fn lemma_size_grows(shape: Seq<usize>, k: int)
    requires
        0 <= k <= shape.len(),
        forall|j: int| 0 <= j < shape.len() ==> shape[j] != 0,
    ensures
        shape_size(shape.take(k)) <= shape_size(shape),
    decreases shape.len() - k,
{
    if k == shape.len() {
        assert(shape.take(k) =~= shape);
    } else {
        lemma_size_grows(shape, k + 1);
        assert(shape.take(k + 1).drop_last() =~= shape.take(k));
        let a = shape_size(shape.take(k));
        let d = shape.take(k + 1).last() as nat;
        assert(d >= 1);
        assert(a <= a * d) by (nonlinear_arith)
            requires
                d >= 1,
        ;
    }
}

impl Tensor {
    /// A tensor always holds as many elements as its shape spans.
    pub open spec fn wf(&self) -> bool {
        self@.wf()
    }

    /// A tensor of the given shape over the given elements, in row-major order, declared as
    /// `F32` on the host. Refused with `Mismatch` exactly where the number of elements is not
    /// the product of the axes.
    pub fn from_vec(shape: Vec<usize>, data: Vec<i64>) -> (r: Result<Tensor, Error>)
        ensures
            match r {
                Ok(t) => t.wf() && t@.kind.shape == shape@ && t@.data == data@
                    && t@.kind.scalar_type == ScalarType::F32 && t@.kind.device == Device::Host,
                Err(e) => e == Error::Mismatch,
            },
            r is Ok <==> data@.len() == shape_size(shape@),
    {
        let len: usize = data.len();
        match checked_size(&shape) {
            Some(n) => {
                if n == len {
                    Ok(
                        Tensor {
                            kind: Kind {
                                shape,
                                scalar_type: ScalarType::F32,
                                device: Device::Host,
                            },
                            data,
                        },
                    )
                } else {
                    Err(Error::Mismatch)
                }
            },
            None => Err(Error::Mismatch),
        }
    }

    /// A tensor of the given shape whose elements are all `value`, declared as `F32` on the
    /// host. Refused with `TooLarge` exactly where the shape spans more elements than `usize`
    /// can count.
    pub fn from_elem(shape: Vec<usize>, value: i64) -> (r: Result<Tensor, Error>)
        ensures
            match r {
                Ok(t) => t.wf() && t@ == TensorView::full(
                    KindView { shape: shape@, scalar_type: ScalarType::F32, device: Device::Host },
                    value,
                ),
                Err(e) => e == Error::TooLarge,
            },
            r is Ok <==> shape_size(shape@) <= usize::MAX,
    {
        match checked_size(&shape) {
            Some(n) => {
                let mut data: Vec<i64> = Vec::new();
                let mut i: usize = 0;
                while i < n
                    invariant
                        i <= n,
                        data@.len() == i,
                        forall|j: int| 0 <= j < i ==> data@[j] == value,
                    decreases n - i,
                {
                    data.push(value);
                    i += 1;
                }
                let t = Tensor {
                    kind: Kind { shape, scalar_type: ScalarType::F32, device: Device::Host },
                    data,
                };
                assert(t@.data =~= Seq::new(n as nat, |i: int| value));
                Ok(t)
            },
            None => Err(Error::TooLarge),
        }
    }

    /// A tensor of the given shape whose elements are all zero, declared as `F32` on the
    /// host. Refused with `TooLarge` exactly where the shape spans more elements than `usize`
    /// can count.
    pub fn zeros(shape: Vec<usize>) -> (r: Result<Tensor, Error>)
        ensures
            match r {
                Ok(t) => t.wf() && t@ == TensorView::full(
                    KindView { shape: shape@, scalar_type: ScalarType::F32, device: Device::Host },
                    0,
                ),
                Err(e) => e == Error::TooLarge,
            },
            r is Ok <==> shape_size(shape@) <= usize::MAX,
    {
        Tensor::from_elem(shape, 0)
    }

    /// A tensor of the given kind over the given elements.
    pub(crate) fn from_parts(kind: Kind, data: Vec<i64>) -> (t: Tensor)
        requires
            data@.len() == shape_size(kind@.shape),
        ensures
            t.wf(),
            t@.kind == kind@,
            t@.data == data@,
    {
        Tensor { kind, data }
    }

    /// The tensor without axes that holds the single element `value`.
    pub fn scalar(value: i64) -> (t: Tensor)
        ensures
            t.wf(),
            t@.kind.shape == Seq::<usize>::empty(),
            t@.data == seq![value],
            t@.kind.scalar_type == ScalarType::F32,
            t@.kind.device == Device::Host,
    {
        let mut data: Vec<i64> = Vec::new();
        data.push(value);
        let t = Tensor {
            kind: Kind { shape: Vec::new(), scalar_type: ScalarType::F32, device: Device::Host },
            data,
        };
        assert(t@.data =~= seq![value]);
        t
    }

    /// The tensor of this tensor's kind whose elements are all `value`.
    pub fn full_like(&self, value: i64) -> (t: Tensor)
        requires
            self.wf(),
        ensures
            t.wf(),
            t@ == TensorView::full(self@.kind, value),
    {
        let mut data: Vec<i64> = Vec::new();
        let mut i: usize = 0;
        while i < self.data.len()
            invariant
                i <= self.data.len(),
                data@.len() == i,
                forall|j: int| 0 <= j < i ==> data@[j] == value,
            decreases self.data.len() - i,
        {
            data.push(value);
            i += 1;
        }
        let t = Tensor { kind: self.kind.copy(), data };
        assert(t@.data =~= TensorView::full(self@.kind, value).data);
        assert(t@.kind.shape =~= self@.kind.shape);
        t
    }

    /// A copy of this tensor.
    pub fn copy(&self) -> (t: Tensor)
        ensures
            t@ == self@,
    {
        let mut data: Vec<i64> = Vec::new();
        let mut i: usize = 0;
        while i < self.data.len()
            invariant
                i <= self.data.len(),
                data@ == self.data@.take(i as int),
            decreases self.data.len() - i,
        {
            data.push(self.data[i]);
            assert(self.data@.take(i + 1) =~= self.data@.take(i as int).push(self.data@[i as int]));
            i += 1;
        }
        assert(self.data@.take(self.data.len() as int) =~= self.data@);
        Tensor { kind: self.kind.copy(), data }
    }

    /// The axes.
    pub fn shape(&self) -> (r: &Vec<usize>)
        ensures
            r@ == self@.kind.shape,
    {
        &self.kind.shape
    }

    /// The elements in row-major order.
    pub fn data(&self) -> (r: &Vec<i64>)
        ensures
            r@ == self@.data,
    {
        &self.data
    }

    /// The shape, scalar type and device.
    pub fn kind(&self) -> (r: &Kind)
        ensures
            r@ == self@.kind,
    {
        &self.kind
    }

    /// The declared precision.
    pub fn scalar_type(&self) -> (r: ScalarType)
        ensures
            r == self@.kind.scalar_type,
    {
        self.kind.scalar_type
    }

    /// Where the storage lives.
    pub fn device(&self) -> (r: Device)
        ensures
            r == self@.kind.device,
    {
        self.kind.device
    }

    /// The number of elements.
    pub fn len(&self) -> (n: usize)
        ensures
            n == self@.data.len(),
    {
        self.data.len()
    }

    /// Declares another precision. The elements are integers and stay as they are.
    pub fn cast_mut(&mut self, scalar_type: ScalarType)
        ensures
            final(self)@ == old(self)@.cast(scalar_type),
    {
        self.kind.scalar_type = scalar_type;
    }

    /// Declares another location. The elements stay as they are.
    pub fn to_device_mut(&mut self, device: Device)
        ensures
            final(self)@ == old(self)@.moved(device),
    {
        self.kind.device = device;
    }

    /// The same elements under another shape. Refused with `Mismatch` exactly where the new
    /// shape spans another number of elements.
    pub fn into_shape(self, shape: Vec<usize>) -> (r: Result<Tensor, Error>)
        ensures
            match r {
                Ok(t) => t@ == self@.reshape(shape@),
                Err(e) => e == Error::Mismatch,
            },
            r is Ok <==> self@.data.len() == shape_size(shape@),
    {
        let len: usize = self.data.len();
        match checked_size(&shape) {
            Some(n) => {
                if n == len {
                    Ok(
                        Tensor {
                            kind: Kind {
                                shape,
                                scalar_type: self.kind.scalar_type,
                                device: self.kind.device,
                            },
                            data: self.data,
                        },
                    )
                } else {
                    Err(Error::Mismatch)
                }
            },
            None => Err(Error::Mismatch),
        }
    }

    /// The element-wise saturating sum. Refused with `Mismatch` exactly where the two kinds
    /// differ.
    pub fn add(&self, rhs: &Tensor) -> (r: Result<Tensor, Error>)
        requires
            self.wf(),
            rhs.wf(),
        ensures
            match r {
                Ok(t) => t.wf() && t@ == self@.add(rhs@),
                Err(e) => e == Error::Mismatch,
            },
            r is Ok <==> self@.kind == rhs@.kind,
    {
        if !self.kind.same(&rhs.kind) {
            return Err(Error::Mismatch);
        }
        let mut data: Vec<i64> = Vec::new();
        let mut i: usize = 0;
        while i < self.data.len()
            invariant
                i <= self.data.len(),
                self.data.len() == rhs.data.len(),
                data@.len() == i,
                forall|j: int| 0 <= j < i ==> data@[j] == sat_add(self.data@[j], rhs.data@[j]),
            decreases self.data.len() - i,
        {
            data.push(scalar_add(self.data[i], rhs.data[i]));
            i += 1;
        }
        let t = Tensor { kind: self.kind.copy(), data };
        assert(t@.data =~= self@.add(rhs@).data);
        Ok(t)
    }

    /// The element-wise saturating product. Refused with `Mismatch` exactly where the two
    /// kinds differ.
    pub fn mul(&self, rhs: &Tensor) -> (r: Result<Tensor, Error>)
        requires
            self.wf(),
            rhs.wf(),
        ensures
            match r {
                Ok(t) => t.wf() && t@ == self@.mul(rhs@),
                Err(e) => e == Error::Mismatch,
            },
            r is Ok <==> self@.kind == rhs@.kind,
    {
        if !self.kind.same(&rhs.kind) {
            return Err(Error::Mismatch);
        }
        let mut data: Vec<i64> = Vec::new();
        let mut i: usize = 0;
        while i < self.data.len()
            invariant
                i <= self.data.len(),
                self.data.len() == rhs.data.len(),
                data@.len() == i,
                forall|j: int| 0 <= j < i ==> data@[j] == sat_mul(self.data@[j], rhs.data@[j]),
            decreases self.data.len() - i,
        {
            data.push(scalar_mul(self.data[i], rhs.data[i]));
            i += 1;
        }
        let t = Tensor { kind: self.kind.copy(), data };
        assert(t@.data =~= self@.mul(rhs@).data);
        Ok(t)
    }

    /// Adds `alpha * rhs` to this tensor in place. Refused with `Mismatch`, and nothing
    /// changed, exactly where the two kinds differ.
    pub fn scaled_add(&mut self, alpha: i64, rhs: &Tensor) -> (r: Result<(), Error>)
        requires
            old(self).wf(),
            rhs.wf(),
        ensures
            final(self).wf(),
            match r {
                Ok(_) => final(self)@ == old(self)@.scaled_add(alpha, rhs@),
                Err(e) => e == Error::Mismatch && final(self)@ == old(self)@,
            },
            r is Ok <==> old(self)@.kind == rhs@.kind,
    {
        if !self.kind.same(&rhs.kind) {
            return Err(Error::Mismatch);
        }
        let mut i: usize = 0;
        while i < self.data.len()
            invariant
                i <= self.data.len(),
                self.data.len() == rhs.data.len(),
                self.data.len() == old(self).data.len(),
                self.kind == old(self).kind,
                forall|j: int|
                    0 <= j < i ==> self.data@[j] == sat_add(
                        old(self).data@[j],
                        sat_mul(alpha, rhs.data@[j]),
                    ),
                forall|j: int| i <= j < self.data.len() ==> self.data@[j] == old(self).data@[j],
            decreases self.data.len() - i,
        {
            let v: i64 = scalar_add(self.data[i], scalar_mul(alpha, rhs.data[i]));
            self.data.set(i, v);
            i += 1;
        }
        assert(self@.data =~= old(self)@.scaled_add(alpha, rhs@).data);
        Ok(())
    }

    /// Every element multiplied by `alpha`, saturating.
    pub fn scale(&self, alpha: i64) -> (t: Tensor)
        requires
            self.wf(),
        ensures
            t.wf(),
            t@ == self@.scale(alpha),
    {
        let mut data: Vec<i64> = Vec::new();
        let mut i: usize = 0;
        while i < self.data.len()
            invariant
                i <= self.data.len(),
                data@.len() == i,
                forall|j: int| 0 <= j < i ==> data@[j] == sat_mul(alpha, self.data@[j]),
            decreases self.data.len() - i,
        {
            data.push(scalar_mul(alpha, self.data[i]));
            i += 1;
        }
        let t = Tensor { kind: self.kind.copy(), data };
        assert(t@.data =~= self@.scale(alpha).data);
        t
    }

    /// The rectifier applied to every element. Refused with `Unimplemented` exactly where
    /// the scalar type is neither `BF16` nor `F32`.
    pub fn relu(&self) -> (r: Result<Tensor, Error>)
        requires
            self.wf(),
        ensures
            match r {
                Ok(t) => t.wf() && t@ == self@.relu(),
                Err(e) => e == Error::Unimplemented,
            },
            r is Ok <==> self@.kind.scalar_type.is_trainable(),
    {
        if !self.kind.scalar_type.trainable() {
            return Err(Error::Unimplemented);
        }
        let mut data: Vec<i64> = Vec::new();
        let mut i: usize = 0;
        while i < self.data.len()
            invariant
                i <= self.data.len(),
                data@.len() == i,
                forall|j: int| 0 <= j < i ==> data@[j] == relu_of(self.data@[j]),
            decreases self.data.len() - i,
        {
            data.push(relu_impl(self.data[i]));
            i += 1;
        }
        let t = Tensor { kind: self.kind.copy(), data };
        assert(t@.data =~= self@.relu().data);
        Ok(t)
    }

    /// Applies the rectifier to every element in place. Refused with `Unimplemented`, and
    /// nothing changed, exactly where the scalar type is neither `BF16` nor `F32`.
    pub fn relu_mut(&mut self) -> (r: Result<(), Error>)
        requires
            old(self).wf(),
        ensures
            final(self).wf(),
            match r {
                Ok(_) => final(self)@ == old(self)@.relu(),
                Err(e) => e == Error::Unimplemented && final(self)@ == old(self)@,
            },
            r is Ok <==> old(self)@.kind.scalar_type.is_trainable(),
    {
        if !self.kind.scalar_type.trainable() {
            return Err(Error::Unimplemented);
        }
        let mut i: usize = 0;
        while i < self.data.len()
            invariant
                i <= self.data.len(),
                self.data.len() == old(self).data.len(),
                self.kind == old(self).kind,
                forall|j: int| 0 <= j < i ==> self.data@[j] == relu_of(old(self).data@[j]),
                forall|j: int| i <= j < self.data.len() ==> self.data@[j] == old(self).data@[j],
            decreases self.data.len() - i,
        {
            let v: i64 = relu_impl(self.data[i]);
            self.data.set(i, v);
            i += 1;
        }
        assert(self@.data =~= old(self)@.relu().data);
        Ok(())
    }

    /// Turns the upstream gradient `dy` into the rectifier's gradient at this input, in
    /// place. Refused with `Mismatch`, and nothing changed, exactly where the two kinds
    /// differ.
    pub fn relu_backward_mut(&self, dy: &mut Tensor) -> (r: Result<(), Error>)
        requires
            self.wf(),
            old(dy).wf(),
        ensures
            final(dy).wf(),
            match r {
                Ok(_) => final(dy)@ == self@.relu_backward(old(dy)@),
                Err(e) => e == Error::Mismatch && final(dy)@ == old(dy)@,
            },
            r is Ok <==> self@.kind == old(dy)@.kind,
    {
        if !self.kind.same(&dy.kind) {
            return Err(Error::Mismatch);
        }
        let mut i: usize = 0;
        while i < dy.data.len()
            invariant
                i <= dy.data.len(),
                dy.data.len() == old(dy).data.len(),
                dy.data.len() == self.data.len(),
                dy.kind == old(dy).kind,
                forall|j: int|
                    0 <= j < i ==> dy.data@[j] == relu_backward_of(
                        self.data@[j],
                        old(dy).data@[j],
                    ),
                forall|j: int| i <= j < dy.data.len() ==> dy.data@[j] == old(dy).data@[j],
            decreases dy.data.len() - i,
        {
            let v: i64 = relu_backward_impl(self.data[i], dy.data[i]);
            dy.data.set(i, v);
            i += 1;
        }
        assert(dy@.data =~= self@.relu_backward(old(dy)@).data);
        Ok(())
    }

    /// The rectifier's gradient at this input for the upstream gradient `dy`. Refused with
    /// `Mismatch` exactly where the two kinds differ.
    pub fn relu_backward(&self, dy: &Tensor) -> (r: Result<Tensor, Error>)
        requires
            self.wf(),
            dy.wf(),
        ensures
            match r {
                Ok(t) => t.wf() && t@ == self@.relu_backward(dy@),
                Err(e) => e == Error::Mismatch,
            },
            r is Ok <==> self@.kind == dy@.kind,
    {
        if !self.kind.same(&dy.kind) {
            return Err(Error::Mismatch);
        }
        let mut data: Vec<i64> = Vec::new();
        let mut i: usize = 0;
        while i < self.data.len()
            invariant
                i <= self.data.len(),
                self.data.len() == dy.data.len(),
                data@.len() == i,
                forall|j: int|
                    0 <= j < i ==> data@[j] == relu_backward_of(self.data@[j], dy.data@[j]),
            decreases self.data.len() - i,
        {
            data.push(relu_backward_impl(self.data[i], dy.data[i]));
            i += 1;
        }
        let t = Tensor { kind: self.kind.copy(), data };
        assert(t@.data =~= self@.relu_backward(dy@).data);
        Ok(t)
    }

    /// The saturating sum of all elements, front to back, as a tensor without axes.
    pub fn sum(&self) -> (t: Tensor)
        ensures
            t.wf(),
            t@ == self@.sum(),
    {
        let mut acc: i64 = 0;
        let mut i: usize = 0;
        while i < self.data.len()
            invariant
                i <= self.data.len(),
                acc == sum_to(self.data@, i as nat),
            decreases self.data.len() - i,
        {
            acc = scalar_add(acc, self.data[i]);
            i += 1;
        }
        let mut data: Vec<i64> = Vec::new();
        data.push(acc);
        let t = Tensor {
            kind: Kind {
                shape: Vec::new(),
                scalar_type: self.kind.scalar_type,
                device: self.kind.device,
            },
            data,
        };
        assert(t@.data =~= self@.sum().data);
        assert(t@.kind.shape =~= Seq::<usize>::empty());
        t
    }
}

} // verus!
