//! Scalar types and scalar arithmetic.
use vstd::prelude::*;

verus! {

/// The precision that a tensor is declared with.
#[derive(Clone, Copy, Debug, PartialEq, Eq, Structural)]
pub enum ScalarType {
    U8,
    I8,
    U16,
    I16,
    F16,
    BF16,
    U32,
    I32,
    F32,
    U64,
    I64,
    F64,
}

impl ScalarType {
    /// The precisions that the differentiable operations are implemented for.
    pub open spec fn is_trainable(self) -> bool {
        self == ScalarType::BF16 || self == ScalarType::F32
    }

    /// Whether the differentiable operations are implemented for this precision.
    #[verifier::when_used_as_spec(is_trainable)]
    pub fn trainable(self) -> (r: bool)
        ensures
            r == self.is_trainable(),
    {
        match self {
            ScalarType::BF16 => true,
            ScalarType::F32 => true,
            _ => false,
        }
    }
}

/// Where a tensor's storage lives.
#[derive(Clone, Copy, Debug, PartialEq, Eq, Structural)]
pub enum Device {
    Host,
    Accelerator(usize),
}

/// `x` clamped to the range of `i64`.
pub open spec fn clamp(x: int) -> i64 {
    if x > i64::MAX {
        i64::MAX
    } else if x < i64::MIN {
        i64::MIN
    } else {
        x as i64
    }
}

/// The saturating sum of two scalars.
pub open spec fn sat_add(a: i64, b: i64) -> i64 {
    clamp(a + b)
}

/// The saturating product of two scalars.
pub open spec fn sat_mul(a: i64, b: i64) -> i64 {
    clamp(a * b)
}

/// Adds two scalars, saturating at the bounds of `i64`.
pub fn scalar_add(a: i64, b: i64) -> (r: i64)
    ensures
        r == sat_add(a, b),
{
    let wide: i128 = a as i128 + b as i128;
    if wide > i64::MAX as i128 {
        i64::MAX
    } else if wide < i64::MIN as i128 {
        i64::MIN
    } else {
        wide as i64
    }
}

/// Multiplies two scalars, saturating at the bounds of `i64`.
pub fn scalar_mul(a: i64, b: i64) -> (r: i64)
    ensures
        r == sat_mul(a, b),
{
    proof {
        lemma_product_fits(a, b);
    }
    let wide: i128 = a as i128 * b as i128;
    if wide > i64::MAX as i128 {
        i64::MAX
    } else if wide < i64::MIN as i128 {
        i64::MIN
    } else {
        wide as i64
    }
}

proof fn lemma_product_fits(a: i64, b: i64)
    ensures
        i128::MIN <= a * b <= i128::MAX,
{
    assert(-0x8000_0000_0000_0000 <= a < 0x8000_0000_0000_0000);
    assert(-0x8000_0000_0000_0000 <= b < 0x8000_0000_0000_0000);
    assert(-0x4000_0000_0000_0000_0000_0000_0000_0000 <= a * b
        <= 0x4000_0000_0000_0000_0000_0000_0000_0000) by (nonlinear_arith)
        requires
            -0x8000_0000_0000_0000 <= a < 0x8000_0000_0000_0000,
            -0x8000_0000_0000_0000 <= b < 0x8000_0000_0000_0000,
    ;
}

/// The rectifier: `x` where it is positive, zero elsewhere.
pub open spec fn relu_of(x: i64) -> i64 {
    if x >= 0 {
        x
    } else {
        0
    }
}

/// The rectifier's gradient: `dy` where the input was positive, zero where it was zero or
/// negative.
pub open spec fn relu_backward_of(x: i64, dy: i64) -> i64 {
    if x > 0 {
        dy
    } else {
        0
    }
}

/// Applies the rectifier to one scalar.
pub fn relu_impl(x: i64) -> (y: i64)
    ensures
        y == relu_of(x),
{
    if x >= 0 {
        x
    } else {
        0
    }
}

/// The gradient of the rectifier at input `x` for the upstream gradient `dy`. Nothing is
/// propagated at the boundary `x == 0`.
pub fn relu_backward_impl(x: i64, dy: i64) -> (dx: i64)
    ensures
        dx == relu_backward_of(x, dy),
{
    if x > 0 {
        dy
    } else {
        0
    }
}

} // verus!
