//! Saturating fixed-point decimals with six fractional digits.

use vstd::prelude::*;

verus! {

/// Raw units in one whole: a [`Fixed`] counts millionths.
pub const SCALE: i64 = 1_000_000;

/// The raw amount `x` brought back into the representable range.
pub open spec fn saturate(x: int) -> int {
    if x < i64::MIN {
        i64::MIN as int
    } else if x > i64::MAX {
        i64::MAX as int
    } else {
        x
    }
}

/// The quotient of `a` by a positive `b`, rounded toward zero.
pub open spec fn quotient_toward_zero(a: int, b: int) -> int
    recommends
        b > 0,
{
    if a >= 0 {
        a / b
    } else {
        -((-a) / b)
    }
}

/// Raw sum of two raw amounts.
pub open spec fn raw_sum(a: int, b: int) -> int {
    saturate(a + b)
}

/// Raw difference of two raw amounts.
pub open spec fn raw_difference(a: int, b: int) -> int {
    saturate(a - b)
}

/// Raw product of two raw amounts: the exact product of the two decimals,
/// rounded toward zero to a millionth.
pub open spec fn raw_product(a: int, b: int) -> int {
    saturate(quotient_toward_zero(a * b, SCALE as int))
}

/// Raw distance between two raw amounts.
pub open spec fn raw_distance(a: int, b: int) -> int {
    if a >= b {
        saturate(a - b)
    } else {
        saturate(b - a)
    }
}

/// Raw amount of the whole number `n`.
pub open spec fn raw_of_whole(n: int) -> int {
    n * SCALE
}

/// The whole part of a raw amount, rounded toward zero and kept within `i32`.
pub open spec fn whole_part(x: int) -> int {
    let q = quotient_toward_zero(x, SCALE as int);
    if q < i32::MIN {
        i32::MIN as int
    } else if q > i32::MAX {
        i32::MAX as int
    } else {
        q
    }
}

/// A decimal number held as a count of millionths.
///
/// Arithmetic never wraps and never fails: a result that leaves the range of
/// `i64` millionths stays at the nearest end of that range.
#[derive(Clone, Copy, Debug, PartialEq, Eq, Structural)]
pub struct Fixed {
    pub raw: i64,
}

impl View for Fixed {
    type V = int;

    open spec fn view(&self) -> int {
        self.raw as int
    }
}

proof fn lemma_product_fits(a: int, b: int)
    requires
        i64::MIN <= a <= i64::MAX,
        i64::MIN <= b <= i64::MAX,
    ensures
        -0x4000_0000_0000_0000_0000_0000_0000_0000 <= a * b
            <= 0x4000_0000_0000_0000_0000_0000_0000_0000,
{
    assert(-0x4000_0000_0000_0000_0000_0000_0000_0000 <= a * b
        <= 0x4000_0000_0000_0000_0000_0000_0000_0000) by (nonlinear_arith)
        requires
            -0x8000_0000_0000_0000 <= a <= 0x8000_0000_0000_0000,
            -0x8000_0000_0000_0000 <= b <= 0x8000_0000_0000_0000,
    ;
}

fn narrow(x: i128) -> (r: Fixed)
    ensures
        r@ == saturate(x as int),
{
    if x < i64::MIN as i128 {
        Fixed { raw: i64::MIN }
    } else if x > i64::MAX as i128 {
        Fixed { raw: i64::MAX }
    } else {
        Fixed { raw: x as i64 }
    }
}

fn toward_zero(a: i128, b: i128) -> (q: i128)
    requires
        b > 0,
        a > i128::MIN,
    ensures
        q == quotient_toward_zero(a as int, b as int),
{
    if a >= 0 {
        a / b
    } else {
        let m: i128 = -a;
        -(m / b)
    }
}

impl Fixed {
    /// The decimal with the given count of millionths.
    pub fn from_raw(raw: i64) -> (r: Fixed)
        ensures
            r@ == raw,
    {
        Fixed { raw }
    }

    /// The whole number `n`.
    pub fn from_int(n: i32) -> (r: Fixed)
        ensures
            r@ == raw_of_whole(n as int),
    {
        Fixed { raw: (n as i64) * SCALE }
    }

    /// Zero.
    pub fn zero() -> (r: Fixed)
        ensures
            r@ == 0,
    {
        Fixed { raw: 0 }
    }

    /// The least representable decimal.
    pub fn lowest() -> (r: Fixed)
        ensures
            r@ == i64::MIN,
    {
        Fixed { raw: i64::MIN }
    }

    /// `self + rhs`, saturating.
    pub fn plus(self, rhs: Fixed) -> (r: Fixed)
        ensures
            r@ == raw_sum(self@, rhs@),
    {
        narrow(self.raw as i128 + rhs.raw as i128)
    }

    /// `self - rhs`, saturating.
    pub fn minus(self, rhs: Fixed) -> (r: Fixed)
        ensures
            r@ == raw_difference(self@, rhs@),
    {
        narrow(self.raw as i128 - rhs.raw as i128)
    }

    /// `self * rhs`, rounded toward zero and saturating.
    pub fn times(self, rhs: Fixed) -> (r: Fixed)
        ensures
            r@ == raw_product(self@, rhs@),
    {
        proof {
            lemma_product_fits(self.raw as int, rhs.raw as int);
        }
        let exact: i128 = (self.raw as i128) * (rhs.raw as i128);
        narrow(toward_zero(exact, SCALE as i128))
    }

    /// `|self - rhs|`, saturating.
    pub fn distance(self, rhs: Fixed) -> (r: Fixed)
        ensures
            r@ == raw_distance(self@, rhs@),
    {
        if self.raw >= rhs.raw {
            narrow(self.raw as i128 - rhs.raw as i128)
        } else {
            narrow(rhs.raw as i128 - self.raw as i128)
        }
    }

    /// The whole part of `self`, rounded toward zero and saturating.
    pub fn whole(self) -> (n: i32)
        ensures
            n == whole_part(self@),
    {
        let q: i128 = toward_zero(self.raw as i128, SCALE as i128);
        if q < i32::MIN as i128 {
            i32::MIN
        } else if q > i32::MAX as i128 {
            i32::MAX
        } else {
            q as i32
        }
    }
}

} // verus!
