//! Uniform draws from a seedable generator.

use rand::rngs::StdRng;
use rand::Rng;
use vstd::prelude::*;

use crate::fixed::{Fixed, SCALE};

verus! {

/// `StdRng` of `rand`, the seedable standard generator: an opaque value that
/// is handed on to the draws.
#[verifier::external_type_specification]
#[verifier::external_body]
pub struct ExStdRng(rand::rngs::StdRng);

/// Calls `Rng::gen_range` of `rand` on the half-open range `low..high` of
/// `u64`. The generator panics on an empty range, which the precondition
/// rules out; whatever its state, the number it hands back lies in the range.
#[verifier::external_body]
fn draw_between(rng: &mut StdRng, low: u64, high: u64) -> (r: u64)
    requires
        low < high,
    ensures
        low <= r < high,
{
    rng.gen_range(low..high)
}

/// An index drawn uniformly from `0..n`, or nothing where there is no index
/// to draw.
pub fn draw_index(rng: &mut StdRng, n: usize) -> (drawn: Option<usize>)
    ensures
        n == 0 <==> drawn is None,
        drawn matches Some(i) ==> i < n,
{
    if n == 0 {
        None
    } else {
        Some(draw_between(rng, 0, n as u64) as usize)
    }
}

/// A decimal drawn uniformly from `[0, 1)`.
pub fn draw_unit(rng: &mut StdRng) -> (r: Fixed)
    ensures
        0 <= r@ < SCALE,
{
    Fixed::from_raw(draw_between(rng, 0, SCALE as u64) as i64)
}

/// Whether a pair of draws lies in `[0, 1)`.
pub open spec fn unit_pair(draw: (Fixed, Fixed)) -> bool {
    0 <= draw.0@ < SCALE && 0 <= draw.1@ < SCALE
}

/// `n` pairs of decimals drawn uniformly from `[0, 1)`, pair by pair and the
/// first of a pair before the second.
pub fn draw_unit_pairs(rng: &mut StdRng, n: usize) -> (pairs: Vec<(Fixed, Fixed)>)
    ensures
        pairs@.len() == n,
        forall|i: int| 0 <= i < n ==> unit_pair(#[trigger] pairs@[i]),
{
    let mut pairs: Vec<(Fixed, Fixed)> = Vec::new();
    let mut i: usize = 0;
    while i < n
        invariant
            i <= n,
            pairs@.len() == i,
            forall|j: int| 0 <= j < i ==> unit_pair(#[trigger] pairs@[j]),
        decreases n - i,
    {
        let r1 = draw_unit(rng);
        let r2 = draw_unit(rng);
        pairs.push((r1, r2));
        i = i + 1;
    }
    pairs
}

/// A decimal drawn uniformly from `[low, high)`, for bounds that are not
/// negative.
pub(crate) fn draw_decimal(rng: &mut StdRng, low: Fixed, high: Fixed) -> (r: Fixed)
    requires
        0 <= low@ < high@,
    ensures
        low@ <= r@ < high@,
{
    Fixed::from_raw(draw_between(rng, low.raw as u64, high.raw as u64) as i64)
}

/// The direction that a draw from `0..2` stands for: one step forwards for
/// 1, one step backwards for 0.
pub open spec fn direction_of(draw: int) -> int {
    if draw == 1 {
        1
    } else {
        -1
    }
}

/// The direction that `draw` stands for.
pub fn direction_for(draw: u64) -> (step: i32)
    ensures
        step == direction_of(draw as int),
{
    if draw == 1 {
        1
    } else {
        -1
    }
}

/// A whole number drawn uniformly from `0..2`.
pub(crate) fn draw_side(rng: &mut StdRng) -> (draw: u64)
    ensures
        draw < 2,
{
    draw_between(rng, 0, 2)
}

/// One step forwards or one step backwards, each as likely as the other:
/// the direction of a draw from `0..2`.
pub fn draw_direction(rng: &mut StdRng) -> (step: i32)
    ensures
        exists|draw: int| 0 <= draw < 2 && step == #[trigger] direction_of(draw),
        step == 1 || step == -1,
{
    let draw = draw_side(rng);
    let step = direction_for(draw);
    proof {
        assert(step == direction_of(draw as int));
    }
    step
}

} // verus!
