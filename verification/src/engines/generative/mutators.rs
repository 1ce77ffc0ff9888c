//! Bounded mutation of one parameter.

use crate::decimal::{round_div, sat_add, sat_mul, sat_sub, wide_round_div, Decimal, SCALE};
use crate::random::random_between;
use vstd::prelude::*;

verus! {

/// `v` limited to the range from `low` to `high`.
pub open spec fn limit(v: int, low: int, high: int) -> int {
    if v < low {
        low
    } else if v > high {
        high
    } else {
        v
    }
}

/// Whether `unit` is a draw from minus one up to, but not including, one.
pub open spec fn is_unit(unit: Decimal) -> bool {
    -SCALE <= unit@ < SCALE
}

/// The whole-number change that a draw gives: the draw times the strength
/// times the width of the range, rounded to the nearest whole number.
pub open spec fn integer_change(min: int, max: int, strength: int, unit: int) -> int {
    round_div(sat_mul(unit, strength) * (max - min), SCALE as int)
}

/// A whole-number parameter after mutation by the draw `unit`: moved by
/// the change and limited to the range.
pub open spec fn mutated_integer(current: int, min: int, max: int, strength: int, unit: int) -> int {
    limit(current + integer_change(min, max, strength, unit), min, max)
}

/// A real parameter after mutation by the draw `unit`: moved by the draw
/// times the strength times the width of the range, and limited to the
/// range.
pub open spec fn mutated_real(current: int, min: int, max: int, strength: int, unit: int) -> int {
    limit(sat_add(current, sat_mul(sat_mul(unit, strength), sat_sub(max, min))), min, max)
}

/// A draw from minus one up to, but not including, one.
pub fn draw_unit() -> (res: Decimal)
    ensures
        is_unit(res),
{
    Decimal { raw: random_between(-SCALE, SCALE - 1) }
}

/// Mutates a whole-number parameter within `min..=max` by the draw `unit`:
/// the parameter moves by the draw times `strength` times the width of the
/// range, rounded to a whole number, and stays inside the range.
pub fn mutate_usize(current: usize, min: usize, max: usize, strength: Decimal, unit: Decimal) -> (res: usize)
    requires
        min <= max,
    ensures
        res as int == mutated_integer(current as int, min as int, max as int, strength@, unit@),
        min <= res <= max,
{
    let scaled: i128 = unit.times(strength).raw as i128;
    let span: i128 = (max - min) as i128;
    proof {
        assert(-0x8000_0000_0000_0000 * 0xffff_ffff_ffff_ffff <= scaled * span <= 0x8000_0000_0000_0000
            * 0xffff_ffff_ffff_ffff) by (nonlinear_arith)
            requires
                -0x8000_0000_0000_0000 <= scaled <= 0x8000_0000_0000_0000,
                0 <= span <= 0xffff_ffff_ffff_ffff,
        ;
    }
    let product: i128 = scaled * span;
    let change: i128 = wide_round_div(product, SCALE as i128);
    let moved: i128 = current as i128 + change;
    if moved < min as i128 {
        min
    } else if moved > max as i128 {
        max
    } else {
        moved as usize
    }
}

/// Mutates a real parameter within `min..=max` by the draw `unit`: the
/// parameter moves by the draw times `strength` times the width of the
/// range and stays inside the range.
pub fn mutate_f64(current: Decimal, min: Decimal, max: Decimal, strength: Decimal, unit: Decimal) -> (res: Decimal)
    requires
        min@ <= max@,
    ensures
        res@ == mutated_real(current@, min@, max@, strength@, unit@),
        min@ <= res@ <= max@,
{
    let change = unit.times(strength).times(max.minus(min));
    let moved = current.plus(change);
    if moved.lt(min) {
        min
    } else if moved.gt(max) {
        max
    } else {
        moved
    }
}

} // verus!
