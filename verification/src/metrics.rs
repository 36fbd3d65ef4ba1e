//! Lengths, font metrics and the size of the viewport.
//!
//! Every length is a whole number of sub-pixel units, sixty-four to a device
//! pixel, so that the placement of a rectangle is computed without rounding
//! until the one rounding that the placement rule itself asks for.

use vstd::prelude::*;

verus! {

/// The number of sub-pixel units in one device pixel.
pub const UNITS_PER_PIXEL: i64 = 64;

/// The largest row or column that a rectangle can be placed at.
pub const MAX_INDEX: usize = 0x3fff_ffff;

/// What the font says about where its decorations go. Positions are offsets
/// above the baseline; the descent of a font is negative.
#[derive(Copy, Clone, Debug, PartialEq, Eq, Structural)]
pub struct Metrics {
    pub descent: i32,
    pub underline_position: i32,
    pub underline_thickness: i32,
    pub strikeout_position: i32,
    pub strikeout_thickness: i32,
}

/// The box of a cell, the padding around the grid, and the viewport.
#[derive(Copy, Clone, Debug, PartialEq, Eq, Structural)]
pub struct SizeInfo {
    /// The width of the viewport.
    pub width: i32,
    /// The height of the viewport.
    pub height: i32,
    pub cell_width: i32,
    pub cell_height: i32,
    /// The padding left of the grid.
    pub padding_x: i32,
    /// The padding above the grid.
    pub padding_y: i32,
    /// The last column that is visible.
    pub last_column: usize,
}

/// The integer nearest to `numerator / denominator`, for a positive
/// denominator; of the two nearest to a half, the one away from zero.
pub open spec fn round_ratio(numerator: int, denominator: int) -> int {
    if numerator >= 0 {
        (2 * numerator + denominator) / (2 * denominator)
    } else {
        -((2 * (-numerator) + denominator) / (2 * denominator))
    }
}

/// `round_ratio` gives an integer that is at most half a unit away from the
/// ratio, and a full half only on the side away from zero.
pub proof fn lemma_round_ratio_is_nearest(numerator: int, denominator: int)
    requires
        denominator > 0,
    ensures
        -denominator <= 2 * (round_ratio(numerator, denominator) * denominator - numerator)
            <= denominator,
        numerator >= 0 ==> 2 * (round_ratio(numerator, denominator) * denominator - numerator)
            > -denominator,
        numerator < 0 ==> 2 * (round_ratio(numerator, denominator) * denominator - numerator)
            < denominator,
        numerator >= 0 ==> round_ratio(numerator, denominator) >= 0,
        numerator <= 0 ==> round_ratio(numerator, denominator) <= 0,
{
    let magnitude = if numerator >= 0 { numerator } else { -numerator };
    let top = 2 * magnitude + denominator;
    let bottom = 2 * denominator;
    let quotient = top / bottom;
    assert(top == bottom * quotient + top % bottom && 0 <= top % bottom < bottom) by {
        vstd::arithmetic::div_mod::lemma_fundamental_div_mod(top, bottom);
        vstd::arithmetic::div_mod::lemma_mod_bound(top, bottom);
    }
    assert(quotient >= 0) by {
        vstd::arithmetic::div_mod::lemma_div_pos_is_pos(top, bottom);
    }
    assert(bottom * quotient == 2 * (quotient * denominator)) by (nonlinear_arith)
        requires
            bottom == 2 * denominator,
    ;
    if numerator < 0 {
        assert((-quotient) * denominator == -(quotient * denominator)) by (nonlinear_arith);
    }
    if numerator == 0 {
        assert(quotient == 0) by (nonlinear_arith)
            requires
                quotient >= 0,
                denominator > 0,
                2 * (quotient * denominator) <= denominator,
        ;
    }
}

/// Rounding keeps the order of two ratios with one denominator.
pub proof fn lemma_round_ratio_monotone(smaller: int, larger: int, denominator: int)
    requires
        denominator > 0,
        smaller <= larger,
    ensures
        round_ratio(smaller, denominator) <= round_ratio(larger, denominator),
{
    let bottom = 2 * denominator;
    if smaller >= 0 {
        vstd::arithmetic::div_mod::lemma_div_is_ordered(
            2 * smaller + denominator,
            2 * larger + denominator,
            bottom,
        );
    } else if larger < 0 {
        vstd::arithmetic::div_mod::lemma_div_is_ordered(
            2 * (-larger) + denominator,
            2 * (-smaller) + denominator,
            bottom,
        );
    } else {
        lemma_round_ratio_is_nearest(smaller, denominator);
        lemma_round_ratio_is_nearest(larger, denominator);
    }
}

/// The same rounding, computed.
pub fn rounded_ratio(numerator: i128, denominator: u32) -> (nearest: i128)
    requires
        denominator > 0,
        -0x4000_0000_0000_0000_0000_0000 <= numerator <= 0x4000_0000_0000_0000_0000_0000,
    ensures
        nearest == round_ratio(numerator as int, denominator as int),
{
    let bottom: u128 = 2 * (denominator as u128);
    if numerator >= 0 {
        let top: u128 = 2 * (numerator as u128) + denominator as u128;
        (top / bottom) as i128
    } else {
        let top: u128 = 2 * ((-numerator) as u128) + denominator as u128;
        -((top / bottom) as i128)
    }
}

} // verus!
