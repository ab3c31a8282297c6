//! Scale mapper: converts a data value into a vertical pixel position inside
//! the chart area, leaving 1/5 of the chart height as headroom above the
//! largest value.

use vstd::prelude::*;

verus! {

/// Largest magnitude (in milli-units) a dataset value may have.
pub const VALUE_LIMIT: i64 = 1_000_000_000;

/// Largest viewport edge (in milli-pixels): ten thousand pixels.
pub const DIM_LIMIT: i64 = 10_000_000;

/// Every scaled height stays within this magnitude, whatever the inputs.
pub const SPAN_LIMIT: i64 = 10_000_000_000_000_000;

/// Floor division of `n` by a positive divisor `d`.
pub fn div_pos(n: i64, d: i64) -> (q: i64)
    requires
        d > 0,
    ensures
        q == n as int / d as int,
        n >= 0 ==> 0 <= q <= n,
        n < 0 ==> n <= q <= 0,
{
    proof {
        let ni = n as int;
        let di = d as int;
        vstd::arithmetic::div_mod::lemma_fundamental_div_mod(ni, di);
        let qi = ni / di;
        let ri = ni % di;
        if qi >= 1 {
            assert(di * qi >= qi) by (nonlinear_arith)
                requires di >= 1 && qi >= 1;
            assert(qi <= ni);
        }
        if qi <= -1 {
            assert(ni < di * (qi + 1) && di * (qi + 1) <= qi + 1) by (nonlinear_arith)
                requires di >= 1 && qi + 1 <= 0 && ni == di * qi + ri && ri < di;
            assert(ni <= qi);
        }
        if ni >= 0 && qi < 0 {
            assert(di * qi <= qi) by (nonlinear_arith)
                requires di >= 1 && qi < 0;
            assert(ni < 0);
        }
        if ni < 0 && qi > 0 {
            assert(di * qi >= qi) by (nonlinear_arith)
                requires di >= 1 && qi > 0;
            assert(ni > 0);
        }
    }
    match n.checked_div_euclid(d) {
        Some(q) => q,
        None => {
            proof {
                assert(false);
            }
            0
        },
    }
}

/// Height (in milli-pixels) of a value scaled against the maximum, filling at
/// most 4/5 of the chart height.
pub open spec fn scaled_height(value: int, max_value: int, chart_height: int) -> int {
    (value * chart_height * 4) / (max_value * 5)
}

/// Vertical position of a value: measured up from the chart bottom by its
/// scaled height.
pub open spec fn spec_value_to_y(
    value: int,
    max_value: int,
    chart_top: int,
    chart_bottom: int,
) -> int {
    chart_bottom - scaled_height(value, max_value, chart_bottom - chart_top)
}

/// Computes the scaled height of `value` inside a chart area of height
/// `chart_height`.  A value between 0 and `max_value` lands between 0 and the
/// chart height; a negative value yields a negative height (drawn below the
/// axis, deliberately unclamped).
pub fn value_height(value: i64, max_value: i64, chart_height: i64) -> (h: i64)
    requires
        0 < max_value <= VALUE_LIMIT,
        -VALUE_LIMIT <= value <= VALUE_LIMIT,
        0 <= chart_height <= DIM_LIMIT,
    ensures
        h == scaled_height(value as int, max_value as int, chart_height as int),
        0 <= value <= max_value ==> 0 <= h <= chart_height,
        value >= 0 ==> h >= 0,
        value < 0 ==> h <= 0,
        -SPAN_LIMIT <= h <= SPAN_LIMIT,
{
    proof {
        assert(-10_000_000_000_000_000 <= value as int * chart_height as int
            <= 10_000_000_000_000_000) by (nonlinear_arith)
            requires
                -1_000_000_000 <= value as int <= 1_000_000_000,
                0 <= chart_height as int <= 10_000_000;
    }
    let num: i64 = value * chart_height * 4;
    let den: i64 = max_value * 5;
    let h = div_pos(num, den);
    proof {
        lemma_scaled_height_bounds(value as int, max_value as int, chart_height as int);
    }
    h
}

/// Bounds of the scaled height: it has the sign of the value, a value at most
/// `max_value` stays within the chart height, and the magnitude never leaves
/// `SPAN_LIMIT`.
pub proof fn lemma_scaled_height_bounds(value: int, max_value: int, chart_height: int)
    requires
        0 < max_value <= VALUE_LIMIT,
        -VALUE_LIMIT <= value <= VALUE_LIMIT,
        0 <= chart_height <= DIM_LIMIT,
    ensures
        0 <= value <= max_value ==> 0 <= scaled_height(value, max_value, chart_height)
            <= chart_height,
        value >= 0 ==> scaled_height(value, max_value, chart_height) >= 0,
        value < 0 ==> scaled_height(value, max_value, chart_height) <= 0,
        -SPAN_LIMIT <= scaled_height(value, max_value, chart_height) <= SPAN_LIMIT,
{
    let num = value * chart_height * 4;
    let den = max_value * 5;
    assert(den > 0) by (nonlinear_arith)
        requires max_value > 0 && den == max_value * 5;
    if value >= 0 {
        assert(0 <= num) by (nonlinear_arith)
            requires 0 <= value && 0 <= chart_height && num == value * chart_height * 4;
        if value <= max_value {
            assert(num <= den * chart_height) by (nonlinear_arith)
                requires 0 <= value <= max_value && 0 <= chart_height
                    && den == max_value * 5 && num == value * chart_height * 4;
            lemma_div_range_nonneg(num, den, chart_height);
        }
        assert(num <= den * SPAN_LIMIT) by (nonlinear_arith)
            requires 0 <= value <= VALUE_LIMIT && 0 <= chart_height <= DIM_LIMIT
                && den >= 5 && num == value * chart_height * 4;
        lemma_div_range_nonneg(num, den, SPAN_LIMIT as int);
    } else {
        assert(-(den * SPAN_LIMIT) <= num <= 0) by (nonlinear_arith)
            requires -VALUE_LIMIT <= value < 0 && 0 <= chart_height <= DIM_LIMIT
                && den >= 5 && num == value * chart_height * 4;
        if num == 0 {
            assert(scaled_height(value, max_value, chart_height) == 0);
        } else {
            lemma_div_range_neg(num, den, SPAN_LIMIT as int);
        }
    }
}

/// Floor division of a value in `[0, d*b]` by `d > 0` lands in `[0, b]`.
proof fn lemma_div_range_nonneg(n: int, d: int, b: int)
    requires
        d > 0,
        0 <= n <= d * b,
    ensures
        0 <= n / d <= b,
{
    vstd::arithmetic::div_mod::lemma_fundamental_div_mod(n, d);
    let q = n / d;
    let r = n % d;
    assert(0 <= q && q <= b) by (nonlinear_arith)
        requires d > 0 && 0 <= r < d && n == d * q + r && 0 <= n <= d * b;
}

/// Floor division of a value in `[-d*b, 0)` by `d > 0` lands in `[-b, 0]`.
proof fn lemma_div_range_neg(n: int, d: int, b: int)
    requires
        d > 0,
        -(d * b) <= n < 0,
    ensures
        -b <= n / d <= 0,
{
    vstd::arithmetic::div_mod::lemma_fundamental_div_mod(n, d);
    let q = n / d;
    let r = n % d;
    assert(-b <= q && q <= 0) by (nonlinear_arith)
        requires d > 0 && 0 <= r < d && n == d * q + r && -(d * b) <= n < 0;
}

} // verus!
