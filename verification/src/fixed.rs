use vstd::prelude::*;

verus! {

/// Number of fixed-point steps per unit: measurements and controller
/// coefficients are integers counting micro-units.
pub const SCALE: i64 = 1_000_000;

/// Largest frame side length (rows or columns) the core accepts.
pub const MAX_DIM: usize = 4096;

/// Bound on one calibrated pixel value.
pub const VAL_LIMIT: i64 = 1_048_576;

/// Bound on one dark/background offset or flat divisor entry.
pub const MAP_LIMIT: i64 = 65535;

/// Bound on controller gain, control-matrix entries and measurement entries
/// (all in fixed point).  Within it, no controller product overflows.
pub const CTRL_LIMIT: i64 = 10_000_000_000;

/// Bound on one persistent actuator command (fixed point, `SCALE^3` steps
/// per unit).  An update that would leave this range is rejected whole.
pub const CMD_LIMIT: i128 = 1_000_000_000_000_000_000_000_000_000_000_000_000;

/// Largest measurement or command vector length the controller accepts.
pub const MAX_LEN: usize = 1_000_000;

/// Quotient of `x / d` rounded toward zero, for positive `d`.
pub open spec fn spec_div_trunc(x: int, d: int) -> int {
    if x >= 0 {
        x / d
    } else {
        -((-x) / d)
    }
}

/// `x` forced into `[-lim, lim]`.
pub open spec fn spec_clamp(x: int, lim: int) -> int {
    if x < -lim {
        -lim
    } else if x > lim {
        lim
    } else {
        x
    }
}

/// An accumulator within `k` steps of unit `u`, plus one more step, stays
/// within `k + 1` steps.
pub proof fn lemma_acc_step(acc: int, x: int, k: int, u: int)
    requires
        -(k * u) <= acc <= k * u,
        -u <= x <= u,
        0 <= k,
        0 <= u,
    ensures
        -((k + 1) * u) <= acc + x <= (k + 1) * u,
{
    assert(-((k + 1) * u) <= acc + x <= (k + 1) * u) by (nonlinear_arith)
        requires
            -(k * u) <= acc <= k * u,
            -u <= x <= u,
            0 <= k,
            0 <= u;
}

/// A product of a bounded value and a bounded nonnegative weight is bounded
/// by the product of the bounds.
pub proof fn lemma_mul_abs(x: int, xb: int, y: int, yb: int)
    requires
        -xb <= x <= xb,
        0 <= y <= yb,
    ensures
        -(xb * yb) <= x * y <= xb * yb,
        -(xb * yb) <= y * x <= xb * yb,
        xb * yb == yb * xb,
{
    assert(-(xb * yb) <= x * y <= xb * yb && x * y == y * x && xb * yb == yb * xb)
        by (nonlinear_arith)
        requires
            -xb <= x <= xb,
            0 <= y <= yb;
}

/// A product of two bounded values is bounded by the product of the bounds.
pub proof fn lemma_mul_abs2(x: int, xb: int, y: int, yb: int)
    requires
        -xb <= x <= xb,
        -yb <= y <= yb,
        0 <= xb,
        0 <= yb,
    ensures
        -(xb * yb) <= x * y <= xb * yb,
        -(xb * yb) <= y * x <= xb * yb,
        xb * yb == yb * xb,
{
    assert(-(xb * yb) <= x * y <= xb * yb && x * y == y * x && xb * yb == yb * xb)
        by (nonlinear_arith)
        requires
            -xb <= x <= xb,
            -yb <= y <= yb,
            0 <= xb,
            0 <= yb;
}

/// Multiplying both sides of `x <= y` by a nonnegative `z` keeps the order.
pub proof fn lemma_mul_le(x: int, y: int, z: int)
    requires
        x <= y,
        0 <= z,
    ensures
        x * z <= y * z,
        z * x <= z * y,
{
    assert(x * z <= y * z && x * z == z * x && y * z == z * y) by (nonlinear_arith)
        requires
            x <= y,
            0 <= z;
}

/// Truncating division by a positive divisor never grows a bound on the
/// dividend.
pub proof fn lemma_div_trunc_bound(x: int, d: int, b: int)
    requires
        -b <= x <= b,
        d >= 1,
        0 <= b,
    ensures
        -b <= spec_div_trunc(x, d) <= b,
{
    if x >= 0 {
        vstd::arithmetic::div_mod::lemma_div_pos_is_pos(x, d);
        vstd::arithmetic::div_mod::lemma_div_nonincreasing(x, d);
    } else {
        vstd::arithmetic::div_mod::lemma_div_pos_is_pos(-x, d);
        vstd::arithmetic::div_mod::lemma_div_nonincreasing(-x, d);
    }
}

/// Truncating division of a signed value by a positive divisor.
pub fn div_trunc(x: i128, d: i128) -> (r: i128)
    requires
        d >= 1,
        x > i128::MIN,
    ensures
        r == spec_div_trunc(x as int, d as int),
{
    proof {
        if x >= 0 {
            vstd::arithmetic::div_mod::lemma_div_pos_is_pos(x as int, d as int);
            vstd::arithmetic::div_mod::lemma_div_nonincreasing(x as int, d as int);
        } else {
            vstd::arithmetic::div_mod::lemma_div_pos_is_pos(-(x as int), d as int);
            vstd::arithmetic::div_mod::lemma_div_nonincreasing(-(x as int), d as int);
        }
    }
    match x.checked_div(d) {
        Some(r) => r,
        None => 0,
    }
}

} // verus!
