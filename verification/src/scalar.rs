//! Fixed-point scalars.
//!
//! Every length, speed, angle and intensity of the simulation is an `i64`
//! that counts millionths: `ONE` stands for 1, an angle of `PI` for half a
//! turn in radians.

use vstd::prelude::*;
use vstd::arithmetic::div_mod::lemma_fundamental_div_mod_converse;

verus! {

/// The scalar 1.
pub const ONE: i64 = 1_000_000;

/// Half a turn.
pub const PI: i64 = 3_141_593;

/// A full turn; exactly twice `PI`, so that wrapping an angle is exact.
pub const TWO_PI: i64 = 6_283_186;

/// A quarter of a turn.
pub const FRAC_PI_2: i64 = 1_570_796;

/// An eighth of a turn.
pub const FRAC_PI_4: i64 = 785_398;

/// `value` limited to `[min, max]`.
pub open spec fn clamp_spec(value: int, min: int, max: int) -> int {
    if value < min {
        min
    } else if value > max {
        max
    } else {
        value
    }
}

/// The representative of `value` in `[min, max)`, modulo the interval's width.
pub open spec fn wrap_spec(value: int, min: int, max: int) -> int {
    min + (value - min) % (max - min)
}

/// The representative of `angle` in `(-PI, PI]`, modulo a full turn.
pub open spec fn wrap_angle_spec(angle: int) -> int {
    PI - (PI - angle) % (TWO_PI as int)
}

/// Whether `root` is the integer square root of `n`: the largest number
/// whose square does not exceed `n`.
pub open spec fn is_sqrt(n: int, root: int) -> bool {
    &&& 0 <= root
    &&& root * root <= n
    &&& n < (root + 1) * (root + 1)
}

/// The integer square root of `n`, for `n` that is not negative.
pub open spec fn sqrt_spec(n: int) -> int {
    choose|root: int| is_sqrt(n, root)
}

/// A number has at most one integer square root.
pub proof fn lemma_sqrt_unique(n: int, a: int, b: int)
    requires
        is_sqrt(n, a),
        is_sqrt(n, b),
    ensures
        a == b,
{
    if a < b {
        assert((a + 1) * (a + 1) <= b * b) by (nonlinear_arith)
            requires
                0 <= a,
                a + 1 <= b,
        ;
    }
    if b < a {
        assert((b + 1) * (b + 1) <= a * a) by (nonlinear_arith)
            requires
                0 <= b,
                b + 1 <= a,
        ;
    }
}

/// Every number that is not negative has an integer square root.
pub proof fn lemma_sqrt_exists(n: int)
    requires
        0 <= n,
    ensures
        is_sqrt(n, sqrt_spec(n)),
    decreases n,
{
    if n == 0 {
        assert(is_sqrt(0, 0));
    } else {
        lemma_sqrt_exists(n - 1);
        let below = sqrt_spec(n - 1);
        if (below + 1) * (below + 1) <= n {
            assert(n < (below + 2) * (below + 2)) by (nonlinear_arith)
                requires
                    n - 1 < (below + 1) * (below + 1),
                    0 <= below,
            ;
            assert(is_sqrt(n, below + 1));
        } else {
            assert(is_sqrt(n, below));
        }
    }
}

/// The remainder of the floored division of `x` by `d`, which is never
/// negative.
pub fn rem_floor(x: i128, d: i128) -> (r: i128)
    requires
        d > 0,
        x > i128::MIN,
    ensures
        r == (x as int) % (d as int),
        0 <= r < d,
{
    if x >= 0 {
        let m: u128 = (x as u128) % (d as u128);
        m as i128
    } else {
        let y: u128 = (-(x + 1)) as u128;
        let m: u128 = y % (d as u128);
        let q: u128 = y / (d as u128);
        let r: i128 = d - 1 - (m as i128);
        proof {
            assert(y as int == (d as int) * (q as int) + (m as int)) by {
                vstd::arithmetic::div_mod::lemma_fundamental_div_mod(y as int, d as int);
            }
            assert(x as int == (-(q as int) - 1) * (d as int) + (r as int)) by (nonlinear_arith)
                requires
                    y as int == (d as int) * (q as int) + (m as int),
                    y as int == -(x as int) - 1,
                    r as int == (d as int) - 1 - (m as int),
            ;
            lemma_fundamental_div_mod_converse(x as int, d as int, -(q as int) - 1, r as int);
        }
        r
    }
}

/// Limits `value` to `[min, max]`.
pub fn clamp(value: i64, min: i64, max: i64) -> (r: i64)
    requires
        min <= max,
    ensures
        r == clamp_spec(value as int, min as int, max as int),
        min <= r <= max,
{
    if value < min {
        min
    } else if value > max {
        max
    } else {
        value
    }
}

/// Wraps `value` into `[min, max)`: a value that leaves the interval on one
/// side comes back in on the other.
pub fn wrap(value: i64, min: i64, max: i64) -> (r: i64)
    requires
        min < max,
    ensures
        r == wrap_spec(value as int, min as int, max as int),
        min <= r < max,
{
    let width: i128 = (max as i128) - (min as i128);
    let offset: i128 = (value as i128) - (min as i128);
    let m: i128 = rem_floor(offset, width);
    ((min as i128) + m) as i64
}

/// Wraps `angle` into `(-PI, PI]`.
pub fn wrap_angle(angle: i128) -> (r: i64)
    requires
        i128::MIN + PI < angle,
    ensures
        r == wrap_angle_spec(angle as int),
        -PI < r <= PI,
{
    let m: i128 = rem_floor((PI as i128) - angle, TWO_PI as i128);
    ((PI as i128) - m) as i64
}

/// A copy of `values`.
pub fn copy_of(values: &Vec<i64>) -> (r: Vec<i64>)
    ensures
        r@ == values@,
{
    let mut copy: Vec<i64> = Vec::new();
    let mut i: usize = 0;
    while i < values.len()
        invariant
            i <= values@.len(),
            copy@ == values@.subrange(0, i as int),
        decreases values@.len() - i,
    {
        copy.push(values[i]);
        assert(values@.subrange(0, i + 1) == values@.subrange(0, i as int).push(values@[i as int]));
        i = i + 1;
    }
    assert(values@.subrange(0, i as int) == values@);
    copy
}

/// The integer square root of `n`.
pub fn isqrt(n: u64) -> (r: u64)
    ensures
        is_sqrt(n as int, r as int),
        r == sqrt_spec(n as int),
{
    let mut low: u64 = 0;
    let mut high: u64 = 4_294_967_296;
    assert(n < high * high) by (nonlinear_arith)
        requires
            high == 4_294_967_296,
            n <= u64::MAX,
    ;
    while high - low > 1
        invariant
            low < high <= 4_294_967_296,
            low * low <= n,
            n < high * high,
        decreases high - low,
    {
        let mid: u64 = low + (high - low) / 2;
        assert(mid * mid <= 4_294_967_296 * 4_294_967_296) by (nonlinear_arith)
            requires
                0 <= mid <= 4_294_967_296,
        ;
        let square: u128 = (mid as u128) * (mid as u128);
        if square <= n as u128 {
            low = mid;
        } else {
            high = mid;
        }
    }
    proof {
        lemma_sqrt_unique(n as int, low as int, sqrt_spec(n as int));
    }
    low
}

} // verus!
