//! Fixed-point scalar arithmetic for the simulation core.
//!
//! All world quantities are carried as `i64` milli-units: one world unit is
//! `SCALE` (1000).  Division follows Rust's signed semantics (truncation
//! toward zero), stated by the spec function [`sdiv`]; square roots are the
//! integer floor square root, stated by [`isqrt_spec`].

use vstd::prelude::*;

verus! {

/// Milli-units per world unit.
pub const SCALE: i64 = 1000;

/// Truncated (round-toward-zero) division, the meaning of `/` on signed
/// machine integers.  Meaningful for `b >= 1`.
pub open spec fn sdiv(a: int, b: int) -> int
    recommends
        b >= 1,
{
    if a >= 0 {
        a / b
    } else {
        -((-a) / b)
    }
}

/// Magnitude of a quotient is bounded by the scaled bound of its dividend.
pub proof fn lemma_sdiv_mag_le(a: int, b: int, c: int)
    requires
        b >= 1,
        c >= 0,
        -(b * c) <= a <= b * c,
    ensures
        -c <= sdiv(a, b) <= c,
{
    if a >= 0 {
        vstd::arithmetic::div_mod::lemma_div_is_ordered(a, b * c, b);
        vstd::arithmetic::div_mod::lemma_div_multiples_vanish(c, b);
        vstd::arithmetic::div_mod::lemma_div_pos_is_pos(a, b);
    } else {
        vstd::arithmetic::div_mod::lemma_div_is_ordered(-a, b * c, b);
        vstd::arithmetic::div_mod::lemma_div_multiples_vanish(c, b);
        vstd::arithmetic::div_mod::lemma_div_pos_is_pos(-a, b);
    }
}

/// A quotient never grows past its dividend in magnitude.
pub proof fn lemma_sdiv_le_dividend(a: int, b: int)
    requires
        b >= 1,
    ensures
        a >= 0 ==> 0 <= sdiv(a, b) <= a,
        a < 0 ==> a <= sdiv(a, b) <= 0,
{
    if a >= 0 {
        vstd::arithmetic::div_mod::lemma_div_pos_is_pos(a, b);
        vstd::arithmetic::div_mod::lemma_div_nonincreasing(a, b);
    } else {
        vstd::arithmetic::div_mod::lemma_div_pos_is_pos(-a, b);
        vstd::arithmetic::div_mod::lemma_div_nonincreasing(-a, b);
    }
}

/// Truncated division of two machine integers.
pub fn div_trunc(a: i64, b: i64) -> (r: i64)
    requires
        b >= 1,
    ensures
        r as int == sdiv(a as int, b as int),
{
    proof {
        lemma_sdiv_le_dividend(a as int, b as int);
    }
    match a.checked_div(b) {
        Some(q) => q,
        None => 0,
    }
}

/// `a * b / d` with truncation, carried out in 128 bits so the product
/// cannot wrap.  The caller shows that the quotient fits an `i64`.
pub fn mul_div(a: i64, b: i64, d: i64) -> (r: i64)
    requires
        d >= 1,
        i64::MIN <= sdiv(a as int * b as int, d as int) <= i64::MAX,
    ensures
        r as int == sdiv(a as int * b as int, d as int),
{
    proof {
        assert(-0x40000000000000000000000000000000 <= (a as int) * (b as int)
            <= 0x40000000000000000000000000000000) by (nonlinear_arith)
            requires
                -0x8000000000000000 <= a as int <= 0x7fffffffffffffff,
                -0x8000000000000000 <= b as int <= 0x7fffffffffffffff,
        ;
    }
    let p: i128 = (a as i128) * (b as i128);
    let q: i128 = match p.checked_div(d as i128) {
        Some(q) => q,
        None => 0,
    };
    proof {
        lemma_sdiv_le_dividend(p as int, d as int);
    }
    q as i64
}

/// Floor (Euclidean) division of two machine integers, the value of `a / b`
/// on mathematical integers with a positive divisor.
pub fn div_floor(a: i64, b: i64) -> (r: i64)
    requires
        1 <= b <= 1000000000000,
        -1000000000000 <= a <= 1000000000000,
    ensures
        r as int == (a as int) / (b as int),
        a >= 0 ==> 0 <= r <= a,
        a < 0 ==> a <= r <= 0,
{
    proof {
        vstd::arithmetic::div_mod::lemma_mod_division_less_than_divisor(a as int, b as int);
        vstd::arithmetic::div_mod::lemma_fundamental_div_mod(a as int, b as int);
        if a >= 0 {
            vstd::arithmetic::div_mod::lemma_div_pos_is_pos(a as int, b as int);
            vstd::arithmetic::div_mod::lemma_div_nonincreasing(a as int, b as int);
        } else {
            assert((b as int) * (a as int) <= a as int) by (nonlinear_arith)
                requires
                    b as int >= 1,
                    (a as int) < 0,
            ;
            vstd::arithmetic::div_mod::lemma_div_is_ordered(
                (b as int) * (a as int),
                a as int,
                b as int,
            );
            vstd::arithmetic::div_mod::lemma_div_multiples_vanish(a as int, b as int);
            vstd::arithmetic::div_mod::lemma_div_is_ordered(a as int, 0, b as int);
            vstd::arithmetic::div_mod::lemma_div_of0(b as int);
        }
    }
    let m: i64 = match a.checked_rem_euclid(b) {
        Some(m) => m,
        None => 0,
    };
    let q: i64 = div_trunc(a - m, b);
    proof {
        let qq = (a as int) / (b as int);
        assert(a as int - m as int == (b as int) * qq);
        if qq >= 0 {
            vstd::arithmetic::div_mod::lemma_div_multiples_vanish(qq, b as int);
        } else {
            vstd::arithmetic::div_mod::lemma_div_multiples_vanish(-qq, b as int);
            assert(-((b as int) * qq) == (b as int) * (-qq)) by (nonlinear_arith);
        }
    }
    q
}

/// The greater of two machine integers.
pub fn imax(a: i64, b: i64) -> (r: i64)
    ensures
        r == if a >= b { a } else { b },
{
    if a >= b {
        a
    } else {
        b
    }
}

/// Clamps `value` into `[min, max]`, testing the lower bound first (so a
/// window with `min > max` yields `min` below it and `max` at or above it).
pub fn clamp(value: i64, min: i64, max: i64) -> (r: i64)
    ensures
        r == clamp_spec(value as int, min as int, max as int),
{
    if value < min {
        min
    } else if value > max {
        max
    } else {
        value
    }
}

/// The value of [`clamp`].
pub open spec fn clamp_spec(value: int, min: int, max: int) -> int {
    if value < min {
        min
    } else if value > max {
        max
    } else {
        value
    }
}

/// Floor integer square root, defined by counting up.
pub open spec fn isqrt_spec(n: int) -> int
    decreases n,
{
    if n <= 0 {
        0
    } else {
        let r = isqrt_spec(n - 1);
        if (r + 1) * (r + 1) <= n {
            r + 1
        } else {
            r
        }
    }
}

/// The floor square root brackets its argument.
pub proof fn lemma_isqrt_bounds(n: int)
    requires
        n >= 0,
    ensures
        0 <= isqrt_spec(n),
        isqrt_spec(n) * isqrt_spec(n) <= n,
        n < (isqrt_spec(n) + 1) * (isqrt_spec(n) + 1),
    decreases n,
{
    if n > 0 {
        lemma_isqrt_bounds(n - 1);
        let r = isqrt_spec(n - 1);
        if (r + 1) * (r + 1) <= n {
            assert(n < (r + 2) * (r + 2)) by (nonlinear_arith)
                requires
                    r >= 0,
                    n - 1 < (r + 1) * (r + 1),
            ;
        }
    }
}

/// Any value bracketing `n` the same way is the floor square root.
pub proof fn lemma_isqrt_unique(n: int, q: int)
    requires
        n >= 0,
        q >= 0,
        q * q <= n,
        n < (q + 1) * (q + 1),
    ensures
        q == isqrt_spec(n),
{
    lemma_isqrt_bounds(n);
    let r = isqrt_spec(n);
    assert(q <= r && r <= q) by (nonlinear_arith)
        requires
            q >= 0,
            r >= 0,
            q * q <= n,
            r * r <= n,
            n < (q + 1) * (q + 1),
            n < (r + 1) * (r + 1),
    ;
}

/// The floor square root is monotone.
pub proof fn lemma_isqrt_monotone(m: int, n: int)
    requires
        0 <= m <= n,
    ensures
        isqrt_spec(m) <= isqrt_spec(n),
{
    lemma_isqrt_bounds(m);
    lemma_isqrt_bounds(n);
    let a = isqrt_spec(m);
    let b = isqrt_spec(n);
    assert(a <= b) by (nonlinear_arith)
        requires
            a >= 0,
            b >= 0,
            a * a <= m,
            m <= n,
            n < (b + 1) * (b + 1),
    ;
}

/// Floor square root of a 128-bit value below `2^96`, by bisection.
pub fn isqrt(n: u128) -> (r: u64)
    requires
        n < 0x1000000000000000000000000,
    ensures
        r as int == isqrt_spec(n as int),
        (r as int) * (r as int) <= n as int,
        (n as int) < (r as int + 1) * (r as int + 1),
{
    let mut lo: u64 = 0;
    let mut hi: u64 = 0xffffffffffff;
    proof {
        assert((hi as int + 1) * (hi as int + 1) > n as int) by (nonlinear_arith)
            requires
                hi as int + 1 == 0x1000000000000,
                n < 0x1000000000000000000000000,
        ;
    }
    while lo < hi
        invariant
            0 <= lo <= hi <= 0xffffffffffff,
            (lo as int) * (lo as int) <= n as int,
            (n as int) < (hi as int + 1) * (hi as int + 1),
        decreases hi - lo,
    {
        let mid: u64 = lo + (hi - lo + 1) / 2;
        proof {
            assert((mid as int) * (mid as int) <= 0x1000000000000000000000000)
                by (nonlinear_arith)
                requires
                    0 <= mid as int <= 0xffffffffffff,
            ;
        }
        let sq: u128 = (mid as u128) * (mid as u128);
        if sq <= n {
            lo = mid;
        } else {
            hi = mid - 1;
        }
    }
    proof {
        lemma_isqrt_unique(n as int, lo as int);
    }
    lo
}

/// Squared magnitude of a 2D vector.
pub open spec fn sq_norm(x: int, y: int) -> int {
    x * x + y * y
}

/// The value of [`hypot`]: floor length of a 2D vector.
pub open spec fn hypot_spec(x: int, y: int) -> int {
    isqrt_spec(sq_norm(x, y))
}

/// Floor length of the vector `(x, y)`.
pub fn hypot(x: i64, y: i64) -> (r: i64)
    requires
        -0x800000000000 <= x <= 0x800000000000,
        -0x800000000000 <= y <= 0x800000000000,
    ensures
        r as int == hypot_spec(x as int, y as int),
        0 <= r,
        r * r <= sq_norm(x as int, y as int),
        sq_norm(x as int, y as int) < (r + 1) * (r + 1),
{
    proof {
        assert(0 <= (x as int) * (x as int) <= 0x800000000000000000000000
            && 0 <= (y as int) * (y as int) <= 0x800000000000000000000000
            && (x as int) * (x as int) + (y as int) * (y as int)
            < 0x1000000000000000000000000) by (nonlinear_arith)
            requires
                -0x800000000000 <= x as int <= 0x800000000000,
                -0x800000000000 <= y as int <= 0x800000000000,
        ;
    }
    let xx: i128 = (x as i128) * (x as i128);
    let yy: i128 = (y as i128) * (y as i128);
    let n: u128 = (xx + yy) as u128;
    let r: u64 = isqrt(n);
    proof {
        assert((r as int) < 0x1000000000000) by (nonlinear_arith)
            requires
                r as int >= 0,
                (r as int) * (r as int) <= n as int,
                (n as int) < 0x1000000000000000000000000,
        ;
    }
    r as i64
}

/// Milliradians in a full turn.
pub const TURN_MILLI: i64 = 6283;

/// Milliradians in a half turn.
pub const HALF_TURN_MILLI: i64 = 3141;

/// Milliradians in a quarter turn.
pub const QUARTER_TURN_MILLI: i64 = 1571;

/// An angle reduced into `[0, TURN_MILLI)`.
pub open spec fn wrap_angle(a: int) -> int {
    a % 6283
}

/// Reduces an angle in milliradians into one turn.
pub fn wrap_angle_exec(a: i64) -> (r: i64)
    ensures
        r as int == wrap_angle(a as int),
        0 <= r < 6283,
{
    proof {
        vstd::arithmetic::div_mod::lemma_mod_division_less_than_divisor(a as int, 6283);
    }
    match a.checked_rem_euclid(6283) {
        Some(r) => r,
        None => 0,
    }
}

/// Rational sine approximation on a half turn, `x` in `[0, HALF_TURN_MILLI]`,
/// result in milli-units of amplitude.
pub open spec fn sin_half_spec(x: int) -> int {
    sdiv(16000 * x * (3141 - x), 49329405 - 4 * x * (3141 - x))
}

/// Sine of an angle in milliradians, in milli-units: the positive rational
/// arc on the first half turn, mirrored negative on the second.
pub open spec fn sin_milli_spec(a: int) -> int {
    let x = wrap_angle(a);
    if x <= 3141 {
        sin_half_spec(x)
    } else {
        -sin_half_spec(x - 3142)
    }
}

/// Cosine of an angle in milliradians, in milli-units, as the sine a quarter
/// turn ahead.
pub open spec fn cos_milli_spec(a: int) -> int {
    sin_milli_spec(a + 1571)
}

/// The half-turn sine stays within one amplitude unit.
pub proof fn lemma_sin_half_bounded(x: int)
    requires
        0 <= x <= 3141,
    ensures
        -1000 <= sin_half_spec(x) <= 1000,
{
    let s = x * (3141 - x);
    assert(0 <= s <= 2466470 && 16000 * x * (3141 - x) == 16000 * s && 4 * x * (3141 - x) == 4
        * s) by (nonlinear_arith)
        requires
            s == x * (3141 - x),
            0 <= x <= 3141,
    ;
    assert(-((49329405 - 4 * s) * 1000) <= 16000 * s && 16000 * s <= (49329405 - 4 * s) * 1000)
        by (nonlinear_arith)
        requires
            0 <= s <= 2466470,
    ;
    lemma_sdiv_mag_le(16000 * x * (3141 - x), 49329405 - 4 * x * (3141 - x), 1000);
}

/// The sine and cosine values stay within one amplitude unit.
pub proof fn lemma_sin_milli_bounded(a: int)
    ensures
        -1000 <= sin_milli_spec(a) <= 1000,
{
    vstd::arithmetic::div_mod::lemma_mod_division_less_than_divisor(a, 6283);
    let x = wrap_angle(a);
    if x <= 3141 {
        lemma_sin_half_bounded(x);
    } else {
        lemma_sin_half_bounded(x - 3142);
    }
}

/// Sine of an angle in milliradians, in milli-units.
pub fn sin_milli(a: i64) -> (r: i64)
    ensures
        r as int == sin_milli_spec(a as int),
        -1000 <= r <= 1000,
{
    let x: i64 = wrap_angle_exec(a);
    proof {
        lemma_sin_milli_bounded(a as int);
    }
    if x <= 3141 {
        sin_half(x)
    } else {
        let s: i64 = sin_half(x - 3142);
        -s
    }
}

/// Cosine of an angle in milliradians, in milli-units.
pub fn cos_milli(a: i64) -> (r: i64)
    requires
        a < i64::MAX - 1571,
    ensures
        r as int == cos_milli_spec(a as int),
        -1000 <= r <= 1000,
{
    sin_milli(a + 1571)
}

/// The rational half-turn sine.
fn sin_half(x: i64) -> (r: i64)
    requires
        0 <= x <= 3141,
    ensures
        r as int == sin_half_spec(x as int),
{
    proof {
        assert(0 <= (x as int) * (3141 - x as int) <= 2466470) by (nonlinear_arith)
            requires
                0 <= x as int <= 3141,
        ;
    }
    let t: i64 = x * (3141 - x);
    proof {
        assert(16000 * (x as int) * (3141 - x as int) == 16000 * (t as int) && 4 * (x as int) * (
        3141 - x as int) == 4 * (t as int)) by (nonlinear_arith)
            requires
                t as int == (x as int) * (3141 - x as int),
        ;
    }
    div_trunc(16000 * t, 49329405 - 4 * t)
}

/// The greater of two mathematical integers.
pub open spec fn max_i(a: int, b: int) -> int {
    if a >= b {
        a
    } else {
        b
    }
}

/// Ceiling integer square root.
pub open spec fn isqrt_ceil_spec(n: int) -> int {
    let r = isqrt_spec(n);
    if r * r == n {
        r
    } else {
        r + 1
    }
}

/// Ceiling length of the vector `(x, y)`: never below the true length, so a
/// velocity scaled down by it stays inside the cap.
pub fn hypot_ceil(x: i64, y: i64) -> (r: i64)
    requires
        -0x800000000000 <= x <= 0x800000000000,
        -0x800000000000 <= y <= 0x800000000000,
    ensures
        r as int == isqrt_ceil_spec(sq_norm(x as int, y as int)),
        0 <= r,
        sq_norm(x as int, y as int) <= r * r,
        -r <= x <= r,
        -r <= y <= r,
{
    let f: i64 = hypot(x, y);
    proof {
        lemma_component_le_hypot(x as int, y as int);
        assert(sq_norm(x as int, y as int) <= (f as int + 1) * (f as int + 1));
        assert(0 <= (x as int) * (x as int) <= 0x800000000000000000000000 && 0 <= (y as int) * (
        y as int) <= 0x800000000000000000000000) by (nonlinear_arith)
            requires
                -0x800000000000 <= x as int <= 0x800000000000,
                -0x800000000000 <= y as int <= 0x800000000000,
        ;
        assert((f as int) * (f as int) <= 0x1000000000000000000000000) by (nonlinear_arith)
            requires
                0 <= f as int,
                (f as int) * (f as int) <= (x as int) * (x as int) + (y as int) * (y as int),
                (x as int) * (x as int) <= 0x800000000000000000000000,
                (y as int) * (y as int) <= 0x800000000000000000000000,
        ;
        assert(f as int <= 0x1000000000000) by (nonlinear_arith)
            requires
                0 <= f as int,
                (f as int) * (f as int) <= 0x1000000000000000000000000,
        ;
    }
    let ff: i128 = (f as i128) * (f as i128);
    let nn: i128 = (x as i128) * (x as i128) + (y as i128) * (y as i128);
    if ff == nn {
        f
    } else {
        f + 1
    }
}

/// A velocity scaled down by its own ceiling length onto a cap lies inside
/// the cap: if `vx^2 + vy^2 <= v^2` then the pair
/// `(vx * cap / v, vy * cap / v)` has squared length at most `cap^2`.
pub proof fn lemma_scaled_speed_capped(vx: int, vy: int, cap: int, v: int, wx: int, wy: int)
    requires
        v >= 1,
        cap >= 0,
        sq_norm(vx, vy) <= v * v,
        wx == sdiv(vx * cap, v),
        wy == sdiv(vy * cap, v),
    ensures
        sq_norm(wx, wy) <= cap * cap,
{
    lemma_sdiv_floor_scaled(vx, cap, v);
    lemma_sdiv_floor_scaled(vy, cap, v);
    let ax = iabs(vx);
    let ay = iabs(vy);
    let mx = iabs(wx);
    let my = iabs(wy);
    assert(wx * wx * (v * v) <= vx * vx * (cap * cap)) by (nonlinear_arith)
        requires
            v >= 1,
            cap >= 0,
            mx * v <= ax * cap,
            0 <= mx,
            0 <= ax,
            mx == wx || mx == -wx,
            ax == vx || ax == -vx,
    ;
    assert(wy * wy * (v * v) <= vy * vy * (cap * cap)) by (nonlinear_arith)
        requires
            v >= 1,
            cap >= 0,
            my * v <= ay * cap,
            0 <= my,
            0 <= ay,
            my == wy || my == -wy,
            ay == vy || ay == -vy,
    ;
    assert(wx * wx + wy * wy <= cap * cap) by (nonlinear_arith)
        requires
            v >= 1,
            wx * wx * (v * v) <= vx * vx * (cap * cap),
            wy * wy * (v * v) <= vy * vy * (cap * cap),
            vx * vx + vy * vy <= v * v,
            cap >= 0,
    ;
}

/// `|sdiv(a * c, v)| * v <= |a| * c` for `v >= 1`, `c >= 0`: truncation never
/// scales a magnitude up.
pub proof fn lemma_sdiv_floor_scaled(a: int, c: int, v: int)
    requires
        v >= 1,
        c >= 0,
    ensures
        iabs(sdiv(a * c, v)) * v <= iabs(a) * c,
{
    let p = a * c;
    assert(iabs(p) == iabs(a) * c) by (nonlinear_arith)
        requires
            c >= 0,
            p == a * c,
            iabs(p) == if p < 0 {
                -p
            } else {
                p
            },
            iabs(a) == if a < 0 {
                -a
            } else {
                a
            },
    ;
    vstd::arithmetic::div_mod::lemma_fundamental_div_mod(iabs(p), v);
    vstd::arithmetic::div_mod::lemma_mod_division_less_than_divisor(iabs(p), v);
    vstd::arithmetic::div_mod::lemma_div_pos_is_pos(iabs(p), v);
    assert(iabs(sdiv(p, v)) == iabs(p) / v);
    assert((iabs(p) / v) * v <= iabs(p)) by (nonlinear_arith)
        requires
            v >= 1,
            iabs(p) == v * (iabs(p) / v) + iabs(p) % v,
            iabs(p) % v >= 0,
    ;
}

/// Magnitude of an integer.
pub open spec fn iabs(x: int) -> int {
    if x < 0 {
        -x
    } else {
        x
    }
}

/// A product quotient is bounded by the quotient of the bounds.
pub proof fn lemma_sdiv_prod_bound(a: int, b: int, d: int, aa: int, bb: int)
    requires
        d >= 1,
        aa >= 0,
        bb >= 0,
        -aa <= a <= aa,
        -bb <= b <= bb,
    ensures
        -sdiv(aa * bb, d) <= sdiv(a * b, d) <= sdiv(aa * bb, d),
        0 <= sdiv(aa * bb, d) <= aa * bb,
{
    assert(-(aa * bb) <= a * b <= aa * bb && 0 <= aa * bb) by (nonlinear_arith)
        requires
            aa >= 0,
            bb >= 0,
            -aa <= a <= aa,
            -bb <= b <= bb,
    ;
    assert(aa * bb <= d * (aa * bb)) by (nonlinear_arith)
        requires
            d >= 1,
            0 <= aa * bb,
    ;
    lemma_sdiv_mag_le(a * b, d, aa * bb);
    lemma_sdiv_le_dividend(aa * bb, d);
    if a * b >= 0 {
        vstd::arithmetic::div_mod::lemma_div_is_ordered(a * b, aa * bb, d);
        vstd::arithmetic::div_mod::lemma_div_pos_is_pos(a * b, d);
    } else {
        vstd::arithmetic::div_mod::lemma_div_is_ordered(-(a * b), aa * bb, d);
        vstd::arithmetic::div_mod::lemma_div_pos_is_pos(-(a * b), d);
    }
}

/// `a * b / 1000` with truncation; the workhorse for scaling by a milli
/// factor.  `bb` bounds the factor so the caller gets a bound back.
pub fn mul_milli(a: i64, b: i64, Ghost(aa): Ghost<int>, Ghost(bb): Ghost<int>) -> (r: i64)
    requires
        0 <= aa,
        0 <= bb,
        -aa <= a as int <= aa,
        -bb <= b as int <= bb,
        sdiv(aa * bb, 1000) <= i64::MAX,
    ensures
        r as int == sdiv(a as int * b as int, 1000),
        -sdiv(aa * bb, 1000) <= r as int <= sdiv(aa * bb, 1000),
{
    proof {
        lemma_sdiv_prod_bound(a as int, b as int, 1000, aa, bb);
    }
    mul_div(a, b, 1000)
}

/// Milli-scaled dot product `(ax * bx + ay * by) / 1000` where `(bx, by)` is
/// a milli unit vector: the result is bounded by `|ax| + |ay|`.
pub fn dot_milli(ax: i64, ay: i64, bx: i64, by: i64) -> (r: i64)
    requires
        -0x400000000000 <= ax <= 0x400000000000,
        -0x400000000000 <= ay <= 0x400000000000,
        -1000 <= bx <= 1000,
        -1000 <= by <= 1000,
    ensures
        r as int == sdiv(ax as int * bx as int + ay as int * by as int, 1000),
        -(iabs(ax as int) + iabs(ay as int)) <= r as int <= iabs(ax as int) + iabs(ay as int),
{
    proof {
        assert(-(iabs(ax as int) * 1000) <= (ax as int) * (bx as int) <= iabs(ax as int) * 1000
            && -(iabs(ay as int) * 1000) <= (ay as int) * (by as int) <= iabs(ay as int) * 1000)
            by (nonlinear_arith)
            requires
                -1000 <= bx as int <= 1000,
                -1000 <= by as int <= 1000,
        ;
        assert((iabs(ax as int) + iabs(ay as int)) * 1000 == iabs(ax as int) * 1000 + iabs(
            ay as int,
        ) * 1000) by (nonlinear_arith);
        lemma_sdiv_mag_le(
            ax as int * bx as int + ay as int * by as int,
            1000,
            iabs(ax as int) + iabs(ay as int),
        );
    }
    let px: i128 = (ax as i128) * (bx as i128);
    let py: i128 = (ay as i128) * (by as i128);
    let s: i128 = px + py;
    let q: i128 = match s.checked_div(1000) {
        Some(q) => q,
        None => 0,
    };
    q as i64
}

/// `delta * num / den` where `|delta| <= den`: scales a displacement by a
/// ratio at most one, so the result is bounded by `num`.  Used to project a
/// step of length `num` onto one axis of a direction.
pub fn scale_toward(delta: i64, num: i64, den: i64) -> (r: i64)
    requires
        den >= 1,
        -den <= delta <= den,
        0 <= num <= 0x7fffffffffff,
    ensures
        r as int == sdiv(delta as int * num as int, den as int),
        -num <= r <= num,
{
    proof {
        assert(-(den as int * num as int) <= (delta as int) * (num as int) <= den as int
            * num as int) by (nonlinear_arith)
            requires
                -(den as int) <= delta as int <= den as int,
                num as int >= 0,
        ;
        lemma_sdiv_mag_le(delta as int * num as int, den as int, num as int);
    }
    mul_div(delta, num, den)
}

/// A component of a vector never exceeds the vector's floor length when the
/// other component is present, and never exceeds it by more than zero:
/// `|x| <= hypot(x, y)`.
pub proof fn lemma_component_le_hypot(x: int, y: int)
    ensures
        -hypot_spec(x, y) <= x <= hypot_spec(x, y),
        -hypot_spec(x, y) <= y <= hypot_spec(x, y),
{
    assert(sq_norm(x, y) >= 0) by (nonlinear_arith);
    lemma_isqrt_bounds(sq_norm(x, y));
    let r = hypot_spec(x, y);
    assert(-r <= x <= r && -r <= y <= r) by (nonlinear_arith)
        requires
            r >= 0,
            sq_norm(x, y) < (r + 1) * (r + 1),
            sq_norm(x, y) == x * x + y * y,
    ;
}

} // verus!
