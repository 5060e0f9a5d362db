//! Integer arithmetic for the simulation.
//!
//! Every quantity of the game is a whole number of small units (see
//! `field`), so a step of the simulation is exact integer arithmetic with a
//! stated rounding: a quotient is rounded toward zero unless a function says
//! otherwise, and a square root is rounded down or up as named.

use vstd::prelude::*;

verus! {

/// Largest magnitude that the helpers of this module accept for a value that
/// is squared or multiplied by another of the same size.
pub const WIDE: i64 = 0x2000_0000_0000_0000;

/// The magnitude of `a`.
pub open spec fn mag(a: int) -> int {
    if a >= 0 {
        a
    } else {
        -a
    }
}

/// `a / b` rounded toward zero, for a positive `b`.
pub open spec fn trunc_div(a: int, b: int) -> int {
    if a >= 0 {
        a / b
    } else {
        -((-a) / b)
    }
}

/// `a / b` rounded away from zero, for a positive `b`.
pub open spec fn outward_div(a: int, b: int) -> int {
    if a >= 0 {
        (a + b - 1) / b
    } else {
        -((-a + b - 1) / b)
    }
}

/// `a * num / den`, rounded toward zero.
pub open spec fn scaled(a: int, num: int, den: int) -> int {
    trunc_div(a * num, den)
}

/// `a * num / den`, rounded away from zero.
pub open spec fn scaled_out(a: int, num: int, den: int) -> int {
    outward_div(a * num, den)
}

/// `dx * dx + dy * dy`.
pub open spec fn sum_sq(dx: int, dy: int) -> int {
    dx * dx + dy * dy
}

/// `r` is the square root of `n`, rounded down.
pub open spec fn is_floor_sqrt(r: int, n: int) -> bool {
    0 <= r && r * r <= n < (r + 1) * (r + 1)
}

/// The square root of `n`, rounded down.
pub open spec fn floor_sqrt(n: int) -> int {
    choose|r: int| is_floor_sqrt(r, n)
}

/// The square root of `n`, rounded up.
pub open spec fn ceil_sqrt(n: int) -> int {
    let r = floor_sqrt(n);
    if r * r == n {
        r
    } else {
        r + 1
    }
}

/// The inner product of `(ax, ay)` and `(dx, dy)`. Its sign says whether the
/// first points along the second or against it, however small the angle.
pub open spec fn dotted(ax: int, ay: int, dx: int, dy: int) -> int {
    ax * dx + ay * dy
}

/// `(ax, ay)` projected on the direction `(dx, dy) / d`, rounded toward zero.
pub open spec fn projected(ax: int, ay: int, dx: int, dy: int, d: int) -> int {
    trunc_div(dotted(ax, ay, dx, dy), d)
}

/// `a` held between `lo` and `hi`.
pub open spec fn clamped(a: int, lo: int, hi: int) -> int {
    if a < lo {
        lo
    } else if a > hi {
        hi
    } else {
        a
    }
}

/// A quotient rounded toward zero keeps the sign of the dividend and lies
/// within one divisor of it.
pub proof fn lemma_trunc_div(a: int, b: int)
    requires
        b > 0,
    ensures
        mag(trunc_div(a, b)) * b <= mag(a) < (mag(trunc_div(a, b)) + 1) * b,
        a >= 0 ==> trunc_div(a, b) >= 0,
        a <= 0 ==> trunc_div(a, b) <= 0,
        mag(trunc_div(a, b)) == mag(a) / b,
{
    let m = mag(a);
    assert(m == b * (m / b) + m % b && 0 <= m % b < b && m / b >= 0) by (nonlinear_arith)
        requires
            m >= 0,
            b > 0,
    ;
    assert((m / b) * b == b * (m / b) && (m / b + 1) * b == b * (m / b) + b) by (nonlinear_arith);
}

/// A quotient rounded away from zero keeps the sign of the dividend and lies
/// within one divisor of it.
pub proof fn lemma_outward_div(a: int, b: int)
    requires
        b > 0,
    ensures
        (mag(outward_div(a, b)) - 1) * b < mag(a) <= mag(outward_div(a, b)) * b,
        a >= 0 ==> outward_div(a, b) >= 0,
        a <= 0 ==> outward_div(a, b) <= 0,
        mag(outward_div(a, b)) == (mag(a) + b - 1) / b,
{
    let m = mag(a) + b - 1;
    assert(m == b * (m / b) + m % b && 0 <= m % b < b && m / b >= 0) by (nonlinear_arith)
        requires
            m >= 0,
            b > 0,
    ;
    assert((m / b) * b == b * (m / b) && (m / b - 1) * b == b * (m / b) - b) by (nonlinear_arith);
}

/// The magnitude of a product is the product of the magnitudes.
pub proof fn lemma_mag_mul(a: int, b: int)
    ensures
        mag(a * b) == mag(a) * mag(b),
{
    assert(mag(a * b) == mag(a) * mag(b)) by (nonlinear_arith)
        requires
            mag(a) == if a >= 0 { a } else { -a },
            mag(b) == if b >= 0 { b } else { -b },
            mag(a * b) == if a * b >= 0 { a * b } else { -(a * b) },
    ;
}

/// Scaling by a ratio of magnitude at most one does not enlarge a value, and
/// scaling by one keeps it.
pub proof fn lemma_scaled_bound(a: int, num: int, den: int)
    requires
        den > 0,
        -den <= num <= den,
    ensures
        mag(scaled(a, num, den)) <= mag(a),
        mag(scaled_out(a, num, den)) <= mag(a),
        num == den ==> scaled(a, num, den) == a && scaled_out(a, num, den) == a,
        num == 0 ==> scaled(a, num, den) == 0 && scaled_out(a, num, den) == 0,
        a == 0 ==> scaled(a, num, den) == 0 && scaled_out(a, num, den) == 0,
        (a >= 0 && num >= 0) || (a <= 0 && num <= 0) ==> scaled(a, num, den) >= 0 && scaled_out(a, num, den) >= 0,
        (a >= 0 && num <= 0) || (a <= 0 && num >= 0) ==> scaled(a, num, den) <= 0 && scaled_out(a, num, den) <= 0,
{
    let p = a * num;
    lemma_mag_mul(a, num);
    lemma_trunc_div(p, den);
    lemma_outward_div(p, den);
    let t = mag(trunc_div(p, den));
    let o = mag(outward_div(p, den));
    let m = mag(a);
    assert(mag(p) <= m * den) by (nonlinear_arith)
        requires
            mag(p) == m * mag(num),
            0 <= mag(num) <= den,
            m >= 0,
    ;
    assert(t <= m) by (nonlinear_arith)
        requires
            t * den <= mag(p),
            mag(p) <= m * den,
            den > 0,
    ;
    assert(o <= m) by (nonlinear_arith)
        requires
            (o - 1) * den < mag(p),
            mag(p) <= m * den,
            den > 0,
    ;
    if num == den {
        assert(t == m) by (nonlinear_arith)
            requires
                t * den <= m * den < (t + 1) * den,
                den > 0,
        ;
        assert(o == m) by (nonlinear_arith)
            requires
                (o - 1) * den < m * den <= o * den,
                den > 0,
        ;
        assert(a >= 0 ==> p >= 0) by (nonlinear_arith)
            requires
                p == a * num,
                num > 0,
        ;
        assert(a <= 0 ==> p <= 0) by (nonlinear_arith)
            requires
                p == a * num,
                num > 0,
        ;
    }
    assert(num == 0 ==> p == 0) by (nonlinear_arith)
        requires
            p == a * num,
    ;
    assert(a == 0 ==> p == 0) by (nonlinear_arith)
        requires
            p == a * num,
    ;
    assert((a >= 0 && num >= 0) || (a <= 0 && num <= 0) ==> p >= 0) by (nonlinear_arith)
        requires
            p == a * num,
    ;
    assert((a >= 0 && num <= 0) || (a <= 0 && num >= 0) ==> p <= 0) by (nonlinear_arith)
        requires
            p == a * num,
    ;
}

/// At most one number is the rounded-down square root of `n`.
pub proof fn lemma_floor_sqrt_unique(r: int, s: int, n: int)
    requires
        is_floor_sqrt(r, n),
        is_floor_sqrt(s, n),
    ensures
        r == s,
{
    assert(r == s) by (nonlinear_arith)
        requires
            0 <= r,
            0 <= s,
            r * r <= n < (r + 1) * (r + 1),
            s * s <= n < (s + 1) * (s + 1),
    ;
}

/// Whoever holds a rounded-down square root of `n` holds `floor_sqrt(n)`.
pub proof fn lemma_floor_sqrt_is(r: int, n: int)
    requires
        is_floor_sqrt(r, n),
    ensures
        floor_sqrt(n) == r,
{
    let s = floor_sqrt(n);
    lemma_floor_sqrt_unique(r, s, n);
}

/// Every number from zero on has a rounded-down square root.
pub proof fn lemma_floor_sqrt_exists(n: int)
    requires
        n >= 0,
    ensures
        is_floor_sqrt(floor_sqrt(n), n),
    decreases n,
{
    if n == 0 {
        assert(is_floor_sqrt(0, 0));
    } else {
        lemma_floor_sqrt_exists(n - 1);
        let r = floor_sqrt(n - 1);
        assert((r + 1) * (r + 1) == r * r + 2 * r + 1) by (nonlinear_arith);
        assert((r + 2) * (r + 2) == r * r + 4 * r + 4) by (nonlinear_arith);
        if n < (r + 1) * (r + 1) {
            assert(is_floor_sqrt(r, n));
        } else {
            assert(is_floor_sqrt(r + 1, n));
        }
    }
}

/// The rounded-up square root of `n` is the least number whose square
/// reaches `n`.
pub proof fn lemma_ceil_sqrt(n: int)
    requires
        n >= 0,
    ensures
        ceil_sqrt(n) >= 0,
        ceil_sqrt(n) * ceil_sqrt(n) >= n,
        ceil_sqrt(n) > 0 ==> (ceil_sqrt(n) - 1) * (ceil_sqrt(n) - 1) < n,
        n > 0 ==> ceil_sqrt(n) > 0,
        floor_sqrt(n) <= ceil_sqrt(n) <= floor_sqrt(n) + 1,
{
    lemma_floor_sqrt_exists(n);
    let r = floor_sqrt(n);
    assert((r - 1) * (r - 1) < r * r || r == 0) by (nonlinear_arith)
        requires
            r >= 0,
    ;
    assert(n > 0 ==> ceil_sqrt(n) > 0) by (nonlinear_arith)
        requires
            r >= 0,
            r * r <= n,
            ceil_sqrt(n) == if r * r == n { r } else { r + 1 },
    ;
}

/// Each leg of a right triangle is at most the hypotenuse, rounded either
/// way, and the hypotenuse is at most the two legs together.
pub proof fn lemma_leg_le_hypot(dx: int, dy: int)
    ensures
        mag(dx) <= floor_sqrt(sum_sq(dx, dy)) <= ceil_sqrt(sum_sq(dx, dy)),
        mag(dy) <= floor_sqrt(sum_sq(dx, dy)),
        ceil_sqrt(sum_sq(dx, dy)) <= mag(dx) + mag(dy),
        sum_sq(dx, dy) >= 0,
        sum_sq(dx, dy) == 0 <==> dx == 0 && dy == 0,
{
    let n = sum_sq(dx, dy);
    assert(dx * dx >= 0 && dy * dy >= 0 && (dx * dx == 0 ==> dx == 0) && (dy * dy == 0 ==> dy
        == 0)) by (nonlinear_arith);
    lemma_floor_sqrt_exists(n);
    lemma_ceil_sqrt(n);
    let r = floor_sqrt(n);
    let c = ceil_sqrt(n);
    let mx = mag(dx);
    let my = mag(dy);
    assert(mx * mx == dx * dx && my * my == dy * dy) by (nonlinear_arith)
        requires
            mx == if dx >= 0 { dx } else { -dx },
            my == if dy >= 0 { dy } else { -dy },
    ;
    assert(mx <= r) by (nonlinear_arith)
        requires
            mx * mx <= n,
            n < (r + 1) * (r + 1),
            mx >= 0,
            r >= 0,
    ;
    assert(my <= r) by (nonlinear_arith)
        requires
            my * my <= n,
            n < (r + 1) * (r + 1),
            my >= 0,
            r >= 0,
    ;
    assert(c <= mx + my) by (nonlinear_arith)
        requires
            n == mx * mx + my * my,
            c > 0 ==> (c - 1) * (c - 1) < n,
            c >= 0,
            mx >= 0,
            my >= 0,
    ;
}

/// A projection on a direction no longer than one is at most the two
/// components together.
pub proof fn lemma_projected_bound(ax: int, ay: int, dx: int, dy: int, d: int)
    requires
        d > 0,
        mag(dx) <= d,
        mag(dy) <= d,
    ensures
        mag(projected(ax, ay, dx, dy, d)) <= mag(ax) + mag(ay),
{
    let p = ax * dx + ay * dy;
    lemma_mag_mul(ax, dx);
    lemma_mag_mul(ay, dy);
    lemma_trunc_div(p, d);
    let t = mag(trunc_div(p, d));
    let b = mag(ax) + mag(ay);
    assert(mag(p) <= b * d) by (nonlinear_arith)
        requires
            mag(p) <= mag(ax) * mag(dx) + mag(ay) * mag(dy),
            0 <= mag(dx) <= d,
            0 <= mag(dy) <= d,
            mag(ax) >= 0,
            mag(ay) >= 0,
            b == mag(ax) + mag(ay),
    ;
    assert(t <= b) by (nonlinear_arith)
        requires
            t * d <= mag(p),
            mag(p) <= b * d,
            d > 0,
    ;
}

/// Squaring keeps the order of numbers from zero on.
pub proof fn lemma_square_order(a: int, b: int)
    requires
        0 <= a <= b,
    ensures
        a * a <= b * b,
        a < b ==> a * a < b * b,
{
    assert(a * a <= b * b && (a < b ==> a * a < b * b)) by (nonlinear_arith)
        requires
            0 <= a <= b,
    ;
}

/// A number and its magnitude have the same square.
pub proof fn lemma_mag_square(a: int)
    ensures
        mag(a) * mag(a) == a * a,
        a * a >= 0,
{
    assert(mag(a) * mag(a) == a * a && a * a >= 0) by (nonlinear_arith)
        requires
            mag(a) == if a >= 0 { a } else { -a },
    ;
}

/// The square root of `n`, rounded down.
pub fn isqrt(n: u128) -> (r: u64)
    requires
        n < 0x4000_0000_0000_0000_0000_0000_0000_0000,
    ensures
        r == floor_sqrt(n as int),
        is_floor_sqrt(r as int, n as int),
{
    let mut lo: u128 = 0;
    let mut hi: u128 = 0x8000_0000_0000_0000;
    assert(hi * hi == 0x4000_0000_0000_0000_0000_0000_0000_0000) by (nonlinear_arith)
        requires
            hi == 0x8000_0000_0000_0000,
    ;
    while hi - lo > 1
        invariant
            lo < hi <= 0x8000_0000_0000_0000,
            lo * lo <= n < hi * hi,
        decreases hi - lo,
    {
        let mid: u128 = lo + (hi - lo) / 2;
        assert(mid * mid < 0x4000_0000_0000_0000_0000_0000_0000_0000) by (nonlinear_arith)
            requires
                mid < 0x8000_0000_0000_0000,
        ;
        if mid * mid <= n {
            lo = mid;
        } else {
            hi = mid;
        }
    }
    proof {
        lemma_floor_sqrt_is(lo as int, n as int);
    }
    lo as u64
}

/// The square root of `n`, rounded up.
pub fn isqrt_ceil(n: u128) -> (r: u64)
    requires
        n < 0x3000_0000_0000_0000_0000_0000_0000_0000,
    ensures
        r == ceil_sqrt(n as int),
{
    let f: u64 = isqrt(n);
    let w: u128 = f as u128;
    assert(w < 0x7000_0000_0000_0000) by (nonlinear_arith)
        requires
            w * w <= n,
            n < 0x3000_0000_0000_0000_0000_0000_0000_0000,
    ;
    if w * w == n {
        f
    } else {
        f + 1
    }
}

/// `dx * dx + dy * dy`.
pub fn sum_squares(dx: i64, dy: i64) -> (n: u128)
    requires
        -WIDE <= dx <= WIDE,
        -WIDE <= dy <= WIDE,
    ensures
        n == sum_sq(dx as int, dy as int),
        n <= 0x0800_0000_0000_0000_0000_0000_0000_0000,
{
    let x: i128 = dx as i128;
    let y: i128 = dy as i128;
    assert(0 <= x * x <= 0x0400_0000_0000_0000_0000_0000_0000_0000) by (nonlinear_arith)
        requires
            -0x2000_0000_0000_0000 <= x <= 0x2000_0000_0000_0000,
    ;
    assert(0 <= y * y <= 0x0400_0000_0000_0000_0000_0000_0000_0000) by (nonlinear_arith)
        requires
            -0x2000_0000_0000_0000 <= y <= 0x2000_0000_0000_0000,
    ;
    let s: i128 = x * x + y * y;
    s as u128
}

/// The length of `(dx, dy)`, rounded down.
pub fn length(dx: i64, dy: i64) -> (r: i64)
    requires
        -WIDE <= dx <= WIDE,
        -WIDE <= dy <= WIDE,
    ensures
        r == floor_sqrt(sum_sq(dx as int, dy as int)),
        mag(dx as int) <= r,
        mag(dy as int) <= r,
        r <= mag(dx as int) + mag(dy as int),
{
    let n: u128 = sum_squares(dx, dy);
    let r: u64 = isqrt(n);
    proof {
        lemma_leg_le_hypot(dx as int, dy as int);
    }
    r as i64
}

/// The length of `(dx, dy)`, rounded up.
pub fn length_ceil(dx: i64, dy: i64) -> (r: i64)
    requires
        -WIDE <= dx <= WIDE,
        -WIDE <= dy <= WIDE,
    ensures
        r == ceil_sqrt(sum_sq(dx as int, dy as int)),
        mag(dx as int) <= r,
        mag(dy as int) <= r,
        r <= mag(dx as int) + mag(dy as int),
        r == 0 <==> dx == 0 && dy == 0,
{
    let n: u128 = sum_squares(dx, dy);
    let r: u64 = isqrt_ceil(n);
    proof {
        lemma_leg_le_hypot(dx as int, dy as int);
    }
    r as i64
}

/// `a * num / den` for a ratio of magnitude at most one, rounded toward zero.
pub fn scale(a: i64, num: i64, den: i64) -> (r: i64)
    requires
        den > 0,
        -den <= num <= den,
        a > i64::MIN,
    ensures
        r == scaled(a as int, num as int, den as int),
        mag(r as int) <= mag(a as int),
{
    let x: i128 = a as i128;
    let y: i128 = num as i128;
    assert(-0x4000_0000_0000_0000_0000_0000_0000_0000 <= x * y
        <= 0x4000_0000_0000_0000_0000_0000_0000_0000) by (nonlinear_arith)
        requires
            -0x8000_0000_0000_0000 <= x <= 0x8000_0000_0000_0000,
            -0x8000_0000_0000_0000 <= y <= 0x8000_0000_0000_0000,
    ;
    let p: i128 = x * y;
    let q: i128 = p / (den as i128);
    proof {
        lemma_scaled_bound(a as int, num as int, den as int);
    }
    q as i64
}

/// `a * num / den` for a ratio of magnitude at most one, rounded away from
/// zero.
pub fn scale_out(a: i64, num: i64, den: i64) -> (r: i64)
    requires
        den > 0,
        -den <= num <= den,
        a > i64::MIN,
    ensures
        r == scaled_out(a as int, num as int, den as int),
        mag(r as int) <= mag(a as int),
{
    let x: i128 = a as i128;
    let y: i128 = num as i128;
    assert(-0x4000_0000_0000_0000_0000_0000_0000_0000 <= x * y
        <= 0x4000_0000_0000_0000_0000_0000_0000_0000) by (nonlinear_arith)
        requires
            -0x8000_0000_0000_0000 <= x <= 0x8000_0000_0000_0000,
            -0x8000_0000_0000_0000 <= y <= 0x8000_0000_0000_0000,
    ;
    let p: i128 = x * y;
    let d: i128 = den as i128;
    proof {
        lemma_scaled_bound(a as int, num as int, den as int);
    }
    let q: i128 = if p >= 0 {
        (p + d - 1) / d
    } else {
        -((-p + d - 1) / d)
    };
    q as i64
}

/// The inner product of `(ax, ay)` and `(dx, dy)`.
pub fn dot_product(ax: i64, ay: i64, dx: i64, dy: i64) -> (p: i128)
    requires
        -WIDE <= ax <= WIDE,
        -WIDE <= ay <= WIDE,
    ensures
        p == dotted(ax as int, ay as int, dx as int, dy as int),
{
    let x: i128 = ax as i128;
    let y: i128 = ay as i128;
    let u: i128 = dx as i128;
    let v: i128 = dy as i128;
    assert(-0x1000_0000_0000_0000_0000_0000_0000_0000 <= x * u
        <= 0x1000_0000_0000_0000_0000_0000_0000_0000) by (nonlinear_arith)
        requires
            -0x2000_0000_0000_0000 <= x <= 0x2000_0000_0000_0000,
            -0x8000_0000_0000_0000 <= u <= 0x8000_0000_0000_0000,
    ;
    assert(-0x1000_0000_0000_0000_0000_0000_0000_0000 <= y * v
        <= 0x1000_0000_0000_0000_0000_0000_0000_0000) by (nonlinear_arith)
        requires
            -0x2000_0000_0000_0000 <= y <= 0x2000_0000_0000_0000,
            -0x8000_0000_0000_0000 <= v <= 0x8000_0000_0000_0000,
    ;
    x * u + y * v
}

/// `(ax, ay)` projected on the direction `(dx, dy) / d`, rounded toward zero.
pub fn project(ax: i64, ay: i64, dx: i64, dy: i64, d: i64) -> (r: i64)
    requires
        d > 0,
        -d <= dx <= d,
        -d <= dy <= d,
        -WIDE <= ax <= WIDE,
        -WIDE <= ay <= WIDE,
    ensures
        r == projected(ax as int, ay as int, dx as int, dy as int, d as int),
        mag(r as int) <= mag(ax as int) + mag(ay as int),
{
    let p: i128 = dot_product(ax, ay, dx, dy);
    let q: i128 = p / (d as i128);
    proof {
        lemma_projected_bound(ax as int, ay as int, dx as int, dy as int, d as int);
    }
    q as i64
}

/// `a` held between `lo` and `hi`.
pub fn clamp(a: i64, lo: i64, hi: i64) -> (r: i64)
    ensures
        r == clamped(a as int, lo as int, hi as int),
{
    if a < lo {
        lo
    } else if a > hi {
        hi
    } else {
        a
    }
}

/// The magnitude of `a`.
pub fn magnitude(a: i64) -> (r: i64)
    requires
        a > i64::MIN,
    ensures
        r == mag(a as int),
{
    if a >= 0 {
        a
    } else {
        -a
    }
}

} // verus!
