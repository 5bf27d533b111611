//! Fixed-point arithmetic.
//!
//! Every real quantity of the generator (coordinates, noise values, factors,
//! angles in degrees) is a `Fixed`: a signed count of billionths. Results that
//! leave the `i64` range stop at its ends; quotients are rounded down.

use vstd::prelude::*;
use vstd::arithmetic::div_mod::lemma_fundamental_div_mod;
use vstd::arithmetic::div_mod::lemma_fundamental_div_mod_converse;

verus! {

/// A real number, counted in billionths.
pub type Fixed = i64;

/// The fixed-point representation of one.
pub const UNIT: i64 = 1_000_000_000;

/// Largest magnitude of an operand of the wide division: `2^64 - 1`, which
/// covers every difference of two `i64` and of two `u64`.
pub const SPAN: i128 = 0xFFFF_FFFF_FFFF_FFFF;

/// Magnitude at which a wide quotient stops: `2^100`.
pub const WIDE: i128 = 0x10_0000_0000_0000_0000_0000_0000;

/// `v` brought into the range of `i64`.
pub open spec fn saturate(v: int) -> int {
    if v < i64::MIN as int {
        i64::MIN as int
    } else if v > i64::MAX as int {
        i64::MAX as int
    } else {
        v
    }
}

/// `v` brought into `[-WIDE, WIDE]`.
pub open spec fn widen(v: int) -> int {
    if v < -(WIDE as int) {
        -(WIDE as int)
    } else if v > WIDE as int {
        WIDE as int
    } else {
        v
    }
}

/// The largest integer that is at most `n / d`, for `d != 0`.
pub open spec fn floor_ratio(n: int, d: int) -> int
    recommends
        d != 0,
{
    if d > 0 {
        n / d
    } else {
        (-n) / (-d)
    }
}

/// What `floor_ratio(n, d)` leaves over, counted in `|d|`-ths: `n / d`
/// equals `floor_ratio(n, d) + ratio_rest(n, d) / |d|`.
pub open spec fn ratio_rest(n: int, d: int) -> int
    recommends
        d != 0,
{
    if d > 0 {
        n % d
    } else {
        (-n) % (-d)
    }
}

/// `n / d` rounded to the nearest integer, halves away from zero, for
/// `d != 0`.
pub open spec fn round_ratio(n: int, d: int) -> int
    recommends
        d != 0,
{
    let k = if d > 0 { n } else { -n };
    let m = if d > 0 { d } else { -d };
    if k >= 0 {
        (2 * k + m) / (2 * m)
    } else {
        -((2 * (-k) + m) / (2 * m))
    }
}

proof fn lemma_signed_product(a: int, b: int, ua: int, ub: int)
    requires
        ua == if a < 0 { -a } else { a },
        ub == if b < 0 { -b } else { b },
    ensures
        (a < 0) == (b < 0) ==> a * b == ua * ub,
        (a < 0) != (b < 0) ==> a * b == -(ua * ub),
        0 <= ua * ub,
{
    assert((-a) * (-b) == a * b) by (nonlinear_arith);
    assert((-a) * b == -(a * b)) by (nonlinear_arith);
    assert(a * (-b) == -(a * b)) by (nonlinear_arith);
    assert(0 <= ua * ub) by (nonlinear_arith)
        requires
            0 <= ua,
            0 <= ub,
    ;
}

proof fn lemma_span_product(ua: int, ub: int)
    requires
        0 <= ua <= SPAN,
        0 <= ub <= SPAN,
    ensures
        0 <= ua * ub <= u128::MAX,
{
    assert(0 <= ua * ub <= 0xFFFF_FFFF_FFFF_FFFF * 0xFFFF_FFFF_FFFF_FFFF) by (nonlinear_arith)
        requires
            0 <= ua <= 0xFFFF_FFFF_FFFF_FFFF,
            0 <= ub <= 0xFFFF_FFFF_FFFF_FFFF,
    ;
}

/// Division of a negative numerator, from the division of its magnitude.
proof fn lemma_negated_division(p: int, m: int)
    requires
        0 < p,
        0 < m,
    ensures
        (-p) / m == -(p / m) - (if p % m == 0 { 0int } else { 1int }),
        (-p) % m == (if p % m == 0 { 0int } else { m - p % m }),
{
    let q = p / m;
    let r = p % m;
    lemma_fundamental_div_mod(p, m);
    let q2 = -q - (if r == 0 { 0int } else { 1int });
    let r2 = if r == 0 { 0int } else { m - r };
    assert(-p == q2 * m + r2) by (nonlinear_arith)
        requires
            p == m * q + r,
            q2 == -q - (if r == 0 { 0int } else { 1int }),
            r2 == (if r == 0 { 0int } else { m - r }),
    ;
    lemma_fundamental_div_mod_converse(-p, m, q2, r2);
}

fn magnitude(a: i128) -> (r: u128)
    requires
        -SPAN <= a <= SPAN,
    ensures
        r == (if a < 0 { -a } else { a as int }),
        r <= SPAN,
{
    if a < 0 {
        (-a) as u128
    } else {
        a as u128
    }
}

/// The rounded-down quotient of `a * b` by `d`, stopped at `±WIDE`, and what
/// the rounding left over.
pub fn wide_mul_div(a: i128, b: i128, d: i128) -> (r: (i128, u128))
    requires
        -SPAN <= a <= SPAN,
        -SPAN <= b <= SPAN,
        -SPAN <= d <= SPAN,
        d != 0,
    ensures
        r.0 == widen(floor_ratio(a * b, d as int)),
        r.1 == ratio_rest(a * b, d as int),
        r.1 < (if d < 0 { -d } else { d as int }),
{
    let ua: u128 = magnitude(a);
    let ub: u128 = magnitude(b);
    let ud: u128 = magnitude(d);
    proof {
        lemma_span_product(ua as int, ub as int);
        lemma_signed_product(a as int, b as int, ua as int, ub as int);
    }
    let p: u128 = ua * ub;
    let q: u128 = p / ud;
    let rest: u128 = p % ud;
    let negative: bool = ((a < 0) != (b < 0)) != (d < 0);
    let ghost n: int = if d > 0 { a * b } else { -(a * b) };
    assert(floor_ratio(a * b, d as int) == n / (ud as int));
    assert(ratio_rest(a * b, d as int) == n % (ud as int));
    assert(n == (if negative { -(p as int) } else { p as int }));
    if !negative || p == 0 {
        assert(n == p);
        if q > WIDE as u128 {
            (WIDE, rest)
        } else {
            (q as i128, rest)
        }
    } else {
        proof {
            lemma_negated_division(p as int, ud as int);
        }
        if rest == 0 {
            if q > WIDE as u128 {
                (-WIDE, 0)
            } else {
                (-(q as i128), 0)
            }
        } else {
            assert(q < u128::MAX) by {
                lemma_fundamental_div_mod(p as int, ud as int);
                assert(p > q) by (nonlinear_arith)
                    requires
                        p == ud * q + rest,
                        ud >= 1,
                        q >= 0,
                        rest >= 1,
                ;
            }
            if q >= WIDE as u128 {
                (-WIDE, ud - rest)
            } else {
                (-((q + 1) as i128), ud - rest)
            }
        }
    }
}

/// `v` brought into the range of `i64`.
pub fn saturating(v: i128) -> (r: Fixed)
    ensures
        r == saturate(v as int),
{
    if v < i64::MIN as i128 {
        i64::MIN
    } else if v > i64::MAX as i128 {
        i64::MAX
    } else {
        v as i64
    }
}

/// `a * b / d`, rounded down and saturated.
pub fn mul_div(a: Fixed, b: Fixed, d: Fixed) -> (r: Fixed)
    requires
        d != 0,
    ensures
        r == saturate(floor_ratio(a * b, d as int)),
{
    let (q, _rest) = wide_mul_div(a as i128, b as i128, d as i128);
    saturating(q)
}

/// The product of two fixed-point numbers, rounded down and saturated.
pub fn fixed_mul(a: Fixed, b: Fixed) -> (r: Fixed)
    ensures
        r == product(a as int, b as int),
{
    mul_div(a, b, UNIT)
}

/// The fixed-point product: `a * b / UNIT`, rounded down and saturated.
pub open spec fn product(a: int, b: int) -> int {
    saturate((a * b) / (UNIT as int))
}

/// The saturated sum.
pub fn fixed_add(a: Fixed, b: Fixed) -> (r: Fixed)
    ensures
        r == saturate(a + b),
{
    saturating(a as i128 + b as i128)
}

/// The saturated difference.
pub fn fixed_sub(a: Fixed, b: Fixed) -> (r: Fixed)
    ensures
        r == saturate(a - b),
{
    saturating(a as i128 - b as i128)
}

/// The whole number `n` as a fixed-point number.
pub fn from_whole(n: u32) -> (r: Fixed)
    ensures
        r == n * UNIT,
{
    (n as i64) * UNIT
}

/// `base` raised to the `n`-th power, each product rounded down and
/// saturated in turn.
pub open spec fn power(base: int, n: nat) -> int
    decreases n,
{
    if n == 0 {
        UNIT as int
    } else {
        product(power(base, (n - 1) as nat), base)
    }
}

/// `base` raised to the `n`-th power.
pub fn fixed_pow(base: Fixed, n: u32) -> (r: Fixed)
    ensures
        r == power(base as int, n as nat),
{
    let mut acc: Fixed = UNIT;
    let mut i: u32 = 0;
    while i < n
        invariant
            i <= n,
            acc == power(base as int, i as nat),
        decreases n - i,
    {
        acc = fixed_mul(acc, base);
        i = i + 1;
    }
    acc
}

/// `r` is the square root of `n`, rounded down.
pub open spec fn is_floor_sqrt(r: int, n: int) -> bool {
    0 <= r && r * r <= n < (r + 1) * (r + 1)
}

/// The square root of `n`, rounded down, for `n >= 0`.
pub open spec fn floor_sqrt(n: int) -> int {
    choose|r: int| is_floor_sqrt(r, n)
}

/// A number has at most one rounded-down square root.
pub proof fn lemma_floor_sqrt_unique(r1: int, r2: int, n: int)
    requires
        is_floor_sqrt(r1, n),
        is_floor_sqrt(r2, n),
    ensures
        r1 == r2,
{
    if r1 < r2 {
        assert((r1 + 1) * (r1 + 1) <= r2 * r2) by (nonlinear_arith)
            requires
                0 <= r1,
                r1 + 1 <= r2,
        ;
    }
    if r2 < r1 {
        assert((r2 + 1) * (r2 + 1) <= r1 * r1) by (nonlinear_arith)
            requires
                0 <= r2,
                r2 + 1 <= r1,
        ;
    }
}

/// Every number from 0 on has a rounded-down square root.
pub proof fn lemma_floor_sqrt_exists(n: int)
    requires
        0 <= n,
    ensures
        is_floor_sqrt(floor_sqrt(n), n),
    decreases n,
{
    if n == 0 {
        assert(is_floor_sqrt(0, 0));
    } else {
        lemma_floor_sqrt_exists(n - 1);
        let r = floor_sqrt(n - 1);
        if (r + 1) * (r + 1) <= n {
            assert((r + 1) * (r + 1) == n);
            assert((r + 2) * (r + 2) > n) by (nonlinear_arith)
                requires
                    (r + 1) * (r + 1) == n,
                    0 <= r,
            ;
            assert(is_floor_sqrt(r + 1, n));
        } else {
            assert(is_floor_sqrt(r, n));
        }
    }
}

/// The rounded-down square root does not fall where the number grows.
pub proof fn lemma_floor_sqrt_grows(a: int, b: int)
    requires
        0 <= a <= b,
    ensures
        0 <= floor_sqrt(a) <= floor_sqrt(b),
{
    lemma_floor_sqrt_exists(a);
    lemma_floor_sqrt_exists(b);
    let ra = floor_sqrt(a);
    let rb = floor_sqrt(b);
    if ra > rb {
        assert((rb + 1) * (rb + 1) <= ra * ra) by (nonlinear_arith)
            requires
                0 <= rb,
                rb + 1 <= ra,
        ;
    }
}

/// Whatever meets `is_floor_sqrt` is `floor_sqrt`.
pub proof fn lemma_floor_sqrt_is(r: int, n: int)
    requires
        is_floor_sqrt(r, n),
    ensures
        floor_sqrt(n) == r,
{
    lemma_floor_sqrt_unique(r, floor_sqrt(n), n);
}

/// The square root of `n`, rounded down.
pub fn isqrt(n: u128) -> (r: u64)
    ensures
        is_floor_sqrt(r as int, n as int),
        r == floor_sqrt(n as int),
{
    let mut lo: u128 = 0;
    let mut hi: u128 = 0x1_0000_0000_0000_0000;
    assert(0x1_0000_0000_0000_0000int * 0x1_0000_0000_0000_0000int > u128::MAX) by (nonlinear_arith);
    while hi - lo > 1
        invariant
            lo < hi <= 0x1_0000_0000_0000_0000,
            lo * lo <= n < hi * hi,
        decreases hi - lo,
    {
        let mid: u128 = lo + (hi - lo) / 2;
        assert(mid * mid <= 0xFFFF_FFFF_FFFF_FFFF * 0xFFFF_FFFF_FFFF_FFFF) by (nonlinear_arith)
            requires
                0 <= mid <= 0xFFFF_FFFF_FFFF_FFFF,
        ;
        if mid * mid <= n {
            lo = mid;
        } else {
            hi = mid;
        }
    }
    proof {
        lemma_floor_sqrt_is(lo as int, n as int);
    }
    lo as u64
}

} // verus!
