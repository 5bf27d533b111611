//! Range scaling and the projection between grid and geographic coordinates.

use vstd::prelude::*;
use crate::fixed::{floor_ratio, from_whole, round_ratio, saturate, saturating, wide_mul_div, Fixed, UNIT};
use crate::settings::Settings;

verus! {

/// `value` carried from the range `[min, max]` to `[scale_min, scale_max]` by
/// the affine map that sends `min` to `scale_min` and `max` to `scale_max`,
/// rounded down and saturated.
pub open spec fn scale_spec(value: int, min: int, max: int, scale_min: int, scale_max: int) -> int
    recommends
        min != max,
{
    saturate(floor_ratio((value - min) * (scale_max - scale_min), max - min) + scale_min)
}

/// Carries `value` from `[min, max]` to `[scale_min, scale_max]`.
///
/// The source range must not be empty: `min != max`.
pub fn scale(value: Fixed, min: Fixed, max: Fixed, scale_min: Fixed, scale_max: Fixed) -> (r: Fixed)
    requires
        min != max,
    ensures
        r == scale_spec(value as int, min as int, max as int, scale_min as int, scale_max as int),
{
    let (q, _rest) = wide_mul_div(
        value as i128 - min as i128,
        scale_max as i128 - scale_min as i128,
        max as i128 - min as i128,
    );
    saturating(q + scale_min as i128)
}

/// `v` brought into the range of `usize`.
pub open spec fn to_index(v: int) -> int {
    if v < 0 {
        0
    } else if v > usize::MAX as int {
        usize::MAX as int
    } else {
        v
    }
}

/// `value` carried from `[min, max]` to the index range
/// `[scale_min, scale_max]`, rounded to the nearest index (halves away from
/// zero) and brought into the range of `usize`. Nothing keeps the result
/// inside `[scale_min, scale_max]`.
pub open spec fn scale_to_index_spec(
    value: int,
    min: int,
    max: int,
    scale_min: int,
    scale_max: int,
) -> int
    recommends
        min != max,
{
    to_index(
        round_ratio((value - min) * (scale_max - scale_min) + scale_min * (max - min), max - min),
    )
}

proof fn lemma_round_up_or_down(big: int, rest: int, m: int)
    requires
        0 <= big,
        0 <= rest < m,
    ensures
        (2 * (big * m + rest) + m) / (2 * m) == big + (if 2 * rest >= m { 1int } else { 0int }),
        big * m + rest >= 0,
{
    let up = if 2 * rest >= m { 1int } else { 0int };
    let left = if 2 * rest >= m { 2 * rest - m } else { 2 * rest + m };
    assert(2 * (big * m + rest) + m == (big + up) * (2 * m) + left) by (nonlinear_arith)
        requires
            up == (if 2 * rest >= m { 1int } else { 0int }),
            left == (if 2 * rest >= m { 2 * rest - m } else { 2 * rest + m }),
    ;
    vstd::arithmetic::div_mod::lemma_fundamental_div_mod_converse(
        2 * (big * m + rest) + m,
        2 * m,
        big + up,
        left,
    );
    assert(big * m >= 0) by (nonlinear_arith)
        requires
            0 <= big,
            0 <= m,
    ;
}

proof fn lemma_round_below_zero(big: int, rest: int, m: int)
    requires
        big < 0,
        0 <= rest < m,
    ensures
        big * m + rest < 0,
        -((2 * (-(big * m + rest)) + m) / (2 * m)) <= 0,
{
    assert(big * m <= -m) by (nonlinear_arith)
        requires
            big <= -1,
            0 < m,
    ;
    let k = 2 * (-(big * m + rest)) + m;
    vstd::arithmetic::div_mod::lemma_div_pos_is_pos(k, 2 * m);
}

/// Carries `value` from `[min, max]` to the index range
/// `[scale_min, scale_max]` and rounds to the nearest index.
///
/// The source range must not be empty: `min != max`. The result is not kept
/// inside the index range: callers bring it there.
pub fn scale_to_index(value: Fixed, min: Fixed, max: Fixed, scale_min: usize, scale_max: usize) -> (r:
    usize)
    requires
        min != max,
    ensures
        r == scale_to_index_spec(
            value as int,
            min as int,
            max as int,
            scale_min as int,
            scale_max as int,
        ),
{
    let d: i128 = max as i128 - min as i128;
    let (k, rest) = wide_mul_div(
        value as i128 - min as i128,
        scale_max as i128 - scale_min as i128,
        d,
    );
    let m: u128 = if d < 0 {
        (-d) as u128
    } else {
        d as u128
    };
    let big: i128 = k + scale_min as i128;
    proof {
        let n0 = (value - min) * (scale_max - scale_min);
        let f = floor_ratio(n0, d as int);
        let oriented = if d > 0 { n0 } else { -n0 };
        vstd::arithmetic::div_mod::lemma_fundamental_div_mod(oriented, m as int);
        let whole = (value - min) * (scale_max - scale_min) + scale_min * (max - min);
        let turned = if d > 0 { whole } else { -whole };
        assert(-(scale_min * (max - min)) == scale_min * (-(max - min))) by (nonlinear_arith);
        assert(turned == oriented + scale_min * m);
        assert(turned == (f + scale_min) * m + rest) by (nonlinear_arith)
            requires
                oriented == m * f + rest,
                turned == oriented + scale_min * m,
        ;
        if f + scale_min >= 0 {
            lemma_round_up_or_down(f + scale_min, rest as int, m as int);
        } else {
            lemma_round_below_zero(f + scale_min, rest as int, m as int);
        }
    }
    if big < 0 {
        0
    } else {
        let up: i128 = if 2 * rest >= m {
            1
        } else {
            0
        };
        let total: i128 = big + up;
        if total > usize::MAX as i128 {
            usize::MAX
        } else {
            total as usize
        }
    }
}

/// Scaling between two equal ranges changes nothing.
pub proof fn law_scale_identity(x: Fixed, a: Fixed, b: Fixed)
    requires
        a != b,
    ensures
        scale_spec(x as int, a as int, b as int, a as int, b as int) == x,
{
    let d = b - a;
    if d > 0 {
        vstd::arithmetic::div_mod::lemma_div_multiples_vanish(x - a, d);
        assert((x - a) * d == d * (x - a)) by (nonlinear_arith);
    } else {
        vstd::arithmetic::div_mod::lemma_div_multiples_vanish(x - a, -d);
        assert(-((x - a) * d) == (-d) * (x - a)) by (nonlinear_arith);
    }
}

/// Scaling sends the ends of the source range to the ends of the target
/// range.
pub proof fn law_scale_ends(min: Fixed, max: Fixed, scale_min: Fixed, scale_max: Fixed)
    requires
        min != max,
    ensures
        scale_spec(min as int, min as int, max as int, scale_min as int, scale_max as int) == scale_min,
        scale_spec(max as int, min as int, max as int, scale_min as int, scale_max as int) == scale_max,
{
    let d = max - min;
    let span = scale_max - scale_min;
    assert((min - min) * span == 0) by (nonlinear_arith);
    assert(-((min - min) * span) == 0) by (nonlinear_arith);
    if d > 0 {
        vstd::arithmetic::div_mod::lemma_div_multiples_vanish(span, d);
        assert((max - min) * span == d * span);
    } else {
        vstd::arithmetic::div_mod::lemma_div_multiples_vanish(span, -d);
        assert(-((max - min) * span) == (-d) * span) by (nonlinear_arith)
            requires
                d == max - min,
        ;
    }
}

/// Half the width of the longitude range: 180 degrees.
pub const LON_MAX: Fixed = 180_000_000_000;

/// Half the width of the latitude range: 90 degrees.
pub const LAT_MAX: Fixed = 90_000_000_000;

/// The largest coordinate on an axis of `cells` cells, as a fixed-point
/// number: `cells - 1`, and 0 for an axis without cells.
pub open spec fn axis_end(cells: u32) -> int {
    if cells >= 1 {
        (cells - 1) * UNIT
    } else {
        0
    }
}

/// The angle of the coordinate `at` on an axis of `cells` cells that spans
/// `[-half, half]`. An axis of fewer than two cells has the angle 0
/// everywhere.
pub open spec fn angle_spec(cells: u32, at: u32, half: int) -> int {
    if cells <= 1 {
        0
    } else {
        scale_spec(at * UNIT, 0, axis_end(cells), -half, half)
    }
}

/// The whole part of a fixed-point coordinate, brought into the range of
/// `u32`.
pub open spec fn cell_of(v: int) -> int {
    if v < 0 {
        0
    } else if v / (UNIT as int) > u32::MAX as int {
        u32::MAX as int
    } else {
        v / (UNIT as int)
    }
}

/// The coordinate under `angle` on an axis of `cells` cells that spans
/// `[-half, half]`, rounded towards zero.
pub open spec fn coordinate_spec(cells: u32, angle: int, half: int) -> int {
    cell_of(scale_spec(angle, -half, half, 0, axis_end(cells)))
}

/// Longitude and latitude of the grid position `(x, y)`.
pub open spec fn xy_to_lonlat_spec(config: Settings, x: u32, y: u32) -> (int, int) {
    (angle_spec(config.width, x, LON_MAX as int), angle_spec(config.height, y, LAT_MAX as int))
}

/// The grid position under a longitude and a latitude.
pub open spec fn lonlat_to_xy_spec(config: Settings, lon: int, lat: int) -> (int, int) {
    (
        coordinate_spec(config.width, lon, LON_MAX as int),
        coordinate_spec(config.height, lat, LAT_MAX as int),
    )
}

fn axis_last(cells: u32) -> (r: Fixed)
    ensures
        r == axis_end(cells),
{
    if cells >= 1 {
        from_whole(cells - 1)
    } else {
        0
    }
}

fn angle(cells: u32, at: u32, half: Fixed) -> (r: Fixed)
    requires
        half > 0,
    ensures
        r == angle_spec(cells, at, half as int),
{
    if cells <= 1 {
        0
    } else {
        scale(from_whole(at), 0, axis_last(cells), -half, half)
    }
}

fn cell(v: Fixed) -> (r: u32)
    ensures
        r == cell_of(v as int),
{
    if v < 0 {
        0
    } else {
        let c: i64 = v / UNIT;
        if c > u32::MAX as i64 {
            u32::MAX
        } else {
            c as u32
        }
    }
}

/// Projects the grid position `(x, y)` to longitude and latitude: the
/// columns `0..=width-1` spread over `[-180, 180]` degrees and the rows
/// `0..=height-1` over `[-90, 90]`. An axis of fewer than two cells lies at
/// 0 degrees.
pub fn xy_to_lonlat(config: &Settings, x: u32, y: u32) -> (r: (Fixed, Fixed))
    ensures
        (r.0 as int, r.1 as int) == xy_to_lonlat_spec(*config, x, y),
{
    (angle(config.width, x, LON_MAX), angle(config.height, y, LAT_MAX))
}

/// Projects longitude and latitude back to a grid position, rounding
/// towards zero.
pub fn lonlat_to_xy(config: &Settings, lon: Fixed, lat: Fixed) -> (r: (u32, u32))
    ensures
        (r.0 as int, r.1 as int) == lonlat_to_xy_spec(*config, lon as int, lat as int),
{
    let x = cell(scale(lon, -LON_MAX, LON_MAX, 0, axis_last(config.width)));
    let y = cell(scale(lat, -LAT_MAX, LAT_MAX, 0, axis_last(config.height)));
    (x, y)
}

proof fn lemma_axis_round_trip(x: int, w: int, half: int)
    requires
        0 <= x <= w,
        1 <= w <= 2 * half,
    ensures
        ({
            let there = (x * UNIT * (2 * half)) / (w * UNIT);
            let back = (there * (w * UNIT)) / (2 * half);
            &&& 0 <= there <= 2 * half
            &&& 0 <= back
            &&& (x - 1) * UNIT <= back <= x * UNIT
        }),
{
    let u = UNIT as int;
    let s = 2 * half;
    let a = x * u * s;
    let d = w * u;
    let there = a / d;
    let b = there * d;
    let back = b / s;
    assert(0 <= a && 0 < d && a <= d * s) by (nonlinear_arith)
        requires
            0 <= x <= w,
            1 <= w,
            u == 1_000_000_000,
            0 < s,
            a == x * u * s,
            d == w * u,
    ;
    vstd::arithmetic::div_mod::lemma_fundamental_div_mod(a, d);
    let r = a % d;
    assert(0 <= there <= s) by (nonlinear_arith)
        requires
            a == d * there + r,
            0 <= r < d,
            0 <= a <= d * s,
    ;
    assert(0 <= b) by (nonlinear_arith)
        requires
            b == there * d,
            0 <= there,
            0 < d,
    ;
    vstd::arithmetic::div_mod::lemma_fundamental_div_mod(b, s);
    let r2 = b % s;
    assert(0 <= back <= x * u) by (nonlinear_arith)
        requires
            b == s * back + r2,
            0 <= r2 < s,
            0 <= b,
            b == there * d,
            a == d * there + r,
            0 <= r,
            a == x * u * s,
            0 < s,
    ;
    assert(back + 1 > x * u - u) by (nonlinear_arith)
        requires
            b == s * back + r2,
            0 <= r2 < s,
            b == there * d,
            a == d * there + r,
            0 <= r < d,
            a == x * u * s,
            d == w * u,
            1 <= w <= s,
            0 < u,
    ;
    assert((x - 1) * u == x * u - u) by (nonlinear_arith);
}

proof fn lemma_angle_round_trip(cells: u32, at: u32, half: int)
    requires
        cells >= 1,
        at <= cells - 1,
        0x1_0000_0000 <= 2 * half <= i64::MAX,
    ensures
        -half <= angle_spec(cells, at, half) <= half,
        at - 1 <= coordinate_spec(cells, angle_spec(cells, at, half), half) <= at,
{
    let u = UNIT as int;
    if cells <= 1 {
        assert(0 * (axis_end(cells) - 0) == 0);
        assert((0 - -half) * (0 - 0) == 0);
    } else {
        let w = (cells - 1) as int;
        let x = at as int;
        lemma_axis_round_trip(x, w, half);
        let there = (x * u * (2 * half)) / (w * u);
        let back = (there * (w * u)) / (2 * half);
        assert((at * UNIT - 0) * (half - -half) == x * u * (2 * half)) by (nonlinear_arith)
            requires
                x == at,
                u == UNIT,
        ;
        assert(axis_end(cells) - 0 == w * u);
        let lon = angle_spec(cells, at, half);
        assert(lon == there - half);
        assert((lon - -half) * (axis_end(cells) - 0) == there * (w * u)) by (nonlinear_arith)
            requires
                lon == there - half,
                axis_end(cells) == w * u,
        ;
        assert(x * u <= i64::MAX) by (nonlinear_arith)
            requires
                0 <= x <= 0xFFFF_FFFF,
                u == 1_000_000_000,
        ;
        assert(scale_spec(lon, -half, half, 0, axis_end(cells)) == back);
        vstd::arithmetic::div_mod::lemma_fundamental_div_mod(back, u);
        assert(x - 1 <= back / u <= x) by (nonlinear_arith)
            requires
                (x - 1) * u <= back <= x * u,
                back == u * (back / u) + back % u,
                0 <= back % u < u,
                0 < u,
        ;
    }
}

/// The first column and row of a grid of at least two columns and rows lie
/// at -180 and -90 degrees, the last at 180 and 90.
pub proof fn law_projection_ends(config: Settings)
    requires
        config.width >= 2,
        config.height >= 2,
    ensures
        xy_to_lonlat_spec(config, 0, 0) == (-LON_MAX as int, -LAT_MAX as int),
        xy_to_lonlat_spec(config, (config.width - 1) as u32, (config.height - 1) as u32) == (
            LON_MAX as int,
            LAT_MAX as int,
        ),
{
    assert((config.width - 1) * UNIT <= i64::MAX && (config.height - 1) * UNIT <= i64::MAX);
    law_scale_ends(0, ((config.width - 1) * UNIT) as Fixed, (-LON_MAX) as Fixed, LON_MAX);
    law_scale_ends(0, ((config.height - 1) * UNIT) as Fixed, (-LAT_MAX) as Fixed, LAT_MAX);
    assert(0 * UNIT == 0);
}

/// Projecting a grid position to longitude and latitude and back gives the
/// position again or, where rounding down lost a fraction, the cell before
/// it.
pub proof fn law_projection_round_trip(config: Settings, x: u32, y: u32)
    requires
        config.width >= 1,
        config.height >= 1,
        x <= config.width - 1,
        y <= config.height - 1,
    ensures
        ({
            let (lon, lat) = xy_to_lonlat_spec(config, x, y);
            let (bx, by) = lonlat_to_xy_spec(config, lon, lat);
            &&& -LON_MAX <= lon <= LON_MAX
            &&& -LAT_MAX <= lat <= LAT_MAX
            &&& x - 1 <= bx <= x
            &&& y - 1 <= by <= y
        }),
{
    lemma_angle_round_trip(config.width, x, LON_MAX as int);
    lemma_angle_round_trip(config.height, y, LAT_MAX as int);
}

} // verus!
