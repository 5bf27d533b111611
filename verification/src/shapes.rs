//! World-shape masks: a scalar per grid position that says how far the
//! position lies from where land is wanted.

use vstd::prelude::*;
use crate::fixed::{
    floor_sqrt, from_whole, is_floor_sqrt, isqrt, lemma_floor_sqrt_exists, lemma_floor_sqrt_grows,
    lemma_floor_sqrt_is, Fixed, UNIT,
};
use crate::random::random_between;
use crate::settings::{ConfigError, Settings, WorldShapeEnum};
use crate::fixed::{saturate, saturating};
use crate::tileset::clamp_spec;
use crate::utils::{scale, scale_spec};

verus! {

/// The largest grid coordinate, as a fixed-point number.
pub const GRID_MAX: Fixed = 4_294_967_295_000_000_000;

/// The distance between `(ax, ay)` and `(bx, by)`, rounded down.
pub open spec fn distance_spec(ax: int, ay: int, bx: int, by: int) -> int {
    floor_sqrt((ax - bx) * (ax - bx) + (ay - by) * (ay - by))
}

proof fn lemma_square_bound(d: int)
    requires
        -GRID_MAX <= d <= GRID_MAX,
    ensures
        0 <= d * d <= GRID_MAX * GRID_MAX,
        GRID_MAX * GRID_MAX == 18_446_744_065_119_617_025_000_000_000_000_000_000,
{
    assert(0 <= d * d <= 4_294_967_295_000_000_000 * 4_294_967_295_000_000_000) by (nonlinear_arith)
        requires
            -4_294_967_295_000_000_000 <= d <= 4_294_967_295_000_000_000,
    ;
    assert(4_294_967_295_000_000_000int * 4_294_967_295_000_000_000int
        == 18_446_744_065_119_617_025_000_000_000_000_000_000) by (nonlinear_arith);
}

/// The distance between two points of the grid, rounded down.
pub fn distance(ax: Fixed, ay: Fixed, bx: Fixed, by: Fixed) -> (r: Fixed)
    requires
        0 <= ax <= GRID_MAX,
        0 <= ay <= GRID_MAX,
        0 <= bx <= GRID_MAX,
        0 <= by <= GRID_MAX,
    ensures
        r == distance_spec(ax as int, ay as int, bx as int, by as int),
        0 <= r,
{
    let dx: i128 = ax as i128 - bx as i128;
    let dy: i128 = ay as i128 - by as i128;
    proof {
        lemma_square_bound(dx as int);
        lemma_square_bound(dy as int);
    }
    let sum: u128 = (dx * dx) as u128 + (dy * dy) as u128;
    let root: u64 = isqrt(sum);
    assert(root <= i64::MAX) by {
        if root > i64::MAX {
            assert(root * root >= 0x8000_0000_0000_0000 * 0x8000_0000_0000_0000) by (nonlinear_arith)
                requires
                    root >= 0x8000_0000_0000_0000,
            ;
            assert(0x8000_0000_0000_0000int * 0x8000_0000_0000_0000int
                > 2 * 18_446_744_065_119_617_025_000_000_000_000_000_000) by (nonlinear_arith);
        }
    }
    root as i64
}

/// The square of the width of `[-1, 1]`, as a fixed-point square: 4.
pub const SPAN_SQUARED: u128 = 4_000_000_000_000_000_000;

/// The square of the distance of `(x, y)` from the centre of the grid, in
/// half cells.
pub open spec fn centre_square(config: Settings, x: u32, y: u32) -> int {
    (2 * x - config.width) * (2 * x - config.width) + (2 * y - config.height) * (2 * y - config.height)
}

/// The square of the distance of a corner from the centre of the grid, in
/// half cells.
pub open spec fn corner_square(config: Settings) -> int {
    config.width * config.width + config.height * config.height
}

/// The mask that falls off from the centre of the grid: the distance from
/// the centre, carried from `[0, distance of a corner]` to `[-1, 1]`. That
/// is `2 * sqrt(p / q) - 1` for the squares `p` and `q` of the two
/// distances; it is rounded down once, so that a mask that is a whole
/// number of billionths is met exactly.
pub open spec fn circle_spec(config: Settings, x: u32, y: u32) -> int {
    saturate(
        floor_sqrt((SPAN_SQUARED * centre_square(config, x, y)) / corner_square(config)) - UNIT,
    )
}

/// A mask that is lowest at the centre of the grid and highest at its
/// corners.
#[derive(Debug, Clone, Copy)]
pub struct CircleCenteredShape;

proof fn lemma_split_quotient(k: int, p: int, q: int)
    requires
        0 < q,
    ensures
        (k * p) / q == k * (p / q) + (k * (p % q)) / q,
{
    vstd::arithmetic::div_mod::lemma_fundamental_div_mod(p, q);
    assert(k * p == k * (p % q) + (k * (p / q)) * q) by (nonlinear_arith)
        requires
            p == q * (p / q) + p % q,
    ;
    vstd::arithmetic::div_mod::lemma_hoist_over_denominator(k * (p % q), k * (p / q), q as nat);
}

proof fn lemma_squares(config: Settings, x: u32, y: u32)
    ensures
        0 <= centre_square(config, x, y) <= 0x8_0000_0000_0000_0000,
        0 <= corner_square(config) < 0x2_0000_0000_0000_0000,
        config.width >= 1 || config.height >= 1 ==> corner_square(config) >= 1,
        (2 * x - config.width) * (2 * x - config.width) <= 0x4_0000_0000_0000_0000,
        (2 * y - config.height) * (2 * y - config.height) <= 0x4_0000_0000_0000_0000,
        0 <= (2 * x - config.width) * (2 * x - config.width),
        0 <= (2 * y - config.height) * (2 * y - config.height),
        0 <= config.width * config.width < 0x1_0000_0000_0000_0000,
        0 <= config.height * config.height < 0x1_0000_0000_0000_0000,
{
    let dx = 2 * x - config.width;
    let dy = 2 * y - config.height;
    assert(0 <= dx * dx <= 0x4_0000_0000_0000_0000) by (nonlinear_arith)
        requires
            -0x2_0000_0000 <= dx <= 0x2_0000_0000,
    ;
    assert(0 <= dy * dy <= 0x4_0000_0000_0000_0000) by (nonlinear_arith)
        requires
            -0x2_0000_0000 <= dy <= 0x2_0000_0000,
    ;
    let w = config.width as int;
    let h = config.height as int;
    assert(0 <= w * w < 0x1_0000_0000_0000_0000 && (w >= 1 ==> w * w >= 1)) by (nonlinear_arith)
        requires
            0 <= w < 0x1_0000_0000,
    ;
    assert(0 <= h * h < 0x1_0000_0000_0000_0000 && (h >= 1 ==> h * h >= 1)) by (nonlinear_arith)
        requires
            0 <= h < 0x1_0000_0000,
    ;
}

impl CircleCenteredShape {
    /// Nothing to prepare: the mask depends on the settings alone.
    pub fn init(&mut self, config: &Settings)
        ensures
            *final(self) == *old(self),
    {
    }

    /// The mask at `(x, y)`.
    ///
    /// The grid must have a cell: with neither a column nor a row no corner
    /// is away from the centre.
    pub fn generate(&self, x: u32, y: u32, config: &Settings) -> (r: Fixed)
        requires
            config.width >= 1 || config.height >= 1,
        ensures
            r == circle_spec(*config, x, y),
    {
        proof {
            lemma_squares(*config, x, y);
        }
        let dx: i128 = 2 * (x as i128) - config.width as i128;
        let dy: i128 = 2 * (y as i128) - config.height as i128;
        let w: u128 = config.width as u128;
        let h: u128 = config.height as u128;
        let p: u128 = (dx * dx) as u128 + (dy * dy) as u128;
        let q: u128 = w * w + h * h;
        let whole: u128 = p / q;
        let rest: u128 = p % q;
        proof {
            lemma_split_quotient(SPAN_SQUARED as int, p as int, q as int);
            assert(0 <= SPAN_SQUARED * rest < 0x2_0000_0000_0000_0000 * 4_000_000_000_000_000_000)
                by (nonlinear_arith)
                requires
                    0 <= rest < 0x2_0000_0000_0000_0000,
                    SPAN_SQUARED == 4_000_000_000_000_000_000,
            ;
            vstd::arithmetic::div_mod::lemma_div_pos_is_pos(SPAN_SQUARED * rest, q as int);
            assert(SPAN_SQUARED * rest < SPAN_SQUARED * q) by (nonlinear_arith)
                requires
                    rest < q,
                    SPAN_SQUARED == 4_000_000_000_000_000_000,
            ;
            vstd::arithmetic::div_mod::lemma_div_is_ordered(
                SPAN_SQUARED * rest,
                SPAN_SQUARED * q,
                q as int,
            );
            vstd::arithmetic::div_mod::lemma_div_multiples_vanish(SPAN_SQUARED as int, q as int);
            assert(SPAN_SQUARED * q == q * SPAN_SQUARED) by (nonlinear_arith);
        }
        if whole >= 0x2_0000_0000_0000_0000 {
            proof {
                let t = (SPAN_SQUARED * p) / (q as int);
                let c: int = 9_223_372_037_854_775_808;
                assert(SPAN_SQUARED * whole >= 4_000_000_000_000_000_000 * 0x2_0000_0000_0000_0000)
                    by (nonlinear_arith)
                    requires
                        whole >= 0x2_0000_0000_0000_0000,
                        SPAN_SQUARED == 4_000_000_000_000_000_000,
                ;
                assert(0 <= c * c <= 4_000_000_000_000_000_000 * 0x2_0000_0000_0000_0000 && c * c < (c + 1)
                    * (c + 1)) by (nonlinear_arith)
                    requires
                        c == 9_223_372_037_854_775_808,
                ;
                lemma_floor_sqrt_is(c, c * c);
                lemma_floor_sqrt_grows(c * c, t);
            }
            return i64::MAX;
        }
        assert(SPAN_SQUARED * whole < 4_000_000_000_000_000_000 * 0x2_0000_0000_0000_0000) by (nonlinear_arith)
            requires
                0 <= whole < 0x2_0000_0000_0000_0000,
                SPAN_SQUARED == 4_000_000_000_000_000_000,
        ;
        let t: u128 = SPAN_SQUARED * whole + (SPAN_SQUARED * rest) / q;
        let root: u64 = isqrt(t);
        saturating(root as i128 - UNIT as i128)
    }
}

/// At the centre of a grid of even width and height the mask is -1.
pub proof fn law_circle_center(config: Settings)
    requires
        config.width >= 1 || config.height >= 1,
        config.width % 2 == 0,
        config.height % 2 == 0,
    ensures
        circle_spec(config, (config.width / 2) as u32, (config.height / 2) as u32) == -UNIT,
{
    let x = (config.width / 2) as u32;
    let y = (config.height / 2) as u32;
    lemma_squares(config, x, y);
    assert(centre_square(config, x, y) == 0) by (nonlinear_arith)
        requires
            2 * x - config.width == 0,
            2 * y - config.height == 0,
            centre_square(config, x, y) == (2 * x - config.width) * (2 * x - config.width) + (2 * y
                - config.height) * (2 * y - config.height),
    ;
    assert(SPAN_SQUARED * 0 == 0);
    vstd::arithmetic::div_mod::lemma_div_basics_1(corner_square(config));
    assert(is_floor_sqrt(0, 0));
    lemma_floor_sqrt_is(0, 0);
}

/// At each of the four corners of the grid the mask is 1.
pub proof fn law_circle_corner(config: Settings, x: u32, y: u32)
    requires
        config.width >= 1 || config.height >= 1,
        x == 0 || x == config.width,
        y == 0 || y == config.height,
    ensures
        circle_spec(config, x, y) == UNIT,
{
    lemma_squares(config, x, y);
    let dx = 2 * x - config.width;
    let dy = 2 * y - config.height;
    assert(dx * dx == config.width * config.width) by (nonlinear_arith)
        requires
            dx == config.width || dx == -config.width,
    ;
    assert(dy * dy == config.height * config.height) by (nonlinear_arith)
        requires
            dy == config.height || dy == -config.height,
    ;
    let q = corner_square(config);
    vstd::arithmetic::div_mod::lemma_div_multiples_vanish(SPAN_SQUARED as int, q);
    assert(SPAN_SQUARED * q == q * SPAN_SQUARED) by (nonlinear_arith);
    assert(is_floor_sqrt(2 * UNIT, SPAN_SQUARED as int)) by (nonlinear_arith)
        requires
            UNIT == 1_000_000_000,
            SPAN_SQUARED == 4_000_000_000_000_000_000,
    ;
    lemma_floor_sqrt_is(2 * UNIT, SPAN_SQUARED as int);
}

/// Half way between the centre and a corner the mask is 0: it is rounded
/// once, and there it needs no rounding.
pub proof fn law_circle_half_way(config: Settings, x: u32, y: u32)
    requires
        config.width >= 1 || config.height >= 1,
        4 * centre_square(config, x, y) == corner_square(config),
    ensures
        circle_spec(config, x, y) == 0,
{
    lemma_squares(config, x, y);
    let p = centre_square(config, x, y);
    let q = corner_square(config);
    assert(SPAN_SQUARED * p == q * (UNIT * UNIT)) by (nonlinear_arith)
        requires
            4 * p == q,
            UNIT == 1_000_000_000,
            SPAN_SQUARED == 4_000_000_000_000_000_000,
    ;
    vstd::arithmetic::div_mod::lemma_div_multiples_vanish(UNIT * UNIT, q);
    assert(is_floor_sqrt(UNIT as int, UNIT * UNIT)) by (nonlinear_arith)
        requires
            UNIT == 1_000_000_000,
    ;
    lemma_floor_sqrt_is(UNIT as int, UNIT * UNIT);
}

/// On the grid, its far edges included, the mask of the centred circle
/// lies within `[-1, 1]`.
pub proof fn law_circle_range(config: Settings, x: u32, y: u32)
    requires
        config.width >= 1 || config.height >= 1,
        x <= config.width,
        y <= config.height,
    ensures
        -UNIT <= circle_spec(config, x, y) <= UNIT,
{
    lemma_squares(config, x, y);
    let dx = 2 * x - config.width;
    let dy = 2 * y - config.height;
    assert(dx * dx <= config.width * config.width) by (nonlinear_arith)
        requires
            -config.width <= dx <= config.width,
    ;
    assert(dy * dy <= config.height * config.height) by (nonlinear_arith)
        requires
            -config.height <= dy <= config.height,
    ;
    let p = centre_square(config, x, y);
    let q = corner_square(config);
    assert(0 <= SPAN_SQUARED * p <= SPAN_SQUARED * q) by (nonlinear_arith)
        requires
            0 <= p <= q,
            SPAN_SQUARED == 4_000_000_000_000_000_000,
    ;
    vstd::arithmetic::div_mod::lemma_div_pos_is_pos(SPAN_SQUARED * p, q);
    vstd::arithmetic::div_mod::lemma_div_is_ordered(SPAN_SQUARED * p, SPAN_SQUARED * q, q);
    vstd::arithmetic::div_mod::lemma_div_multiples_vanish(SPAN_SQUARED as int, q);
    assert(SPAN_SQUARED * q == q * SPAN_SQUARED) by (nonlinear_arith);
    assert(is_floor_sqrt(2 * UNIT, SPAN_SQUARED as int)) by (nonlinear_arith)
        requires
            UNIT == 1_000_000_000,
            SPAN_SQUARED == 4_000_000_000_000_000_000,
    ;
    lemma_floor_sqrt_is(2 * UNIT, SPAN_SQUARED as int);
    lemma_floor_sqrt_grows((SPAN_SQUARED * p) / q, SPAN_SQUARED as int);
}

/// Whether `p` lies within the largest grid.
pub open spec fn in_grid(p: (Fixed, Fixed)) -> bool {
    0 <= p.0 <= GRID_MAX && 0 <= p.1 <= GRID_MAX
}

/// The distance from `(px, py)` to the nearest of `anchors`, and `far`
/// where no anchor is nearer than that.
pub open spec fn nearest_spec(anchors: Seq<(Fixed, Fixed)>, px: int, py: int, far: int) -> int
    decreases anchors.len(),
{
    if anchors.len() == 0 {
        far
    } else {
        let rest = nearest_spec(anchors.drop_last(), px, py, far);
        let d = distance_spec(px, py, anchors.last().0 as int, anchors.last().1 as int);
        if d < rest {
            d
        } else {
            rest
        }
    }
}

/// The mask that falls off from a set of anchor points: the distance to the
/// nearest anchor, at most the diagonal of the grid, carried from
/// `[0, shape_radius]` to `[-1, 1]` and kept within `[-1, 1]`: beyond the
/// radius the mask stays at 1.
pub open spec fn continents_spec(anchors: Seq<(Fixed, Fixed)>, config: Settings, x: u32, y: u32) -> int {
    clamp_spec(
        scale_spec(
            nearest_spec(
                anchors,
                x * UNIT,
                y * UNIT,
                distance_spec(0, 0, config.width * UNIT, config.height * UNIT),
            ),
            0,
            config.world_shape.shape_radius as int,
            -UNIT as int,
            UNIT as int,
        ),
        -UNIT as int,
        UNIT as int,
    )
}

/// A mask that is lowest at a number of anchor points.
#[derive(Debug, Clone)]
pub struct ContinentsShape {
    count: usize,
    random_points: Vec<(Fixed, Fixed)>,
    seed: u32,
}

impl View for ContinentsShape {
    type V = Seq<(Fixed, Fixed)>;

    /// The anchor points, in the order in which they were placed.
    closed spec fn view(&self) -> Seq<(Fixed, Fixed)> {
        self.random_points@
    }
}

impl Default for ContinentsShape {
    /// A shape without anchors, which asks for one.
    fn default() -> (r: Self)
        ensures
            r.wf(),
            r@.len() == 0,
            r.wanted() == 1,
            r.seed_of() == 0,
    {
        Self { count: 1, random_points: Vec::new(), seed: 0 }
    }
}

impl ContinentsShape {
    /// Every anchor lies within the largest grid.
    pub closed spec fn wf(self) -> bool {
        forall|i: int| 0 <= i < self.random_points@.len() ==> in_grid(#[trigger] self.random_points@[i])
    }

    /// The number of anchors that was asked for.
    pub closed spec fn wanted(self) -> usize {
        self.count
    }

    /// The seed that the shape was prepared under.
    pub closed spec fn seed_of(self) -> u32 {
        self.seed
    }

    /// Whether the shape holds as many anchors as were asked for. A shape
    /// that was never prepared does not.
    pub open spec fn is_filled(self) -> bool {
        self@.len() == self.wanted()
    }

    /// Whether the shape is as preparing it for `config` leaves it: it
    /// holds the anchors that the settings ask for, all of them within the
    /// grid, and it noted the elevation seed.
    pub open spec fn is_prepared_for(self, config: Settings) -> bool {
        &&& self@.len() == self.wanted()
        &&& self.wanted() == config.world_shape.count_continent
        &&& self.seed_of() == config.elevation_gen.seed
        &&& forall|i: int|
            0 <= i < self@.len() ==> {
                &&& 0 <= (#[trigger] self@[i]).0 <= config.width * UNIT
                &&& 0 <= self@[i].1 <= config.height * UNIT
            }
    }

    /// Whether the shape is as preparing it for `config` leaves it.
    pub fn prepared_for(&self, config: &Settings) -> (r: bool)
        ensures
            r == self.is_prepared_for(*config),
    {
        if self.random_points.len() != self.count || self.count != config.world_shape.count_continent
            || self.seed != config.elevation_gen.seed {
            return false;
        }
        let x_max: Fixed = from_whole(config.width);
        let y_max: Fixed = from_whole(config.height);
        let mut i: usize = 0;
        while i < self.random_points.len()
            invariant
                i <= self.random_points@.len(),
                x_max == config.width * UNIT,
                y_max == config.height * UNIT,
                forall|k: int|
                    0 <= k < i ==> {
                        &&& 0 <= (#[trigger] self.random_points@[k]).0 <= x_max
                        &&& 0 <= self.random_points@[k].1 <= y_max
                    },
            decreases self.random_points@.len() - i,
        {
            let p = self.random_points[i];
            if !(0 <= p.0 && p.0 <= x_max && 0 <= p.1 && p.1 <= y_max) {
                return false;
            }
            i = i + 1;
        }
        true
    }

    /// The shape with the given anchors, or nothing where an anchor lies
    /// outside the largest grid.
    pub fn with_anchors(anchors: Vec<(Fixed, Fixed)>, seed: u32) -> (r: Option<Self>)
        ensures
            (forall|i: int| 0 <= i < anchors@.len() ==> in_grid(#[trigger] anchors@[i])) <==> r is Some,
            r matches Some(shape) ==> {
                &&& shape.wf()
                &&& shape@ == anchors@
                &&& shape.wanted() == anchors@.len()
                &&& shape.seed_of() == seed
            },
    {
        let mut i: usize = 0;
        while i < anchors.len()
            invariant
                i <= anchors@.len(),
                forall|k: int| 0 <= k < i ==> in_grid(#[trigger] anchors@[k]),
            decreases anchors@.len() - i,
        {
            let p = anchors[i];
            if !(0 <= p.0 && p.0 <= GRID_MAX && 0 <= p.1 && p.1 <= GRID_MAX) {
                assert(!in_grid(anchors@[i as int]));
                return None;
            }
            i = i + 1;
        }
        Some(Self { count: anchors.len(), random_points: anchors, seed })
    }

    /// The number of anchors that was asked for.
    pub fn count(&self) -> (r: usize)
        ensures
            r == self.wanted(),
    {
        self.count
    }

    /// The seed that the shape was prepared under.
    pub fn seed(&self) -> (r: u32)
        ensures
            r == self.seed_of(),
    {
        self.seed
    }

    /// The anchor points.
    pub fn anchors(&self) -> (r: &Vec<(Fixed, Fixed)>)
        ensures
            r@ == self@,
    {
        &self.random_points
    }

    /// Draws as many anchors as the settings ask for, each at random within
    /// the grid, and notes the elevation seed. The draws come from the
    /// thread-local generator: the seed does not decide them.
    ///
    /// On a grid without a column or without a row there is nowhere to
    /// draw: the shape stays as it was, and `EmptyGrid` comes back.
    pub fn init(&mut self, config: &Settings) -> (r: Result<(), ConfigError>)
        requires
            old(self).wf(),
        ensures
            final(self).wf(),
            config.width < 1 || config.height < 1 ==> {
                &&& r == Err::<(), ConfigError>(ConfigError::EmptyGrid)
                &&& *final(self) == *old(self)
            },
            config.width >= 1 && config.height >= 1 ==> r is Ok && final(self).is_prepared_for(*config),
    {
        if config.width < 1 || config.height < 1 {
            return Err(ConfigError::EmptyGrid);
        }
        let x_max: Fixed = from_whole(config.width);
        let y_max: Fixed = from_whole(config.height);
        let count: usize = config.world_shape.count_continent;
        let mut rng = rand::thread_rng();
        let mut points: Vec<(Fixed, Fixed)> = Vec::new();
        let mut i: usize = 0;
        while i < count
            invariant
                i <= count,
                points@.len() == i,
                x_max == config.width * UNIT,
                y_max == config.height * UNIT,
                forall|k: int|
                    0 <= k < i ==> {
                        &&& 0 <= (#[trigger] points@[k]).0 <= x_max
                        &&& 0 <= points@[k].1 <= y_max
                    },
            decreases count - i,
        {
            let x = random_between(&mut rng, 0, x_max);
            let y = random_between(&mut rng, 0, y_max);
            points.push((x, y));
            i = i + 1;
        }
        self.count = count;
        self.seed = config.elevation_gen.seed;
        self.random_points = points;
        Ok(())
    }

    /// The mask at `(x, y)`.
    ///
    /// The shape must hold the anchors it asks for, and the radius that the
    /// distances are measured against must not be 0.
    pub fn generate(&self, x: u32, y: u32, config: &Settings) -> (r: Fixed)
        requires
            self.wf(),
            self.is_filled(),
            config.world_shape.shape_radius != 0,
        ensures
            r == continents_spec(self@, *config, x, y),
    {
        let px: Fixed = from_whole(x);
        let py: Fixed = from_whole(y);
        let far = distance(0, 0, from_whole(config.width), from_whole(config.height));
        let mut nearest: Fixed = far;
        let mut i: usize = 0;
        assert(self.random_points@.take(0) =~= Seq::empty());
        while i < self.random_points.len()
            invariant
                self.wf(),
                i <= self.random_points@.len(),
                px == x * UNIT,
                py == y * UNIT,
                nearest == nearest_spec(self.random_points@.take(i as int), px as int, py as int, far as int),
            decreases self.random_points@.len() - i,
        {
            let p = self.random_points[i];
            let d = distance(px, py, p.0, p.1);
            proof {
                let upto = self.random_points@.take(i + 1);
                assert(upto.drop_last() =~= self.random_points@.take(i as int));
                assert(upto.last() == p);
            }
            if d < nearest {
                nearest = d;
            }
            i = i + 1;
        }
        assert(self.random_points@.take(i as int) =~= self.random_points@);
        let mask = scale(nearest, 0, config.world_shape.shape_radius, -UNIT, UNIT);
        if mask < -UNIT {
            -UNIT
        } else if mask > UNIT {
            UNIT
        } else {
            mask
        }
    }
}

proof fn lemma_distance_not_negative(ax: int, ay: int, bx: int, by: int)
    ensures
        distance_spec(ax, ay, bx, by) >= 0,
{
    let n = (ax - bx) * (ax - bx) + (ay - by) * (ay - by);
    assert(n >= 0) by (nonlinear_arith)
        requires
            n == (ax - bx) * (ax - bx) + (ay - by) * (ay - by),
    ;
    lemma_floor_sqrt_exists(n);
}

/// The distance to the nearest anchor is the least of the distances to the
/// anchors and `far`: none of them is smaller, and it is one of them.
pub proof fn law_nearest_is_least(anchors: Seq<(Fixed, Fixed)>, px: int, py: int, far: int)
    requires
        far >= 0,
    ensures
        0 <= nearest_spec(anchors, px, py, far) <= far,
        forall|i: int|
            0 <= i < anchors.len() ==> nearest_spec(anchors, px, py, far) <= distance_spec(
                px,
                py,
                (#[trigger] anchors[i]).0 as int,
                anchors[i].1 as int,
            ),
        nearest_spec(anchors, px, py, far) == far || exists|i: int|
            0 <= i < anchors.len() && nearest_spec(anchors, px, py, far) == distance_spec(
                px,
                py,
                (#[trigger] anchors[i]).0 as int,
                anchors[i].1 as int,
            ),
    decreases anchors.len(),
{
    if anchors.len() > 0 {
        let rest = anchors.drop_last();
        law_nearest_is_least(rest, px, py, far);
        lemma_distance_not_negative(px, py, anchors.last().0 as int, anchors.last().1 as int);
        assert forall|i: int| 0 <= i < anchors.len() implies nearest_spec(anchors, px, py, far)
            <= distance_spec(px, py, (#[trigger] anchors[i]).0 as int, anchors[i].1 as int) by {
            if i < anchors.len() - 1 {
                assert(rest[i] == anchors[i]);
            }
        }
        let last = distance_spec(px, py, anchors.last().0 as int, anchors.last().1 as int);
        if last < nearest_spec(rest, px, py, far) {
            assert(anchors[anchors.len() - 1] == anchors.last());
        } else if nearest_spec(rest, px, py, far) != far {
            let i = choose|i: int|
                0 <= i < rest.len() && nearest_spec(rest, px, py, far) == distance_spec(
                    px,
                    py,
                    (#[trigger] rest[i]).0 as int,
                    rest[i].1 as int,
                );
            assert(rest[i] == anchors[i]);
        }
    }
}

/// The mask of the continents lies within `[-1, 1]`, however far the
/// nearest anchor is.
pub proof fn law_continents_range(anchors: Seq<(Fixed, Fixed)>, config: Settings, x: u32, y: u32)
    ensures
        -UNIT <= continents_spec(anchors, config, x, y) <= UNIT,
{
}

/// From the radius on the mask of the continents is 1.
pub proof fn law_continents_ceiling(anchors: Seq<(Fixed, Fixed)>, config: Settings, x: u32, y: u32)
    requires
        config.world_shape.shape_radius > 0,
        nearest_spec(
            anchors,
            x * UNIT,
            y * UNIT,
            distance_spec(0, 0, config.width * UNIT, config.height * UNIT),
        ) >= config.world_shape.shape_radius,
    ensures
        continents_spec(anchors, config, x, y) == UNIT,
{
    let d = nearest_spec(
        anchors,
        x * UNIT,
        y * UNIT,
        distance_spec(0, 0, config.width * UNIT, config.height * UNIT),
    );
    let radius = config.world_shape.shape_radius as int;
    let span = UNIT - -UNIT;
    assert(radius * span <= (d - 0) * span) by (nonlinear_arith)
        requires
            radius <= d,
            span == 2_000_000_000,
    ;
    vstd::arithmetic::div_mod::lemma_div_is_ordered(radius * span, (d - 0) * span, radius);
    vstd::arithmetic::div_mod::lemma_div_multiples_vanish(span, radius);
}

/// On an anchor the mask of the continents is -1, its lowest value.
pub proof fn law_continents_floor(
    anchors: Seq<(Fixed, Fixed)>,
    config: Settings,
    x: u32,
    y: u32,
    i: int,
)
    requires
        config.world_shape.shape_radius > 0,
        0 <= i < anchors.len(),
        anchors[i].0 == x * UNIT,
        anchors[i].1 == y * UNIT,
    ensures
        continents_spec(anchors, config, x, y) == -UNIT,
{
    let far = distance_spec(0, 0, config.width * UNIT, config.height * UNIT);
    lemma_distance_not_negative(0, 0, config.width * UNIT, config.height * UNIT);
    law_nearest_is_least(anchors, x * UNIT, y * UNIT, far);
    assert(0int * 0int + 0int * 0int == 0);
    assert(is_floor_sqrt(0, 0));
    lemma_floor_sqrt_is(0, 0);
    assert(distance_spec(x * UNIT, y * UNIT, anchors[i].0 as int, anchors[i].1 as int) == 0);
    assert((0 - 0) * (UNIT - -UNIT) == 0);
}

/// The active world shape: one of a closed set of masks.
#[derive(Debug, Clone)]
pub enum ShapeGenerator {
    CenteredShape(CircleCenteredShape),
    Continents(ContinentsShape),
}

impl ShapeGenerator {
    /// The state of the shape is sound.
    pub open spec fn wf(self) -> bool {
        match self {
            ShapeGenerator::CenteredShape(_) => true,
            ShapeGenerator::Continents(shape) => shape.wf(),
        }
    }

    /// Whether the shape can be evaluated under `config`: the centred
    /// circle needs a grid with a cell, the continents the anchors they ask
    /// for and a radius other than 0.
    pub open spec fn accepts(self, config: Settings) -> bool {
        match self {
            ShapeGenerator::CenteredShape(_) => config.width >= 1 || config.height >= 1,
            ShapeGenerator::Continents(shape) => shape.is_filled() && config.world_shape.shape_radius != 0,
        }
    }

    /// Whether the shape is of the kind that `config` names and as
    /// preparing it for `config` leaves it. A shape that is not is stale.
    pub open spec fn is_prepared_for(self, config: Settings) -> bool {
        match self {
            ShapeGenerator::CenteredShape(_) => config.world_shape.shape is CenteredShape,
            ShapeGenerator::Continents(shape) => config.world_shape.shape is Continents
                && shape.is_prepared_for(config),
        }
    }

    /// Whether the shape is of the kind that `config` names and as
    /// preparing it for `config` leaves it.
    pub fn prepared_for(&self, config: &Settings) -> (r: bool)
        ensures
            r == self.is_prepared_for(*config),
    {
        match self {
            ShapeGenerator::CenteredShape(_) => match config.world_shape.shape {
                WorldShapeEnum::CenteredShape => true,
                WorldShapeEnum::Continents => false,
            },
            ShapeGenerator::Continents(shape) => match config.world_shape.shape {
                WorldShapeEnum::CenteredShape => false,
                WorldShapeEnum::Continents => shape.prepared_for(config),
            },
        }
    }

    /// Whether the shape is of the kind that `shape` names.
    pub open spec fn is_kind(self, shape: WorldShapeEnum) -> bool {
        match shape {
            WorldShapeEnum::CenteredShape => self is CenteredShape,
            WorldShapeEnum::Continents => self is Continents,
        }
    }

    /// The mask at `(x, y)`.
    pub open spec fn generate_spec(self, config: Settings, x: u32, y: u32) -> int {
        match self {
            ShapeGenerator::CenteredShape(_) => circle_spec(config, x, y),
            ShapeGenerator::Continents(shape) => continents_spec(shape@, config, x, y),
        }
    }

    /// A shape of the kind that `shape` names, not yet prepared.
    pub fn of_kind(shape: WorldShapeEnum) -> (r: Self)
        ensures
            r.is_kind(shape),
            r.wf(),
            r matches ShapeGenerator::Continents(c) ==> c@.len() == 0 && c.wanted() == 1 && c.seed_of() == 0,
    {
        match shape {
            WorldShapeEnum::CenteredShape => ShapeGenerator::CenteredShape(CircleCenteredShape),
            WorldShapeEnum::Continents => ShapeGenerator::Continents(ContinentsShape::default()),
        }
    }

    /// What preparing the shape `before` for `config` leaves in `after`: the
    /// circle stays as it is; the continents have as many anchors as the
    /// settings ask for, each within the grid, and the elevation seed.
    pub open spec fn prepared(before: Self, after: Self, config: Settings) -> bool {
        match before {
            ShapeGenerator::CenteredShape(_) => after == before,
            ShapeGenerator::Continents(_) => after matches ShapeGenerator::Continents(shape)
                && shape.is_prepared_for(config),
        }
    }

    /// Whether the shape cannot be prepared for `config`: the continents
    /// cannot place their anchors on a grid without a column or a row.
    pub open spec fn init_fails(self, config: Settings) -> bool {
        self is Continents && (config.width < 1 || config.height < 1)
    }

    /// Prepares the shape for `config`. The kind of the shape stays; the
    /// continents draw their anchors anew, within the grid. Where that
    /// cannot be done the shape stays as it was, and `EmptyGrid` comes back.
    pub fn init(&mut self, config: &Settings) -> (r: Result<(), ConfigError>)
        requires
            old(self).wf(),
        ensures
            final(self).wf(),
            old(self).init_fails(*config) ==> {
                &&& r == Err::<(), ConfigError>(ConfigError::EmptyGrid)
                &&& *final(self) == *old(self)
            },
            !old(self).init_fails(*config) ==> {
                &&& r is Ok
                &&& Self::prepared(*old(self), *final(self), *config)
            },
    {
        match self {
            ShapeGenerator::CenteredShape(shape) => {
                shape.init(config);
                Ok(())
            },
            ShapeGenerator::Continents(shape) => shape.init(config),
        }
    }

    /// The mask at `(x, y)`.
    pub fn generate(&self, x: u32, y: u32, config: &Settings) -> (r: Fixed)
        requires
            self.wf(),
            self.accepts(*config),
        ensures
            r == self.generate_spec(*config, x, y),
    {
        match self {
            ShapeGenerator::CenteredShape(shape) => shape.generate(x, y, config),
            ShapeGenerator::Continents(shape) => shape.generate(x, y, config),
        }
    }
}

/// The slot that holds the active world shape.
#[derive(Debug, Clone)]
pub struct ShapeGeneratorResource {
    pub generator: ShapeGenerator,
}

impl Default for ShapeGeneratorResource {
    /// The slot with the centred circle in it.
    fn default() -> (r: Self)
        ensures
            r.generator is CenteredShape,
            r.generator.wf(),
    {
        Self { generator: ShapeGenerator::CenteredShape(CircleCenteredShape) }
    }
}

impl ShapeGeneratorResource {
    /// Brings the slot in line with changed settings: the shape in it is
    /// replaced by a fresh one of the kind that the settings name, prepared
    /// for them. Where the fresh shape cannot be prepared the slot stays as
    /// it was, and `EmptyGrid` comes back.
    pub fn update(&mut self, config: &Settings) -> (r: Result<(), ConfigError>)
        requires
            old(self).generator.wf(),
        ensures
            final(self).generator.wf(),
            r is Err <==> config.world_shape.shape is Continents && (config.width < 1 || config.height < 1),
            r matches Err(e) ==> e == ConfigError::EmptyGrid && *final(self) == *old(self),
            r is Ok ==> final(self).generator.is_prepared_for(*config),
    {
        let mut generator = ShapeGenerator::of_kind(config.world_shape.shape);
        match generator.init(config) {
            Err(e) => Err(e),
            Ok(_) => {
                self.generator = generator;
                Ok(())
            },
        }
    }
}

} // verus!
