//! The fractal noise field: where each octave samples the coherent noise
//! and how the samples add up.
//!
//! The coherent noise itself is evaluated by the caller. For a grid position
//! `sample_points` names the points at which it is wanted, one per octave;
//! `fractal_value` adds up what the noise gave at those points.

use vstd::prelude::*;
use crate::fixed::{
    fixed_add, fixed_mul, floor_ratio, from_whole, mul_div, power, product, saturate, Fixed, UNIT,
};
use crate::settings::PerlinConfiguration;

verus! {

/// The largest scale that a noise field is sampled at: 100000.
pub const MAX_PERLIN_SCALE: Fixed = 100_000_000_000_000;

/// The value of a fractal field whose first `n` octaves gave `samples`:
/// the sum of the samples, the `o`-th weighted with the `o`-th power of
/// `persistance`. The sum is not divided by the sum of the weights.
pub open spec fn fractal_sum(samples: Seq<Fixed>, persistance: int, n: nat) -> int
    decreases n,
{
    if n == 0 {
        0
    } else {
        saturate(
            fractal_sum(samples, persistance, (n - 1) as nat) + product(
                samples[n - 1] as int,
                power(persistance, (n - 1) as nat),
            ),
        )
    }
}

impl PerlinConfiguration {
    /// The number of octaves: none where `octaves` is negative.
    pub open spec fn octave_count(self) -> nat {
        if self.octaves > 0 {
            self.octaves as nat
        } else {
            0
        }
    }

    /// The scale at which the field is sampled: `noise_scale`, kept above 0
    /// and at most `MAX_PERLIN_SCALE`.
    pub open spec fn clamped_scale(self) -> int {
        if self.noise_scale < 1 {
            1
        } else if self.noise_scale > MAX_PERLIN_SCALE {
            MAX_PERLIN_SCALE as int
        } else {
            self.noise_scale as int
        }
    }

    /// One coordinate of the point that octave `o` samples for the grid
    /// coordinate `at`: `at / scale * lacunarity^o + offset`.
    pub open spec fn sample_coordinate(self, at: u32, offset: Fixed, o: nat) -> int {
        saturate(
            saturate(floor_ratio((at * UNIT) * power(self.lacunarity as int, o), self.clamped_scale()))
                + offset,
        )
    }

    /// The point that octave `o` samples for the grid position `(x, y)`.
    pub open spec fn sample_point_spec(self, x: u32, y: u32, o: nat) -> (Fixed, Fixed) {
        (
            self.sample_coordinate(x, self.offset.0, o) as Fixed,
            self.sample_coordinate(y, self.offset.1, o) as Fixed,
        )
    }

    /// The value of the field where the noise gave `samples`, one for each
    /// octave in turn. Octaves for which no sample is given add nothing,
    /// and neither do samples beyond the last octave.
    pub open spec fn fractal_spec(self, samples: Seq<Fixed>) -> int {
        fractal_sum(
            samples,
            self.persistance as int,
            if samples.len() < self.octave_count() {
                samples.len()
            } else {
                self.octave_count()
            },
        )
    }

    /// The number of octaves.
    pub fn octave_total(&self) -> (r: usize)
        ensures
            r == self.octave_count(),
    {
        if self.octaves > 0 {
            self.octaves as usize
        } else {
            0
        }
    }

    /// The scale at which the field is sampled.
    pub fn sampling_scale(&self) -> (r: Fixed)
        ensures
            r == self.clamped_scale(),
            r >= 1,
    {
        if self.noise_scale < 1 {
            1
        } else if self.noise_scale > MAX_PERLIN_SCALE {
            MAX_PERLIN_SCALE
        } else {
            self.noise_scale
        }
    }

    /// The points at which the coherent noise is wanted for the grid
    /// position `(x, y)`: one for each octave, in turn.
    pub fn sample_points(&self, x: u32, y: u32) -> (r: Vec<(Fixed, Fixed)>)
        ensures
            r@.len() == self.octave_count(),
            forall|o: int| 0 <= o < r@.len() ==> #[trigger] r@[o] == self.sample_point_spec(x, y, o as nat),
    {
        let total = self.octave_total();
        let scale = self.sampling_scale();
        let px = from_whole(x);
        let py = from_whole(y);
        let mut points: Vec<(Fixed, Fixed)> = Vec::new();
        let mut frequency: Fixed = UNIT;
        let mut o: usize = 0;
        while o < total
            invariant
                o <= total,
                total == self.octave_count(),
                scale == self.clamped_scale(),
                px == x * UNIT,
                py == y * UNIT,
                points@.len() == o,
                frequency == power(self.lacunarity as int, o as nat),
                forall|k: int| 0 <= k < o ==> #[trigger] points@[k] == self.sample_point_spec(x, y, k as nat),
            decreases total - o,
        {
            let sx = fixed_add(mul_div(px, frequency, scale), self.offset.0);
            let sy = fixed_add(mul_div(py, frequency, scale), self.offset.1);
            points.push((sx, sy));
            frequency = fixed_mul(frequency, self.lacunarity);
            o = o + 1;
        }
        points
    }

    /// The value of the field where the coherent noise gave `samples` at the
    /// points of `sample_points`.
    pub fn fractal_value(&self, samples: &Vec<Fixed>) -> (r: Fixed)
        ensures
            r == self.fractal_spec(samples@),
    {
        let total = self.octave_total();
        let n: usize = if samples.len() < total {
            samples.len()
        } else {
            total
        };
        let mut value: Fixed = 0;
        let mut amplitude: Fixed = UNIT;
        let mut o: usize = 0;
        while o < n
            invariant
                o <= n <= samples@.len(),
                amplitude == power(self.persistance as int, o as nat),
                value == fractal_sum(samples@, self.persistance as int, o as nat),
            decreases n - o,
        {
            value = fixed_add(value, fixed_mul(samples[o], amplitude));
            amplitude = fixed_mul(amplitude, self.persistance);
            o = o + 1;
        }
        value
    }
}

/// A field has no hidden state. Where it samples and what the samples add
/// up to follow from the scale, the octaves, the lacunarity, the
/// persistence and the offset of the field, from the grid position and
/// from the samples: fields that agree in these give the same points and
/// the same value. The seed decides the coherent noise alone.
pub proof fn law_field_is_determined(
    a: PerlinConfiguration,
    b: PerlinConfiguration,
    x: u32,
    y: u32,
    samples: Seq<Fixed>,
)
    requires
        a.noise_scale == b.noise_scale,
        a.octaves == b.octaves,
        a.lacunarity == b.lacunarity,
        a.persistance == b.persistance,
        a.offset == b.offset,
    ensures
        a.octave_count() == b.octave_count(),
        forall|o: nat| a.sample_point_spec(x, y, o) == b.sample_point_spec(x, y, o),
        a.fractal_spec(samples) == b.fractal_spec(samples),
{
}

} // verus!
