//! The field generators: each turns what the noise gave for a cell into
//! one field of the cell's tile.

use vstd::prelude::*;
use crate::fixed::{fixed_add, fixed_mul, fixed_sub, product, saturate, Fixed, UNIT};
use crate::settings::Settings;
use crate::shapes::ShapeGenerator;
use crate::tile::Tile;
use crate::utils::{xy_to_lonlat, xy_to_lonlat_spec};

verus! {

/// The elevation of a tile.
#[derive(Debug, Clone, Copy, Default)]
pub struct TileElevation(pub Fixed);

/// The temperature of a tile.
#[derive(Debug, Clone, Copy, Default)]
pub struct TileTemperature(pub Fixed);

/// What the blend of latitude and noise is lowered by: 10 degrees.
pub const TEMPERATURE_SHIFT: Fixed = 10_000_000_000;

/// Generates the raw elevation: the value of the elevation noise field.
#[derive(Debug, Clone, Copy)]
pub struct ElevationGenerator;

impl ElevationGenerator {
    /// The raw elevation of a cell for which the elevation noise gave
    /// `samples`.
    pub fn get_value(&self, samples: &Vec<Fixed>, settings: &Settings) -> (r: Fixed)
        ensures
            r == settings.elevation_gen.fractal_spec(samples@),
    {
        settings.elevation_gen.fractal_value(samples)
    }

    /// The range that elevations are classified over: `[-1, 1]`.
    pub fn get_min_max(settings: &Settings) -> (r: [Fixed; 2])
        ensures
            r[0] == -UNIT,
            r[1] == UNIT,
    {
        [-UNIT, UNIT]
    }

    /// Writes the raw elevation into `tile`.
    pub fn apply(&self, tile: &mut Tile, samples: &Vec<Fixed>, settings: &Settings)
        ensures
            final(tile).elevation == settings.elevation_gen.fractal_spec(samples@),
            final(tile).temperature == old(tile).temperature,
    {
        tile.elevation = self.get_value(samples, settings);
    }
}

/// What the world shape takes from the elevation at `(x, y)`: the mask
/// times the shape factor where the world is shaped, and nothing where it
/// is not.
pub open spec fn shape_share(settings: Settings, shape: ShapeGenerator, x: u32, y: u32) -> int {
    if settings.shaped_world {
        product(shape.generate_spec(settings, x, y), settings.world_shape.shape_factor as int)
    } else {
        0
    }
}

/// Lowers the elevation by the world-shape mask.
#[derive(Debug, Clone, Copy)]
pub struct ElevationShapeGenerator;

impl ElevationShapeGenerator {
    /// What the world shape takes from the elevation at `(x, y)`.
    pub fn get_value(&self, x: u32, y: u32, settings: &Settings, shape: &ShapeGenerator) -> (r: Fixed)
        requires
            settings.shaped_world ==> shape.wf() && shape.accepts(*settings),
        ensures
            r == shape_share(*settings, *shape, x, y),
    {
        if settings.shaped_world {
            fixed_mul(shape.generate(x, y, settings), settings.world_shape.shape_factor)
        } else {
            0
        }
    }

    /// Lowers the elevation of `tile` by what the world shape takes at
    /// `(x, y)`.
    pub fn apply(&self, tile: &mut Tile, x: u32, y: u32, settings: &Settings, shape: &ShapeGenerator)
        requires
            settings.shaped_world ==> shape.wf() && shape.accepts(*settings),
        ensures
            final(tile).elevation == saturate(old(tile).elevation - shape_share(*settings, *shape, x, y)),
            final(tile).temperature == old(tile).temperature,
    {
        tile.elevation = fixed_sub(tile.elevation, self.get_value(x, y, settings, shape));
    }
}

/// The temperature where the noise field has the value `noise` and the
/// cosine of the latitude is `lat_cos`:
/// `lat_cos * scale_lat_factor + (noise + 1) * noise_factor - 10`.
pub open spec fn temperature_spec(settings: Settings, noise: int, lat_cos: int) -> int {
    saturate(
        saturate(
            product(lat_cos, settings.temperature_gen.scale_lat_factor as int) + product(
                saturate(noise + UNIT),
                settings.temperature_gen.noise_factor as int,
            ),
        ) - TEMPERATURE_SHIFT,
    )
}

/// Generates the temperature: the temperature noise field blended with the
/// latitude.
#[derive(Debug, Clone, Copy)]
pub struct TemperatureGenerator;

impl TemperatureGenerator {
    /// The latitude of the cell at `(x, y)`, in degrees: the angle whose
    /// cosine the temperature of the cell takes.
    pub fn latitude(x: u32, y: u32, settings: &Settings) -> (r: Fixed)
        ensures
            r == xy_to_lonlat_spec(*settings, x, y).1,
    {
        xy_to_lonlat(settings, x, y).1
    }

    /// The temperature of a cell for which the temperature noise gave
    /// `samples` and whose latitude has the cosine `lat_cos`.
    pub fn get_value(&self, samples: &Vec<Fixed>, lat_cos: Fixed, settings: &Settings) -> (r: Fixed)
        ensures
            r == temperature_spec(
                *settings,
                settings.temperature_gen.perlin.fractal_spec(samples@),
                lat_cos as int,
            ),
    {
        let noise = settings.temperature_gen.perlin.fractal_value(samples);
        Self::blend(settings, noise, lat_cos)
    }

    fn blend(settings: &Settings, noise: Fixed, lat_cos: Fixed) -> (r: Fixed)
        ensures
            r == temperature_spec(*settings, noise as int, lat_cos as int),
    {
        let lat_factor = fixed_mul(lat_cos, settings.temperature_gen.scale_lat_factor);
        let noise_factor = fixed_mul(fixed_add(noise, UNIT), settings.temperature_gen.noise_factor);
        fixed_sub(fixed_add(lat_factor, noise_factor), TEMPERATURE_SHIFT)
    }

    /// The range that temperatures are classified over: from the
    /// temperature at a pole under the lowest noise to the temperature at
    /// the equator under the highest.
    pub fn get_min_max(settings: &Settings) -> (r: [Fixed; 2])
        ensures
            r[0] == temperature_spec(*settings, -UNIT as int, 0),
            r[1] == temperature_spec(*settings, UNIT as int, UNIT as int),
    {
        [Self::blend(settings, -UNIT, 0), Self::blend(settings, UNIT, UNIT)]
    }

    /// Writes the temperature into `tile`.
    pub fn apply(&self, tile: &mut Tile, samples: &Vec<Fixed>, lat_cos: Fixed, settings: &Settings)
        ensures
            final(tile).temperature == temperature_spec(
                *settings,
                settings.temperature_gen.perlin.fractal_spec(samples@),
                lat_cos as int,
            ),
            final(tile).elevation == old(tile).elevation,
    {
        tile.temperature = self.get_value(samples, lat_cos, settings);
    }
}

proof fn lemma_product_grows(a: int, b: int, f: int)
    requires
        a <= b,
        0 <= f,
    ensures
        product(a, f) <= product(b, f),
{
    assert(a * f <= b * f) by (nonlinear_arith)
        requires
            a <= b,
            0 <= f,
    ;
    vstd::arithmetic::div_mod::lemma_div_is_ordered(a * f, b * f, UNIT as int);
}

/// The ends of the range of temperatures, from the factors alone: the lower
/// end is -10, the upper end `scale_lat_factor + 2 * noise_factor - 10`.
pub proof fn law_temperature_ends(settings: Settings)
    ensures
        temperature_spec(settings, -UNIT as int, 0) == -TEMPERATURE_SHIFT,
        temperature_spec(settings, UNIT as int, UNIT as int) == saturate(
            saturate(
                settings.temperature_gen.scale_lat_factor + saturate(
                    2 * settings.temperature_gen.noise_factor,
                ),
            ) - TEMPERATURE_SHIFT,
        ),
{
    let slf = settings.temperature_gen.scale_lat_factor as int;
    let nf = settings.temperature_gen.noise_factor as int;
    assert(0 * slf == 0);
    assert(0 * nf == 0);
    vstd::arithmetic::div_mod::lemma_div_multiples_vanish(slf, UNIT as int);
    vstd::arithmetic::div_mod::lemma_div_multiples_vanish(2 * nf, UNIT as int);
    assert((UNIT + UNIT) * nf == UNIT * (2 * nf)) by (nonlinear_arith);
}

/// With factors that are not negative, a noise value within `[-1, 1]` and a
/// cosine within `[0, 1]`, the temperature lies within the range that
/// `get_min_max` gives.
pub proof fn law_temperature_range(settings: Settings, noise: int, lat_cos: int)
    requires
        settings.temperature_gen.scale_lat_factor >= 0,
        settings.temperature_gen.noise_factor >= 0,
        -UNIT <= noise <= UNIT,
        0 <= lat_cos <= UNIT,
    ensures
        temperature_spec(settings, -UNIT as int, 0) <= temperature_spec(settings, noise, lat_cos),
        temperature_spec(settings, noise, lat_cos) <= temperature_spec(settings, UNIT as int, UNIT as int),
{
    let slf = settings.temperature_gen.scale_lat_factor as int;
    let nf = settings.temperature_gen.noise_factor as int;
    lemma_product_grows(0, lat_cos, slf);
    lemma_product_grows(lat_cos, UNIT as int, slf);
    lemma_product_grows(saturate(-UNIT + UNIT), saturate(noise + UNIT), nf);
    lemma_product_grows(saturate(noise + UNIT), saturate(UNIT + UNIT), nf);
}

} // verus!
