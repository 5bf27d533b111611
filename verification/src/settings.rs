//! The configuration of a generation pass.

use vstd::prelude::*;
use rand::rngs::ThreadRng;
use crate::fixed::{Fixed, UNIT};
use crate::random::{random_between, random_seed};

verus! {

/// Which field decides the tile that is drawn for a cell.
#[derive(Clone, Copy, Debug)]
pub enum MapMode {
    Elevation,
    Temperature,
    WorldShapeMode,
}

/// The family of world-shape masks.
#[derive(Clone, Copy, Debug)]
pub enum WorldShapeEnum {
    CenteredShape,
    Continents,
}

/// How the world-shape mask is made and how strongly it weighs on elevation.
#[derive(Clone, Copy, Debug)]
pub struct WorldShapeGeneration {
    pub shape: WorldShapeEnum,
    pub shape_factor: Fixed,
    pub shape_radius: Fixed,
    pub count_continent: usize,
}

/// One fractal noise field: the seed of the coherent noise and how its
/// octaves are laid out.
#[derive(Clone, Copy, Debug)]
pub struct PerlinConfiguration {
    pub seed: u32,
    pub noise_scale: Fixed,
    pub octaves: i32,
    pub lacunarity: Fixed,
    pub persistance: Fixed,
    pub offset: (Fixed, Fixed),
}

/// The temperature field: a noise field blended with latitude.
#[derive(Clone, Copy, Debug)]
pub struct TemperatureGeneration {
    pub perlin: PerlinConfiguration,
    pub scale_lat_factor: Fixed,
    pub noise_factor: Fixed,
}

/// Everything a generation pass reads.
#[derive(Clone, Copy, Debug)]
pub struct Settings {
    pub height: u32,
    pub width: u32,
    pub tile_size: (Fixed, Fixed),
    pub elevation: bool,
    pub temperature: bool,
    pub temperature_factor: Fixed,
    pub mode: MapMode,
    pub world_shape: WorldShapeGeneration,
    pub shaped_world: bool,
    pub elevation_gen: PerlinConfiguration,
    pub temperature_gen: TemperatureGeneration,
    pub sea_level: Fixed,
}

/// What is wrong with a configuration, or with what it is used with.
#[derive(Clone, Copy, Debug, PartialEq, Eq)]
pub enum ConfigError {
    /// The grid has no column or no row.
    EmptyGrid,
    /// A noise field has a scale that is not above 0.
    DegenerateNoiseScale,
    /// A noise field has a negative number of octaves.
    NegativeOctaves,
    /// The continents are measured against a radius that is not above 0.
    DegenerateShapeRadius,
    /// The temperature factors leave no room between the lowest and the
    /// highest temperature.
    DegenerateTemperatureRange,
    /// The active world shape is stale: it is not of the kind that the
    /// settings name, or it was not prepared for the settings.
    StaleShape,
    /// The tile matrix is not of the size that the settings name.
    StaleTiles,
    /// The tile set has no biome of the name that was asked for.
    MissingBiome,
}

/// The bounds between which the offsets of a fresh noise field are drawn:
/// whole numbers from `-OFFSET_BOUND` up to, but not including,
/// `OFFSET_BOUND`.
pub const OFFSET_BOUND: i64 = 100_000;

/// Whether `v` is one of the offsets that a fresh noise field can have: a
/// whole number within the bounds.
pub open spec fn is_fresh_offset(v: Fixed) -> bool {
    v % UNIT == 0 && -OFFSET_BOUND * UNIT <= v < OFFSET_BOUND * UNIT
}

impl Default for WorldShapeGeneration {
    /// Two continents with a radius of 200 and a factor of 1.1.
    fn default() -> (r: Self)
        ensures
            r == WorldShapeGeneration::initial(),
    {
        Self {
            shape: WorldShapeEnum::Continents,
            shape_factor: 1_100_000_000,
            shape_radius: 200_000_000_000,
            count_continent: 2,
        }
    }
}

impl WorldShapeGeneration {
    /// The world shape of fresh settings.
    pub open spec fn initial() -> Self {
        WorldShapeGeneration {
            shape: WorldShapeEnum::Continents,
            shape_factor: 1_100_000_000,
            shape_radius: 200_000_000_000,
            count_continent: 2,
        }
    }
}

impl PerlinConfiguration {
    /// What validation finds wrong with the field, if anything.
    pub open spec fn fault(self) -> Option<ConfigError> {
        if self.noise_scale <= 0 {
            Some(ConfigError::DegenerateNoiseScale)
        } else if self.octaves < 0 {
            Some(ConfigError::NegativeOctaves)
        } else {
            None
        }
    }

    /// Validates the field: its scale must be above 0 and its number of
    /// octaves must not be negative.
    pub fn validate(&self) -> (r: Result<(), ConfigError>)
        ensures
            r == (match self.fault() {
                Some(e) => Err::<(), ConfigError>(e),
                None => Ok::<(), ConfigError>(()),
            }),
    {
        if self.noise_scale <= 0 {
            Err(ConfigError::DegenerateNoiseScale)
        } else if self.octaves < 0 {
            Err(ConfigError::NegativeOctaves)
        } else {
            Ok(())
        }
    }
}

impl Settings {
    /// The settings that a program starts with, but for what is drawn at
    /// random: the seeds and the offsets of the two noise fields.
    pub open spec fn initial(
        elevation_seed: u32,
        elevation_offset: (Fixed, Fixed),
        temperature_seed: u32,
        temperature_offset: (Fixed, Fixed),
    ) -> Settings {
        Settings {
            height: 500,
            width: 500,
            tile_size: (50_000_000_000, 58_000_000_000),
            elevation: true,
            temperature: false,
            temperature_factor: 400_000_000,
            mode: MapMode::WorldShapeMode,
            world_shape: WorldShapeGeneration::initial(),
            shaped_world: true,
            elevation_gen: PerlinConfiguration {
                seed: elevation_seed,
                noise_scale: 100_000_000_000,
                octaves: 4,
                lacunarity: 2_500_000_000,
                persistance: 500_000_000,
                offset: elevation_offset,
            },
            temperature_gen: TemperatureGeneration {
                perlin: PerlinConfiguration {
                    seed: temperature_seed,
                    noise_scale: 200_000_000_000,
                    octaves: 3,
                    lacunarity: 4_000_000_000,
                    persistance: 300_000_000,
                    offset: temperature_offset,
                },
                scale_lat_factor: 40_000_000_000,
                noise_factor: 20_000_000_000,
            },
            sea_level: 50_000_000,
        }
    }

    /// The settings that a program starts with, under the given seeds and
    /// offsets.
    pub fn with_seeds(
        elevation_seed: u32,
        elevation_offset: (Fixed, Fixed),
        temperature_seed: u32,
        temperature_offset: (Fixed, Fixed),
    ) -> (r: Self)
        ensures
            r == Settings::initial(elevation_seed, elevation_offset, temperature_seed, temperature_offset),
    {
        Settings {
            height: 500,
            width: 500,
            tile_size: (50_000_000_000, 58_000_000_000),
            elevation: true,
            temperature: false,
            temperature_factor: 400_000_000,
            mode: MapMode::WorldShapeMode,
            world_shape: WorldShapeGeneration::default(),
            shaped_world: true,
            elevation_gen: PerlinConfiguration {
                seed: elevation_seed,
                noise_scale: 100_000_000_000,
                octaves: 4,
                lacunarity: 2_500_000_000,
                persistance: 500_000_000,
                offset: elevation_offset,
            },
            temperature_gen: TemperatureGeneration {
                perlin: PerlinConfiguration {
                    seed: temperature_seed,
                    noise_scale: 200_000_000_000,
                    octaves: 3,
                    lacunarity: 4_000_000_000,
                    persistance: 300_000_000,
                    offset: temperature_offset,
                },
                scale_lat_factor: 40_000_000_000,
                noise_factor: 20_000_000_000,
            },
            sea_level: 50_000_000,
        }
    }

    /// The lowest and the highest temperature that the factors allow for:
    /// at a pole under the lowest noise, and at the equator under the
    /// highest.
    pub open spec fn temperature_range(self) -> (int, int) {
        (
            crate::generator::temperature_spec(self, -UNIT as int, 0),
            crate::generator::temperature_spec(self, UNIT as int, UNIT as int),
        )
    }

    /// What validation finds wrong with the settings, if anything: the
    /// first of the faults, in the order of `ConfigError`.
    pub open spec fn fault(self) -> Option<ConfigError> {
        if self.width < 1 || self.height < 1 {
            Some(ConfigError::EmptyGrid)
        } else if self.elevation_gen.noise_scale <= 0 || self.temperature_gen.perlin.noise_scale <= 0 {
            Some(ConfigError::DegenerateNoiseScale)
        } else if self.elevation_gen.octaves < 0 || self.temperature_gen.perlin.octaves < 0 {
            Some(ConfigError::NegativeOctaves)
        } else if self.world_shape.shape is Continents && self.world_shape.shape_radius <= 0 {
            Some(ConfigError::DegenerateShapeRadius)
        } else if self.temperature_range().0 >= self.temperature_range().1 {
            Some(ConfigError::DegenerateTemperatureRange)
        } else {
            None
        }
    }

    /// Whether validation finds nothing wrong.
    pub open spec fn is_valid(self) -> bool {
        self.fault() is None
    }

    /// Validates the settings.
    pub fn validate(&self) -> (r: Result<(), ConfigError>)
        ensures
            r == (match self.fault() {
                Some(e) => Err::<(), ConfigError>(e),
                None => Ok::<(), ConfigError>(()),
            }),
    {
        if self.width < 1 || self.height < 1 {
            return Err(ConfigError::EmptyGrid);
        }
        if self.elevation_gen.noise_scale <= 0 || self.temperature_gen.perlin.noise_scale <= 0 {
            return Err(ConfigError::DegenerateNoiseScale);
        }
        if self.elevation_gen.octaves < 0 || self.temperature_gen.perlin.octaves < 0 {
            return Err(ConfigError::NegativeOctaves);
        }
        let continents = match self.world_shape.shape {
            WorldShapeEnum::Continents => true,
            WorldShapeEnum::CenteredShape => false,
        };
        if continents && self.world_shape.shape_radius <= 0 {
            return Err(ConfigError::DegenerateShapeRadius);
        }
        let range = crate::generator::TemperatureGenerator::get_min_max(self);
        if range[0] >= range[1] {
            return Err(ConfigError::DegenerateTemperatureRange);
        }
        Ok(())
    }
}

fn fresh_offset(rng: &mut ThreadRng) -> (r: Fixed)
    ensures
        is_fresh_offset(r),
{
    let k = random_between(rng, -OFFSET_BOUND, OFFSET_BOUND - 1);
    proof {
        vstd::arithmetic::div_mod::lemma_mod_multiples_basic(k as int, UNIT as int);
    }
    k * UNIT
}

impl Default for Settings {
    /// The settings that a program starts with. The seeds and the offsets
    /// of the two noise fields are drawn at random; everything else is
    /// fixed.
    fn default() -> (r: Self)
        ensures
            r == Settings::initial(
                r.elevation_gen.seed,
                r.elevation_gen.offset,
                r.temperature_gen.perlin.seed,
                r.temperature_gen.perlin.offset,
            ),
            is_fresh_offset(r.elevation_gen.offset.0),
            is_fresh_offset(r.elevation_gen.offset.1),
            is_fresh_offset(r.temperature_gen.perlin.offset.0),
            is_fresh_offset(r.temperature_gen.perlin.offset.1),
    {
        let mut rng = rand::thread_rng();
        let elevation_seed = random_seed();
        let elevation_offset = (fresh_offset(&mut rng), fresh_offset(&mut rng));
        let temperature_seed = random_seed();
        let temperature_offset = (fresh_offset(&mut rng), fresh_offset(&mut rng));
        Settings::with_seeds(elevation_seed, elevation_offset, temperature_seed, temperature_offset)
    }
}

/// Fresh settings are valid.
pub proof fn law_initial_settings_are_valid(
    elevation_seed: u32,
    elevation_offset: (Fixed, Fixed),
    temperature_seed: u32,
    temperature_offset: (Fixed, Fixed),
)
    ensures
        Settings::initial(elevation_seed, elevation_offset, temperature_seed, temperature_offset).is_valid(),
{
    let s = Settings::initial(elevation_seed, elevation_offset, temperature_seed, temperature_offset);
    assert(0int * 40_000_000_000int == 0);
    assert(0int * 20_000_000_000int == 0);
    assert(1_000_000_000int * 40_000_000_000int == 40_000_000_000_000_000_000int);
    assert(2_000_000_000int * 20_000_000_000int == 40_000_000_000_000_000_000int);
    assert(s.temperature_range().0 == -10_000_000_000int);
    assert(s.temperature_range().1 == 70_000_000_000int);
}

} // verus!
