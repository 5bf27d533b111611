//! The renderers: from a field of a tile to what is drawn for it, a colour
//! or the index of a tile of the tile set.

use vstd::prelude::*;
use crate::fixed::{Fixed, UNIT};
use crate::generator::{TemperatureGenerator, TileElevation, TileTemperature};
use crate::settings::{ConfigError, Settings};
use crate::tile::Tile;
use crate::tileset::{classify, classify_spec, has_biome, row_of, BiomeTileRange, Row, TextureTileSet};
use crate::utils::{scale, scale_spec};

verus! {

/// A colour: red, green and blue.
pub type Rgb = (u8, u8, u8);

/// The colour of a value that lies above every stop.
pub const WHITE: Rgb = (255, 255, 255);

/// The first stop from `from` on, of `count` stops that divide `[0, 1]`
/// evenly, that `normalized` does not lie above; `count` where it lies
/// above all of them.
pub open spec fn first_stop(normalized: int, count: int, from: int) -> int
    decreases count - from,
{
    if from >= count {
        count
    } else if normalized * count <= from * UNIT {
        from
    } else {
        first_stop(normalized, count, from + 1)
    }
}

/// The colour of `normalized` on `stops`: that of the first stop, the one
/// at 0 left aside, that `normalized` does not lie above, and white where
/// there is none.
pub open spec fn color_spec(stops: Seq<Rgb>, normalized: int) -> Rgb {
    let i = first_stop(normalized, stops.len() as int, 1);
    if i < stops.len() {
        stops[i]
    } else {
        WHITE
    }
}

/// The colour of `normalized` on `stops`.
pub fn color_of(stops: &Vec<Rgb>, normalized: Fixed) -> (r: Rgb)
    ensures
        r == color_spec(stops@, normalized as int),
{
    let count: usize = stops.len();
    let mut i: usize = 1;
    while i < count
        invariant
            1 <= i,
            count == stops@.len(),
            first_stop(normalized as int, count as int, 1) == first_stop(
                normalized as int,
                count as int,
                i as int,
            ),
        decreases count - i,
    {
        assert(-0x8000_0000_0000_0000_0000_0000_0000_0000 <= normalized * count
            <= 0x7FFF_FFFF_FFFF_FFFF_FFFF_FFFF_FFFF_FFFF) by (nonlinear_arith)
            requires
                -0x8000_0000_0000_0000 <= normalized <= 0x7FFF_FFFF_FFFF_FFFF,
                0 <= count <= 0xFFFF_FFFF_FFFF_FFFF,
        ;
        assert(0 <= i * UNIT <= 0x7FFF_FFFF_FFFF_FFFF_FFFF_FFFF_FFFF_FFFF) by (nonlinear_arith)
            requires
                0 <= i <= 0xFFFF_FFFF_FFFF_FFFF,
                UNIT == 1_000_000_000,
        ;
        if (normalized as i128) * (count as i128) <= (i as i128) * (UNIT as i128) {
            return stops[i];
        }
        i = i + 1;
    }
    WHITE
}

/// The colours of the elevations, from the deep sea to the peaks.
pub open spec fn elevation_stops() -> Seq<Rgb> {
    seq![
        (89u8, 127u8, 198u8),
        (83u8, 158u8, 216u8),
        (79u8, 171u8, 226u8),
        (39u8, 194u8, 245u8),
        (79u8, 205u8, 248u8),
        (112u8, 208u8, 245u8),
        (141u8, 216u8, 248u8),
        (158u8, 217u8, 204u8),
        (196u8, 216u8, 190u8),
        (224u8, 219u8, 177u8),
        (254u8, 227u8, 168u8),
        (252u8, 194u8, 128u8),
        (229u8, 159u8, 89u8),
        (210u8, 133u8, 55u8),
        (195u8, 106u8, 26u8),
        (202u8, 102u8, 27u8),
        (211u8, 88u8, 31u8),
    ]
}

/// The colours of the temperatures, from the coldest to the hottest.
pub open spec fn temperature_stops() -> Seq<Rgb> {
    seq![
        (124u8, 64u8, 255u8),
        (59u8, 57u8, 230u8),
        (63u8, 65u8, 252u8),
        (65u8, 145u8, 247u8),
        (64u8, 197u8, 252u8),
        (177u8, 255u8, 64u8),
        (254u8, 254u8, 65u8),
        (254u8, 211u8, 66u8),
        (252u8, 166u8, 63u8),
        (255u8, 115u8, 64u8),
        (255u8, 70u8, 64u8),
        (162u8, 41u8, 40u8),
        (121u8, 29u8, 30u8),
    ]
}

/// The colours of the elevations.
pub fn elevation_palette() -> (r: Vec<Rgb>)
    ensures
        r@ == elevation_stops(),
{
    let stops: Vec<Rgb> = vec![
        (89u8, 127u8, 198u8),
        (83u8, 158u8, 216u8),
        (79u8, 171u8, 226u8),
        (39u8, 194u8, 245u8),
        (79u8, 205u8, 248u8),
        (112u8, 208u8, 245u8),
        (141u8, 216u8, 248u8),
        (158u8, 217u8, 204u8),
        (196u8, 216u8, 190u8),
        (224u8, 219u8, 177u8),
        (254u8, 227u8, 168u8),
        (252u8, 194u8, 128u8),
        (229u8, 159u8, 89u8),
        (210u8, 133u8, 55u8),
        (195u8, 106u8, 26u8),
        (202u8, 102u8, 27u8),
        (211u8, 88u8, 31u8),
    ];
    assert(stops@ =~= elevation_stops());
    stops
}

/// The colours of the temperatures.
pub fn temperature_palette() -> (r: Vec<Rgb>)
    ensures
        r@ == temperature_stops(),
{
    let stops: Vec<Rgb> = vec![
        (124u8, 64u8, 255u8),
        (59u8, 57u8, 230u8),
        (63u8, 65u8, 252u8),
        (65u8, 145u8, 247u8),
        (64u8, 197u8, 252u8),
        (177u8, 255u8, 64u8),
        (254u8, 254u8, 65u8),
        (254u8, 211u8, 66u8),
        (252u8, 166u8, 63u8),
        (255u8, 115u8, 64u8),
        (255u8, 70u8, 64u8),
        (162u8, 41u8, 40u8),
        (121u8, 29u8, 30u8),
    ];
    assert(stops@ =~= temperature_stops());
    stops
}

/// What keeps values from being classified into the biome named `name`:
/// `MissingBiome` where `rows` has no such biome.
pub open spec fn biome_fault(rows: Seq<Row>, name: Seq<char>) -> Option<ConfigError> {
    if !has_biome(rows, name) {
        Some(ConfigError::MissingBiome)
    } else {
        None
    }
}

/// The tile of the biome named `name` that stands for `value` within
/// `[min, max]`, or what keeps values from being classified into the
/// biome.
pub open spec fn index_in_biome(rows: Seq<Row>, name: Seq<char>, value: int, min: int, max: int) -> Result<
    usize,
    ConfigError,
> {
    match biome_fault(rows, name) {
        Some(e) => Err(e),
        None => Ok(
            classify_spec(
                value,
                min,
                max,
                BiomeTileRange {
                    start_index: row_of(rows, name).start as usize,
                    length: row_of(rows, name).length as usize,
                },
            ) as usize,
        ),
    }
}

/// The tile of the biome named `name` that stands for `value` within
/// `[min, max]`.
///
/// The range of values must not be empty or inverted.
pub fn tile_index(texture_tileset: &TextureTileSet, name: &str, value: Fixed, min: Fixed, max: Fixed) -> (r:
    Result<usize, ConfigError>)
    requires
        texture_tileset.wf(),
        min < max,
    ensures
        r == index_in_biome(texture_tileset.rows(), name@, value as int, min as int, max as int),
{
    match texture_tileset.biome_range(name) {
        Err(e) => Err(e),
        Ok(range) => Ok(classify(value, min, max, range)),
    }
}

/// Draws elevations.
#[derive(Debug, Clone, Copy)]
pub struct ElevationMapRenderer;

impl ElevationMapRenderer {
    /// The colour of an elevation: its place within `[-1, 1]`, looked up on
    /// the colours of the elevations.
    pub fn get_color(&self, tile_elevation: &TileElevation) -> (r: Rgb)
        ensures
            r == color_spec(
                elevation_stops(),
                scale_spec(tile_elevation.0 as int, -UNIT as int, UNIT as int, 0, UNIT as int),
            ),
    {
        let normalized = scale(tile_elevation.0, -UNIT, UNIT, 0, UNIT);
        let stops = elevation_palette();
        color_of(&stops, normalized)
    }

    /// The tile of the biome "Elevation" that stands for the elevation of
    /// `tile` within `[-1, 1]`.
    pub fn get_tile_index(&self, tile: &Tile, texture_tileset: &TextureTileSet) -> (r: Result<
        usize,
        ConfigError,
    >)
        requires
            texture_tileset.wf(),
        ensures
            r == index_in_biome(
                texture_tileset.rows(),
                "Elevation"@,
                tile.elevation as int,
                -UNIT as int,
                UNIT as int,
            ),
    {
        tile_index(texture_tileset, "Elevation", tile.elevation, -UNIT, UNIT)
    }
}

/// Draws temperatures.
#[derive(Debug, Clone, Copy)]
pub struct TemperatureMapRenderer;

impl TemperatureMapRenderer {
    /// The colour of a temperature: its place within the range of
    /// temperatures, looked up on the colours of the temperatures.
    ///
    /// The settings must leave room between the lowest and the highest
    /// temperature.
    pub fn get_color(&self, tile_temperature: &TileTemperature, settings: &Settings) -> (r: Rgb)
        requires
            settings.temperature_range().0 != settings.temperature_range().1,
        ensures
            r == color_spec(
                temperature_stops(),
                scale_spec(
                    tile_temperature.0 as int,
                    settings.temperature_range().0,
                    settings.temperature_range().1,
                    0,
                    UNIT as int,
                ),
            ),
    {
        let range = TemperatureGenerator::get_min_max(settings);
        let normalized = scale(tile_temperature.0, range[0], range[1], 0, UNIT);
        let stops = temperature_palette();
        color_of(&stops, normalized)
    }

    /// The tile of the biome "Temperature" that stands for the temperature
    /// of `tile` within the range of temperatures, or
    /// `DegenerateTemperatureRange` where the settings do not put the
    /// lowest temperature below the highest.
    pub fn get_tile_index(&self, tile: &Tile, settings: &Settings, texture_tileset: &TextureTileSet) -> (r:
        Result<usize, ConfigError>)
        requires
            texture_tileset.wf(),
        ensures
            r == temperature_index(*tile, *settings, texture_tileset.rows()),
    {
        let range = TemperatureGenerator::get_min_max(settings);
        if range[0] >= range[1] {
            Err(ConfigError::DegenerateTemperatureRange)
        } else {
            tile_index(texture_tileset, "Temperature", tile.temperature, range[0], range[1])
        }
    }
}

/// The tile that is drawn for the temperature of `tile`.
pub open spec fn temperature_index(tile: Tile, settings: Settings, rows: Seq<Row>) -> Result<
    usize,
    ConfigError,
> {
    if settings.temperature_range().0 >= settings.temperature_range().1 {
        Err(ConfigError::DegenerateTemperatureRange)
    } else {
        index_in_biome(
            rows,
            "Temperature"@,
            tile.temperature as int,
            settings.temperature_range().0,
            settings.temperature_range().1,
        )
    }
}

} // verus!
