//! The generation pass: from what the noise gave for a cell to the cell's
//! tile, and from the tiles to the indices that are drawn.

use vstd::prelude::*;
use crate::fixed::{saturate, Fixed, UNIT};
use crate::generator::{
    shape_share, temperature_spec, ElevationGenerator, ElevationShapeGenerator, TemperatureGenerator,
};
use crate::renderer::{biome_fault, index_in_biome, tile_index};
use crate::settings::{ConfigError, MapMode, Settings};
use crate::shapes::ShapeGenerator;
use crate::tile::{Tile, TileMatrixResource};
use crate::tileset::{Row, TextureTileSet};

verus! {

/// What keeps a pass from running under `config` with the world shape
/// `shape`: what validation finds wrong with the settings or, where the
/// pass reads the shape, a stale shape: one of another kind than the
/// settings name, or one that was not prepared for the settings.
pub open spec fn pass_fault(config: Settings, shape: ShapeGenerator, reads_shape: bool) -> Option<
    ConfigError,
> {
    match config.fault() {
        Some(e) => Some(e),
        None => if reads_shape && !shape.is_prepared_for(config) {
            Some(ConfigError::StaleShape)
        } else {
            None
        },
    }
}

/// The elevation at `(x, y)` where the elevation noise gave `samples`: the
/// value of the noise field, less what the world shape takes.
pub open spec fn elevation_spec(
    config: Settings,
    samples: Seq<Fixed>,
    shape: ShapeGenerator,
    x: u32,
    y: u32,
) -> int {
    saturate(config.elevation_gen.fractal_spec(samples) - shape_share(config, shape, x, y))
}

/// Looks for what keeps a pass from running.
pub fn find_fault(config: &Settings, shape: &ShapeGenerator, reads_shape: bool) -> (r: Result<
    (),
    ConfigError,
>)
    ensures
        r == (match pass_fault(*config, *shape, reads_shape) {
            Some(e) => Err::<(), ConfigError>(e),
            None => Ok::<(), ConfigError>(()),
        }),
        r is Ok && reads_shape ==> shape.accepts(*config),
{
    match config.validate() {
        Err(e) => Err(e),
        Ok(_) => {
            if reads_shape && !shape.prepared_for(config) {
                Err(ConfigError::StaleShape)
            } else {
                Ok(())
            }
        },
    }
}

/// The tile of a cell: its elevation from the elevation noise and the
/// world shape, its temperature from the temperature noise and the cosine
/// of its latitude.
pub open spec fn generate_tile_spec(
    x: u32,
    y: u32,
    elevation_samples: Seq<Fixed>,
    temperature_samples: Seq<Fixed>,
    lat_cos: Fixed,
    config: Settings,
    shape: ShapeGenerator,
) -> Result<Tile, ConfigError> {
    match pass_fault(config, shape, config.shaped_world) {
        Some(e) => Err(e),
        None => Ok(
            Tile {
                elevation: elevation_spec(config, elevation_samples, shape, x, y) as Fixed,
                temperature: temperature_spec(
                    config,
                    config.temperature_gen.perlin.fractal_spec(temperature_samples),
                    lat_cos as int,
                ) as Fixed,
            },
        ),
    }
}

/// Generates the tile of the cell at `(x, y)`, for which the elevation
/// noise gave `elevation_samples` and the temperature noise
/// `temperature_samples`, and whose latitude has the cosine `lat_cos`.
pub fn generate_tile(
    x: u32,
    y: u32,
    elevation_samples: &Vec<Fixed>,
    temperature_samples: &Vec<Fixed>,
    lat_cos: Fixed,
    config: &Settings,
    shape: &ShapeGenerator,
) -> (r: Result<Tile, ConfigError>)
    requires
        shape.wf(),
    ensures
        r == generate_tile_spec(
            x,
            y,
            elevation_samples@,
            temperature_samples@,
            lat_cos,
            *config,
            *shape,
        ),
{
    match find_fault(config, shape, config.shaped_world) {
        Err(e) => Err(e),
        Ok(_) => {
            let mut tile = Tile::default();
            ElevationGenerator.apply(&mut tile, elevation_samples, config);
            ElevationShapeGenerator.apply(&mut tile, x, y, config, shape);
            TemperatureGenerator.apply(&mut tile, temperature_samples, lat_cos, config);
            Ok(tile)
        },
    }
}

/// The index that is drawn for an elevation: what keeps the pass from
/// running, or the tile of the biome "Elevation" that stands for the
/// elevation within `[-1, 1]`.
pub open spec fn elevation_index_spec(
    samples: Seq<Fixed>,
    x: u32,
    y: u32,
    config: Settings,
    rows: Seq<Row>,
    shape: ShapeGenerator,
) -> Result<usize, ConfigError> {
    match pass_fault(config, shape, config.shaped_world) {
        Some(e) => Err(e),
        None => index_in_biome(
            rows,
            "Elevation"@,
            elevation_spec(config, samples, shape, x, y),
            -UNIT as int,
            UNIT as int,
        ),
    }
}

/// The index that is drawn in elevation mode for the cell at `(x, y)`, for
/// which the elevation noise gave `samples`.
pub fn get_elevation_tile_index(
    samples: &Vec<Fixed>,
    x: u32,
    y: u32,
    config: &Settings,
    texture_tileset: &TextureTileSet,
    shape_generator: &ShapeGenerator,
) -> (r: Result<usize, ConfigError>)
    requires
        texture_tileset.wf(),
        shape_generator.wf(),
    ensures
        r == elevation_index_spec(samples@, x, y, *config, texture_tileset.rows(), *shape_generator),
{
    match find_fault(config, shape_generator, config.shaped_world) {
        Err(e) => Err(e),
        Ok(_) => {
            let mut tile = Tile::default();
            ElevationGenerator.apply(&mut tile, samples, config);
            ElevationShapeGenerator.apply(&mut tile, x, y, config, shape_generator);
            tile_index(texture_tileset, "Elevation", tile.elevation, -UNIT, UNIT)
        },
    }
}

/// The index that is drawn for a temperature: what validation finds wrong
/// with the settings, or the tile of the biome "Temperature" that stands
/// for the temperature within the range of temperatures.
pub open spec fn temperature_index_spec(
    samples: Seq<Fixed>,
    lat_cos: Fixed,
    config: Settings,
    rows: Seq<Row>,
) -> Result<usize, ConfigError> {
    match config.fault() {
        Some(e) => Err(e),
        None => index_in_biome(
            rows,
            "Temperature"@,
            temperature_spec(config, config.temperature_gen.perlin.fractal_spec(samples), lat_cos as int),
            config.temperature_range().0,
            config.temperature_range().1,
        ),
    }
}

/// The index that is drawn in temperature mode for a cell for which the
/// temperature noise gave `samples` and whose latitude has the cosine
/// `lat_cos`.
pub fn get_temperature_tile_index(
    samples: &Vec<Fixed>,
    lat_cos: Fixed,
    config: &Settings,
    texture_tileset: &TextureTileSet,
) -> (r: Result<usize, ConfigError>)
    requires
        texture_tileset.wf(),
    ensures
        r == temperature_index_spec(samples@, lat_cos, *config, texture_tileset.rows()),
{
    match config.validate() {
        Err(e) => Err(e),
        Ok(_) => {
            let range = TemperatureGenerator::get_min_max(config);
            let temperature = TemperatureGenerator.get_value(samples, lat_cos, config);
            tile_index(texture_tileset, "Temperature", temperature, range[0], range[1])
        },
    }
}

/// The index that is drawn for the world shape: what keeps the pass from
/// running, or the tile of the biome "Elevation" that stands for the mask
/// within `[-1, 1]`.
pub open spec fn world_shape_index_spec(
    x: u32,
    y: u32,
    config: Settings,
    rows: Seq<Row>,
    shape: ShapeGenerator,
) -> Result<usize, ConfigError> {
    match pass_fault(config, shape, true) {
        Some(e) => Err(e),
        None => index_in_biome(
            rows,
            "Elevation"@,
            shape.generate_spec(config, x, y),
            -UNIT as int,
            UNIT as int,
        ),
    }
}

/// The index that is drawn in world-shape mode for the cell at `(x, y)`.
pub fn get_world_shape_tile_index(
    x: u32,
    y: u32,
    config: &Settings,
    texture_tileset: &TextureTileSet,
    shape_generator: &ShapeGenerator,
) -> (r: Result<usize, ConfigError>)
    requires
        texture_tileset.wf(),
        shape_generator.wf(),
    ensures
        r == world_shape_index_spec(x, y, *config, texture_tileset.rows(), *shape_generator),
{
    match find_fault(config, shape_generator, true) {
        Err(e) => Err(e),
        Ok(_) => {
            let value = shape_generator.generate(x, y, config);
            tile_index(texture_tileset, "Elevation", value, -UNIT, UNIT)
        },
    }
}

/// The index that is drawn for the cell at `(x, y)` with the tile `tile`,
/// in the mode of `config`.
pub open spec fn cell_index_spec(
    tile: Tile,
    x: u32,
    y: u32,
    config: Settings,
    rows: Seq<Row>,
    shape: ShapeGenerator,
) -> Result<usize, ConfigError> {
    match config.mode {
        MapMode::Elevation => index_in_biome(
            rows,
            "Elevation"@,
            tile.elevation as int,
            -UNIT as int,
            UNIT as int,
        ),
        MapMode::Temperature => index_in_biome(
            rows,
            "Temperature"@,
            tile.temperature as int,
            config.temperature_range().0,
            config.temperature_range().1,
        ),
        MapMode::WorldShapeMode => index_in_biome(
            rows,
            "Elevation"@,
            shape.generate_spec(config, x, y),
            -UNIT as int,
            UNIT as int,
        ),
    }
}

/// The name of the biome whose tiles are drawn in `mode`.
pub open spec fn drawn_biome(mode: MapMode) -> Seq<char> {
    match mode {
        MapMode::Elevation => "Elevation"@,
        MapMode::Temperature => "Temperature"@,
        MapMode::WorldShapeMode => "Elevation"@,
    }
}

/// What keeps the tiles `tiles` from being drawn, the first of: what
/// validation finds wrong with the settings; in world-shape mode a stale
/// shape; tiles of another size than the grid; and what keeps values from
/// being classified into the biome that is drawn.
pub open spec fn draw_fault(
    tiles: TileMatrixResource,
    config: Settings,
    rows: Seq<Row>,
    shape: ShapeGenerator,
) -> Option<ConfigError> {
    match pass_fault(config, shape, config.mode is WorldShapeMode) {
        Some(e) => Some(e),
        None => if tiles.columns() != config.width || tiles.rows() != config.height {
            Some(ConfigError::StaleTiles)
        } else {
            biome_fault(rows, drawn_biome(config.mode))
        },
    }
}

fn cell_index(
    tile: &Tile,
    x: u32,
    y: u32,
    config: &Settings,
    texture_tileset: &TextureTileSet,
    shape: &ShapeGenerator,
) -> (r: Result<usize, ConfigError>)
    requires
        texture_tileset.wf(),
        shape.wf(),
        pass_fault(*config, *shape, config.mode is WorldShapeMode) is None,
    ensures
        r == cell_index_spec(*tile, x, y, *config, texture_tileset.rows(), *shape),
{
    match config.mode {
        MapMode::Elevation => tile_index(texture_tileset, "Elevation", tile.elevation, -UNIT, UNIT),
        MapMode::Temperature => {
            let range = TemperatureGenerator::get_min_max(config);
            tile_index(texture_tileset, "Temperature", tile.temperature, range[0], range[1])
        },
        MapMode::WorldShapeMode => {
            let value = shape.generate(x, y, config);
            tile_index(texture_tileset, "Elevation", value, -UNIT, UNIT)
        },
    }
}

proof fn lemma_earlier_row(i: int, j: int, width: int, y: int)
    requires
        0 <= i < width,
        0 <= j < y,
    ensures
        0 <= j * width + i < y * width,
{
    assert(0 <= j * width && j * width + width <= y * width) by (nonlinear_arith)
        requires
            0 <= j,
            j + 1 <= y,
            0 <= width,
    ;
}

/// The indices that are drawn for `tiles`, row after row: for the cell at
/// `(x, y)` the one at `y * width + x`. Where anything keeps a cell from
/// being drawn, nothing is drawn.
pub fn draw_map(
    tiles: &TileMatrixResource,
    config: &Settings,
    texture_tileset: &TextureTileSet,
    shape_generator: &ShapeGenerator,
) -> (r: Result<Vec<usize>, ConfigError>)
    requires
        tiles.wf(),
        texture_tileset.wf(),
        shape_generator.wf(),
    ensures
        match r {
            Ok(indices) => {
                &&& draw_fault(*tiles, *config, texture_tileset.rows(), *shape_generator) is None
                &&& indices@.len() == config.width * config.height
                &&& forall|x: int, y: int|
                    0 <= x < config.width && 0 <= y < config.height ==> cell_index_spec(
                        tiles.tile_at(x, y),
                        x as u32,
                        y as u32,
                        *config,
                        texture_tileset.rows(),
                        *shape_generator,
                    ) == Ok::<usize, ConfigError>(#[trigger] indices@[y * config.width + x])
            },
            Err(e) => draw_fault(*tiles, *config, texture_tileset.rows(), *shape_generator) == Some(e),
        },
{
    let reads_shape = match config.mode {
        MapMode::WorldShapeMode => true,
        _ => false,
    };
    match find_fault(config, shape_generator, reads_shape) {
        Err(e) => {
            return Err(e);
        },
        Ok(_) => {},
    }
    let width: usize = tiles.width();
    let height: usize = tiles.height();
    if width != config.width as usize || height != config.height as usize {
        return Err(ConfigError::StaleTiles);
    }
    let ghost rows = texture_tileset.rows();
    let mut indices: Vec<usize> = Vec::new();
    let mut y: usize = 0;
    while y < height
        invariant
            tiles.wf(),
            texture_tileset.wf(),
            shape_generator.wf(),
            rows == texture_tileset.rows(),
            pass_fault(*config, *shape_generator, config.mode is WorldShapeMode) is None,
            width == config.width == tiles.columns(),
            height == config.height == tiles.rows(),
            width >= 1,
            height >= 1,
            y <= height,
            indices@.len() == y * width,
            forall|i: int, j: int|
                0 <= i < width && 0 <= j < y ==> cell_index_spec(
                    tiles.tile_at(i, j),
                    i as u32,
                    j as u32,
                    *config,
                    rows,
                    *shape_generator,
                ) == Ok::<usize, ConfigError>(#[trigger] indices@[j * width + i]),
        decreases height - y,
    {
        let mut x: usize = 0;
        while x < width
            invariant
                tiles.wf(),
                texture_tileset.wf(),
                shape_generator.wf(),
                rows == texture_tileset.rows(),
                pass_fault(*config, *shape_generator, config.mode is WorldShapeMode) is None,
                width == config.width == tiles.columns(),
                height == config.height == tiles.rows(),
                width >= 1,
                height >= 1,
                y < height,
                x <= width,
                indices@.len() == y * width + x,
                forall|i: int, j: int|
                    0 <= i < width && 0 <= j < y ==> cell_index_spec(
                        tiles.tile_at(i, j),
                        i as u32,
                        j as u32,
                        *config,
                        rows,
                        *shape_generator,
                    ) == Ok::<usize, ConfigError>(#[trigger] indices@[j * width + i]),
                forall|i: int|
                    0 <= i < x ==> cell_index_spec(
                        tiles.tile_at(i, y as int),
                        i as u32,
                        y as u32,
                        *config,
                        rows,
                        *shape_generator,
                    ) == Ok::<usize, ConfigError>(#[trigger] indices@[y * width + i]),
            decreases width - x,
        {
            let tile = tiles.tile(x, y);
            let found = cell_index(tile, x as u32, y as u32, config, texture_tileset, shape_generator);
            match found {
                Err(e) => {
                    return Err(e);
                },
                Ok(index) => {
                    let ghost before = indices@;
                    indices.push(index);
                    proof {
                        assert forall|i: int, j: int| 0 <= i < width && 0 <= j < y implies cell_index_spec(
                            tiles.tile_at(i, j),
                            i as u32,
                            j as u32,
                            *config,
                            rows,
                            *shape_generator,
                        ) == Ok::<usize, ConfigError>(#[trigger] indices@[j * width + i]) by {
                            lemma_earlier_row(i, j, width as int, y as int);
                            assert(indices@[j * width + i] == before[j * width + i]);
                        }
                    }
                },
            }
            x = x + 1;
        }
        proof {
            assert((y + 1) * width == y * width + width) by (nonlinear_arith);
            assert forall|i: int, j: int| 0 <= i < width && 0 <= j < y + 1 implies cell_index_spec(
                tiles.tile_at(i, j),
                i as u32,
                j as u32,
                *config,
                rows,
                *shape_generator,
            ) == Ok::<usize, ConfigError>(#[trigger] indices@[j * width + i]) by {
                if j == y {
                    assert(indices@[y * width + i] == indices@[j * width + i]);
                }
            }
        }
        y = y + 1;
    }
    proof {
        assert(height * width == config.width * config.height) by (nonlinear_arith)
            requires
                width == config.width,
                height == config.height,
        ;
        lemma_earlier_row(0, 0, width as int, height as int);
        assert(cell_index_spec(tiles.tile_at(0, 0), 0, 0, *config, rows, *shape_generator) == Ok::<
            usize,
            ConfigError,
        >(indices@[0 * width + 0]));
    }
    Ok(indices)
}

/// Drawing the tile that `generate_tile` makes gives, in elevation mode,
/// the index that `get_elevation_tile_index` gives.
pub proof fn law_elevation_paths_agree(
    samples: Seq<Fixed>,
    temperature_samples: Seq<Fixed>,
    lat_cos: Fixed,
    x: u32,
    y: u32,
    config: Settings,
    rows: Seq<Row>,
    shape: ShapeGenerator,
)
    requires
        config.mode is Elevation,
    ensures
        generate_tile_spec(x, y, samples, temperature_samples, lat_cos, config, shape) matches Ok(tile)
            ==> cell_index_spec(tile, x, y, config, rows, shape) == elevation_index_spec(
            samples,
            x,
            y,
            config,
            rows,
            shape,
        ),
{
}

} // verus!
