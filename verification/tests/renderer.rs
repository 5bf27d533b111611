use worlds::fixed::UNIT;
use worlds::generator::{TileElevation, TileTemperature};
use worlds::renderer::{
    color_of, elevation_palette, temperature_palette, ElevationMapRenderer, TemperatureMapRenderer, WHITE,
};
use worlds::settings::{ConfigError, Settings};
use worlds::tile::Tile;
use worlds::tileset::{Biome, TextureTileSet, TILE_ROOM};

fn both() -> TextureTileSet {
    let tiles = |count: usize| -> Option<Vec<(String, [u8; 3])>> {
        Some((0..count).map(|i| (format!("t{i}"), [0, 0, 0])).collect())
    };
    let biomes = vec![
        Biome { name: "Elevation".to_string(), tiles: tiles(10) },
        Biome { name: "Temperature".to_string(), tiles: tiles(5) },
    ];
    TextureTileSet::from_biomes(&biomes, TILE_ROOM).unwrap()
}

#[test]
fn the_palettes_have_their_stops() {
    let elevation = elevation_palette();
    assert_eq!(elevation.len(), 17);
    assert_eq!(elevation[0], (89, 127, 198));
    assert_eq!(elevation[16], (211, 88, 31));
    let temperature = temperature_palette();
    assert_eq!(temperature.len(), 13);
    assert_eq!(temperature[0], (124, 64, 255));
    assert_eq!(temperature[12], (121, 29, 30));
}

#[test]
fn a_colour_is_that_of_the_first_stop_not_below_the_value() {
    let stops = vec![(0, 0, 0), (1, 1, 1), (2, 2, 2), (3, 3, 3)];
    assert_eq!(color_of(&stops, 0), (1, 1, 1));
    assert_eq!(color_of(&stops, -UNIT), (1, 1, 1));
    assert_eq!(color_of(&stops, UNIT / 4), (1, 1, 1));
    assert_eq!(color_of(&stops, UNIT / 4 + 1), (2, 2, 2));
    assert_eq!(color_of(&stops, UNIT / 2), (2, 2, 2));
    assert_eq!(color_of(&stops, 3 * UNIT / 4), (3, 3, 3));
    assert_eq!(color_of(&stops, 3 * UNIT / 4 + 1), WHITE);
    assert_eq!(color_of(&stops, UNIT), WHITE);
    assert_eq!(color_of(&Vec::new(), 0), WHITE);
    assert_eq!(color_of(&vec![(9, 9, 9)], 0), WHITE);
    assert_eq!(WHITE, (255, 255, 255));
}

#[test]
fn elevations_get_their_colours() {
    let renderer = ElevationMapRenderer;
    assert_eq!(renderer.get_color(&TileElevation(-UNIT)), (83, 158, 216));
    assert_eq!(renderer.get_color(&TileElevation(-5 * UNIT)), (83, 158, 216));
    // half way: the first stop at or above 8.5 of 17
    assert_eq!(renderer.get_color(&TileElevation(0)), (224, 219, 177));
    // 0.94 of the way: below 16 of 17
    assert_eq!(renderer.get_color(&TileElevation(880_000_000)), (211, 88, 31));
    assert_eq!(renderer.get_color(&TileElevation(UNIT)), WHITE);
    assert_eq!(renderer.get_color(&TileElevation(5 * UNIT)), WHITE);
}

#[test]
fn temperatures_get_their_colours() {
    let renderer = TemperatureMapRenderer;
    let settings = Settings::with_seeds(1, (0, 0), 2, (0, 0));
    assert_eq!(renderer.get_color(&TileTemperature(-10 * UNIT), &settings), (59, 57, 230));
    // half way between -10 and 70: the first stop at or above 6.5 of 13
    assert_eq!(renderer.get_color(&TileTemperature(30 * UNIT), &settings), (254, 211, 66));
    assert_eq!(renderer.get_color(&TileTemperature(70 * UNIT), &settings), WHITE);
}

#[test]
fn tiles_are_drawn_by_their_fields() {
    let set = both();
    let settings = Settings::with_seeds(1, (0, 0), 2, (0, 0));
    let tile = Tile { elevation: UNIT, temperature: -10 * UNIT };
    assert_eq!(ElevationMapRenderer.get_tile_index(&tile, &set), Ok(9));
    assert_eq!(TemperatureMapRenderer.get_tile_index(&tile, &settings, &set), Ok(10));
    let tile = Tile { elevation: 0, temperature: 30 * UNIT };
    assert_eq!(ElevationMapRenderer.get_tile_index(&tile, &set), Ok(5));
    assert_eq!(TemperatureMapRenderer.get_tile_index(&tile, &settings, &set), Ok(12));
}

#[test]
fn a_degenerate_range_of_temperatures_is_reported() {
    let set = both();
    let mut settings = Settings::with_seeds(1, (0, 0), 2, (0, 0));
    settings.temperature_gen.scale_lat_factor = 0;
    settings.temperature_gen.noise_factor = 0;
    let tile = Tile::default();
    assert_eq!(
        TemperatureMapRenderer.get_tile_index(&tile, &settings, &set),
        Err(ConfigError::DegenerateTemperatureRange)
    );
    settings.temperature_gen.noise_factor = -UNIT;
    assert_eq!(
        TemperatureMapRenderer.get_tile_index(&tile, &settings, &set),
        Err(ConfigError::DegenerateTemperatureRange)
    );
}

#[test]
fn renderers_report_a_missing_biome() {
    let none = TextureTileSet::from_biomes(&Vec::new(), TILE_ROOM).unwrap();
    let settings = Settings::with_seeds(1, (0, 0), 2, (0, 0));
    let tile = Tile::default();
    assert_eq!(ElevationMapRenderer.get_tile_index(&tile, &none), Err(ConfigError::MissingBiome));
    assert_eq!(
        TemperatureMapRenderer.get_tile_index(&tile, &settings, &none),
        Err(ConfigError::MissingBiome)
    );
}
