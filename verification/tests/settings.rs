use worlds::fixed::UNIT;
use worlds::settings::{
    ConfigError, MapMode, PerlinConfiguration, Settings, WorldShapeEnum, WorldShapeGeneration, OFFSET_BOUND,
};

fn fresh() -> Settings {
    Settings::with_seeds(11, (3 * UNIT, -4 * UNIT), 22, (5 * UNIT, 6 * UNIT))
}

#[test]
fn fresh_settings_have_their_fixed_values() {
    let settings = fresh();
    assert_eq!((settings.width, settings.height), (500, 500));
    assert_eq!(settings.tile_size, (50 * UNIT, 58 * UNIT));
    assert!(settings.elevation);
    assert!(!settings.temperature);
    assert_eq!(settings.temperature_factor, 400_000_000);
    assert!(matches!(settings.mode, MapMode::WorldShapeMode));
    assert!(settings.shaped_world);
    assert_eq!(settings.sea_level, 50_000_000);
    let elevation = settings.elevation_gen;
    assert_eq!(elevation.seed, 11);
    assert_eq!(elevation.noise_scale, 100 * UNIT);
    assert_eq!(elevation.octaves, 4);
    assert_eq!(elevation.lacunarity, 2_500_000_000);
    assert_eq!(elevation.persistance, 500_000_000);
    assert_eq!(elevation.offset, (3 * UNIT, -4 * UNIT));
    let temperature = settings.temperature_gen;
    assert_eq!(temperature.perlin.seed, 22);
    assert_eq!(temperature.perlin.noise_scale, 200 * UNIT);
    assert_eq!(temperature.perlin.octaves, 3);
    assert_eq!(temperature.perlin.lacunarity, 4 * UNIT);
    assert_eq!(temperature.perlin.persistance, 300_000_000);
    assert_eq!(temperature.perlin.offset, (5 * UNIT, 6 * UNIT));
    assert_eq!(temperature.scale_lat_factor, 40 * UNIT);
    assert_eq!(temperature.noise_factor, 20 * UNIT);
}

#[test]
fn the_fresh_world_shape_has_two_continents() {
    let shape = WorldShapeGeneration::default();
    assert!(matches!(shape.shape, WorldShapeEnum::Continents));
    assert_eq!(shape.shape_factor, 1_100_000_000);
    assert_eq!(shape.shape_radius, 200 * UNIT);
    assert_eq!(shape.count_continent, 2);
    let settings = fresh();
    assert!(matches!(settings.world_shape.shape, WorldShapeEnum::Continents));
    assert_eq!(settings.world_shape.shape_factor, 1_100_000_000);
    assert_eq!(settings.world_shape.shape_radius, 200 * UNIT);
    assert_eq!(settings.world_shape.count_continent, 2);
}

#[test]
fn default_settings_draw_whole_offsets_within_their_bounds() {
    for _ in 0..32 {
        let settings = Settings::default();
        let drawn = [
            settings.elevation_gen.offset.0,
            settings.elevation_gen.offset.1,
            settings.temperature_gen.perlin.offset.0,
            settings.temperature_gen.perlin.offset.1,
        ];
        for offset in drawn {
            assert_eq!(offset % UNIT, 0);
            assert!(-OFFSET_BOUND <= offset / UNIT && offset / UNIT < OFFSET_BOUND);
        }
        let same = Settings::with_seeds(
            settings.elevation_gen.seed,
            settings.elevation_gen.offset,
            settings.temperature_gen.perlin.seed,
            settings.temperature_gen.perlin.offset,
        );
        assert_eq!(format!("{settings:?}"), format!("{same:?}"));
        assert_eq!(settings.validate(), Ok(()));
    }
    assert_eq!(OFFSET_BOUND, 100_000);
}

#[test]
fn default_settings_differ_from_draw_to_draw() {
    let drawn: Vec<Settings> = (0..32).map(|_| Settings::default()).collect();
    let first = drawn[0].elevation_gen;
    assert!(drawn.iter().any(|settings| settings.elevation_gen.offset.0 != first.offset.0));
    assert!(drawn.iter().any(|settings| settings.elevation_gen.seed != first.seed));
    assert!(drawn.iter().any(|settings| settings.elevation_gen.offset.0 != -OFFSET_BOUND * UNIT));
    assert!(drawn.iter().any(|settings| settings.elevation_gen.offset.0 != (OFFSET_BOUND - 1) * UNIT));
}

#[test]
fn fresh_settings_are_valid() {
    assert_eq!(fresh().validate(), Ok(()));
}

#[test]
fn an_empty_grid_is_refused() {
    let mut settings = fresh();
    settings.width = 0;
    assert_eq!(settings.validate(), Err(ConfigError::EmptyGrid));
    settings.width = 4;
    settings.height = 0;
    assert_eq!(settings.validate(), Err(ConfigError::EmptyGrid));
    settings.height = 1;
    settings.width = 1;
    assert_eq!(settings.validate(), Ok(()));
}

#[test]
fn a_degenerate_noise_scale_is_refused() {
    let mut settings = fresh();
    settings.elevation_gen.noise_scale = 0;
    assert_eq!(settings.validate(), Err(ConfigError::DegenerateNoiseScale));
    settings.elevation_gen.noise_scale = -UNIT;
    assert_eq!(settings.validate(), Err(ConfigError::DegenerateNoiseScale));
    settings.elevation_gen.noise_scale = 1;
    assert_eq!(settings.validate(), Ok(()));
    settings.temperature_gen.perlin.noise_scale = 0;
    assert_eq!(settings.validate(), Err(ConfigError::DegenerateNoiseScale));
}

#[test]
fn negative_octaves_are_refused() {
    let mut settings = fresh();
    settings.elevation_gen.octaves = -1;
    assert_eq!(settings.validate(), Err(ConfigError::NegativeOctaves));
    settings.elevation_gen.octaves = 0;
    assert_eq!(settings.validate(), Ok(()));
    settings.temperature_gen.perlin.octaves = i32::MIN;
    assert_eq!(settings.validate(), Err(ConfigError::NegativeOctaves));
}

#[test]
fn a_degenerate_radius_is_refused_for_the_continents() {
    let mut settings = fresh();
    settings.world_shape.shape_radius = 0;
    assert_eq!(settings.validate(), Err(ConfigError::DegenerateShapeRadius));
    settings.world_shape.shape_radius = -UNIT;
    assert_eq!(settings.validate(), Err(ConfigError::DegenerateShapeRadius));
    settings.world_shape.shape = WorldShapeEnum::CenteredShape;
    assert_eq!(settings.validate(), Ok(()));
}

#[test]
fn a_degenerate_temperature_range_is_refused() {
    let mut settings = fresh();
    settings.temperature_gen.scale_lat_factor = 0;
    settings.temperature_gen.noise_factor = 0;
    assert_eq!(settings.validate(), Err(ConfigError::DegenerateTemperatureRange));
    settings.temperature_gen.noise_factor = -UNIT;
    assert_eq!(settings.validate(), Err(ConfigError::DegenerateTemperatureRange));
    settings.temperature_gen.noise_factor = 1;
    assert_eq!(settings.validate(), Ok(()));
}

#[test]
fn the_first_fault_is_reported() {
    let mut settings = fresh();
    settings.temperature_gen.scale_lat_factor = 0;
    settings.temperature_gen.noise_factor = 0;
    assert_eq!(settings.validate(), Err(ConfigError::DegenerateTemperatureRange));
    settings.world_shape.shape_radius = 0;
    assert_eq!(settings.validate(), Err(ConfigError::DegenerateShapeRadius));
    settings.temperature_gen.perlin.octaves = -1;
    assert_eq!(settings.validate(), Err(ConfigError::NegativeOctaves));
    settings.temperature_gen.perlin.noise_scale = 0;
    assert_eq!(settings.validate(), Err(ConfigError::DegenerateNoiseScale));
    settings.height = 0;
    assert_eq!(settings.validate(), Err(ConfigError::EmptyGrid));
}

#[test]
fn a_noise_field_is_validated_by_itself() {
    let mut field = PerlinConfiguration {
        seed: 1,
        noise_scale: 10 * UNIT,
        octaves: 1,
        lacunarity: 2 * UNIT,
        persistance: UNIT / 2,
        offset: (0, 0),
    };
    assert_eq!(field.validate(), Ok(()));
    field.octaves = -1;
    assert_eq!(field.validate(), Err(ConfigError::NegativeOctaves));
    field.noise_scale = 0;
    assert_eq!(field.validate(), Err(ConfigError::DegenerateNoiseScale));
}
