use worlds::fixed::UNIT;
use worlds::sampler::MAX_PERLIN_SCALE;
use worlds::settings::PerlinConfiguration;

fn field(octaves: i32) -> PerlinConfiguration {
    PerlinConfiguration {
        seed: 1,
        noise_scale: 10 * UNIT,
        octaves,
        lacunarity: 2 * UNIT,
        persistance: UNIT / 2,
        offset: (UNIT, 2 * UNIT),
    }
}

#[test]
fn each_octave_samples_at_its_frequency() {
    // x / scale * lacunarity^o + offset
    assert_eq!(
        field(3).sample_points(10, 20),
        vec![(2 * UNIT, 4 * UNIT), (3 * UNIT, 6 * UNIT), (5 * UNIT, 10 * UNIT)]
    );
    assert_eq!(field(1).sample_points(0, 0), vec![(UNIT, 2 * UNIT)]);
    assert_eq!(field(1).sample_points(1, 3), vec![(UNIT + UNIT / 10, 2 * UNIT + 3 * UNIT / 10)]);
}

#[test]
fn the_offset_is_added_after_the_frequency() {
    let mut config = field(2);
    config.offset = (-100 * UNIT, 7 * UNIT);
    config.lacunarity = 2 * UNIT + UNIT / 2;
    assert_eq!(
        config.sample_points(4, 8),
        vec![(-100 * UNIT + 4 * UNIT / 10, 7 * UNIT + 8 * UNIT / 10), (-99 * UNIT, 9 * UNIT)]
    );
}

#[test]
fn a_field_without_octaves_samples_nowhere_and_stays_at_zero() {
    assert!(field(0).sample_points(10, 20).is_empty());
    assert!(field(-3).sample_points(10, 20).is_empty());
    assert_eq!(field(0).fractal_value(&vec![UNIT, UNIT]), 0);
    assert_eq!(field(-3).fractal_value(&vec![UNIT, UNIT]), 0);
    assert_eq!(field(0).octave_total(), 0);
    assert_eq!(field(-3).octave_total(), 0);
    assert_eq!(field(4).octave_total(), 4);
}

#[test]
fn samples_add_up_under_falling_weights() {
    // 0.5 + 0.5 * 0.5
    assert_eq!(field(2).fractal_value(&vec![UNIT / 2, UNIT / 2]), 750_000_000);
    // 1 + 1 * 0.5 + 1 * 0.25: not divided by the sum of the weights
    assert_eq!(field(3).fractal_value(&vec![UNIT, UNIT, UNIT]), 1_750_000_000);
    // -1 + 0.4 * 0.5 - 0.8 * 0.25
    assert_eq!(field(3).fractal_value(&vec![-UNIT, 400_000_000, -800_000_000]), -UNIT);
    assert_eq!(field(1).fractal_value(&vec![-123_456_789]), -123_456_789);
}

#[test]
fn samples_and_octaves_count_as_far_as_both_reach() {
    assert_eq!(field(2).fractal_value(&vec![UNIT / 2, UNIT / 2, UNIT]), 750_000_000);
    assert_eq!(field(4).fractal_value(&vec![UNIT / 2]), UNIT / 2);
    assert_eq!(field(4).fractal_value(&Vec::new()), 0);
}

#[test]
fn the_scale_is_kept_above_zero_and_below_its_ceiling() {
    let mut config = field(1);
    assert_eq!(config.sampling_scale(), 10 * UNIT);
    config.noise_scale = 0;
    assert_eq!(config.sampling_scale(), 1);
    config.noise_scale = -5 * UNIT;
    assert_eq!(config.sampling_scale(), 1);
    config.noise_scale = MAX_PERLIN_SCALE;
    assert_eq!(config.sampling_scale(), 100_000 * UNIT);
    config.noise_scale = MAX_PERLIN_SCALE + 1;
    assert_eq!(config.sampling_scale(), 100_000 * UNIT);
    config.noise_scale = 200_000 * UNIT;
    config.offset = (0, 0);
    assert_eq!(config.sample_points(100_000, 50_000), vec![(UNIT, UNIT / 2)]);
}

#[test]
fn sample_points_saturate() {
    let mut config = field(2);
    config.noise_scale = 0;
    config.offset = (UNIT, -UNIT);
    // a billion times the coordinate at the smallest scale
    assert_eq!(
        config.sample_points(1, 10),
        vec![(UNIT * UNIT + UNIT, i64::MAX - UNIT), (2 * UNIT * UNIT + UNIT, i64::MAX - UNIT)]
    );
}

#[test]
fn the_same_input_gives_the_same_field() {
    let config = field(4);
    let samples = vec![312_000_000, -45_000_000, 999_999_999, -1];
    assert_eq!(config.sample_points(17, 23), config.sample_points(17, 23));
    assert_eq!(config.fractal_value(&samples), config.fractal_value(&samples));
    // 0.312 - 0.045 * 0.5 + 0.999999999 * 0.25 - 0.000000001 * 0.125,
    // each product rounded down
    assert_eq!(config.fractal_value(&samples), 312_000_000 - 22_500_000 + 249_999_999 - 1);
}
