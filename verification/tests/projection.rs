use worlds::fixed::UNIT;
use worlds::settings::Settings;
use worlds::utils::{lonlat_to_xy, xy_to_lonlat, LAT_MAX, LON_MAX};

fn grid(width: u32, height: u32) -> Settings {
    let mut settings = Settings::with_seeds(1, (0, 0), 2, (0, 0));
    settings.width = width;
    settings.height = height;
    settings
}

#[test]
fn corners_project_to_the_ends_of_the_globe() {
    let settings = grid(5, 3);
    assert_eq!(xy_to_lonlat(&settings, 0, 0), (-180 * UNIT, -90 * UNIT));
    assert_eq!(xy_to_lonlat(&settings, 4, 2), (180 * UNIT, 90 * UNIT));
    assert_eq!(xy_to_lonlat(&settings, 2, 1), (0, 0));
    assert_eq!(xy_to_lonlat(&settings, 1, 0), (-90 * UNIT, -90 * UNIT));
    assert_eq!(LON_MAX, 180 * UNIT);
    assert_eq!(LAT_MAX, 90 * UNIT);
}

#[test]
fn projection_rounds_down() {
    let settings = grid(4, 4);
    // 1 / 3 of 360 degrees is 120, 1 / 3 of 180 is 60
    assert_eq!(xy_to_lonlat(&settings, 1, 1), (-60 * UNIT, -30 * UNIT));
    let settings = grid(8, 8);
    // 1 / 7 of 360 degrees is 51.428571428 and four sevenths of a billionth
    assert_eq!(xy_to_lonlat(&settings, 1, 0).0, 51_428_571_428 - 180 * UNIT);
}

#[test]
fn an_axis_of_one_cell_lies_at_zero_degrees() {
    assert_eq!(xy_to_lonlat(&grid(1, 1), 0, 0), (0, 0));
    assert_eq!(xy_to_lonlat(&grid(1, 9), 0, 8), (0, 90 * UNIT));
    assert_eq!(xy_to_lonlat(&grid(0, 0), 3, 3), (0, 0));
    assert_eq!(lonlat_to_xy(&grid(1, 1), 77 * UNIT, -12 * UNIT), (0, 0));
    assert_eq!(lonlat_to_xy(&grid(0, 0), 77 * UNIT, -12 * UNIT), (0, 0));
}

#[test]
fn the_inverse_projection_rounds_towards_zero() {
    let settings = grid(5, 3);
    assert_eq!(lonlat_to_xy(&settings, -180 * UNIT, -90 * UNIT), (0, 0));
    assert_eq!(lonlat_to_xy(&settings, 180 * UNIT, 90 * UNIT), (4, 2));
    assert_eq!(lonlat_to_xy(&settings, 0, 0), (2, 1));
    // just short of the next cell
    assert_eq!(lonlat_to_xy(&settings, -1, -1), (1, 0));
    // beyond the globe
    assert_eq!(lonlat_to_xy(&settings, -200 * UNIT, -100 * UNIT), (0, 0));
    assert_eq!(lonlat_to_xy(&settings, 270 * UNIT, 180 * UNIT), (5, 3));
}

#[test]
fn the_projection_round_trip_loses_at_most_one_cell() {
    for (width, height) in [(1, 1), (2, 2), (4, 4), (7, 5), (500, 500), (1000, 3)] {
        let settings = grid(width, height);
        for x in 0..width {
            for y in [0, height / 2, height - 1] {
                let (lon, lat) = xy_to_lonlat(&settings, x, y);
                assert!(-LON_MAX <= lon && lon <= LON_MAX);
                assert!(-LAT_MAX <= lat && lat <= LAT_MAX);
                let (bx, by) = lonlat_to_xy(&settings, lon, lat);
                assert!(bx == x || bx + 1 == x, "{x} came back as {bx} on {width}");
                assert!(by == y || by + 1 == y, "{y} came back as {by} on {height}");
            }
        }
    }
}

#[test]
fn the_projection_round_trip_holds_on_the_widest_grid() {
    let settings = grid(u32::MAX, u32::MAX);
    for x in [0, 1, 2, 110, 1_000_000, u32::MAX / 2, u32::MAX - 2, u32::MAX - 1] {
        let (lon, lat) = xy_to_lonlat(&settings, x, x);
        let (bx, by) = lonlat_to_xy(&settings, lon, lat);
        assert!(bx == x || bx + 1 == x);
        assert!(by == x || by + 1 == x);
    }
}

#[test]
fn the_round_trip_is_exact_where_the_angle_is() {
    let settings = grid(5, 3);
    for x in 0..5 {
        for y in 0..3 {
            let (lon, lat) = xy_to_lonlat(&settings, x, y);
            assert_eq!(lonlat_to_xy(&settings, lon, lat), (x, y));
        }
    }
}
