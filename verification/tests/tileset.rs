use worlds::fixed::UNIT;
use worlds::renderer::tile_index;
use worlds::settings::ConfigError;
use worlds::tileset::{
    ascending, classify, comes_before, seen_before, tiles_are_ordered, Biome, BiomeTileRange, LayoutError,
    TextureTileSet, TILE_ROOM,
};

fn biome(name: &str, tiles: Option<&[&str]>) -> Biome {
    let colour = |tile: &str| [tile.len() as u8, name.len() as u8, 3];
    Biome {
        name: name.to_string(),
        tiles: tiles.map(|names| names.iter().map(|tile| (tile.to_string(), colour(tile))).collect()),
    }
}

fn elevation_of(length: usize) -> TextureTileSet {
    let names: Vec<String> = (0..length).map(|i| format!("tile{i}")).collect();
    let names: Vec<&str> = names.iter().map(|name| name.as_str()).collect();
    TextureTileSet::from_biomes(&vec![biome("Elevation", Some(&names))], TILE_ROOM).unwrap()
}

#[test]
fn biomes_get_blocks_that_follow_one_another() {
    let biomes = vec![
        biome("Elevation", Some(&["deep", "shallow", "shore"])),
        biome("Temperature", Some(&["cold", "hot"])),
        biome("Desert", Some(&["sand"])),
    ];
    let set = TextureTileSet::from_biomes(&biomes, TILE_ROOM).unwrap();
    assert_eq!(set.biome_count(), 3);
    assert_eq!(set.biome_range("Elevation"), Ok(BiomeTileRange { start_index: 0, length: 3 }));
    assert_eq!(set.biome_range("Temperature"), Ok(BiomeTileRange { start_index: 3, length: 2 }));
    assert_eq!(set.biome_range("Desert"), Ok(BiomeTileRange { start_index: 5, length: 1 }));
}

#[test]
fn tiles_are_listed_in_the_order_of_their_indices() {
    let biomes = vec![
        biome("Elevation", Some(&["deep", "shallow", "shore"])),
        biome("Temperature", Some(&["cold", "hot"])),
    ];
    let set = TextureTileSet::from_biomes(&biomes, TILE_ROOM).unwrap();
    let listed: Vec<(usize, &str, &str)> = set
        .tileset()
        .iter()
        .map(|tile| (tile.index, tile.biome_name.as_str(), tile.tile_name.as_str()))
        .collect();
    assert_eq!(
        listed,
        vec![
            (0, "Elevation", "deep"),
            (1, "Elevation", "shallow"),
            (2, "Elevation", "shore"),
            (3, "Temperature", "cold"),
            (4, "Temperature", "hot"),
        ]
    );
}

#[test]
fn colours_are_listed_in_the_order_of_the_indices() {
    let biomes = vec![
        biome("Elevation", Some(&["deep", "shallow", "shore"])),
        biome("Void", None),
        biome("Elevation", Some(&["a", "b"])),
        biome("Temperature", Some(&["cold", "hot"])),
    ];
    let set = TextureTileSet::from_biomes(&biomes, TILE_ROOM).unwrap();
    assert_eq!(set.colors(), &vec![[4, 9, 3], [7, 9, 3], [5, 9, 3], [4, 11, 3], [3, 11, 3]]);
    assert_eq!(set.colors().len(), set.tileset().len());
    assert!(TextureTileSet::from_biomes(&Vec::new(), TILE_ROOM).unwrap().colors().is_empty());
}

#[test]
fn biomes_without_tiles_get_no_block() {
    let biomes = vec![
        biome("Elevation", Some(&["deep", "shallow"])),
        biome("Void", None),
        biome("Temperature", Some(&["cold"])),
    ];
    let set = TextureTileSet::from_biomes(&biomes, TILE_ROOM).unwrap();
    assert_eq!(set.biome_count(), 2);
    assert_eq!(set.biome_range("Void"), Err(ConfigError::MissingBiome));
    assert_eq!(set.biome_range("Temperature"), Ok(BiomeTileRange { start_index: 2, length: 1 }));
}

#[test]
fn a_biome_with_an_empty_list_of_tiles_gets_no_block() {
    let biomes = vec![
        biome("Elevation", Some(&["deep", "shallow"])),
        biome("Bare", Some(&[])),
        biome("Temperature", Some(&["cold"])),
    ];
    let set = TextureTileSet::from_biomes(&biomes, TILE_ROOM).unwrap();
    assert_eq!(set.biome_count(), 2);
    assert_eq!(set.biome_range("Bare"), Err(ConfigError::MissingBiome));
    assert_eq!(set.biome_range("Temperature"), Ok(BiomeTileRange { start_index: 2, length: 1 }));
    assert_eq!(set.tileset().len(), 3);
    let only = TextureTileSet::from_biomes(&vec![biome("Bare", Some(&[]))], TILE_ROOM).unwrap();
    assert_eq!(only.biome_count(), 0);
    assert!(only.tileset().is_empty());
    assert_eq!(only.biome_range("Bare"), Err(ConfigError::MissingBiome));
}

#[test]
fn every_block_holds_a_tile() {
    let biomes = vec![
        biome("A", Some(&[])),
        biome("B", Some(&["one"])),
        biome("C", None),
        biome("D", Some(&[])),
        biome("E", Some(&["one", "two"])),
    ];
    let set = TextureTileSet::from_biomes(&biomes, TILE_ROOM).unwrap();
    for name in ["A", "B", "C", "D", "E"] {
        if let Ok(range) = set.biome_range(name) {
            assert!(range.length >= 1);
        }
    }
    assert_eq!(set.biome_count(), 2);
}

#[test]
fn names_are_ordered_byte_by_byte() {
    let s = |text: &str| text.to_string();
    assert!(comes_before(&s("cold"), &s("hot")));
    assert!(!comes_before(&s("hot"), &s("cold")));
    assert!(!comes_before(&s("hot"), &s("hot")));
    assert!(comes_before(&s(""), &s("a")));
    assert!(!comes_before(&s("a"), &s("")));
    assert!(!comes_before(&s(""), &s("")));
    assert!(comes_before(&s("tile"), &s("tile0")));
    assert!(comes_before(&s("tile10"), &s("tile2")));
    assert!(comes_before(&s("Z"), &s("a")));
    assert!(comes_before(&s("z"), &s("é")));
    assert!(comes_before(&s("é"), &s("日")));
    for (a, b) in [("cold", "hot"), ("a", "ab"), ("", "x"), ("é", "日"), ("x", "x")] {
        assert_eq!(comes_before(&s(a), &s(b)), a < b);
        assert_eq!(comes_before(&s(b), &s(a)), b < a);
    }
}

#[test]
fn tiles_must_ascend_by_name() {
    let tiles = |names: &[&str]| biome("Elevation", Some(names)).tiles.unwrap();
    assert!(ascending(&tiles(&["deep", "shallow", "shore"])));
    assert!(ascending(&tiles(&["only"])));
    assert!(ascending(&tiles(&[])));
    assert!(!ascending(&tiles(&["shallow", "deep"])));
    assert!(!ascending(&tiles(&["deep", "shore", "shallow"])));
    assert!(!ascending(&tiles(&["deep", "deep"])));
    let sorted =
        vec![biome("Elevation", Some(&["deep", "shallow"])), biome("Temperature", Some(&["cold", "hot"]))];
    assert!(tiles_are_ordered(&sorted));
    assert!(TextureTileSet::from_biomes(&sorted, TILE_ROOM).is_ok());
    let unsorted =
        vec![biome("Elevation", Some(&["deep", "shallow"])), biome("Temperature", Some(&["hot", "cold"]))];
    assert!(!tiles_are_ordered(&unsorted));
    assert_eq!(TextureTileSet::from_biomes(&unsorted, TILE_ROOM).err(), Some(LayoutError::UnorderedTiles));
    // the order comes before the room
    assert_eq!(TextureTileSet::from_biomes(&unsorted, 0).err(), Some(LayoutError::UnorderedTiles));
    // a biome that gets no block may list its tiles as it likes
    let passed_over =
        vec![biome("Elevation", Some(&["deep", "shallow"])), biome("Elevation", Some(&["b", "a"]))];
    assert!(tiles_are_ordered(&passed_over));
    assert!(TextureTileSet::from_biomes(&passed_over, TILE_ROOM).is_ok());
}

#[test]
fn of_biomes_with_one_name_the_first_counts() {
    let biomes = vec![
        biome("Elevation", Some(&["deep", "shallow"])),
        biome("Elevation", Some(&["a", "b", "c", "d"])),
        biome("Temperature", Some(&["cold"])),
        biome("Void", None),
        biome("Void", Some(&["late"])),
    ];
    let set = TextureTileSet::from_biomes(&biomes, TILE_ROOM).unwrap();
    assert_eq!(set.biome_count(), 2);
    assert_eq!(set.biome_range("Elevation"), Ok(BiomeTileRange { start_index: 0, length: 2 }));
    assert_eq!(set.biome_range("Temperature"), Ok(BiomeTileRange { start_index: 2, length: 1 }));
    assert_eq!(set.biome_range("Void"), Err(ConfigError::MissingBiome));
    assert_eq!(set.tileset().len(), 3);
    assert!(!seen_before(&biomes, 0));
    assert!(seen_before(&biomes, 1));
    assert!(!seen_before(&biomes, 2));
    assert!(!seen_before(&biomes, 3));
    assert!(seen_before(&biomes, 4));
}

#[test]
fn more_tiles_than_there_is_room_for_are_refused() {
    let biomes = vec![
        biome("Elevation", Some(&["deep", "shallow", "shore"])),
        biome("Void", None),
        biome("Elevation", Some(&["a", "b", "c", "d"])),
        biome("Temperature", Some(&["cold", "hot"])),
    ];
    // five tiles: the biome without tiles and the second of a name have none
    assert!(TextureTileSet::from_biomes(&biomes, 5).is_ok());
    assert!(TextureTileSet::from_biomes(&biomes, usize::MAX).is_ok());
    assert_eq!(TextureTileSet::from_biomes(&biomes, 4).err(), Some(LayoutError::TooManyTiles));
    assert_eq!(TextureTileSet::from_biomes(&biomes, 2).err(), Some(LayoutError::TooManyTiles));
    assert_eq!(TextureTileSet::from_biomes(&biomes, 0).err(), Some(LayoutError::TooManyTiles));
    assert!(TextureTileSet::from_biomes(&Vec::new(), 0).is_ok());
    assert_eq!(TILE_ROOM, 50);
    let names: Vec<String> = (10..61).map(|i| format!("tile{i}")).collect();
    let names: Vec<&str> = names.iter().map(|name| name.as_str()).collect();
    assert!(TextureTileSet::from_biomes(&vec![biome("Elevation", Some(&names[..50]))], TILE_ROOM).is_ok());
    assert_eq!(
        TextureTileSet::from_biomes(&vec![biome("Elevation", Some(&names))], TILE_ROOM).err(),
        Some(LayoutError::TooManyTiles)
    );
}

#[test]
fn no_biomes_give_an_empty_tile_set() {
    let set = TextureTileSet::from_biomes(&Vec::new(), TILE_ROOM).unwrap();
    assert_eq!(set.biome_count(), 0);
    assert!(set.tileset().is_empty());
    assert_eq!(set.biome_range("Elevation"), Err(ConfigError::MissingBiome));
}

#[test]
fn a_missing_biome_is_reported() {
    let set = elevation_of(10);
    assert_eq!(set.biome_range("Nonexistent"), Err(ConfigError::MissingBiome));
    assert_eq!(set.biome_range("elevation"), Err(ConfigError::MissingBiome));
    assert_eq!(set.biome_range(""), Err(ConfigError::MissingBiome));
    assert_eq!(tile_index(&set, "Nonexistent", 0, -UNIT, UNIT), Err(ConfigError::MissingBiome));
}

#[test]
fn a_biome_without_a_tile_is_reported_as_missing() {
    let set = TextureTileSet::from_biomes(&vec![biome("Elevation", Some(&[]))], TILE_ROOM).unwrap();
    assert_eq!(tile_index(&set, "Elevation", 0, -UNIT, UNIT), Err(ConfigError::MissingBiome));
}

#[test]
fn values_are_classified_into_the_block_of_a_biome() {
    let range = BiomeTileRange { start_index: 0, length: 10 };
    assert_eq!(classify(-UNIT, -UNIT, UNIT, range), 0);
    // 4.5, rounded away from zero
    assert_eq!(classify(0, -UNIT, UNIT, range), 5);
    assert_eq!(classify(-1, -UNIT, UNIT, range), 4);
    assert_eq!(classify(UNIT, -UNIT, UNIT, range), 9);
    let range = BiomeTileRange { start_index: 5, length: 3 };
    assert_eq!(classify(0, 0, UNIT, range), 5);
    assert_eq!(classify(UNIT / 4 - 1, 0, UNIT, range), 5);
    assert_eq!(classify(UNIT / 4, 0, UNIT, range), 6);
    assert_eq!(classify(UNIT / 2, 0, UNIT, range), 6);
    assert_eq!(classify(3 * UNIT / 4, 0, UNIT, range), 7);
    assert_eq!(classify(UNIT, 0, UNIT, range), 7);
}

#[test]
fn classified_values_stay_in_the_block() {
    let range = BiomeTileRange { start_index: 7, length: 4 };
    let values =
        [i64::MIN, -40 * UNIT, -10 * UNIT - 1, -10 * UNIT, 0, 30 * UNIT, 70 * UNIT, 70 * UNIT + 1, i64::MAX];
    for value in values {
        let index = classify(value, -10 * UNIT, 70 * UNIT, range);
        assert!(7 <= index && index <= 10);
    }
    assert_eq!(classify(i64::MIN, -10 * UNIT, 70 * UNIT, range), 7);
    assert_eq!(classify(i64::MAX, -10 * UNIT, 70 * UNIT, range), 10);
    let single = BiomeTileRange { start_index: 3, length: 1 };
    assert_eq!(classify(-5, -10, 10, single), 3);
    assert_eq!(classify(9, -10, 10, single), 3);
    let last = BiomeTileRange { start_index: usize::MAX - 1, length: 2 };
    assert_eq!(classify(10, -10, 10, last), usize::MAX);
    assert_eq!(classify(-10, -10, 10, last), usize::MAX - 1);
}

#[test]
fn classification_grows_with_the_value() {
    let range = BiomeTileRange { start_index: 2, length: 9 };
    let mut before = 2;
    for step in -120..=120 {
        let index = classify(step * UNIT / 100, -UNIT, UNIT, range);
        assert!(before <= index);
        before = index;
    }
    assert_eq!(before, 10);
}

#[test]
fn a_tile_index_is_looked_up_by_the_name_of_the_biome() {
    let biomes = vec![
        biome("Elevation", Some(&["deep", "shallow", "shore"])),
        biome("Temperature", Some(&["cold", "hot", "mild", "warm"])),
    ];
    let set = TextureTileSet::from_biomes(&biomes, TILE_ROOM).unwrap();
    assert_eq!(tile_index(&set, "Elevation", UNIT, -UNIT, UNIT), Ok(2));
    assert_eq!(tile_index(&set, "Temperature", -10 * UNIT, -10 * UNIT, 70 * UNIT), Ok(3));
    assert_eq!(tile_index(&set, "Temperature", 70 * UNIT, -10 * UNIT, 70 * UNIT), Ok(6));
    assert_eq!(tile_index(&set, "Temperature", 30 * UNIT, -10 * UNIT, 70 * UNIT), Ok(5));
}
