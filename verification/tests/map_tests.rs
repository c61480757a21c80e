use image::{DynamicImage, Rgba, RgbaImage};
use worldview::fixmath::SCALE;
use worldview::map::{MapBounds, MapPieceKey, WorldMap};

fn solid(w: u32, h: u32, rgba: [u8; 4]) -> DynamicImage {
    DynamicImage::ImageRgba8(RgbaImage::from_pixel(w, h, Rgba(rgba)))
}

fn ten_degree_map() -> WorldMap {
    let source = solid(5, 5, [255, 0, 0, 255]);
    let placeholder = solid(4, 4, [0, 0, 255, 255]);
    let bounds = MapBounds::new(-10 * SCALE, 10 * SCALE, -10 * SCALE, 10 * SCALE);
    WorldMap::new("tellene", source, placeholder, bounds)
}

#[test]
fn tile_coverage_is_exactly_the_grid() {
    let map = ten_degree_map();
    let tiles = map.generate_textures(5);
    assert_eq!(tiles.len(), 16);
    let mut expected: Vec<MapPieceKey> = Vec::new();
    for long in [-10, -5, 0, 5] {
        for lat in [-10, -5, 0, 5] {
            expected.push(MapPieceKey { min_lat: lat, min_long: long });
        }
    }
    let got: Vec<MapPieceKey> = tiles.iter().map(|e| e.0).collect();
    assert_eq!(got, expected);
}

#[test]
fn every_tile_has_the_placeholder_resolution() {
    let map = ten_degree_map();
    for (_, tile) in map.generate_textures(5) {
        assert_eq!(tile.width(), 4);
        assert_eq!(tile.height(), 4);
    }
}

#[test]
fn interior_tile_carries_source_imagery() {
    let map = ten_degree_map();
    let placeholder_bytes = solid(4, 4, [0, 0, 255, 255]).to_rgba8().into_raw();
    let tile = map.generate_tile(0, 0, 5);
    let bytes = tile.to_rgba8().into_raw();
    assert_ne!(bytes, placeholder_bytes);
    let center = tile.to_rgba8().get_pixel(2, 2).0;
    assert_eq!(center, [255, 0, 0, 255]);
}

#[test]
fn tile_outside_bounds_is_the_unmodified_placeholder() {
    let map = ten_degree_map();
    let placeholder_bytes = solid(4, 4, [0, 0, 255, 255]).to_rgba8().into_raw();
    let far_east = map.generate_tile(0, 4, 5);
    assert_eq!(far_east.to_rgba8().into_raw(), placeholder_bytes);
    let far_north = map.generate_tile(4, 0, 5);
    assert_eq!(far_north.to_rgba8().into_raw(), placeholder_bytes);
    let far_west = map.generate_tile(0, -5, 5);
    assert_eq!(far_west.to_rgba8().into_raw(), placeholder_bytes);
}

#[test]
fn partial_tile_blends_placeholder_and_source() {
    let source = solid(5, 5, [255, 0, 0, 255]);
    let placeholder = solid(4, 4, [0, 0, 255, 255]);
    let bounds = MapBounds::new(-10 * SCALE, 10 * SCALE, -10 * SCALE, 10 * SCALE);
    let map = WorldMap::new("tellene", source, placeholder, bounds);
    let tiles = map.generate_textures(15);
    assert_eq!(tiles.len(), 4);
    assert_eq!(tiles[0].0, MapPieceKey { min_lat: -15, min_long: -15 });
    let rgba = tiles[0].1.to_rgba8();
    let corner = rgba.get_pixel(0, 0).0;
    let inner = rgba.get_pixel(3, 3).0;
    assert_eq!(corner, [0, 0, 255, 255]);
    assert_eq!(inner, [255, 0, 0, 255]);
}

#[test]
fn tiles_crop_their_own_region_of_the_source() {
    let mut source = RgbaImage::from_pixel(4, 4, Rgba([255, 0, 0, 255]));
    for y in 0..4 {
        for x in 0..2 {
            source.put_pixel(x, y, Rgba([0, 255, 0, 255]));
        }
    }
    let placeholder = solid(4, 4, [0, 0, 255, 255]);
    let bounds = MapBounds::new(-10 * SCALE, 10 * SCALE, -10 * SCALE, 10 * SCALE);
    let map = WorldMap::new(
        "tellene",
        DynamicImage::ImageRgba8(source),
        placeholder,
        bounds,
    );
    let west = map.generate_tile(0, -1, 10).to_rgba8();
    assert_eq!(west.get_pixel(1, 1).0, [0, 255, 0, 255]);
    let east = map.generate_tile(0, 0, 10).to_rgba8();
    assert_eq!(east.get_pixel(2, 1).0, [255, 0, 0, 255]);
}

#[test]
fn keys_compare_and_hash_by_value() {
    let a = MapPieceKey { min_lat: -10, min_long: 5 };
    let b = MapPieceKey { min_lat: -10, min_long: 5 };
    assert_eq!(a, b);
    let mut seen = std::collections::HashMap::new();
    seen.insert(a, 1u32);
    assert_eq!(seen.get(&b), Some(&1));
}

#[test]
fn guarded_generation_accepts_and_rejects() {
    let map = ten_degree_map();
    assert!(map.is_well_formed());
    let tiles = map.try_generate_textures(5).expect("a proper map generates");
    assert_eq!(tiles.len(), 16);
    assert!(map.try_generate_textures(0).is_none());
    assert!(map.try_generate_textures(361).is_none());
    let inverted = WorldMap::new(
        "tellene",
        solid(5, 5, [255, 0, 0, 255]),
        solid(4, 4, [0, 0, 255, 255]),
        MapBounds::new(10 * SCALE, -10 * SCALE, -10 * SCALE, 10 * SCALE),
    );
    assert!(!inverted.is_well_formed());
    assert!(inverted.try_generate_textures(5).is_none());
}

#[test]
fn database_handle_keeps_its_path() {
    let db = worldview::filedb::FileDatabase::new("worlds/tellene/config.toml");
    assert_eq!(db.config_file(), "worlds/tellene/config.toml");
}
