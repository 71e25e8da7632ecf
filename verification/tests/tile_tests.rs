use svg_tiles::tile::{tile_transform, ConfigError, TileConfig, TileCoordinate, TileTransform};

fn transform(tile_size: u32, zoom: i32, column: i32, row: i32) -> TileTransform {
    let config = TileConfig::new(tile_size).unwrap();
    tile_transform(TileCoordinate { zoom, column, row }, &config)
}

/// Twice the image of `x` under a transform of zoom level zero or more.
fn image_twice(scale: i128, pre_twice: i64, post: i64, x: i128) -> i128 {
    scale * (2 * x + pre_twice as i128) + 2 * post as i128
}

#[test]
fn origin_tile_at_zoom_zero() {
    let t = transform(256, 0, 0, 0);
    assert_eq!(
        t,
        TileTransform { zoom: 0, pre_twice_x: -256, pre_twice_y: -256, post_x: 0, post_y: 0 }
    );
    // scale 1, first shift (-128, -128), second shift (0, 0)
    assert_eq!(1i64 << t.zoom, 1);
    assert_eq!((t.pre_twice_x / 2, t.pre_twice_y / 2), (-128, -128));
    assert_eq!((t.post_x, t.post_y), (0, 0));
    // the scene point (128, 128) lands on the top-left corner of the tile
    assert_eq!(image_twice(1, t.pre_twice_x, t.post_x, 128), 0);
    assert_eq!(image_twice(1, t.pre_twice_y, t.post_y, 128), 0);
    // and the origin of the scene half a tile above and to the left of it
    assert_eq!(image_twice(1, t.pre_twice_x, t.post_x, 0), -256);
    assert_eq!(image_twice(1, t.pre_twice_y, t.post_y, 0), -256);
}

#[test]
fn zero_tile_size_is_refused() {
    assert_eq!(TileConfig::new(0).err(), Some(ConfigError::ZeroTileSize));
}

#[test]
fn positive_tile_sizes_are_accepted() {
    assert_eq!(TileConfig::new(1).unwrap().tile_size(), 1);
    assert_eq!(TileConfig::new(256).unwrap().tile_size(), 256);
    assert_eq!(TileConfig::new(u32::MAX).unwrap().tile_size(), u32::MAX);
}

#[test]
fn offsets_are_whole_tiles() {
    let t = transform(256, 3, 5, -2);
    assert_eq!(t.zoom, 3);
    assert_eq!((t.pre_twice_x, t.pre_twice_y), (-256, -256));
    assert_eq!((t.post_x, t.post_y), (-1280, 512));
}

#[test]
fn odd_tile_size_keeps_its_half_pixel() {
    let t = transform(255, 1, 1, 1);
    assert_eq!((t.pre_twice_x, t.pre_twice_y), (-255, -255));
    assert_eq!((t.post_x, t.post_y), (-255, -255));
}

#[test]
fn negative_zoom_is_kept() {
    let t = transform(512, -4, 7, 9);
    assert_eq!(t.zoom, -4);
    assert_eq!((t.post_x, t.post_y), (-3584, -4608));
}

#[test]
fn extreme_addresses_do_not_overflow() {
    let t = transform(u32::MAX, i32::MAX, i32::MIN, i32::MAX);
    assert_eq!(t.zoom, i32::MAX);
    assert_eq!(t.pre_twice_x, -4294967295);
    assert_eq!(t.post_x, 9223372034707292160);
    assert_eq!(t.post_y, -9223372030412324865);
    let u = transform(u32::MAX, i32::MIN, i32::MAX, i32::MIN);
    assert_eq!(u.zoom, i32::MIN);
    assert_eq!(u.post_x, -9223372030412324865);
    assert_eq!(u.post_y, 9223372034707292160);
}

#[test]
fn point_at_scaled_tile_offset_lands_on_tile_corner() {
    // zoom 2, tile (3, 1), tiles of 256: the point p with 4 * (p - 128) = 768 is p = 320
    let t = transform(256, 2, 3, 1);
    assert_eq!(image_twice(4, t.pre_twice_x, t.post_x, 320), 0);
    // and with 4 * (p - 128) = 256 it is p = 192
    assert_eq!(image_twice(4, t.pre_twice_y, t.post_y, 192), 0);
}

#[test]
fn neighbouring_tiles_are_one_tile_apart() {
    let a = transform(256, 2, 3, 1);
    let b = transform(256, 2, 4, 1);
    let c = transform(256, 2, 3, 2);
    for x in [-1000i128, 0, 17, 4096] {
        assert_eq!(
            image_twice(4, b.pre_twice_x, b.post_x, x),
            image_twice(4, a.pre_twice_x, a.post_x, x) - 2 * 256
        );
        assert_eq!(
            image_twice(4, c.pre_twice_y, c.post_y, x),
            image_twice(4, a.pre_twice_y, a.post_y, x) - 2 * 256
        );
    }
}

#[test]
fn same_address_gives_same_transform() {
    assert_eq!(transform(256, 4, 9, 11), transform(256, 4, 9, 11));
}
