use resource_cache::image_tiling::{compute_tile_range, compute_tile_size};
use resource_cache::units::{DeviceIntPoint, DeviceIntRect, DeviceIntSize, TileOffset};

fn rect(x0: i32, y0: i32, x1: i32, y1: i32) -> DeviceIntRect {
    DeviceIntRect::new(DeviceIntPoint::new(x0, y0), DeviceIntPoint::new(x1, y1))
}

#[test]
fn regular_tile_has_the_tile_size() {
    let size = compute_tile_size(&rect(0, 0, 4096, 4096), 512, TileOffset::new(1, 0));
    assert_eq!(size, DeviceIntSize::new(512, 512));
}

#[test]
fn last_tile_is_clipped_to_the_image() {
    let size = compute_tile_size(&rect(0, 0, 1000, 600), 512, TileOffset::new(1, 1));
    assert_eq!(size, DeviceIntSize::new(488, 88));
}

#[test]
fn tile_outside_the_image_is_empty() {
    let size = compute_tile_size(&rect(0, 0, 1000, 600), 512, TileOffset::new(2, 0));
    assert_eq!(size, DeviceIntSize::new(0, 512));
    let size = compute_tile_size(&rect(0, 0, 1000, 600), 512, TileOffset::new(-1, -1));
    assert_eq!(size, DeviceIntSize::new(0, 0));
}

#[test]
fn first_tile_of_an_offset_image_is_partial() {
    let size = compute_tile_size(&rect(100, -30, 1000, 600), 512, TileOffset::new(0, -1));
    assert_eq!(size, DeviceIntSize::new(412, 30));
}

#[test]
fn tile_range_rounds_outwards() {
    let range = compute_tile_range(&rect(-1, 0, 1025, 512), 512);
    assert_eq!(range.min, TileOffset::new(-1, 0));
    assert_eq!(range.max, TileOffset::new(3, 1));
    assert!(range.contains(TileOffset::new(2, 0)));
    assert!(!range.contains(TileOffset::new(3, 0)));
}
