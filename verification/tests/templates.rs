use std::sync::Arc;

use resource_cache::api::{
    BlobImageKey, BlobImageRequest, DirtyRect, ExternalImageData, ExternalImageId, ExternalImageType, IdNamespace,
    ImageBufferKind, ImageDescriptor, ImageDescriptorFlags, ImageFormat, ImageKey, RasterizedBlobImage,
};
use resource_cache::font::SharedFontResources;
use resource_cache::glyph_cache::GlyphCache;
use resource_cache::internal_types::FrameStamp;
use resource_cache::internal_types::FrameId;
use resource_cache::resource_cache::{AdjustedImageSource, CachedImageData, ImageGeneration, ResourceCache};
use resource_cache::texture_cache::TextureCache;
use resource_cache::units::{DeviceIntPoint, DeviceIntRect, TileOffset};

fn key(id: u32) -> ImageKey {
    ImageKey::new(IdNamespace(1), id)
}

fn descriptor(width: i32, height: i32) -> ImageDescriptor {
    ImageDescriptor::new(width, height, ImageFormat::RGBA8, ImageDescriptorFlags::empty())
}

fn raw(len: usize) -> CachedImageData {
    CachedImageData::Raw(Arc::new(vec![7u8; len]))
}

fn rect(x0: i32, y0: i32, x1: i32, y1: i32) -> DeviceIntRect {
    DeviceIntRect::new(DeviceIntPoint::new(x0, y0), DeviceIntPoint::new(x1, y1))
}

fn cache_with_threshold(max_texture_size: i32, tiling_threshold: i32) -> ResourceCache {
    ResourceCache::new(
        TextureCache::new(max_texture_size, tiling_threshold, ImageFormat::RGBA8, 512),
        GlyphCache::new(),
        SharedFontResources::new(),
        false,
    )
}

#[test]
fn undeclared_image_has_the_invalid_generation() {
    let cache = ResourceCache::new_for_testing();
    assert_eq!(cache.get_image_generation(key(1)), ImageGeneration(u32::MAX));
    assert_eq!(ImageGeneration::invalid(), ImageGeneration(u32::MAX));
    assert!(cache.get_image_properties(key(1)).is_none());
}

#[test]
fn added_image_starts_at_generation_zero() {
    let mut cache = ResourceCache::new_for_testing();
    cache.add_image_template(key(1), descriptor(100, 50), raw(4), &rect(0, 0, 100, 50), None);
    assert_eq!(cache.get_image_generation(key(1)), ImageGeneration(0));
    let properties = cache.get_image_properties(key(1)).unwrap();
    assert_eq!(properties.descriptor, descriptor(100, 50));
    assert_eq!(properties.tiling, None);
    assert_eq!(properties.visible_rect, rect(0, 0, 100, 50));
    assert_eq!(properties.external_image, None);
    assert_eq!(properties.adjustment, AdjustedImageSource::new());
}

#[test]
fn added_tile_size_is_clamped() {
    let mut cache = ResourceCache::new_for_testing();
    cache.add_image_template(key(1), descriptor(100, 100), raw(4), &rect(0, 0, 100, 100), Some(8));
    cache.add_image_template(key(2), descriptor(100, 100), raw(4), &rect(0, 0, 100, 100), Some(8192));
    cache.add_image_template(key(3), descriptor(100, 100), raw(4), &rect(0, 0, 100, 100), Some(100));
    cache.add_image_template(key(4), descriptor(100, 100), raw(4), &rect(0, 0, 100, 100), Some(16));
    cache.add_image_template(key(5), descriptor(100, 100), raw(4), &rect(0, 0, 100, 100), Some(2048));
    assert_eq!(cache.get_image_properties(key(1)).unwrap().tiling, Some(16));
    assert_eq!(cache.get_image_properties(key(2)).unwrap().tiling, Some(2048));
    assert_eq!(cache.get_image_properties(key(3)).unwrap().tiling, Some(100));
    assert_eq!(cache.get_image_properties(key(4)).unwrap().tiling, Some(16));
    assert_eq!(cache.get_image_properties(key(5)).unwrap().tiling, Some(2048));
}

#[test]
fn large_image_gets_the_default_tile_size() {
    let mut cache = cache_with_threshold(4096, 2048);
    assert_eq!(cache.tiling_threshold(), 2048);
    assert_eq!(cache.max_texture_size(), 4096);
    cache.add_image_template(key(1), descriptor(4096, 4096), raw(4), &rect(0, 0, 4096, 4096), None);
    cache.add_image_template(key(2), descriptor(2048, 2048), raw(4), &rect(0, 0, 2048, 2048), None);
    cache.add_image_template(key(3), descriptor(10, 2049), raw(4), &rect(0, 0, 10, 2049), None);
    assert_eq!(cache.get_image_properties(key(1)).unwrap().tiling, Some(512));
    assert_eq!(cache.get_image_properties(key(2)).unwrap().tiling, None);
    assert_eq!(cache.get_image_properties(key(3)).unwrap().tiling, Some(512));
}

#[test]
fn eight_thousand_pixel_image_is_tiled_by_itself() {
    let mut cache = ResourceCache::new_for_testing();
    cache.add_image_template(key(1), descriptor(8000, 8000), raw(4), &rect(0, 0, 8000, 8000), None);
    assert_eq!(cache.get_image_properties(key(1)).unwrap().tiling, Some(512));
}

#[test]
fn external_textures_and_snapshots_are_never_tiled_by_themselves() {
    let mut cache = cache_with_threshold(4096, 2048);
    let texture = ExternalImageData {
        id: ExternalImageId(9),
        channel_index: 0,
        image_type: ExternalImageType::TextureHandle(ImageBufferKind::Texture2D),
        normalized_uvs: false,
    };
    let buffer = ExternalImageData { image_type: ExternalImageType::Buffer, ..texture };
    cache.add_image_template(
        key(1),
        descriptor(5000, 5000),
        CachedImageData::External(texture),
        &rect(0, 0, 5000, 5000),
        None,
    );
    cache.add_image_template(
        key(2),
        descriptor(5000, 5000),
        CachedImageData::External(buffer),
        &rect(0, 0, 5000, 5000),
        None,
    );
    cache.add_image_template(key(3), descriptor(5000, 5000), CachedImageData::Snapshot, &rect(0, 0, 0, 0), None);
    cache.add_image_template(key(4), descriptor(5000, 5000), CachedImageData::Blob, &rect(0, 0, 5000, 5000), None);
    assert_eq!(cache.get_image_properties(key(1)).unwrap().tiling, None);
    assert_eq!(cache.get_image_properties(key(1)).unwrap().external_image, Some(texture));
    assert_eq!(cache.get_image_properties(key(2)).unwrap().tiling, Some(512));
    assert_eq!(cache.get_image_properties(key(2)).unwrap().external_image, None);
    assert_eq!(cache.get_image_properties(key(3)).unwrap().tiling, None);
    assert_eq!(cache.get_image_properties(key(4)).unwrap().tiling, Some(512));
}

#[test]
fn update_makes_the_generation_strictly_greater() {
    let mut cache = ResourceCache::new_for_testing();
    cache.add_image_template(key(1), descriptor(100, 100), raw(4), &rect(0, 0, 100, 100), None);
    let before = cache.get_image_generation(key(1));
    cache.update_image_template(key(1), descriptor(100, 100), raw(4), &DirtyRect::All);
    let after = cache.get_image_generation(key(1));
    assert!(after.0 > before.0);
    assert_eq!(after, ImageGeneration(1));
    cache.update_image_template(key(1), descriptor(100, 100), raw(4), &DirtyRect::All);
    assert_eq!(cache.get_image_generation(key(1)), ImageGeneration(2));
    cache.increment_image_generation(key(1));
    assert_eq!(cache.get_image_generation(key(1)), ImageGeneration(3));
    cache.increment_image_generation(key(2));
    assert_eq!(cache.get_image_generation(key(2)), ImageGeneration(u32::MAX));
}

#[test]
fn update_keeps_the_tiling_and_resets_the_visible_rect() {
    let mut cache = cache_with_threshold(4096, 2048);
    cache.add_image_template(key(1), descriptor(100, 100), raw(4), &rect(10, 10, 20, 20), Some(100));
    cache.update_image_template(key(1), descriptor(300, 200), raw(4), &DirtyRect::All);
    let properties = cache.get_image_properties(key(1)).unwrap();
    assert_eq!(properties.tiling, Some(100));
    assert_eq!(properties.visible_rect, rect(0, 0, 300, 200));
    assert_eq!(properties.descriptor, descriptor(300, 200));
    // An image without tiling that grows beyond the threshold is tiled.
    cache.add_image_template(key(2), descriptor(100, 100), raw(4), &rect(0, 0, 100, 100), None);
    cache.update_image_template(key(2), descriptor(3000, 100), raw(4), &DirtyRect::All);
    assert_eq!(cache.get_image_properties(key(2)).unwrap().tiling, Some(512));
    // Once tiled, the image stays tiled.
    cache.update_image_template(key(2), descriptor(100, 100), raw(4), &DirtyRect::All);
    assert_eq!(cache.get_image_properties(key(2)).unwrap().tiling, Some(512));
}

#[test]
fn deleted_image_is_no_longer_declared() {
    let mut cache = ResourceCache::new_for_testing();
    cache.add_image_template(key(1), descriptor(100, 100), raw(4), &rect(0, 0, 100, 100), None);
    cache.delete_image_template(key(1));
    assert_eq!(cache.get_image_generation(key(1)), ImageGeneration(u32::MAX));
    assert!(cache.get_image_properties(key(1)).is_none());
    // Deleting what is not declared changes nothing.
    cache.delete_image_template(key(1));
    assert!(cache.get_image_properties(key(1)).is_none());
}

#[test]
fn add_delete_add_leaves_the_second_declaration() {
    let mut cache = ResourceCache::new_for_testing();
    cache.add_image_template(key(1), descriptor(100, 100), raw(4), &rect(0, 0, 100, 100), Some(64));
    cache.update_image_template(key(1), descriptor(100, 100), raw(4), &DirtyRect::All);
    assert_eq!(cache.get_image_generation(key(1)), ImageGeneration(1));
    cache.delete_image_template(key(1));
    cache.add_image_template(key(1), descriptor(30, 20), raw(8), &rect(0, 0, 30, 20), None);
    assert_eq!(cache.get_image_generation(key(1)), ImageGeneration(0));
    let properties = cache.get_image_properties(key(1)).unwrap();
    assert_eq!(properties.descriptor, descriptor(30, 20));
    assert_eq!(properties.tiling, None);
    assert_eq!(properties.visible_rect, rect(0, 0, 30, 20));
}

#[test]
fn deleted_blob_is_logged_and_loses_its_tiles() {
    let mut cache = ResourceCache::new_for_testing();
    let blob = BlobImageKey(key(5));
    cache.add_image_template(blob.as_image(), descriptor(600, 600), CachedImageData::Blob, &rect(0, 0, 600, 600), Some(512));
    let failed = cache.add_rasterized_blob_images(vec![(
        BlobImageRequest { key: blob, tile: TileOffset::new(0, 0) },
        Ok(RasterizedBlobImage { rasterized_rect: rect(0, 0, 512, 512), data: Arc::new(vec![1, 2, 3, 4]) }),
    )]);
    assert_eq!(failed, 0);
    cache.add_image_template(key(6), descriptor(10, 10), raw(4), &rect(0, 0, 10, 10), None);
    cache.delete_image_template(key(6));
    assert!(cache.deleted_blob_keys(0).is_empty());
    cache.delete_image_template(blob.as_image());
    assert_eq!(cache.deleted_blob_keys(0), &vec![blob]);
    assert!(cache.deleted_blob_keys(1).is_empty());
    assert!(cache.deleted_blob_keys(2).is_empty());
    // The log moves on by one frame with every frame.
    cache.begin_frame(FrameStamp { id: FrameId(1) });
    assert!(cache.deleted_blob_keys(0).is_empty());
    assert_eq!(cache.deleted_blob_keys(1), &vec![blob]);
    // The tiles are gone: declared anew, the blob tile cannot be asked for.
    cache.add_image_template(blob.as_image(), descriptor(600, 600), CachedImageData::Blob, &rect(0, 0, 600, 600), Some(512));
    let request = resource_cache::resource_cache::ImageRequest {
        key: blob.as_image(),
        rendering: resource_cache::api::ImageRendering::Auto,
        tile: Some(TileOffset::new(0, 0)),
    };
    assert!(!cache.can_request_image(request));
}
