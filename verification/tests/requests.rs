use std::sync::Arc;

use resource_cache::api::{
    DirtyRect, ExternalImageData, ExternalImageId, ExternalImageType, IdNamespace, ImageBufferKind, ImageDescriptor,
    ImageDescriptorFlags, ImageFormat, ImageKey, ImageRendering,
};
use resource_cache::font::SharedFontResources;
use resource_cache::glyph_cache::GlyphCache;
use resource_cache::internal_types::{FrameId, FrameStamp, TextureSource};
use resource_cache::resource_cache::{
    CachedImageData, CachedImageKey, CachedVariants, ImageCacheError, ImageRequest, ResourceCache, State,
};
use resource_cache::texture_cache::{TextureCache, TextureCacheHandle};
use resource_cache::units::{DeviceIntPoint, DeviceIntRect, DeviceIntSize, TileOffset};

fn image_key(id: u32) -> ImageKey {
    ImageKey::new(IdNamespace(1), id)
}

fn rgba(width: i32, height: i32) -> ImageDescriptor {
    ImageDescriptor::new(width, height, ImageFormat::RGBA8, ImageDescriptorFlags::empty())
}

fn bytes() -> CachedImageData {
    CachedImageData::Raw(Arc::new(vec![1u8, 2, 3, 4]))
}

fn full_rect(width: i32, height: i32) -> DeviceIntRect {
    DeviceIntRect::new(DeviceIntPoint::new(0, 0), DeviceIntPoint::new(width, height))
}

fn whole(id: u32) -> ImageRequest {
    ImageRequest { key: image_key(id), rendering: ImageRendering::Auto, tile: None }
}

fn cache_in_frame(frame: u64) -> ResourceCache {
    let mut cache = ResourceCache::new_for_testing();
    cache.begin_frame(FrameStamp { id: FrameId(frame) });
    cache
}

#[test]
fn request_for_an_undeclared_image_has_size_zero() {
    let mut cache = cache_in_frame(1);
    assert!(cache.can_request_image(whole(1)));
    let size = cache.request_image(whole(1));
    assert_eq!(size, DeviceIntSize::zero());
    assert!(cache.pending_image_requests().is_empty());
    assert!(matches!(cache.cached_variants(image_key(1)), CachedVariants::Nothing));
}

#[test]
fn request_outside_the_add_phase_is_not_admitted() {
    let mut cache = ResourceCache::new_for_testing();
    cache.add_image_template(image_key(1), rgba(10, 10), bytes(), &full_rect(10, 10), None);
    assert_eq!(cache.state(), State::Idle);
    assert!(!cache.can_request_image(whole(1)));
    cache.begin_frame(FrameStamp { id: FrameId(1) });
    assert!(cache.can_request_image(whole(1)));
    // A tile of an image without tiling cannot be asked for.
    assert!(!cache.can_request_image(whole(1).with_tile(TileOffset::new(0, 0))));
}

#[test]
fn request_for_an_external_texture_returns_its_size_and_caches_nothing() {
    let mut cache = cache_in_frame(1);
    let texture = ExternalImageData {
        id: ExternalImageId(3),
        channel_index: 0,
        image_type: ExternalImageType::TextureHandle(ImageBufferKind::TextureRect),
        normalized_uvs: true,
    };
    cache.add_image_template(
        image_key(1),
        rgba(9000, 20),
        CachedImageData::External(texture),
        &full_rect(9000, 20),
        None,
    );
    let size = cache.request_image(whole(1));
    assert_eq!(size, DeviceIntSize::new(9000, 20));
    assert!(cache.pending_image_requests().is_empty());
    assert!(matches!(cache.cached_variants(image_key(1)), CachedVariants::Nothing));
}

#[test]
fn request_for_the_whole_image_is_queued_with_a_fresh_entry() {
    let mut cache = cache_in_frame(1);
    cache.add_image_template(image_key(1), rgba(100, 50), bytes(), &full_rect(100, 50), None);
    let size = cache.request_image(whole(1));
    assert_eq!(size, DeviceIntSize::new(100, 50));
    assert_eq!(cache.pending_image_requests(), &vec![whole(1)]);
    match cache.cached_variants(image_key(1)) {
        CachedVariants::UntiledAuto(info) => {
            assert_eq!(info.texture_cache_handle, TextureCacheHandle::invalid());
            assert_eq!(info.dirty_rect, DirtyRect::All);
            assert!(!info.manual_eviction);
        }
        _ => panic!("expected the whole-image state"),
    }
}

#[test]
fn request_made_twice_is_pending_once() {
    let mut cache = cache_in_frame(1);
    cache.add_image_template(image_key(1), rgba(100, 50), bytes(), &full_rect(100, 50), None);
    cache.add_image_template(image_key(2), rgba(10, 5), bytes(), &full_rect(10, 5), None);
    cache.request_image(whole(1));
    cache.request_image(whole(2));
    cache.request_image(whole(1));
    cache.request_image(whole(1));
    assert_eq!(cache.pending_image_requests(), &vec![whole(1), whole(2)]);
}

#[test]
fn request_for_a_tile_returns_the_clipped_tile_size() {
    let mut cache = cache_in_frame(1);
    cache.add_image_template(image_key(1), rgba(1000, 600), bytes(), &full_rect(1000, 600), Some(512));
    let size = cache.request_image(whole(1).with_tile(TileOffset::new(1, 1)));
    assert_eq!(size, DeviceIntSize::new(488, 88));
    let size = cache.request_image(whole(1).with_tile(TileOffset::new(0, 0)));
    assert_eq!(size, DeviceIntSize::new(512, 512));
    let size = cache.request_image(whole(1).with_tile(TileOffset::new(5, 0)));
    assert_eq!(size, DeviceIntSize::new(0, 512));
    match cache.cached_variants(image_key(1)) {
        CachedVariants::Multi(keys) => assert_eq!(keys.len(), 3),
        _ => panic!("expected the multi-variant state"),
    }
}

#[test]
fn valid_and_clean_image_is_not_queued_again() {
    let mut cache = cache_in_frame(1);
    cache.add_image_template(image_key(1), rgba(100, 50), bytes(), &full_rect(100, 50), None);
    cache.request_image(whole(1));
    cache.block_until_all_resources_added(Vec::new());
    cache.end_frame();
    cache.begin_frame(FrameStamp { id: FrameId(2) });
    let size = cache.request_image(whole(1));
    assert_eq!(size, DeviceIntSize::new(100, 50));
    assert!(cache.pending_image_requests().is_empty());
    // An update makes it dirty, and so it is queued again.
    cache.update_image_template(image_key(1), rgba(100, 50), bytes(), &DirtyRect::All);
    cache.request_image(whole(1));
    assert_eq!(cache.pending_image_requests(), &vec![whole(1)]);
}

#[test]
fn tile_size_of_8192_is_clamped_and_fits_a_4096_texture() {
    let mut cache = cache_in_frame(1);
    assert_eq!(cache.max_texture_size(), 4096);
    cache.add_image_template(image_key(2), rgba(8000, 8000), bytes(), &full_rect(8000, 8000), Some(8192));
    assert_eq!(cache.get_image_properties(image_key(2)).unwrap().tiling, Some(2048));
    let size = cache.request_image(whole(2).with_tile(TileOffset::new(0, 0)));
    assert_eq!(size, DeviceIntSize::new(2048, 2048));
    assert!(matches!(cache.cached_variants(image_key(2)), CachedVariants::Multi(_)));
}

#[test]
fn tiles_larger_than_the_hardware_takes_are_rejected() {
    let mut cache = ResourceCache::new(
        TextureCache::new(1024, 1024, ImageFormat::RGBA8, 512),
        GlyphCache::new(),
        SharedFontResources::new(),
        false,
    );
    cache.begin_frame(FrameStamp { id: FrameId(1) });
    cache.add_image_template(image_key(2), rgba(8000, 8000), bytes(), &full_rect(8000, 8000), Some(8192));
    let request = whole(2).with_tile(TileOffset::new(0, 0));
    let size = cache.request_image(request);
    assert_eq!(size, DeviceIntSize::zero());
    assert!(matches!(cache.cached_variants(image_key(2)), CachedVariants::Failed(ImageCacheError::OverLimitSize)));
    assert!(cache.pending_image_requests().is_empty());
    cache.block_until_all_resources_added(Vec::new());
    assert!(cache.can_get_cached_image(request));
    assert_eq!(cache.get_cached_image(request), Err(()));
    assert_eq!(cache.get_image_info(request), Err(()));
}

#[test]
fn untiled_image_larger_than_the_hardware_takes_is_rejected() {
    // With a tiling threshold above the hardware limit nothing is tiled by
    // itself, so the image is asked for in one piece.
    let mut cache = ResourceCache::new(
        TextureCache::new(4096, 16384, ImageFormat::RGBA8, 512),
        GlyphCache::new(),
        SharedFontResources::new(),
        false,
    );
    cache.begin_frame(FrameStamp { id: FrameId(1) });
    cache.add_image_template(image_key(1), rgba(8000, 100), bytes(), &full_rect(8000, 100), None);
    assert_eq!(cache.get_image_properties(image_key(1)).unwrap().tiling, None);
    assert_eq!(cache.request_image(whole(1)), DeviceIntSize::zero());
    assert!(matches!(cache.cached_variants(image_key(1)), CachedVariants::Failed(ImageCacheError::OverLimitSize)));
}

#[test]
fn failed_image_stays_failed_until_deleted_or_fitting() {
    let mut cache = ResourceCache::new(
        TextureCache::new(4096, 16384, ImageFormat::RGBA8, 512),
        GlyphCache::new(),
        SharedFontResources::new(),
        false,
    );
    cache.begin_frame(FrameStamp { id: FrameId(1) });
    cache.add_image_template(image_key(1), rgba(8000, 100), bytes(), &full_rect(8000, 100), None);
    cache.add_image_template(image_key(2), rgba(80, 100), bytes(), &full_rect(80, 100), None);
    cache.request_image(whole(1));
    // Other requests, and a second request for the same image, change nothing.
    cache.request_image(whole(2));
    cache.request_image(whole(1));
    assert!(matches!(cache.cached_variants(image_key(1)), CachedVariants::Failed(_)));
    // Neither does an update that leaves the image too large.
    cache.update_image_template(image_key(1), rgba(8000, 200), bytes(), &DirtyRect::All);
    assert!(matches!(cache.cached_variants(image_key(1)), CachedVariants::Failed(_)));
    cache.block_until_all_resources_added(Vec::new());
    assert_eq!(cache.get_cached_image(whole(1)), Err(()));
    assert!(cache.get_cached_image(whole(2)).is_ok());
    cache.end_frame();
    // An update to a size that fits, and a new request, replace the state.
    cache.update_image_template(image_key(1), rgba(800, 200), bytes(), &DirtyRect::All);
    assert!(matches!(cache.cached_variants(image_key(1)), CachedVariants::Failed(_)));
    cache.begin_frame(FrameStamp { id: FrameId(2) });
    assert_eq!(cache.request_image(whole(1)), DeviceIntSize::new(800, 200));
    assert!(matches!(cache.cached_variants(image_key(1)), CachedVariants::UntiledAuto(_)));
    cache.block_until_all_resources_added(Vec::new());
    assert!(cache.get_cached_image(whole(1)).is_ok());
    cache.end_frame();
    // Deleting the image removes the state.
    cache.delete_image_template(image_key(1));
    assert!(matches!(cache.cached_variants(image_key(1)), CachedVariants::Nothing));
}

#[test]
fn second_variant_turns_the_whole_image_state_into_a_multi_state() {
    let mut cache = cache_in_frame(1);
    cache.add_image_template(image_key(1), rgba(1000, 600), bytes(), &full_rect(1000, 600), Some(512));
    // Asked for as a whole first, and uploaded.
    cache.request_image(whole(1));
    cache.block_until_all_resources_added(Vec::new());
    let whole_info = cache.get_image_info(whole(1)).unwrap();
    assert!(whole_info.texture_cache_handle.slot.is_some());
    let whole_item = cache.get_cached_image(whole(1)).unwrap();
    cache.end_frame();
    cache.begin_frame(FrameStamp { id: FrameId(2) });
    // Then asked for by tile.
    let tile = whole(1).with_tile(TileOffset::new(0, 0));
    cache.request_image(tile);
    match cache.cached_variants(image_key(1)) {
        CachedVariants::Multi(keys) => {
            assert_eq!(keys.len(), 2);
            assert!(keys.contains(&CachedImageKey { rendering: ImageRendering::Auto, tile: None }));
            assert!(keys.contains(&CachedImageKey { rendering: ImageRendering::Auto, tile: Some(TileOffset::new(0, 0)) }));
        }
        _ => panic!("expected the multi-variant state"),
    }
    // The handle of the whole image is kept under the key of the whole image.
    assert_eq!(cache.get_image_info(whole(1)).unwrap(), whole_info);
    assert_eq!(cache.get_image_info(tile).unwrap().texture_cache_handle, TextureCacheHandle::invalid());
    assert_eq!(cache.pending_image_requests(), &vec![tile]);
    cache.block_until_all_resources_added(Vec::new());
    assert_eq!(cache.get_cached_image(whole(1)).unwrap(), whole_item);
    let tile_item = cache.get_cached_image(tile).unwrap();
    assert_ne!(tile_item.texture_id, whole_item.texture_id);
    assert_ne!(tile_item.texture_id, TextureSource::Invalid);
    // A multi-variant state never becomes a whole-image state again.
    cache.end_frame();
    cache.begin_frame(FrameStamp { id: FrameId(3) });
    cache.request_image(whole(1));
    assert!(matches!(cache.cached_variants(image_key(1)), CachedVariants::Multi(_)));
}

#[test]
fn other_rendering_than_auto_makes_a_multi_state() {
    let mut cache = cache_in_frame(1);
    cache.add_image_template(image_key(1), rgba(10, 10), bytes(), &full_rect(10, 10), None);
    let pixelated = ImageRequest { key: image_key(1), rendering: ImageRendering::Pixelated, tile: None };
    assert!(!pixelated.is_untiled_auto());
    assert!(whole(1).is_untiled_auto());
    cache.request_image(pixelated);
    match cache.cached_variants(image_key(1)) {
        CachedVariants::Multi(keys) => {
            assert_eq!(keys, vec![CachedImageKey { rendering: ImageRendering::Pixelated, tile: None }]);
        }
        _ => panic!("expected the multi-variant state"),
    }
}
