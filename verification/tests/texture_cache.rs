use std::sync::Arc;

use resource_cache::api::{DirtyRect, ImageDescriptor, ImageDescriptorFlags, ImageFormat};
use resource_cache::gpu_types::UvRectKind;
use resource_cache::internal_types::{
    CacheTextureId, FloatBits4, FrameId, FrameStamp, GpuCacheHandle, TextureFilter, TextureSource,
};
use resource_cache::resource_cache::{CacheItem, CachedImageData};
use resource_cache::texture_cache::{Eviction, TargetShader, TextureCache, TextureCacheHandle};
use resource_cache::units::{DeviceIntPoint, DeviceIntRect, DeviceIntSize};

fn pixels(width: i32, height: i32, format: ImageFormat) -> ImageDescriptor {
    ImageDescriptor::new(width, height, format, ImageDescriptorFlags::empty())
}

fn upload(cache: &mut TextureCache, handle: &mut TextureCacheHandle, descriptor: ImageDescriptor, dirty: DirtyRect) {
    cache.update(
        handle,
        descriptor,
        TextureFilter::Linear,
        Some(CachedImageData::Raw(Arc::new(vec![1, 2, 3]))),
        FloatBits4 { x: 1, y: 2, z: 3, w: 4 },
        dirty,
        UvRectKind::Rect,
        Eviction::Auto,
        TargetShader::Default,
        false,
    );
}

#[test]
fn invalid_handle_needs_an_upload() {
    let mut cache = TextureCache::new_for_testing(2048, ImageFormat::BGRA8);
    assert_eq!(cache.max_texture_size(), 2048);
    assert_eq!(cache.tiling_threshold(), 2048);
    assert_eq!(cache.shared_color_expected_format(), ImageFormat::BGRA8);
    let handle = TextureCacheHandle::invalid();
    assert!(cache.request(&handle));
    assert_eq!(cache.try_get(&handle), None);
    assert_eq!(cache.entry_of(&handle), None);
    // A handle that was never given out names nothing either.
    assert!(cache.request(&TextureCacheHandle { slot: Some(3) }));
    assert!(!CacheItem::invalid().is_valid());
    assert_eq!(CacheItem::invalid().texture_id, TextureSource::Invalid);
}

#[test]
fn update_allocates_and_queues_the_upload() {
    let mut cache = TextureCache::new_for_testing(2048, ImageFormat::BGRA8);
    cache.begin_frame(FrameStamp { id: FrameId(5) });
    let mut handle = TextureCacheHandle::invalid();
    let part = DirtyRect::Partial(DeviceIntRect::new(DeviceIntPoint::new(1, 1), DeviceIntPoint::new(2, 2)));
    upload(&mut cache, &mut handle, pixels(10, 20, ImageFormat::R8), part);
    assert_eq!(handle, TextureCacheHandle { slot: Some(0) });
    assert!(!cache.request(&handle));
    let item = cache.get(&handle);
    assert_eq!(
        item,
        CacheItem {
            texture_id: TextureSource::TextureCache(CacheTextureId(0)),
            uv_rect_handle: GpuCacheHandle { location: Some(0) },
            uv_rect: DeviceIntRect::new(DeviceIntPoint::new(0, 0), DeviceIntPoint::new(10, 20)),
            user_data: FloatBits4 { x: 1, y: 2, z: 3, w: 4 },
        }
    );
    assert!(item.is_valid());
    assert_eq!(cache.get_cache_location(&handle), (CacheTextureId(0), item.uv_rect));
    let entry = cache.entry_of(&handle).unwrap();
    assert_eq!(entry.size, DeviceIntSize::new(10, 20));
    assert_eq!(entry.format, ImageFormat::R8);
    assert_eq!(entry.last_access, FrameId(5));
    let updates = cache.pending_updates();
    assert_eq!(updates.len(), 1);
    assert_eq!(updates[0].texture_id, CacheTextureId(0));
    // A fresh allocation is uploaded as a whole, whatever the dirty rect.
    assert_eq!(updates[0].dirty_rect, DirtyRect::All);
    assert!(cache.pending_updates().is_empty());
}

#[test]
fn update_keeps_an_allocation_of_the_same_size_and_format() {
    let mut cache = TextureCache::new_for_testing(2048, ImageFormat::BGRA8);
    let mut handle = TextureCacheHandle::invalid();
    upload(&mut cache, &mut handle, pixels(10, 20, ImageFormat::R8), DirtyRect::All);
    let first = handle;
    let part = DirtyRect::Partial(DeviceIntRect::new(DeviceIntPoint::new(1, 1), DeviceIntPoint::new(2, 2)));
    upload(&mut cache, &mut handle, pixels(10, 20, ImageFormat::R8), part);
    assert_eq!(handle, first);
    let updates = cache.pending_updates();
    assert_eq!(updates[1].dirty_rect, part);
    // Another size takes a fresh allocation and gives up the old one.
    upload(&mut cache, &mut handle, pixels(10, 21, ImageFormat::R8), part);
    assert_eq!(handle, TextureCacheHandle { slot: Some(1) });
    assert!(cache.try_get(&first).is_none());
    assert_eq!(cache.pending_updates()[0].dirty_rect, DirtyRect::All);
    // So does another format.
    upload(&mut cache, &mut handle, pixels(10, 21, ImageFormat::RG8), part);
    assert_eq!(handle, TextureCacheHandle { slot: Some(2) });
}

#[test]
fn evicted_handle_is_stale_for_good() {
    let mut cache = TextureCache::new_for_testing(2048, ImageFormat::BGRA8);
    let mut first = TextureCacheHandle::invalid();
    let mut second = TextureCacheHandle::invalid();
    upload(&mut cache, &mut first, pixels(10, 20, ImageFormat::R8), DirtyRect::All);
    upload(&mut cache, &mut second, pixels(10, 20, ImageFormat::R8), DirtyRect::All);
    cache.evict_handle(&first);
    assert!(cache.request(&first));
    assert!(!cache.request(&second));
    // Evicting again, or evicting what never was, changes nothing.
    cache.evict_handle(&first);
    cache.evict_handle(&TextureCacheHandle::invalid());
    assert!(!cache.request(&second));
    // A new allocation does not take the slot of the old one.
    let mut third = TextureCacheHandle::invalid();
    upload(&mut cache, &mut third, pixels(10, 20, ImageFormat::R8), DirtyRect::All);
    assert_ne!(third, first);
    assert!(cache.request(&first));
}

#[test]
fn items_that_do_not_fit_the_shared_textures_stand_alone() {
    let cache = TextureCache::new(4096, 4096, ImageFormat::BGRA8, 512);
    assert!(cache.is_allowed_in_shared_cache(TextureFilter::Linear, &pixels(512, 512, ImageFormat::BGRA8)));
    assert!(!cache.is_allowed_in_shared_cache(TextureFilter::Linear, &pixels(513, 2, ImageFormat::BGRA8)));
    assert!(!cache.is_allowed_in_shared_cache(TextureFilter::Linear, &pixels(2, 513, ImageFormat::BGRA8)));
    assert!(cache.is_allowed_in_shared_cache(TextureFilter::Nearest, &pixels(2, 2, ImageFormat::BGRA8)));
    assert!(!cache.is_allowed_in_shared_cache(TextureFilter::Nearest, &pixels(2, 2, ImageFormat::R8)));
    assert!(!cache.is_allowed_in_shared_cache(TextureFilter::Nearest, &pixels(2, 2, ImageFormat::RG8)));
    assert!(cache.is_allowed_in_shared_cache(TextureFilter::Trilinear, &pixels(2, 2, ImageFormat::R8)));
}

#[test]
fn render_targets_share_the_texture_ids_with_the_items() {
    let mut cache = TextureCache::new_for_testing(2048, ImageFormat::BGRA8);
    let mut handle = TextureCacheHandle::invalid();
    upload(&mut cache, &mut handle, pixels(10, 20, ImageFormat::R8), DirtyRect::All);
    let target = cache.alloc_render_target(DeviceIntSize::new(64, 64), ImageFormat::RGBA8);
    assert_eq!(target, CacheTextureId(1));
    // A render target is no cached item.
    assert!(cache.try_get(&TextureCacheHandle { slot: Some(1) }).is_none());
    cache.clear_all();
    assert!(cache.try_get(&handle).is_none());
    // Clearing the items leaves the render targets: this one can be freed.
    cache.free_render_target(target);
    let next = cache.alloc_render_target(DeviceIntSize::new(64, 64), ImageFormat::RGBA8);
    assert_eq!(next, CacheTextureId(2));
}
