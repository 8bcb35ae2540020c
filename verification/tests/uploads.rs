use std::sync::Arc;

use resource_cache::api::{
    BlobImageError, BlobImageKey, BlobImageRequest, DebugFlags, DirtyRect, IdNamespace, ImageDescriptor,
    ImageDescriptorFlags, ImageFormat, ImageKey, ImageRendering, RasterizedBlobImage, SnapshotImageKey,
};
use resource_cache::font::SharedFontResources;
use resource_cache::glyph_cache::GlyphCache;
use resource_cache::gpu_types::UvRectKind;
use resource_cache::internal_types::{CacheTextureId, FloatBits4, FrameId, FrameStamp, TextureFilter, TextureSource};
use resource_cache::resource_cache::{
    AdjustedImageSource, CachedImageData, CachedVariants, ImageRequest, RenderTargetKind, RenderTaskLocation,
    ResourceCache, StaticRenderTaskSurface,
};
use resource_cache::texture_cache::{Eviction, TargetShader, TextureCache};
use resource_cache::units::{DeviceIntPoint, DeviceIntRect, DeviceIntSize, TileOffset};

fn upload_key(id: u32) -> ImageKey {
    ImageKey::new(IdNamespace(2), id)
}

fn layout(width: i32, height: i32) -> ImageDescriptor {
    ImageDescriptor::new(width, height, ImageFormat::RGBA8, ImageDescriptorFlags::empty())
}

fn area(x0: i32, y0: i32, x1: i32, y1: i32) -> DeviceIntRect {
    DeviceIntRect::new(DeviceIntPoint::new(x0, y0), DeviceIntPoint::new(x1, y1))
}

fn request(id: u32) -> ImageRequest {
    ImageRequest { key: upload_key(id), rendering: ImageRendering::Auto, tile: None }
}

fn raw_bytes(data: Vec<u8>) -> CachedImageData {
    CachedImageData::Raw(Arc::new(data))
}

fn data_of(data: &CachedImageData) -> Vec<u8> {
    match data {
        CachedImageData::Raw(bytes) => (**bytes).clone(),
        _ => panic!("expected raw bytes"),
    }
}

#[test]
fn tile_of_a_large_raw_image_is_uploaded_from_its_offset() {
    let mut cache = ResourceCache::new(
        TextureCache::new(4096, 2048, ImageFormat::RGBA8, 512),
        GlyphCache::new(),
        SharedFontResources::new(),
        false,
    );
    cache.add_image_template(upload_key(1), layout(4096, 4096), raw_bytes(vec![9; 16]), &area(0, 0, 4096, 4096), None);
    assert_eq!(cache.get_image_properties(upload_key(1)).unwrap().tiling, Some(512));
    cache.begin_frame(FrameStamp { id: FrameId(1) });
    let tile = request(1).with_tile(TileOffset::new(1, 0));
    assert_eq!(cache.request_image(tile), DeviceIntSize::new(512, 512));
    let lower = request(1).with_tile(TileOffset::new(2, 3));
    cache.request_image(lower);
    assert!(cache.can_block_until_all_resources_added(&Vec::new()));
    cache.block_until_all_resources_added(Vec::new());
    let updates = cache.pending_updates().texture_updates;
    // The fallback image, then the two tiles.
    assert_eq!(updates.len(), 3);
    let first = &updates[1];
    assert_eq!(first.descriptor.size, DeviceIntSize::new(512, 512));
    assert_eq!(first.descriptor.stride, Some(4096 * 4));
    assert_eq!(first.descriptor.offset, 0 + 1 * 512 * 4);
    assert_eq!(first.descriptor.format, ImageFormat::RGBA8);
    assert_eq!(first.dirty_rect, DirtyRect::All);
    assert_eq!(data_of(&first.data), vec![9; 16]);
    let second = &updates[2];
    assert_eq!(second.descriptor.stride, Some(16384));
    assert_eq!(second.descriptor.offset, 3 * 512 * 16384 + 2 * 512 * 4);
    assert_eq!(second.descriptor.size, DeviceIntSize::new(512, 512));
}

#[test]
fn dirty_rects_add_up_until_the_upload() {
    let mut cache = ResourceCache::new_for_testing();
    cache.add_image_template(upload_key(1), layout(100, 100), raw_bytes(vec![1; 4]), &area(0, 0, 100, 100), None);
    cache.begin_frame(FrameStamp { id: FrameId(1) });
    cache.request_image(request(1));
    cache.block_until_all_resources_added(Vec::new());
    assert_eq!(cache.get_image_info(request(1)).unwrap().dirty_rect, DirtyRect::empty());
    let first = cache.pending_updates().texture_updates;
    assert_eq!(first.len(), 2);
    assert_eq!(first[1].dirty_rect, DirtyRect::All);
    cache.end_frame();

    cache.update_image_template(
        upload_key(1),
        layout(100, 100),
        raw_bytes(vec![2; 4]),
        &DirtyRect::Partial(area(0, 0, 10, 10)),
    );
    assert_eq!(cache.get_image_info(request(1)).unwrap().dirty_rect, DirtyRect::Partial(area(0, 0, 10, 10)));
    cache.update_image_template(
        upload_key(1),
        layout(100, 100),
        raw_bytes(vec![3; 4]),
        &DirtyRect::Partial(area(50, 50, 60, 60)),
    );
    assert_eq!(cache.get_image_info(request(1)).unwrap().dirty_rect, DirtyRect::Partial(area(0, 0, 60, 60)));
    cache.begin_frame(FrameStamp { id: FrameId(2) });
    cache.request_image(request(1));
    assert_eq!(cache.pending_image_requests().len(), 1);
    cache.block_until_all_resources_added(Vec::new());
    let second = cache.pending_updates().texture_updates;
    assert_eq!(second.len(), 1);
    assert_eq!(second[0].dirty_rect, DirtyRect::Partial(area(0, 0, 60, 60)));
    assert_eq!(data_of(&second[0].data), vec![3; 4]);
    assert_eq!(second[0].descriptor, layout(100, 100));
    // The dirty rect is used up.
    assert_eq!(cache.get_image_info(request(1)).unwrap().dirty_rect, DirtyRect::Partial(area(0, 0, 0, 0)));
    assert!(cache.get_image_info(request(1)).unwrap().dirty_rect.is_empty());
}

#[test]
fn dirty_rect_of_a_tile_is_relative_to_the_tile() {
    let mut cache = ResourceCache::new_for_testing();
    cache.add_image_template(upload_key(1), layout(1000, 600), raw_bytes(vec![1; 4]), &area(0, 0, 1000, 600), Some(512));
    cache.begin_frame(FrameStamp { id: FrameId(1) });
    let left = request(1).with_tile(TileOffset::new(0, 0));
    let right = request(1).with_tile(TileOffset::new(1, 0));
    let below = request(1).with_tile(TileOffset::new(1, 1));
    cache.request_image(left);
    cache.request_image(right);
    cache.request_image(below);
    cache.block_until_all_resources_added(Vec::new());
    cache.end_frame();
    cache.update_image_template(
        upload_key(1),
        layout(1000, 600),
        raw_bytes(vec![1; 4]),
        &DirtyRect::Partial(area(500, 10, 600, 20)),
    );
    // The left tile has the columns 500..512, the right one what is left.
    assert_eq!(cache.get_image_info(left).unwrap().dirty_rect, DirtyRect::Partial(area(500, 10, 512, 20)));
    assert_eq!(cache.get_image_info(right).unwrap().dirty_rect, DirtyRect::Partial(area(0, 10, 88, 20)));
    // The tile below is not touched: its dirty rect stays empty.
    assert_eq!(cache.get_image_info(below).unwrap().dirty_rect, DirtyRect::Partial(area(0, 0, 0, 0)));
    // The whole image dirty is the whole tile dirty.
    cache.update_image_template(upload_key(1), layout(1000, 600), raw_bytes(vec![1; 4]), &DirtyRect::All);
    assert_eq!(cache.get_image_info(below).unwrap().dirty_rect, DirtyRect::All);
}

#[test]
fn pixelated_images_are_sampled_unfiltered_and_large_mipmapped_ones_through_mipmaps() {
    let mut cache = ResourceCache::new_for_testing();
    let mipmapped = ImageDescriptor::new(
        600,
        700,
        ImageFormat::RGBA8,
        ImageDescriptorFlags { is_opaque: false, allow_mipmaps: true },
    );
    cache.add_image_template(upload_key(1), layout(10, 10), raw_bytes(vec![1; 4]), &area(0, 0, 10, 10), None);
    cache.add_image_template(upload_key(2), mipmapped, raw_bytes(vec![1; 4]), &area(0, 0, 600, 700), None);
    cache.add_image_template(upload_key(3), layout(600, 700), raw_bytes(vec![1; 4]), &area(0, 0, 600, 700), None);
    let small_mipmapped = ImageDescriptor { size: DeviceIntSize::new(600, 512), ..mipmapped };
    cache.add_image_template(upload_key(4), small_mipmapped, raw_bytes(vec![1; 4]), &area(0, 0, 600, 512), None);
    cache.begin_frame(FrameStamp { id: FrameId(1) });
    let pixelated = ImageRequest { key: upload_key(1), rendering: ImageRendering::Pixelated, tile: None };
    let crisp = ImageRequest { key: upload_key(2), rendering: ImageRendering::CrispEdges, tile: None };
    cache.request_image(pixelated);
    cache.request_image(request(1));
    cache.request_image(crisp);
    cache.request_image(request(3));
    cache.request_image(request(4));
    cache.block_until_all_resources_added(Vec::new());
    let filter_of = |cache: &ResourceCache, request: ImageRequest| {
        let handle = cache.get_image_info(request).unwrap().texture_cache_handle;
        cache.texture_cache().entry_of(&handle).unwrap()
    };
    assert_eq!(filter_of(&cache, pixelated).filter, TextureFilter::Nearest);
    assert_eq!(filter_of(&cache, request(1)).filter, TextureFilter::Linear);
    assert_eq!(filter_of(&cache, crisp).filter, TextureFilter::Trilinear);
    assert_eq!(filter_of(&cache, request(3)).filter, TextureFilter::Linear);
    assert_eq!(filter_of(&cache, request(4)).filter, TextureFilter::Linear);
    let entry = filter_of(&cache, request(1));
    assert_eq!(entry.eviction, Eviction::Auto);
    assert_eq!(entry.shader, TargetShader::Default);
    assert_eq!(entry.user_data, FloatBits4::zero());
    assert_eq!(entry.uv_rect_kind, UvRectKind::Rect);
    assert_eq!(entry.last_access, FrameId(1));
    assert!(!entry.standalone);
    assert!(filter_of(&cache, crisp).standalone);
}

#[test]
fn blob_tiles_are_uploaded_from_what_was_rasterized_under_manual_eviction() {
    let mut cache = ResourceCache::new_for_testing();
    let blob = BlobImageKey(upload_key(7));
    cache.add_image_template(blob.as_image(), layout(600, 300), CachedImageData::Blob, &area(0, 0, 600, 300), Some(256));
    let tile = TileOffset::new(2, 1);
    let failed = cache.add_rasterized_blob_images(vec![
        (BlobImageRequest { key: blob, tile: TileOffset::new(0, 0) }, Err(BlobImageError::Oom)),
        (
            BlobImageRequest { key: blob, tile },
            Ok(RasterizedBlobImage { rasterized_rect: area(3, 4, 50, 40), data: Arc::new(vec![5, 6, 7, 8]) }),
        ),
    ]);
    assert_eq!(failed, 1);
    cache.begin_frame(FrameStamp { id: FrameId(1) });
    let wanted = ImageRequest { key: blob.as_image(), rendering: ImageRendering::Auto, tile: Some(tile) };
    // The tile that failed was not taken in, so it cannot be asked for.
    assert!(!cache.can_request_image(wanted.with_tile(TileOffset::new(0, 0))));
    assert!(cache.can_request_image(wanted));
    assert_eq!(cache.request_image(wanted), DeviceIntSize::new(88, 44));
    cache.block_until_all_resources_added(Vec::new());
    let updates = cache.pending_updates().texture_updates;
    assert_eq!(updates.len(), 2);
    let upload = &updates[1];
    // A blob is rasterized by tile: neither stride nor offset are set.
    assert_eq!(upload.descriptor, ImageDescriptor { size: DeviceIntSize::new(88, 44), ..layout(600, 300) });
    assert_eq!(data_of(&upload.data), vec![5, 6, 7, 8]);
    // A fresh allocation is uploaded as a whole.
    assert_eq!(upload.dirty_rect, DirtyRect::All);
    let info = cache.get_image_info(wanted).unwrap();
    assert!(info.manual_eviction);
    assert_eq!(cache.texture_cache().entry_of(&info.texture_cache_handle).unwrap().eviction, Eviction::Manual);
    cache.end_frame();

    // Rasterized anew, the tile is dirty and uploaded from the rasterized rect.
    cache.add_rasterized_blob_images(vec![(
        BlobImageRequest { key: blob, tile },
        Ok(RasterizedBlobImage { rasterized_rect: area(1, 2, 30, 20), data: Arc::new(vec![9]) }),
    )]);
    assert_eq!(cache.get_image_info(wanted).unwrap().dirty_rect, DirtyRect::All);
    cache.begin_frame(FrameStamp { id: FrameId(2) });
    cache.request_image(wanted);
    cache.block_until_all_resources_added(Vec::new());
    let updates = cache.pending_updates().texture_updates;
    assert_eq!(updates.len(), 1);
    assert_eq!(updates[0].dirty_rect, DirtyRect::Partial(area(1, 2, 30, 20)));
    assert_eq!(data_of(&updates[0].data), vec![9]);
    cache.end_frame();

    // Deleting the blob gives up the allocation.
    cache.delete_image_template(blob.as_image());
    assert!(cache.texture_cache().try_get(&info.texture_cache_handle).is_none());
    assert!(matches!(cache.cached_variants(blob.as_image()), CachedVariants::Nothing));
}

#[test]
fn tiles_outside_the_visible_area_are_discarded() {
    let mut cache = ResourceCache::new_for_testing();
    let blob = BlobImageKey(upload_key(7));
    cache.add_image_template(blob.as_image(), layout(1024, 512), CachedImageData::Blob, &area(0, 0, 1024, 512), Some(256));
    let tiles = [TileOffset::new(0, 0), TileOffset::new(1, 0), TileOffset::new(3, 1)];
    let images = tiles
        .iter()
        .map(|tile| {
            (
                BlobImageRequest { key: blob, tile: *tile },
                Ok(RasterizedBlobImage { rasterized_rect: area(0, 0, 256, 256), data: Arc::new(vec![1]) }),
            )
        })
        .collect();
    cache.add_rasterized_blob_images(images);
    cache.begin_frame(FrameStamp { id: FrameId(1) });
    let requests: Vec<ImageRequest> = tiles
        .iter()
        .map(|tile| ImageRequest { key: blob.as_image(), rendering: ImageRendering::Auto, tile: Some(*tile) })
        .collect();
    for request in &requests {
        cache.request_image(*request);
    }
    cache.block_until_all_resources_added(Vec::new());
    let handles: Vec<_> = requests.iter().map(|r| cache.get_image_info(*r).unwrap().texture_cache_handle).collect();
    cache.end_frame();
    // The visible area shrinks to the second column of tiles.
    cache.post_scene_building_update(vec![resource_cache::api::ResourceUpdate::SetBlobImageVisibleArea(
        blob,
        area(256, 0, 512, 256),
    )]);
    match cache.cached_variants(blob.as_image()) {
        CachedVariants::Multi(keys) => {
            assert_eq!(keys.len(), 1);
            assert_eq!(keys[0].tile, Some(TileOffset::new(1, 0)));
        }
        _ => panic!("expected the multi-variant state"),
    }
    assert!(cache.texture_cache().try_get(&handles[0]).is_none());
    assert!(cache.texture_cache().try_get(&handles[1]).is_some());
    assert!(cache.texture_cache().try_get(&handles[2]).is_none());
    let properties = cache.get_image_properties(blob.as_image()).unwrap();
    assert_eq!(properties.visible_rect, area(256, 0, 512, 256));
    assert_eq!(properties.descriptor.size, DeviceIntSize::new(256, 256));
    // What was rasterized outside the area is gone as well.
    cache.begin_frame(FrameStamp { id: FrameId(2) });
    assert!(cache.can_request_image(requests[1]));
    assert!(!cache.can_request_image(requests[2]));
}

#[test]
fn missing_snapshot_is_drawn_from_the_fallback_image() {
    let mut cache = ResourceCache::new_for_testing();
    let snapshot = SnapshotImageKey(upload_key(4));
    cache.post_scene_building_update(vec![resource_cache::api::ResourceUpdate::AddSnapshotImage(
        resource_cache::api::AddSnapshotImage { key: snapshot },
    )]);
    let properties = cache.get_image_properties(snapshot.as_image()).unwrap();
    assert_eq!(properties.descriptor.size, DeviceIntSize::zero());
    assert_eq!(properties.tiling, None);
    cache.begin_frame(FrameStamp { id: FrameId(1) });
    let wanted = request(4);
    assert_eq!(cache.request_image(wanted), DeviceIntSize::zero());
    cache.block_until_all_resources_added(Vec::new());
    let updates = cache.pending_updates().texture_updates;
    // Only the fallback image is uploaded: one transparent pixel.
    assert_eq!(updates.len(), 1);
    assert_eq!(data_of(&updates[0].data), vec![0, 0, 0, 0]);
    assert_eq!(updates[0].descriptor.size, DeviceIntSize::new(1, 1));
    assert_eq!(updates[0].descriptor.format, ImageFormat::BGRA8);
    assert!(cache.can_get_cached_image(wanted));
    let item = cache.get_cached_image(wanted).unwrap();
    let fallback = cache.get_texture_cache_item(&cache.fallback_handle()).unwrap();
    assert_eq!(item, fallback);
    assert_eq!(item.uv_rect, area(0, 0, 1, 1));
    assert!(item.is_valid());
    let entry = cache.texture_cache().entry_of(&cache.fallback_handle()).unwrap();
    assert_eq!(entry.eviction, Eviction::Manual);
    // With the debug switch set, the missing snapshot is fatal: the call is
    // not admitted.
    cache.set_debug_flags(DebugFlags { glyph_flashing: false, missing_snapshot_panic: true, missing_snapshot_pink: false });
    assert!(!cache.can_get_cached_image(wanted));
}

#[test]
fn pink_fallback_image_has_a_pink_pixel() {
    let mut cache = ResourceCache::new_for_testing();
    cache.set_debug_flags(DebugFlags { glyph_flashing: false, missing_snapshot_panic: false, missing_snapshot_pink: true });
    cache.begin_frame(FrameStamp { id: FrameId(1) });
    cache.block_until_all_resources_added(Vec::new());
    let updates = cache.pending_updates().texture_updates;
    assert_eq!(updates.len(), 1);
    assert_eq!(data_of(&updates[0].data), vec![255, 0, 255, 255]);
    assert_eq!(
        cache.pending_notifications(),
        vec![resource_cache::resource_cache::Notification::RasterizerSetGlyphFlashing(false)]
    );
    // Changing the colour gives up the image that was made.
    let handle = cache.fallback_handle();
    assert!(cache.texture_cache().try_get(&handle).is_some());
    cache.set_debug_flags(DebugFlags { glyph_flashing: false, missing_snapshot_panic: false, missing_snapshot_pink: false });
    assert!(cache.texture_cache().try_get(&handle).is_none());
}

#[test]
fn snapshot_is_rendered_into_a_texture_of_its_own() {
    let mut cache = ResourceCache::new_for_testing();
    let snapshot = SnapshotImageKey(upload_key(4));
    cache.add_image_template(
        snapshot.as_image(),
        layout(0, 0),
        CachedImageData::Snapshot,
        &area(0, 0, 0, 0),
        None,
    );
    cache.begin_frame(FrameStamp { id: FrameId(1) });
    assert!(cache.can_render_as_image(snapshot.as_image()));
    assert!(!cache.can_render_as_image(upload_key(99)));
    let adjustment = AdjustedImageSource { values: FloatBits4 { x: 1, y: 2, z: 3, w: 4 } };
    let location =
        cache.render_as_image(snapshot.as_image(), DeviceIntSize::new(40, 30), true, &adjustment, UvRectKind::Rect);
    let info = match cache.cached_variants(snapshot.as_image()) {
        CachedVariants::UntiledAuto(info) => info,
        _ => panic!("expected the whole-image state"),
    };
    assert!(info.manual_eviction);
    assert_eq!(info.dirty_rect, DirtyRect::All);
    let slot = info.texture_cache_handle.slot.unwrap();
    assert_eq!(
        location,
        RenderTaskLocation::Static {
            surface: StaticRenderTaskSurface::TextureCache {
                texture: CacheTextureId(slot),
                target_kind: RenderTargetKind::Color,
            },
            rect: area(0, 0, 40, 30),
        }
    );
    let entry = cache.texture_cache().entry_of(&info.texture_cache_handle).unwrap();
    assert_eq!(entry.size, DeviceIntSize::new(40, 30));
    assert_eq!(entry.format, ImageFormat::RGBA8);
    assert_eq!(entry.filter, TextureFilter::Linear);
    assert_eq!(entry.eviction, Eviction::Manual);
    assert!(entry.standalone);
    assert_eq!(cache.get_image_properties(snapshot.as_image()).unwrap().adjustment, adjustment);
    // Nothing is uploaded for a snapshot, neither now nor with the frame.
    cache.request_image(request(4));
    cache.block_until_all_resources_added(Vec::new());
    assert_eq!(cache.pending_updates().texture_updates.len(), 1);
    let item = cache.get_cached_image(request(4)).unwrap();
    assert_eq!(item.texture_id, TextureSource::TextureCache(CacheTextureId(slot)));
    assert_eq!(item.uv_rect, area(0, 0, 40, 30));
    // Rendered again at the same size, the snapshot keeps its texture.
    cache.end_frame();
    cache.begin_frame(FrameStamp { id: FrameId(2) });
    let again =
        cache.render_as_image(snapshot.as_image(), DeviceIntSize::new(40, 30), true, &adjustment, UvRectKind::Rect);
    assert_eq!(again, location);
}
