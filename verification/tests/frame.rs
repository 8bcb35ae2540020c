use std::sync::Arc;

use resource_cache::api::{
    ClearCache, IdNamespace, ImageDescriptor, ImageDescriptorFlags, ImageFormat, ImageKey, ImageRendering,
};
use resource_cache::internal_types::{FrameId, FrameStamp, NativeSurfaceId, NativeTileId, FloatBits4};
use resource_cache::api::ExternalImageId;
use resource_cache::resource_cache::{
    CachedImageData, CachedVariants, ImageRequest, NativeSurfaceOperation, NativeSurfaceOperationDetails,
    ResourceCache, State,
};
use resource_cache::units::{DeviceIntPoint, DeviceIntRect, DeviceIntSize};

fn frame_key(id: u32) -> ImageKey {
    ImageKey::new(IdNamespace(3), id)
}

fn declare(cache: &mut ResourceCache, id: u32, width: i32, height: i32) -> ImageRequest {
    cache.add_image_template(
        frame_key(id),
        ImageDescriptor::new(width, height, ImageFormat::RGBA8, ImageDescriptorFlags::empty()),
        CachedImageData::Raw(Arc::new(vec![0u8; 4])),
        &DeviceIntRect::new(DeviceIntPoint::new(0, 0), DeviceIntPoint::new(width, height)),
        None,
    );
    ImageRequest { key: frame_key(id), rendering: ImageRendering::Auto, tile: None }
}

#[test]
fn frame_goes_through_its_three_phases() {
    let mut cache = ResourceCache::new_for_testing();
    assert_eq!(cache.state(), State::Idle);
    assert!(!cache.can_end_frame());
    assert!(!cache.can_block_until_all_resources_added(&Vec::new()));
    cache.begin_frame(FrameStamp { id: FrameId(7) });
    assert_eq!(cache.state(), State::AddResources);
    assert!(!cache.can_end_frame());
    cache.block_until_all_resources_added(Vec::new());
    assert_eq!(cache.state(), State::QueryResources);
    assert!(cache.can_end_frame());
    cache.end_frame();
    assert_eq!(cache.state(), State::Idle);
}

#[test]
fn after_end_frame_the_cache_is_idle_and_nothing_is_pending() {
    let mut cache = ResourceCache::new_for_testing();
    let first = declare(&mut cache, 1, 10, 10);
    let second = declare(&mut cache, 2, 20, 20);
    cache.begin_frame(FrameStamp { id: FrameId(1) });
    cache.request_image(first);
    cache.request_image(second);
    assert_eq!(cache.pending_image_requests().len(), 2);
    cache.block_until_all_resources_added(Vec::new());
    assert!(cache.pending_image_requests().is_empty());
    cache.end_frame();
    assert_eq!(cache.state(), State::Idle);
    assert!(cache.pending_image_requests().is_empty());
}

#[test]
fn blocking_a_second_time_changes_nothing() {
    let mut cache = ResourceCache::new_for_testing();
    let first = declare(&mut cache, 1, 10, 10);
    cache.begin_frame(FrameStamp { id: FrameId(1) });
    cache.request_image(first);
    cache.block_until_all_resources_added(Vec::new());
    let item = cache.get_cached_image(first).unwrap();
    let info = cache.get_image_info(first).unwrap();
    let fallback = cache.fallback_handle();
    assert!(cache.can_block_until_all_resources_added(&Vec::new()));
    cache.block_until_all_resources_added(Vec::new());
    assert_eq!(cache.state(), State::QueryResources);
    assert_eq!(cache.get_cached_image(first).unwrap(), item);
    assert_eq!(cache.get_image_info(first).unwrap(), info);
    assert_eq!(cache.fallback_handle(), fallback);
    // The fallback image and the one image were uploaded, each once.
    assert_eq!(cache.pending_updates().texture_updates.len(), 2);
}

#[test]
fn uploads_follow_the_order_of_the_requests() {
    let mut cache = ResourceCache::new_for_testing();
    let first = declare(&mut cache, 1, 10, 11);
    let second = declare(&mut cache, 2, 20, 21);
    let third = declare(&mut cache, 3, 30, 31);
    cache.begin_frame(FrameStamp { id: FrameId(1) });
    cache.request_image(third);
    cache.request_image(first);
    cache.request_image(second);
    cache.block_until_all_resources_added(Vec::new());
    let updates = cache.pending_updates();
    let sizes: Vec<DeviceIntSize> = updates.texture_updates.iter().map(|u| u.descriptor.size).collect();
    assert_eq!(
        sizes,
        vec![
            DeviceIntSize::new(1, 1),
            DeviceIntSize::new(30, 31),
            DeviceIntSize::new(10, 11),
            DeviceIntSize::new(20, 21)
        ]
    );
    // The queue is empty once it was handed out.
    assert!(cache.pending_updates().texture_updates.is_empty());
}

#[test]
fn clearing_the_images_gives_up_their_allocations_and_keeps_the_declarations() {
    let mut cache = ResourceCache::new_for_testing();
    let first = declare(&mut cache, 1, 10, 10);
    let second = declare(&mut cache, 2, 20, 20);
    cache.begin_frame(FrameStamp { id: FrameId(1) });
    cache.request_image(first);
    cache.request_image(second);
    cache.block_until_all_resources_added(Vec::new());
    let handles = [
        cache.get_image_info(first).unwrap().texture_cache_handle,
        cache.get_image_info(second).unwrap().texture_cache_handle,
    ];
    let fallback = cache.fallback_handle();
    cache.end_frame();
    let nothing =
        ClearCache { images: false, glyphs: false, glyph_dimensions: false, render_tasks: false, texture_cache: false, render_targets: false };
    cache.clear(nothing);
    assert!(cache.texture_cache().try_get(&handles[0]).is_some());
    cache.clear(ClearCache { images: true, ..nothing });
    assert!(cache.texture_cache().try_get(&handles[0]).is_none());
    assert!(cache.texture_cache().try_get(&handles[1]).is_none());
    assert!(cache.texture_cache().try_get(&fallback).is_some());
    assert!(matches!(cache.cached_variants(frame_key(1)), CachedVariants::Nothing));
    assert!(cache.get_image_properties(frame_key(1)).is_some());
    cache.clear(ClearCache { texture_cache: true, ..nothing });
    assert!(cache.texture_cache().try_get(&fallback).is_none());
}

#[test]
fn compositor_operations_are_queued_in_order() {
    let mut cache = ResourceCache::new_for_testing();
    let surface = cache.create_compositor_surface(NativeSurfaceId(4), DeviceIntPoint::new(1, 2), DeviceIntSize::new(256, 256), true);
    assert_eq!(surface, NativeSurfaceId(4));
    let external = cache.create_compositor_external_surface(NativeSurfaceId(5), false);
    assert_eq!(external, NativeSurfaceId(5));
    let color = FloatBits4 { x: 0x3f80_0000, y: 0, z: 0, w: 0x3f80_0000 };
    let backdrop = cache.create_compositor_backdrop_surface(NativeSurfaceId(6), color);
    assert_eq!(backdrop, NativeSurfaceId(6));
    let tile = NativeTileId { surface_id: surface, x: 0, y: 1 };
    cache.create_compositor_tile(tile);
    cache.attach_compositor_external_image(external, ExternalImageId(77));
    cache.destroy_compositor_tile(tile);
    cache.destroy_compositor_surface(surface);
    let updates = cache.pending_updates().native_surface_updates;
    let details: Vec<NativeSurfaceOperationDetails> = updates.iter().map(|op| op.details).collect();
    assert_eq!(
        details,
        vec![
            NativeSurfaceOperationDetails::CreateSurface {
                id: NativeSurfaceId(4),
                virtual_offset: DeviceIntPoint::new(1, 2),
                tile_size: DeviceIntSize::new(256, 256),
                is_opaque: true,
            },
            NativeSurfaceOperationDetails::CreateExternalSurface { id: NativeSurfaceId(5), is_opaque: false },
            NativeSurfaceOperationDetails::CreateBackdropSurface { id: NativeSurfaceId(6), color },
            NativeSurfaceOperationDetails::CreateTile { id: tile },
            NativeSurfaceOperationDetails::AttachExternalImage { id: NativeSurfaceId(5), external_image: ExternalImageId(77) },
            NativeSurfaceOperationDetails::DestroyTile { id: tile },
            NativeSurfaceOperationDetails::DestroySurface { id: NativeSurfaceId(4) },
        ]
    );
    assert_eq!(updates[0], NativeSurfaceOperation { details: details[0] });
    assert!(cache.pending_updates().native_surface_updates.is_empty());
}
