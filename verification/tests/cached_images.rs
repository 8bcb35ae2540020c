use std::sync::Arc;

use resource_cache::api::{
    BlobImageKey, BlobImageRequest, DirtyRect, ExternalImageData, ExternalImageId, ExternalImageType, IdNamespace,
    ImageBufferKind, ImageData, ImageDescriptor, ImageDescriptorFlags, ImageFormat, ImageKey, ImageRendering,
    SnapshotImageKey,
};
use resource_cache::class_cache::ResourceClassCache;
use resource_cache::gpu_types::UvRectKind;
use resource_cache::internal_types::{FloatBits4, TextureFilter};
use resource_cache::resource_cache::{
    CachedImageData, CachedImageInfo, CachedImageKey, ImageRequest, ImageResult,
};
use resource_cache::texture_cache::{Eviction, TargetShader, TextureCache, TextureCacheHandle};
use resource_cache::units::TileOffset;

fn external(image_type: ExternalImageType) -> ExternalImageData {
    ExternalImageData { id: ExternalImageId(1), channel_index: 2, image_type, normalized_uvs: false }
}

fn allocate(cache: &mut TextureCache, eviction: Eviction) -> TextureCacheHandle {
    let mut handle = TextureCacheHandle::invalid();
    cache.update(
        &mut handle,
        ImageDescriptor::new(4, 4, ImageFormat::R8, ImageDescriptorFlags::empty()),
        TextureFilter::Linear,
        None,
        FloatBits4::zero(),
        DirtyRect::All,
        UvRectKind::Rect,
        eviction,
        TargetShader::Default,
        false,
    );
    handle
}

#[test]
fn backing_stores_know_what_they_are() {
    let raw = CachedImageData::from_image_data(ImageData::Raw(Arc::new(vec![1, 2])));
    assert!(matches!(&raw, CachedImageData::Raw(bytes) if **bytes == vec![1, 2]));
    assert!(!raw.is_blob() && !raw.is_snapshot() && raw.uses_texture_cache());
    assert!(CachedImageData::Blob.is_blob());
    assert!(!CachedImageData::Blob.is_snapshot());
    assert!(CachedImageData::Blob.uses_texture_cache());
    assert!(CachedImageData::Snapshot.is_snapshot());
    assert!(!CachedImageData::Snapshot.is_blob());
    assert!(CachedImageData::Snapshot.uses_texture_cache());
    let buffer = CachedImageData::from(ImageData::External(external(ExternalImageType::Buffer)));
    assert!(matches!(buffer, CachedImageData::External(data) if data == external(ExternalImageType::Buffer)));
    assert!(buffer.uses_texture_cache());
    let texture = CachedImageData::External(external(ExternalImageType::TextureHandle(ImageBufferKind::TextureExternal)));
    assert!(!texture.uses_texture_cache());
    assert!(!texture.is_blob() && !texture.is_snapshot());
}

#[test]
fn shared_backing_store_holds_the_same_bytes() {
    let bytes = Arc::new(vec![1u8, 2, 3]);
    let raw = CachedImageData::Raw(bytes.clone());
    match raw.share() {
        CachedImageData::Raw(shared) => assert!(Arc::ptr_eq(&shared, &bytes)),
        _ => panic!("expected raw bytes"),
    }
    assert!(matches!(CachedImageData::Blob.share(), CachedImageData::Blob));
    assert!(matches!(CachedImageData::Snapshot.share(), CachedImageData::Snapshot));
}

#[test]
fn requests_project_to_their_keys() {
    let key = ImageKey::new(IdNamespace(4), 2);
    let request = ImageRequest { key, rendering: ImageRendering::CrispEdges, tile: None };
    assert_eq!(request.into_cached_image_key(), CachedImageKey { rendering: ImageRendering::CrispEdges, tile: None });
    let tiled = request.with_tile(TileOffset::new(3, -1));
    assert_eq!(tiled, ImageRequest { key, rendering: ImageRendering::CrispEdges, tile: Some(TileOffset::new(3, -1)) });
    assert_eq!(
        tiled.into_cached_image_key(),
        CachedImageKey { rendering: ImageRendering::CrispEdges, tile: Some(TileOffset::new(3, -1)) }
    );
    assert_eq!(tiled.into_blob_image_request(), BlobImageRequest { key: BlobImageKey(key), tile: TileOffset::new(3, -1) });
    let converted: CachedImageKey = tiled.into();
    assert_eq!(converted, tiled.into_cached_image_key());
    assert_eq!(BlobImageKey(key).as_image(), key);
    assert_eq!(SnapshotImageKey(key).as_image(), key);
    assert!(!request.is_untiled_auto());
    assert!(!ImageRequest { rendering: ImageRendering::Auto, ..tiled }.is_untiled_auto());
    assert!(ImageRequest { rendering: ImageRendering::Auto, ..request }.is_untiled_auto());
}

#[test]
fn marking_unused_gives_up_the_allocation() {
    let mut textures = TextureCache::new_for_testing(1024, ImageFormat::RGBA8);
    let handle = allocate(&mut textures, Eviction::Manual);
    let mut info = CachedImageInfo { texture_cache_handle: handle, dirty_rect: DirtyRect::All, manual_eviction: true };
    info.mark_unused(&mut textures);
    assert!(!info.manual_eviction);
    assert_eq!(info.texture_cache_handle, handle);
    assert_eq!(info.dirty_rect, DirtyRect::All);
    assert!(textures.try_get(&handle).is_none());
}

#[test]
fn dropping_from_the_cache_gives_up_every_variant() {
    let mut textures = TextureCache::new_for_testing(1024, ImageFormat::RGBA8);
    let handles = [
        allocate(&mut textures, Eviction::Manual),
        allocate(&mut textures, Eviction::Auto),
        allocate(&mut textures, Eviction::Manual),
    ];
    let mut entries = ResourceClassCache::new();
    for (i, handle) in handles.iter().take(2).enumerate() {
        entries.insert(
            CachedImageKey { rendering: ImageRendering::Auto, tile: Some(TileOffset::new(i as i32, 0)) },
            CachedImageInfo { texture_cache_handle: *handle, dirty_rect: DirtyRect::empty(), manual_eviction: i == 0 },
        );
    }
    let mut multi = ImageResult::Multi(entries);
    multi.drop_from_cache(&mut textures);
    assert!(textures.try_get(&handles[0]).is_none());
    assert!(textures.try_get(&handles[1]).is_none());
    assert!(textures.try_get(&handles[2]).is_some());
    match &multi {
        ImageResult::Multi(entries) => {
            assert_eq!(entries.len(), 2);
            assert!(!entries.value_at(0).manual_eviction);
            assert!(!entries.value_at(1).manual_eviction);
            assert_eq!(entries.value_at(0).texture_cache_handle, handles[0]);
        }
        _ => panic!("expected the multi-variant state"),
    }
    let mut whole = ImageResult::UntiledAuto(CachedImageInfo {
        texture_cache_handle: handles[2],
        dirty_rect: DirtyRect::All,
        manual_eviction: true,
    });
    whole.drop_from_cache(&mut textures);
    assert!(textures.try_get(&handles[2]).is_none());
    assert!(matches!(whole, ImageResult::UntiledAuto(info) if !info.manual_eviction));
}
