use std::sync::Arc;

use resource_cache::api::{
    AddFont, AddFontInstance, AddImage, FontInstanceKey, FontKey, IdNamespace, ImageData, ImageDescriptor,
    ImageDescriptorFlags, ImageFormat, ImageKey, ResourceUpdate, UpdateImage, DirtyRect,
};
use resource_cache::font::{
    BaseFontInstance, FontInstanceKeyMap, FontKeyMap, FontTemplate, NativeFontHandle, SharedFontResources,
};
use resource_cache::glyph_cache::GlyphCache;
use resource_cache::texture_cache::TextureCache;
use resource_cache::glyph_rasterizer::{FontInstance, GlyphKey};
use resource_cache::internal_types::{FrameId, FrameStamp};
use resource_cache::resource_cache::{ImageGeneration, Notification, ResourceCache};

fn font_key(ns: u32, id: u32) -> FontKey {
    FontKey(IdNamespace(ns), id)
}

fn instance_key(ns: u32, id: u32) -> FontInstanceKey {
    FontInstanceKey(IdNamespace(ns), id)
}

fn cache_with_blob_handler() -> ResourceCache {
    ResourceCache::new(
        TextureCache::new_for_testing(4096, ImageFormat::RGBA8),
        GlyphCache::new(),
        SharedFontResources::new(),
        true,
    )
}

fn raw_font() -> FontTemplate {
    FontTemplate::Raw(Arc::new(vec![0u8; 16]), 0)
}

#[test]
fn unmapped_key_stands_for_itself() {
    let mut keys = FontKeyMap::new();
    assert_eq!(keys.map_key(&font_key(1, 1)), font_key(1, 1));
    keys.add_key(font_key(1, 1), font_key(0, 9));
    assert_eq!(keys.map_key(&font_key(1, 1)), font_key(0, 9));
    assert_eq!(keys.map_key(&font_key(1, 2)), font_key(1, 2));
}

#[test]
fn shared_key_is_released_with_its_last_key() {
    let mut keys = FontKeyMap::new();
    keys.add_key(font_key(1, 1), font_key(0, 9));
    keys.add_key(font_key(2, 1), font_key(0, 9));
    keys.add_key(font_key(2, 2), font_key(0, 8));
    assert_eq!(keys.delete_key(&font_key(5, 5)), None);
    assert_eq!(keys.delete_key(&font_key(1, 1)), None);
    assert_eq!(keys.map_key(&font_key(1, 1)), font_key(1, 1));
    assert_eq!(keys.delete_key(&font_key(2, 1)), Some(font_key(0, 9)));
    assert_eq!(keys.delete_key(&font_key(2, 1)), None);
    assert_eq!(keys.delete_key(&font_key(2, 2)), Some(font_key(0, 8)));
}

#[test]
fn clearing_a_namespace_releases_what_only_it_shared() {
    let mut keys = FontInstanceKeyMap::new();
    keys.add_key(instance_key(1, 1), instance_key(0, 1));
    keys.add_key(instance_key(1, 2), instance_key(0, 1));
    keys.add_key(instance_key(1, 3), instance_key(0, 2));
    keys.add_key(instance_key(2, 1), instance_key(0, 2));
    keys.add_key(instance_key(2, 2), instance_key(0, 3));
    let released = keys.clear_namespace(IdNamespace(1));
    assert_eq!(released, vec![instance_key(0, 1)]);
    assert_eq!(keys.map_key(&instance_key(1, 1)), instance_key(1, 1));
    assert_eq!(keys.map_key(&instance_key(2, 1)), instance_key(0, 2));
    let released = keys.clear_namespace(IdNamespace(7));
    assert!(released.is_empty());
    let mut released = keys.clear_namespace(IdNamespace(2));
    released.sort_by_key(|k| k.1);
    assert_eq!(released, vec![instance_key(0, 2), instance_key(0, 3)]);
}

#[test]
fn font_is_declared_once_and_the_rasterizer_is_told() {
    let mut cache = ResourceCache::new_for_testing();
    cache.add_font_key(font_key(1, 1), font_key(0, 9));
    cache.add_font_key(font_key(2, 1), font_key(0, 9));
    assert_eq!(cache.map_font_key(font_key(1, 1)), font_key(0, 9));
    assert_eq!(cache.map_font_key(font_key(3, 1)), font_key(3, 1));
    cache.post_scene_building_update(vec![
        ResourceUpdate::AddFont(AddFont::Raw(font_key(1, 1), Arc::new(vec![1, 2, 3]), 2)),
        ResourceUpdate::AddFont(AddFont::Raw(font_key(2, 1), Arc::new(vec![1, 2, 3]), 2)),
        ResourceUpdate::AddFont(AddFont::Native(
            font_key(3, 1),
            NativeFontHandle { path: String::from("/fonts/a.ttf"), index: 1 },
        )),
        ResourceUpdate::AddFontInstance(AddFontInstance { key: instance_key(1, 1), font_key: font_key(1, 1) }),
    ]);
    assert_eq!(
        cache.pending_notifications(),
        vec![Notification::RasterizerAddFont(font_key(0, 9)), Notification::RasterizerAddFont(font_key(3, 1))]
    );
    assert!(cache.pending_notifications().is_empty());
    assert!(cache.get_fonts().has_font(&font_key(0, 9)));
    assert!(cache.get_fonts().has_font(&font_key(3, 1)));
    assert!(!cache.get_fonts().has_font(&font_key(1, 1)));
    match cache.get_fonts().get_font(&font_key(0, 9)) {
        Some(FontTemplate::Raw(bytes, index)) => {
            assert_eq!(**bytes, vec![1, 2, 3]);
            assert_eq!(*index, 2);
        }
        _ => panic!("expected a raw font"),
    }
    match cache.get_fonts().get_font(&font_key(3, 1)) {
        Some(FontTemplate::Native(handle)) => {
            assert_eq!(handle.path, "/fonts/a.ttf");
            assert_eq!(handle.index, 1);
        }
        _ => panic!("expected a native font"),
    }
    assert!(cache.get_fonts().get_font(&font_key(9, 9)).is_none());
}

#[test]
fn shared_font_goes_with_its_last_key_and_takes_its_glyphs_along() {
    let mut cache = cache_with_blob_handler();
    cache.add_font_key(font_key(1, 1), font_key(0, 9));
    cache.add_font_key(font_key(2, 1), font_key(0, 9));
    cache.add_font_template(font_key(0, 9), raw_font());
    let font = FontInstance { instance_key: instance_key(0, 1), font_key: font_key(0, 9) };
    let other = FontInstance { instance_key: instance_key(0, 2), font_key: font_key(0, 8) };
    cache.begin_frame(FrameStamp { id: FrameId(1) });
    cache.request_glyphs(font, &[GlyphKey(1)]);
    cache.request_glyphs(other, &[GlyphKey(1)]);
    cache.block_until_all_resources_added(Vec::new());
    cache.end_frame();
    let _ = cache.pending_notifications();
    cache.post_scene_building_update(vec![ResourceUpdate::DeleteFont(font_key(1, 1))]);
    assert!(cache.pending_notifications().is_empty());
    assert!(cache.get_fonts().has_font(&font_key(0, 9)));
    cache.post_scene_building_update(vec![
        ResourceUpdate::DeleteFont(font_key(2, 1)),
        ResourceUpdate::DeleteFont(font_key(2, 1)),
    ]);
    assert_eq!(
        cache.pending_notifications(),
        vec![Notification::RasterizerDeleteFont(font_key(0, 9)), Notification::BlobHandlerDeleteFont(font_key(0, 9))]
    );
    assert!(!cache.get_fonts().has_font(&font_key(0, 9)));
    cache.begin_frame(FrameStamp { id: FrameId(2) });
    // The glyphs of the font are forgotten, those of the other font are not.
    assert_eq!(cache.request_glyphs(font, &[GlyphKey(1)]), vec![GlyphKey(1)]);
    assert!(cache.request_glyphs(other, &[GlyphKey(1)]).is_empty());
}

#[test]
fn font_instance_goes_with_its_last_key() {
    let mut cache = cache_with_blob_handler();
    let shared = BaseFontInstance { instance_key: instance_key(0, 1), font_key: font_key(0, 9), size: 16.0f32.to_bits() };
    cache.add_font_instance(instance_key(1, 1), shared);
    cache.add_font_instance(instance_key(2, 1), shared);
    assert_eq!(cache.map_font_instance_key(instance_key(1, 1)), instance_key(0, 1));
    assert_eq!(cache.map_font_instance_key(instance_key(3, 1)), instance_key(3, 1));
    assert_eq!(cache.get_font_instance(instance_key(0, 1)), Some(shared));
    assert_eq!(cache.get_font_instance(instance_key(1, 1)), None);
    cache.post_scene_building_update(vec![ResourceUpdate::DeleteFontInstance(instance_key(1, 1))]);
    assert_eq!(cache.get_font_instance(instance_key(0, 1)), Some(shared));
    cache.post_scene_building_update(vec![ResourceUpdate::DeleteFontInstance(instance_key(2, 1))]);
    assert_eq!(cache.get_font_instance(instance_key(0, 1)), None);
    // The blob handler hears of every key, shared or not.
    assert_eq!(
        cache.pending_notifications(),
        vec![
            Notification::BlobHandlerDeleteFontInstance(instance_key(1, 1)),
            Notification::BlobHandlerDeleteFontInstance(instance_key(2, 1)),
        ]
    );
    cache.add_font_instance(instance_key(1, 1), shared);
    cache.delete_font_instance(instance_key(0, 1));
    assert_eq!(cache.get_font_instance(instance_key(0, 1)), None);
}

#[test]
fn transaction_applies_its_updates_in_order() {
    let mut cache = ResourceCache::new_for_testing();
    let key = ImageKey::new(IdNamespace(1), 1);
    let descriptor = ImageDescriptor::new(20, 10, ImageFormat::R8, ImageDescriptorFlags::empty());
    let data = || ImageData::Raw(Arc::new(vec![0u8; 200]));
    let update = ResourceUpdate::UpdateImage(UpdateImage { key, descriptor, data: data(), dirty_rect: DirtyRect::All });
    // An image that is not declared cannot be updated.
    assert!(!cache.can_apply_update(&update));
    cache.post_scene_building_update(vec![
        ResourceUpdate::AddImage(AddImage { key, descriptor, data: data(), tiling: Some(4) }),
        update,
        ResourceUpdate::UpdateImage(UpdateImage { key, descriptor, data: data(), dirty_rect: DirtyRect::All }),
    ]);
    assert_eq!(cache.get_image_generation(key), ImageGeneration(2));
    let properties = cache.get_image_properties(key).unwrap();
    assert_eq!(properties.tiling, Some(16));
    assert_eq!(properties.visible_rect.max.x, 20);
    assert_eq!(properties.visible_rect.max.y, 10);
    cache.post_scene_building_update(vec![
        ResourceUpdate::DeleteImage(key),
        ResourceUpdate::AddImage(AddImage { key, descriptor, data: data(), tiling: None }),
    ]);
    assert_eq!(cache.get_image_generation(key), ImageGeneration(0));
    assert_eq!(cache.get_image_properties(key).unwrap().tiling, None);
    cache.post_scene_building_update(Vec::new());
    assert_eq!(cache.get_image_generation(key), ImageGeneration(0));
    cache.enable_multithreading(true);
    assert_eq!(cache.pending_notifications(), vec![Notification::RasterizerEnableMultithreading(true)]);
}

#[test]
fn clearing_a_namespace_takes_its_images_fonts_and_glyphs() {
    let mut cache = cache_with_blob_handler();
    let descriptor = ImageDescriptor::new(20, 10, ImageFormat::R8, ImageDescriptorFlags::empty());
    let data = || ImageData::Raw(Arc::new(vec![0u8; 200]));
    let images = [ImageKey::new(IdNamespace(1), 1), ImageKey::new(IdNamespace(2), 1), ImageKey::new(IdNamespace(1), 2)];
    cache.post_scene_building_update(
        images.iter().map(|key| ResourceUpdate::AddImage(AddImage { key: *key, descriptor, data: data(), tiling: None })).collect(),
    );
    // Namespace 1 declares a font of its own, and shares one with namespace 2
    // and one with nobody.
    cache.add_font_template(font_key(1, 5), raw_font());
    cache.add_font_key(font_key(1, 1), font_key(0, 9));
    cache.add_font_key(font_key(2, 1), font_key(0, 9));
    cache.add_font_key(font_key(1, 2), font_key(0, 8));
    cache.add_font_template(font_key(0, 9), raw_font());
    cache.add_font_template(font_key(0, 8), raw_font());
    let shared = BaseFontInstance { instance_key: instance_key(0, 1), font_key: font_key(0, 8), size: 0 };
    cache.add_font_instance(instance_key(1, 1), shared);
    let own = FontInstance { instance_key: instance_key(1, 7), font_key: font_key(1, 5) };
    let of_shared = FontInstance { instance_key: instance_key(0, 1), font_key: font_key(0, 8) };
    let of_other = FontInstance { instance_key: instance_key(2, 1), font_key: font_key(0, 9) };
    cache.begin_frame(FrameStamp { id: FrameId(1) });
    for font in [own, of_shared, of_other] {
        cache.request_glyphs(font, &[GlyphKey(1)]);
    }
    cache.block_until_all_resources_added(Vec::new());
    cache.end_frame();
    let _ = cache.pending_notifications();

    let cleared = cache.clear_namespace(IdNamespace(1));
    assert_eq!(cleared.images, vec![images[0], images[2]]);
    assert_eq!(cleared.fonts.deleted_keys, vec![font_key(1, 5)]);
    assert_eq!(cleared.fonts.shared_instance_keys, vec![instance_key(0, 1)]);
    assert_eq!(cleared.fonts.shared_keys, vec![font_key(0, 8)]);
    assert!(cache.get_image_properties(images[0]).is_none());
    assert!(cache.get_image_properties(images[1]).is_some());
    assert!(cache.get_image_properties(images[2]).is_none());
    assert!(!cache.get_fonts().has_font(&font_key(1, 5)));
    assert!(!cache.get_fonts().has_font(&font_key(0, 8)));
    assert!(cache.get_fonts().has_font(&font_key(0, 9)));
    assert_eq!(cache.get_font_instance(instance_key(0, 1)), None);
    assert_eq!(cache.map_font_key(font_key(1, 1)), font_key(1, 1));
    assert_eq!(cache.map_font_key(font_key(2, 1)), font_key(0, 9));
    assert_eq!(
        cache.pending_notifications(),
        vec![
            Notification::RasterizerDeleteFont(font_key(1, 5)),
            Notification::BlobHandlerClearNamespace(IdNamespace(1)),
            Notification::RasterizerDeleteFontInstance(instance_key(0, 1)),
            Notification::RasterizerDeleteFont(font_key(0, 8)),
            Notification::BlobHandlerDeleteFont(font_key(0, 8)),
        ]
    );
    cache.begin_frame(FrameStamp { id: FrameId(2) });
    assert_eq!(cache.request_glyphs(own, &[GlyphKey(1)]), vec![GlyphKey(1)]);
    assert_eq!(cache.request_glyphs(of_shared, &[GlyphKey(1)]), vec![GlyphKey(1)]);
    assert!(cache.request_glyphs(of_other, &[GlyphKey(1)]).is_empty());
}

#[test]
fn clearing_all_images_deletes_every_declaration() {
    let mut cache = ResourceCache::new_for_testing();
    let descriptor = ImageDescriptor::new(20, 10, ImageFormat::R8, ImageDescriptorFlags::empty());
    let keys: Vec<ImageKey> = (0..20).map(|i| ImageKey::new(IdNamespace(i % 3), i)).collect();
    cache.post_scene_building_update(
        keys.iter()
            .map(|key| {
                ResourceUpdate::AddImage(AddImage {
                    key: *key,
                    descriptor,
                    data: ImageData::Raw(Arc::new(vec![0u8; 200])),
                    tiling: None,
                })
            })
            .collect(),
    );
    let deleted = cache.clear_images(Some(IdNamespace(0)));
    let expected: Vec<ImageKey> = keys.iter().copied().filter(|k| k.0 == IdNamespace(0)).collect();
    assert_eq!(deleted, expected);
    assert!(cache.clear_images(Some(IdNamespace(0))).is_empty());
    let deleted = cache.clear_images(None);
    assert_eq!(deleted.len(), 20 - expected.len());
    assert!(keys.iter().all(|key| cache.get_image_properties(*key).is_none()));
}

#[test]
fn without_a_blob_handler_only_the_rasterizer_is_told() {
    let mut cache = ResourceCache::new_for_testing();
    cache.add_font_key(font_key(1, 1), font_key(0, 9));
    cache.add_font_template(font_key(0, 9), raw_font());
    let shared = BaseFontInstance { instance_key: instance_key(0, 1), font_key: font_key(0, 9), size: 0 };
    cache.add_font_instance(instance_key(1, 1), shared);
    let _ = cache.pending_notifications();
    cache.post_scene_building_update(vec![
        ResourceUpdate::DeleteFontInstance(instance_key(1, 1)),
        ResourceUpdate::DeleteFont(font_key(1, 1)),
    ]);
    assert_eq!(cache.pending_notifications(), vec![Notification::RasterizerDeleteFont(font_key(0, 9))]);
    cache.add_font_key(font_key(1, 1), font_key(0, 9));
    cache.add_font_template(font_key(0, 9), raw_font());
    let _ = cache.pending_notifications();
    let cleared = cache.clear_namespace(IdNamespace(1));
    assert_eq!(cleared.fonts.shared_keys, vec![font_key(0, 9)]);
    assert_eq!(cache.pending_notifications(), vec![Notification::RasterizerDeleteFont(font_key(0, 9))]);
}
