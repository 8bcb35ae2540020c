//! What holds of the resource cache across its operations, proved from the
//! contracts of the operations.

use vstd::prelude::*;
use crate::api::{ImageDescriptor, ImageDirtyRect, ImageFormat, ImageKey};
use crate::glyph_rasterizer::GlyphRasterJob;
use crate::image_tiling::TileSize;
use crate::internal_types::{CacheTextureId, FrameId};
use crate::render_target_pool::{pool_backed, Collection};
use crate::cache_view::{added_tiling, ResourceCacheView};
use crate::resource_cache::{
    AdjustedImageSource,
    CachedImageData,
    ImageGeneration,
    ImageRequest,
    ImageResource,
    ImageResultView,
    RenderTarget,
    State,
};
use crate::texture_cache::{TextureCacheHandle, TextureCacheView};
use crate::units::{DeviceIntRect, DeviceIntSize};

verus! {

/// An image that is too large for the hardware stays in the failed state,
/// in which `get_cached_image` fails, whatever is done to its declaration
/// or to other images: when its declaration is replaced, when another image
/// is asked for or deleted, when it is asked for again and is still too
/// large, and when what is pending is uploaded.
pub proof fn lemma_failed_image_stays_failed(
    cache: ResourceCacheView,
    key: ImageKey,
    descriptor: ImageDescriptor,
    data: CachedImageData,
    dirty_rect: ImageDirtyRect,
    other: ImageRequest,
    again: ImageRequest,
    uploads: Seq<ImageRequest>,
)
    requires
        cache.cached_images.contains_key(key),
        cache.cached_images[key] is Failed,
        other.key != key,
        again.key == key,
        !cache.cacheable(again),
    ensures
        cache.cached_image(again).is_err(),
        cache.with_image_updated(key, descriptor, data, dirty_rect).cached_images[key] is Failed,
        cache.with_image_requested(other).cached_images[key] is Failed,
        cache.with_image_deleted(other.key).cached_images[key] is Failed,
        cache.with_image_requested(again).cached_images.contains_key(key),
        cache.with_image_requested(again).cached_images[key] is Failed,
        cache.with_requests_uploaded(uploads).cached_images.contains_key(key),
        cache.with_requests_uploaded(uploads).cached_images[key] is Failed,
    decreases uploads.len(),
{
    if uploads.len() > 0 {
        lemma_failed_image_stays_failed(
            cache,
            key,
            descriptor,
            data,
            dirty_rect,
            other,
            again,
            uploads.drop_last(),
        );
    }
}

/// An image that is too large for the hardware leaves the failed state when
/// it is deleted, and when it is asked for after it came to fit.
pub proof fn lemma_failed_image_recovers(cache: ResourceCacheView, request: ImageRequest)
    requires
        cache.cached_images.contains_key(request.key),
        cache.cached_images[request.key] is Failed,
    ensures
        !cache.with_image_deleted(request.key).cached_images.contains_key(request.key),
        cache.cacheable(request) ==> !(cache.with_image_requested(request).cached_images[request.key] is Failed),
{
}

/// An update of an image makes its generation strictly greater, and so does
/// `increment_image_generation`; nothing else that is done to a declared
/// image but declaring it anew changes its generation.
pub proof fn lemma_generation_grows(
    cache: ResourceCacheView,
    key: ImageKey,
    descriptor: ImageDescriptor,
    data: CachedImageData,
    dirty_rect: ImageDirtyRect,
    request: ImageRequest,
)
    requires
        cache.templates.contains_key(key),
        cache.templates[key].generation.0 < u32::MAX,
    ensures
        cache.with_image_updated(key, descriptor, data, dirty_rect).image_generation(key).0
            > cache.image_generation(key).0,
        cache.with_generation_incremented(key).image_generation(key).0 > cache.image_generation(key).0,
        cache.with_image_requested(request).image_generation(key) == cache.image_generation(key),
        cache.with_visible_rect(key, DeviceIntRect::spec_from_size(descriptor.size)).image_generation(key)
            == cache.image_generation(key),
{
}

/// Whatever removes a cached variant of an image from the cache, gives up
/// the allocation of the variant in the texture cache: when the image is
/// deleted, when it turns out too large for the hardware, and when all
/// cached images are cleared. So no variant under manual eviction is ever
/// dropped with its allocation alive.
pub proof fn lemma_dropped_variants_are_evicted(
    cache: ResourceCacheView,
    request: ImageRequest,
    handle: TextureCacheHandle,
)
    requires
        cache.cached_images.contains_key(request.key),
        cache.cached_images[request.key].handles().contains(handle),
    ensures
        !cache.with_image_deleted(request.key).texture_cache.allocated(handle),
        cache.templates.contains_key(request.key) && cache.templates[request.key].data.spec_uses_texture_cache()
            && !cache.cacheable(request) ==> !cache.with_image_requested(request).texture_cache.allocated(handle),
        !cache.with_caches_cleared(
            crate::api::ClearCache {
                images: true,
                glyphs: false,
                glyph_dimensions: false,
                render_tasks: false,
                texture_cache: false,
                render_targets: false,
            },
        ).texture_cache.allocated(handle),
{
}

/// When the tiles of a blob outside its visible area are discarded, the
/// cached variants that go give up their allocations.
pub proof fn lemma_discarded_tiles_are_evicted(
    cache: ResourceCacheView,
    key: crate::api::BlobImageKey,
    area: DeviceIntRect,
    variant: crate::resource_cache::CachedImageKey,
)
    requires
        cache.cached_images.contains_key(key.0),
        cache.cached_images[key.0] is Multi,
        cache.cached_images[key.0]->Multi_0.contains_key(variant),
        !cache.with_tiles_discarded(key, area).cached_images[key.0]->Multi_0.contains_key(variant),
    ensures
        !cache.with_tiles_discarded(key, area).texture_cache.allocated(
            cache.cached_images[key.0]->Multi_0[variant].texture_cache_handle,
        ),
{
}

/// A render target is in use from the moment it is lent out to the moment
/// it is returned, and not in use after that; lending and returning one
/// target changes no other target of the pool.
pub proof fn lemma_lent_until_returned(cache: ResourceCacheView, size: DeviceIntSize, format: ImageFormat)
    requires
        cache.wf(),
        cache.texture_cache.slots.len() <= usize::MAX,
    ensures
        ({
            let id = cache.render_target_to_lend(size, format);
            let lent = cache.with_render_target_lent(size, format);
            let returned = lent.with_render_target_returned(id);
            &&& lent.is_lent(id)
            &&& !returned.is_lent(id)
            &&& lent.wf()
            &&& returned.wf()
            &&& forall|i: int|
                0 <= i < cache.render_target_pool.len() && cache.render_target_pool[i].texture_id != id
                    ==> lent.render_target_pool[i] == cache.render_target_pool[i] && returned.render_target_pool[i]
                    == cache.render_target_pool[i]
        }),
{
    let id = cache.render_target_to_lend(size, format);
    let lent = cache.with_render_target_lent(size, format);
    let wanted = RenderTarget {
        size,
        format,
        texture_id: CacheTextureId(0),
        is_active: false,
        last_frame_used: FrameId(0),
    };
    lemma_first_available_fits(cache.render_target_pool, wanted, cache.render_target_pool.len() as int);
    match cache.available_render_target(size, format) {
        Some(at) => {
            assert(lent.render_target_pool[at].texture_id == id && lent.render_target_pool[at].is_active);
            assert(pool_backed(lent.render_target_pool, lent.texture_cache));
        },
        None => {
            let at = cache.render_target_pool.len() as int;
            assert(lent.render_target_pool[at].texture_id == id && lent.render_target_pool[at].is_active);
            assert(pool_backed(lent.render_target_pool, lent.texture_cache));
        },
    }
    let at = crate::render_target_pool::position_of(lent.render_target_pool, id);
    let returned = lent.with_render_target_returned(id);
    assert(returned.render_target_pool[at].texture_id == id);
    assert forall|i: int|
        0 <= i < returned.render_target_pool.len() && (#[trigger] returned.render_target_pool[i]).texture_id
            == id implies !returned.render_target_pool[i].is_active by {
        if i != at {
            assert(lent.render_target_pool[i].texture_id == lent.render_target_pool[at].texture_id);
            if i < at {
                assert(lent.render_target_pool[i].texture_id != lent.render_target_pool[at].texture_id);
            } else {
                assert(lent.render_target_pool[at].texture_id != lent.render_target_pool[i].texture_id);
            }
        }
    }
    assert(pool_backed(returned.render_target_pool, returned.texture_cache));
}

/// What `first_available` finds is a position of the pool.
pub proof fn lemma_first_available_fits(pool: Seq<RenderTarget>, wanted: RenderTarget, n: int)
    requires
        0 <= n <= pool.len(),
    ensures
        match crate::render_target_pool::first_available(pool, wanted, n) {
            Some(i) => 0 <= i < n && pool[i].size == wanted.size && pool[i].format == wanted.format
                && !pool[i].is_active,
            None => true,
        },
    decreases n,
{
    if n > 0 {
        lemma_first_available_fits(pool, wanted, n - 1);
    }
}

/// A collection looks at every target once: it keeps the target in the
/// pool, or frees its texture, never both. A target that was used in the
/// current frame is kept.
pub proof fn lemma_collection_frees_once(
    sorted: Seq<RenderTarget>,
    n: int,
    texture_cache: TextureCacheView,
    current_frame_id: FrameId,
    total_bytes_threshold: usize,
    total_bytes_red_line_threshold: usize,
    frames_threshold: u64,
)
    requires
        0 <= n <= sorted.len(),
        pool_backed(sorted, texture_cache),
    ensures
        ({
            let done = Collection::after(
                sorted,
                n,
                texture_cache,
                current_frame_id,
                total_bytes_threshold,
                total_bytes_red_line_threshold,
                frames_threshold,
            );
            &&& forall|i: int|
                0 <= i < n ==> (done.retained.contains(#[trigger] sorted[i]) != !done.texture_cache.is_render_target(
                    sorted[i].texture_id,
                ))
            &&& forall|i: int|
                0 <= i < n && (#[trigger] sorted[i]).last_frame_used == current_frame_id ==> done.retained.contains(
                    sorted[i],
                )
            &&& forall|i: int| n <= i < sorted.len() ==> done.texture_cache.is_render_target(
                (#[trigger] sorted[i]).texture_id,
            )
            &&& forall|t: RenderTarget|
                done.retained.contains(t) ==> exists|i: int| 0 <= i < n && #[trigger] sorted[i] == t
            &&& pool_backed(done.retained, done.texture_cache)
        }),
    decreases n,
{
    if n > 0 {
        lemma_collection_frees_once(
            sorted,
            n - 1,
            texture_cache,
            current_frame_id,
            total_bytes_threshold,
            total_bytes_red_line_threshold,
            frames_threshold,
        );
        let before = Collection::after(
            sorted,
            n - 1,
            texture_cache,
            current_frame_id,
            total_bytes_threshold,
            total_bytes_red_line_threshold,
            frames_threshold,
        );
        let done = Collection::after(
            sorted,
            n,
            texture_cache,
            current_frame_id,
            total_bytes_threshold,
            total_bytes_red_line_threshold,
            frames_threshold,
        );
        let target = sorted[n - 1];
        if done.retained.len() > before.retained.len() {
            // The target is kept.
            assert(done.retained == before.retained.push(target));
            assert(done.retained[before.retained.len() as int] == target);
            assert forall|i: int| 0 <= i < n implies (done.retained.contains(#[trigger] sorted[i])
                != !done.texture_cache.is_render_target(sorted[i].texture_id)) by {
                if i < n - 1 {
                    if before.retained.contains(sorted[i]) {
                        let j = choose|j: int| 0 <= j < before.retained.len() && before.retained[j] == sorted[i];
                        assert(done.retained[j] == sorted[i]);
                    } else if done.retained.contains(sorted[i]) {
                        let j = choose|j: int| 0 <= j < done.retained.len() && done.retained[j] == sorted[i];
                        if j < before.retained.len() {
                            assert(before.retained[j] == sorted[i]);
                        } else {
                            assert(sorted[i].texture_id != sorted[n - 1].texture_id);
                        }
                    }
                }
            }
            assert forall|i: int|
                0 <= i < n && (#[trigger] sorted[i]).last_frame_used == current_frame_id
                    implies done.retained.contains(sorted[i]) by {
                if i < n - 1 {
                    let j = choose|j: int| 0 <= j < before.retained.len() && before.retained[j] == sorted[i];
                    assert(done.retained[j] == sorted[i]);
                }
            }
            assert forall|t: RenderTarget| done.retained.contains(t) implies exists|i: int|
                0 <= i < n && #[trigger] sorted[i] == t by {
                let j = choose|j: int| 0 <= j < done.retained.len() && done.retained[j] == t;
                if j < before.retained.len() {
                    assert(before.retained.contains(t));
                    let i = choose|i: int| 0 <= i < n - 1 && #[trigger] sorted[i] == t;
                    assert(0 <= i < n && sorted[i] == t);
                } else {
                    assert(sorted[n - 1] == t);
                }
            }
            let kept = done.retained;
            assert forall|a: int, b: int| 0 <= a < b < kept.len() implies (#[trigger] kept[a]).texture_id != (
            #[trigger] kept[b]).texture_id by {
                if b == before.retained.len() {
                    assert(before.retained.contains(done.retained[a]));
                    let i = choose|i: int| 0 <= i < n - 1 && #[trigger] sorted[i] == done.retained[a];
                    assert(sorted[i].texture_id != sorted[n - 1].texture_id);
                } else {
                    assert(done.retained[a] == before.retained[a] && done.retained[b] == before.retained[b]);
                }
            }
            assert forall|j: int| 0 <= j < done.retained.len() implies done.texture_cache.is_render_target(
                (#[trigger] done.retained[j]).texture_id,
            ) by {
                if j < before.retained.len() {
                    assert(done.retained[j] == before.retained[j]);
                }
            }
        } else {
            // The target goes.
            assert(done.retained == before.retained);
            assert(done.texture_cache == before.texture_cache.render_target_freed(target.texture_id));
            assert forall|i: int| 0 <= i < n implies (done.retained.contains(#[trigger] sorted[i])
                != !done.texture_cache.is_render_target(sorted[i].texture_id)) by {
                if i < n - 1 {
                    assert(sorted[i].texture_id != sorted[n - 1].texture_id);
                } else {
                    if before.retained.contains(target) {
                        let m = choose|m: int| 0 <= m < n - 1 && #[trigger] sorted[m] == target;
                        assert(sorted[m].texture_id != sorted[n - 1].texture_id);
                    }
                }
            }
            assert forall|i: int| n <= i < sorted.len() implies done.texture_cache.is_render_target(
                (#[trigger] sorted[i]).texture_id,
            ) by {
                assert(sorted[n - 1].texture_id != sorted[i].texture_id);
            }
            assert forall|t: RenderTarget| done.retained.contains(t) implies exists|i: int|
                0 <= i < n && #[trigger] sorted[i] == t by {
                let i = choose|i: int| 0 <= i < n - 1 && #[trigger] sorted[i] == t;
                assert(0 <= i < n && sorted[i] == t);
            }
            assert forall|j: int| 0 <= j < done.retained.len() implies done.texture_cache.is_render_target(
                (#[trigger] done.retained[j]).texture_id,
            ) by {
                assert(before.retained.contains(before.retained[j]));
                let i = choose|i: int| 0 <= i < n - 1 && #[trigger] sorted[i] == before.retained[j];
                assert(sorted[i].texture_id != sorted[n - 1].texture_id);
            }
        }
    } else {
        let done = Collection::after(
            sorted,
            n,
            texture_cache,
            current_frame_id,
            total_bytes_threshold,
            total_bytes_red_line_threshold,
            frames_threshold,
        );
        assert(done.retained =~= Seq::empty());
    }
}

/// After `end_frame` the cache is idle and no request is pending.
pub proof fn lemma_idle_after_end_frame(cache: ResourceCacheView)
    requires
        cache.wf(),
        cache.can_end_frame(),
    ensures
        cache.with_frame_ended().state == State::Idle,
        cache.with_frame_ended().pending_requests.len() == 0,
{
}

/// Declaring an image, deleting it and declaring it again leaves only the
/// second declaration, at generation zero.
pub proof fn lemma_add_delete_add(
    cache: ResourceCacheView,
    key: ImageKey,
    first_descriptor: ImageDescriptor,
    first_data: CachedImageData,
    first_visible_rect: DeviceIntRect,
    first_tiling: Option<TileSize>,
    second_descriptor: ImageDescriptor,
    second_data: CachedImageData,
    second_visible_rect: DeviceIntRect,
    second_tiling: Option<TileSize>,
)
    ensures
        ({
            let done = cache.with_image_added(
                key,
                first_descriptor,
                first_data,
                first_visible_rect,
                first_tiling,
            ).with_image_deleted(key).with_image_added(
                key,
                second_descriptor,
                second_data,
                second_visible_rect,
                second_tiling,
            );
            &&& done.templates == cache.templates.insert(
                key,
                ImageResource {
                    descriptor: second_descriptor,
                    data: second_data,
                    tiling: added_tiling(
                        cache.texture_cache.tiling_threshold,
                        second_descriptor,
                        second_data,
                        second_tiling,
                    ),
                    visible_rect: second_visible_rect,
                    adjustment: AdjustedImageSource::spec_new(),
                    generation: ImageGeneration(0),
                },
            )
            &&& done.image_generation(key) == ImageGeneration(0)
            &&& !done.cached_images.contains_key(key)
        }),
{
    let done = cache.with_image_added(
        key,
        first_descriptor,
        first_data,
        first_visible_rect,
        first_tiling,
    ).with_image_deleted(key).with_image_added(
        key,
        second_descriptor,
        second_data,
        second_visible_rect,
        second_tiling,
    );
    assert(done.templates =~= cache.templates.insert(
        key,
        ImageResource {
            descriptor: second_descriptor,
            data: second_data,
            tiling: added_tiling(cache.texture_cache.tiling_threshold, second_descriptor, second_data, second_tiling),
            visible_rect: second_visible_rect,
            adjustment: AdjustedImageSource::spec_new(),
            generation: ImageGeneration(0),
        },
    ));
}

/// However often an image is asked for within a frame, its request is
/// pending at most once: asking a second time leaves the pending requests
/// as they are.
pub proof fn lemma_request_is_pending_once(cache: ResourceCacheView, request: ImageRequest)
    requires
        cache.wf(),
    ensures
        cache.with_image_requested(request).pending_requests.no_duplicates(),
        cache.with_image_requested(request).with_image_requested(request).pending_requests
            == cache.with_image_requested(request).pending_requests,
{
    let once = cache.with_image_requested(request);
    if cache.templates.contains_key(request.key) && cache.templates[request.key].data.spec_uses_texture_cache()
        && cache.cacheable(request) {
        let storage = cache.storage_after_request(request);
        assert(once.cached_images[request.key] == storage);
        assert(once.storage_after_request(request) == storage) by {
            match (storage, once.storage_after_request(request)) {
                (ImageResultView::Multi(a), ImageResultView::Multi(b)) => {
                    assert(a =~= b);
                },
                _ => {},
            }
        }
        let handle = storage.info(request).unwrap().texture_cache_handle;
        assert(once.texture_cache.allocated(handle) == cache.texture_cache.allocated(handle));
        assert(once.needs_upload(request) == cache.needs_upload(request));
        if cache.needs_upload(request) {
            if cache.pending_requests.contains(request) {
            } else {
                assert(once.pending_requests[cache.pending_requests.len() as int] == request);
            }
            assert(once.pending_requests.contains(request));
        }
    }
}

/// Calling `block_until_all_resources_added` again, while the cache is
/// queried and with nothing from the rasterizer, changes nothing.
pub proof fn lemma_block_again_changes_nothing(cache: ResourceCacheView)
    requires
        cache.wf(),
        cache.state == State::QueryResources,
    ensures
        cache.can_block(Seq::<GlyphRasterJob>::empty()),
        cache.with_resources_blocked(Seq::<GlyphRasterJob>::empty()) == cache,
{
    let jobs = Seq::<GlyphRasterJob>::empty();
    let resolved = cache.with_glyphs_resolved(jobs);
    assert(resolved == cache);
    assert(cache.pending_requests =~= Seq::empty());
    let queried = ResourceCacheView { state: State::QueryResources, ..cache };
    assert(queried == cache);
    assert(cache.with_fallback_created() == cache);
    assert((ResourceCacheView { pending_requests: Seq::empty(), ..cache }) == cache);
}

} // verus!
