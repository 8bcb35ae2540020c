//! The resource cache as a mathematical value, and what each operation of
//! the cache makes of that value.

use vstd::prelude::*;
use crate::api::{
    AddFont,
    BlobImageKey,
    BlobImageRequest,
    BlobImageResult,
    ClearCache,
    DEFAULT_TILE_SIZE,
    DebugFlags,
    DirtyRect,
    ExternalImageType,
    FontInstanceKey,
    FontKey,
    IdNamespace,
    ImageDescriptor,
    ImageDescriptorFlags,
    ImageDirtyRect,
    ImageFormat,
    ImageKey,
    ImageRendering,
    MAX_TILE_SIZE,
    MIN_TILE_SIZE,
    RasterizedBlobImage,
    ResourceUpdate,
};
use crate::font::{FontTemplate, SharedFontResourcesView};
use crate::glyph_cache::{GlyphCacheEntry, GlyphRequests, GlyphResolution};
use crate::glyph_rasterizer::{FontInstance, GlyphKey, GlyphRasterJob};
use crate::gpu_types::UvRectKind;
use crate::image_tiling::{TileSize, tile_range_of, tile_size_of};
use crate::internal_types::{
    CacheTextureId,
    FloatBits4,
    FrameId,
    FrameStamp,
    TextureFilter,
};
use crate::render_target_pool::{
    Collection,
    all_inactive,
    first_available,
    pool_backed,
    pool_bytes,
    pool_measurable,
    pool_textures,
    position_of,
    sorted_by_age,
};
use crate::resource_cache::{
    AdjustedImageSource,
    CacheItem,
    CachedImageData,
    CachedImageDataView,
    CachedImageInfo,
    CachedImageKey,
    GlyphDimensions,
    GlyphDimensionsKey,
    ImageCacheError,
    ImageGeneration,
    ImageProperties,
    ImageRequest,
    ImageResource,
    ImageResult,
    ImageResultView,
    NativeSurfaceOperation,
    NativeSurfaceOperationDetails,
    Notification,
    RasterizedBlob,
    RenderTarget,
    RenderTargetKind,
    RenderTaskLocation,
    State,
    StaticRenderTaskSurface,
};
use crate::texture_cache::{
    Eviction,
    TargetShader,
    TextureCacheHandle,
    TextureCacheView,
};
use crate::units::{
    DeviceIntPoint,
    DeviceIntRect,
    DeviceIntSize,
    TileOffset,
    TileRange,
};

verus! {

/// The resource cache as a mathematical value.
pub struct ResourceCacheView {
    pub state: State,
    pub current_frame_id: FrameId,
    /// The declared images.
    pub templates: Map<ImageKey, ImageResource>,
    /// The cached state of the images that were asked for.
    pub cached_images: Map<ImageKey, ImageResultView>,
    /// The requests that have to be uploaded in this frame, oldest first.
    pub pending_requests: Seq<ImageRequest>,
    /// The rasterized tiles of the blob images.
    pub rasterized_blobs: Map<BlobImageKey, Map<TileOffset, RasterizedBlobImage>>,
    /// The blob keys that the last three frames deleted, oldest frame first.
    pub deleted_blob_keys: Seq<Seq<BlobImageKey>>,
    pub texture_cache: TextureCacheView,
    pub render_target_pool: Seq<RenderTarget>,
    pub native_surface_updates: Seq<NativeSurfaceOperation>,
    /// The image that stands in for a snapshot that is missing.
    pub fallback_handle: TextureCacheHandle,
    pub debug_fallback_panic: bool,
    pub debug_fallback_pink: bool,
    /// The glyphs of the font instances.
    pub glyphs: Map<FontInstance, Map<GlyphKey, GlyphCacheEntry>>,
    /// The sizes of glyphs that are known.
    pub glyph_dimensions: Map<GlyphDimensionsKey, Option<GlyphDimensions>>,
    /// The declared fonts and font instances.
    pub fonts: SharedFontResourcesView,
    /// What the glyph rasterizer and the blob handler have to be told,
    /// oldest first.
    pub notifications: Seq<Notification>,
    /// Whether there is a blob handler to be told anything.
    pub has_blob_image_handler: bool,
}

/// The cached states of a store of images as mathematical values.
pub open spec fn image_views(images: Map<ImageKey, ImageResult>) -> Map<ImageKey, ImageResultView> {
    images.map_values(|r: ImageResult| r@)
}

/// The rasterized tiles of a store of blobs as mathematical values.
pub open spec fn blob_views(blobs: Map<BlobImageKey, RasterizedBlob>) -> Map<
    BlobImageKey,
    Map<TileOffset, RasterizedBlobImage>,
> {
    blobs.map_values(|b: RasterizedBlob| b@)
}

/// The key lists of the deleted-blob log as sequences.
pub open spec fn key_lists(log: Seq<Vec<BlobImageKey>>) -> Seq<Seq<BlobImageKey>> {
    Seq::new(log.len(), |i: int| log[i]@)
}

/// A tile size as a template takes it: not below `MIN_TILE_SIZE`, not above
/// `MAX_TILE_SIZE`.
pub open spec fn clamped_tile_size(tile_size: TileSize) -> TileSize {
    if tile_size < MIN_TILE_SIZE {
        MIN_TILE_SIZE
    } else if tile_size > MAX_TILE_SIZE {
        MAX_TILE_SIZE
    } else {
        tile_size
    }
}

/// Whether an image is to be tiled although no tiling was asked for: it is
/// larger than `limit` on a side, and it is neither a snapshot nor a texture
/// that exists already.
pub open spec fn spec_should_tile(limit: i32, descriptor: ImageDescriptor, data: CachedImageData) -> bool {
    let size_check = descriptor.size.width > limit || descriptor.size.height > limit;
    match data {
        CachedImageData::Raw(_) | CachedImageData::Blob => size_check,
        CachedImageData::External(info) => info.image_type == ExternalImageType::Buffer && size_check,
        CachedImageData::Snapshot => false,
    }
}

/// The tiling of a fresh template.
pub open spec fn added_tiling(
    limit: i32,
    descriptor: ImageDescriptor,
    data: CachedImageData,
    tiling: Option<TileSize>,
) -> Option<TileSize> {
    match tiling {
        Some(tile_size) => Some(clamped_tile_size(tile_size)),
        None => if spec_should_tile(limit, descriptor, data) {
            Some(DEFAULT_TILE_SIZE)
        } else {
            None
        },
    }
}

/// The tiling of a template after an update: a tiling that is there stays.
pub open spec fn updated_tiling(
    limit: i32,
    descriptor: ImageDescriptor,
    data: CachedImageData,
    tiling: Option<TileSize>,
) -> Option<TileSize> {
    match tiling {
        Some(tile_size) => Some(tile_size),
        None => if spec_should_tile(limit, descriptor, data) {
            Some(DEFAULT_TILE_SIZE)
        } else {
            None
        },
    }
}

/// The part of a dirty box of an image that falls into one tile, in the
/// coordinates of the tile: the box moved by the tile's origin and cut to
/// the tile's size; the empty box at the origin if nothing is left.
pub open spec fn tile_local_rect(
    rect: DeviceIntRect,
    image_size: DeviceIntSize,
    tile_size: TileSize,
    tile: TileOffset,
) -> DeviceIntRect {
    let origin_x = tile.x * tile_size;
    let origin_y = tile.y * tile_size;
    let size = tile_size_of(DeviceIntRect::spec_from_size(image_size), tile_size, tile);
    let min_x = if rect.min.x - origin_x >= 0 { rect.min.x - origin_x } else { 0 };
    let min_y = if rect.min.y - origin_y >= 0 { rect.min.y - origin_y } else { 0 };
    let max_x = if rect.max.x - origin_x <= size.width { rect.max.x - origin_x } else { size.width as int };
    let max_y = if rect.max.y - origin_y <= size.height { rect.max.y - origin_y } else { size.height as int };
    if max_x > min_x && max_y > min_y {
        DeviceIntRect {
            min: DeviceIntPoint { x: min_x as i32, y: min_y as i32 },
            max: DeviceIntPoint { x: max_x as i32, y: max_y as i32 },
        }
    } else {
        DeviceIntRect::spec_from_size(DeviceIntSize { width: 0, height: 0 })
    }
}

/// What a dirty rect of an image means for one cached variant. For a tile
/// of a tiled image it is taken relative to the tile; for a tile of an image
/// without tiling everything is dirty; for the whole image it stands as it
/// is.
pub open spec fn local_dirty_rect(
    tiling: Option<TileSize>,
    tile: Option<TileOffset>,
    image_size: DeviceIntSize,
    dirty_rect: ImageDirtyRect,
) -> ImageDirtyRect {
    match (tiling, tile) {
        (Some(tile_size), Some(tile)) => match dirty_rect {
            DirtyRect::All => DirtyRect::All,
            DirtyRect::Partial(rect) => DirtyRect::Partial(tile_local_rect(rect, image_size, tile_size, tile)),
        },
        (None, Some(_)) => DirtyRect::All,
        _ => dirty_rect,
    }
}

/// The byte offset of a tile inside an image that is stored as one piece:
/// the rows above the tile and the pixels to its left.
pub open spec fn tile_byte_offset(descriptor: ImageDescriptor, tile_size: TileSize, tile: TileOffset) -> int {
    descriptor.offset + tile.y * tile_size * descriptor.spec_stride() + tile.x * tile_size
        * descriptor.format.spec_bytes_per_pixel()
}

/// Whether stride and byte offset of a tile of an image are `i32` values.
pub open spec fn tile_layout_fits(descriptor: ImageDescriptor, tile_size: TileSize, tile: TileOffset) -> bool {
    &&& i32::MIN <= descriptor.spec_stride() <= i32::MAX
    &&& i32::MIN <= tile_byte_offset(descriptor, tile_size, tile) <= i32::MAX
}

/// The layout of the pixels that are uploaded for one tile. A blob is
/// rasterized tile by tile, so only the size changes. Any other image is one
/// piece in memory: the tile starts at its byte offset in the image and its
/// rows are as far apart as those of the image.
pub open spec fn tile_descriptor(
    descriptor: ImageDescriptor,
    clipped_tile_size: DeviceIntSize,
    tile_size: TileSize,
    tile: TileOffset,
    tiled_on_cpu: bool,
) -> ImageDescriptor {
    if tiled_on_cpu {
        ImageDescriptor { size: clipped_tile_size, ..descriptor }
    } else {
        ImageDescriptor {
            size: clipped_tile_size,
            stride: Some(descriptor.spec_stride() as i32),
            offset: tile_byte_offset(descriptor, tile_size, tile) as i32,
            ..descriptor
        }
    }
}

/// The filter for an upload. Pixelated images are sampled unfiltered, all
/// others linearly, and through mipmaps where the image allows them, is
/// wider and taller than 512 pixels, and gets a texture of its own.
pub open spec fn upload_filter(
    rendering: ImageRendering,
    descriptor: ImageDescriptor,
    allowed_in_shared_cache: bool,
) -> TextureFilter {
    match rendering {
        ImageRendering::Pixelated => TextureFilter::Nearest,
        ImageRendering::Auto | ImageRendering::CrispEdges => if descriptor.flags.allow_mipmaps
            && descriptor.size.width > 512 && descriptor.size.height > 512 && !allowed_in_shared_cache {
            TextureFilter::Trilinear
        } else {
            TextureFilter::Linear
        },
    }
}

/// How many of some rasterized blob tiles failed.
pub open spec fn failed_blobs(images: Seq<(BlobImageRequest, BlobImageResult)>) -> int
    decreases images.len(),
{
    if images.len() == 0 {
        0
    } else {
        failed_blobs(images.drop_last()) + if images.last().1.is_err() {
            1int
        } else {
            0int
        }
    }
}

/// Whether a cached variant stays when the tiles outside a range are
/// discarded: it is not a tile, or a tile of the range.
pub open spec fn keeps_variant(tile_range: TileRange, key: CachedImageKey) -> bool {
    match key.tile {
        Some(tile) => tile_range.spec_contains(tile),
        None => true,
    }
}

/// The handles of the cached variants that go when the tiles outside a
/// range are discarded.
pub open spec fn discarded_handles(
    entries: Map<CachedImageKey, CachedImageInfo>,
    tile_range: TileRange,
) -> Set<TextureCacheHandle> {
    Set::new(
        |h: TextureCacheHandle|
            exists|k: CachedImageKey| #[trigger]
                entries.contains_key(k) && !keeps_variant(tile_range, k) && entries[k].texture_cache_handle == h,
    )
}

/// The notifications that tell the rasterizer to drop fonts.
pub open spec fn font_deletions(keys: Seq<FontKey>) -> Seq<Notification> {
    keys.map_values(|k: FontKey| Notification::RasterizerDeleteFont(k))
}

/// The notifications that tell the blob handler to drop fonts.
pub open spec fn blob_font_deletions(keys: Seq<FontKey>) -> Seq<Notification> {
    keys.map_values(|k: FontKey| Notification::BlobHandlerDeleteFont(k))
}

/// The notifications that tell the rasterizer to drop font instances.
pub open spec fn font_instance_deletions(keys: Seq<FontInstanceKey>) -> Seq<Notification> {
    keys.map_values(|k: FontInstanceKey| Notification::RasterizerDeleteFontInstance(k))
}

/// Whether an image key belongs to a namespace; every key belongs to no
/// namespace in particular.
pub open spec fn in_namespace(key: ImageKey, namespace: Option<IdNamespace>) -> bool {
    match namespace {
        Some(ns) => key.0 == ns,
        None => true,
    }
}

/// The handles of all the variants of all the cached images.
pub open spec fn all_handles(images: Map<ImageKey, ImageResultView>) -> Set<TextureCacheHandle> {
    Set::new(
        |h: TextureCacheHandle| exists|k: ImageKey| #[trigger] images.contains_key(k) && images[k].handles().contains(h),
    )
}

impl ResourceCacheView {
    /// The cache before the first frame: nothing declared, nothing cached.
    pub open spec fn initial(
        texture_cache: TextureCacheView,
        glyphs: Map<FontInstance, Map<GlyphKey, GlyphCacheEntry>>,
        fonts: SharedFontResourcesView,
        has_blob_image_handler: bool,
    ) -> ResourceCacheView {
        ResourceCacheView {
            state: State::Idle,
            current_frame_id: FrameId(0),
            templates: Map::empty(),
            cached_images: Map::empty(),
            pending_requests: Seq::empty(),
            rasterized_blobs: Map::empty(),
            deleted_blob_keys: seq![Seq::empty(), Seq::empty(), Seq::empty()],
            texture_cache,
            render_target_pool: Seq::empty(),
            native_surface_updates: Seq::empty(),
            fallback_handle: TextureCacheHandle { slot: None },
            debug_fallback_panic: false,
            debug_fallback_pink: false,
            glyphs,
            glyph_dimensions: Map::empty(),
            fonts,
            notifications: Seq::empty(),
            has_blob_image_handler,
        }
    }

    /// What holds of the cache between any two operations.
    pub open spec fn wf(self) -> bool {
        &&& forall|k: ImageKey| #[trigger]
            self.templates.contains_key(k) ==> match self.templates[k].tiling {
                Some(tile_size) => MIN_TILE_SIZE <= tile_size <= MAX_TILE_SIZE,
                None => true,
            }
        &&& self.pending_requests.no_duplicates()
        &&& self.state != State::AddResources ==> self.pending_requests.len() == 0
        &&& self.state == State::QueryResources ==> self.fallback_handle.slot.is_some()
        &&& self.deleted_blob_keys.len() == 3
        &&& pool_backed(self.render_target_pool, self.texture_cache)
    }

    /// Whether one resource update can be applied. An image that is updated
    /// has to be declared, and its generation must not have run out. A blob
    /// whose visible area is set gets the size of that area, so the area
    /// must have a size.
    pub open spec fn can_apply_update(self, update: ResourceUpdate) -> bool {
        match update {
            ResourceUpdate::UpdateImage(img) => self.templates.contains_key(img.key)
                && self.templates[img.key].generation.0 < u32::MAX,
            ResourceUpdate::UpdateBlobImage(img) => self.templates.contains_key(img.key.0)
                && self.templates[img.key.0].generation.0 < u32::MAX && img.visible_rect.measurable(),
            ResourceUpdate::SetBlobImageVisibleArea(key, area) => self.templates.contains_key(key.0)
                ==> area.measurable(),
            _ => true,
        }
    }

    /// The cache after one resource update.
    pub open spec fn with_update_applied(self, update: ResourceUpdate) -> ResourceCacheView {
        match update {
            ResourceUpdate::AddImage(img) => self.with_image_added(
                img.key,
                img.descriptor,
                CachedImageData::spec_from(img.data),
                DeviceIntRect::spec_from_size(img.descriptor.size),
                img.tiling,
            ),
            ResourceUpdate::UpdateImage(img) => self.with_image_updated(
                img.key,
                img.descriptor,
                CachedImageData::spec_from(img.data),
                img.dirty_rect,
            ),
            ResourceUpdate::AddBlobImage(img) => self.with_image_added(
                img.key.0,
                img.descriptor,
                CachedImageData::Blob,
                img.visible_rect,
                Some(img.tile_size),
            ),
            ResourceUpdate::UpdateBlobImage(img) => self.with_image_updated(
                img.key.0,
                img.descriptor,
                CachedImageData::Blob,
                img.dirty_rect,
            ).with_tiles_discarded(img.key, img.visible_rect).with_visible_rect(img.key.0, img.visible_rect),
            ResourceUpdate::DeleteImage(key) => self.with_image_deleted(key),
            ResourceUpdate::DeleteBlobImage(key) => self.with_image_deleted(key.0),
            ResourceUpdate::AddSnapshotImage(img) => self.with_image_added(
                img.key.0,
                ImageDescriptor {
                    format: self.texture_cache.shared_color_format,
                    size: DeviceIntSize { width: 0, height: 0 },
                    stride: None,
                    offset: 0,
                    flags: ImageDescriptorFlags { is_opaque: false, allow_mipmaps: false },
                },
                CachedImageData::Snapshot,
                DeviceIntRect::spec_from_size(DeviceIntSize { width: 0, height: 0 }),
                None,
            ),
            ResourceUpdate::DeleteSnapshotImage(key) => self.with_image_deleted(key.0),
            ResourceUpdate::DeleteFont(font) => {
                let keys_gone = ResourceCacheView {
                    fonts: SharedFontResourcesView { font_keys: self.fonts.font_keys.remove(font), ..self.fonts },
                    ..self
                };
                match self.fonts.released_font(font) {
                    Some(shared_key) => keys_gone.with_font_deleted(shared_key).with_blob_handler_notified(
                        Notification::BlobHandlerDeleteFont(shared_key),
                    ),
                    None => keys_gone,
                }
            },
            ResourceUpdate::DeleteFontInstance(font) => {
                let instances = match self.fonts.released_instance(font) {
                    Some(shared_key) => self.fonts.instances.remove(shared_key),
                    None => self.fonts.instances,
                };
                (ResourceCacheView {
                    fonts: SharedFontResourcesView {
                        instance_keys: self.fonts.instance_keys.remove(font),
                        instances,
                        ..self.fonts
                    },
                    ..self
                }).with_blob_handler_notified(Notification::BlobHandlerDeleteFontInstance(font))
            },
            ResourceUpdate::SetBlobImageVisibleArea(key, area) => self.with_tiles_discarded(
                key,
                area,
            ).with_visible_rect(key.0, area),
            ResourceUpdate::AddFont(font) => {
                let key = match font {
                    AddFont::Raw(key, _, _) => key,
                    AddFont::Native(key, _) => key,
                };
                let template = match font {
                    AddFont::Raw(_, bytes, index) => FontTemplate::Raw(bytes, index),
                    AddFont::Native(_, handle) => FontTemplate::Native(handle),
                };
                let shared_key = self.fonts.shared_font_key(key);
                if self.fonts.templates.contains_key(shared_key) {
                    self
                } else {
                    self.with_font_added(shared_key, template)
                }
            },
            ResourceUpdate::AddFontInstance(_) => self,
        }
    }

    /// The cache after some resource updates, the first one first.
    pub open spec fn with_updates_applied(self, updates: Seq<ResourceUpdate>) -> ResourceCacheView
        decreases updates.len(),
    {
        if updates.len() == 0 {
            self
        } else {
            self.with_updates_applied(updates.drop_last()).with_update_applied(updates.last())
        }
    }

    /// Whether some resource updates can be applied one after the other.
    pub open spec fn can_apply_updates(self, updates: Seq<ResourceUpdate>) -> bool
        decreases updates.len(),
    {
        if updates.len() == 0 {
            true
        } else {
            self.can_apply_updates(updates.drop_last()) && self.with_updates_applied(
                updates.drop_last(),
            ).can_apply_update(updates.last())
        }
    }

    /// Updates that can be applied one after the other can be applied up to
    /// any point, and the next one can be applied then.
    pub proof fn lemma_can_apply_prefix(self, updates: Seq<ResourceUpdate>, n: int)
        requires
            0 <= n <= updates.len(),
            self.can_apply_updates(updates),
        ensures
            self.can_apply_updates(updates.take(n)),
            n > 0 ==> self.with_updates_applied(updates.take(n - 1)).can_apply_update(updates[n - 1]),
        decreases updates.len() - n,
    {
        if n == updates.len() {
            assert(updates.take(n) =~= updates);
        } else {
            self.lemma_can_apply_prefix(updates, n + 1);
            assert(updates.take(n + 1).drop_last() =~= updates.take(n));
        }
        if n > 0 {
            assert(updates.take(n).drop_last() =~= updates.take(n - 1));
            assert(updates.take(n).last() == updates[n - 1]);
        }
    }

    /// The cache after one rasterized blob tile was taken in.
    pub open spec fn with_blob_rasterized(self, request: BlobImageRequest, data: RasterizedBlobImage) -> ResourceCacheView {
        let tiles = if self.rasterized_blobs.contains_key(request.key) {
            self.rasterized_blobs[request.key]
        } else {
            Map::empty()
        };
        let image_key = request.key.0;
        let cached_key = CachedImageKey { rendering: ImageRendering::Auto, tile: Some(request.tile) };
        ResourceCacheView {
            rasterized_blobs: self.rasterized_blobs.insert(request.key, tiles.insert(request.tile, data)),
            cached_images: if self.cached_images.contains_key(image_key) {
                match self.cached_images[image_key] {
                    ImageResultView::Multi(entries) => if entries.contains_key(cached_key) {
                        self.cached_images.insert(
                            image_key,
                            ImageResultView::Multi(
                                entries.insert(
                                    cached_key,
                                    CachedImageInfo { dirty_rect: DirtyRect::All, ..entries[cached_key] },
                                ),
                            ),
                        )
                    } else {
                        self.cached_images
                    },
                    _ => self.cached_images,
                }
            } else {
                self.cached_images
            },
            ..self
        }
    }

    /// The cache after some rasterized blob tiles were taken in, the first
    /// one first. Tiles that failed are skipped.
    pub open spec fn with_blobs_rasterized(self, images: Seq<(BlobImageRequest, BlobImageResult)>) -> ResourceCacheView
        decreases images.len(),
    {
        if images.len() == 0 {
            self
        } else {
            let before = self.with_blobs_rasterized(images.drop_last());
            match images.last().1 {
                Ok(data) => before.with_blob_rasterized(images.last().0, data),
                Err(_) => before,
            }
        }
    }

    /// The cache after a collaborator notification was queued.
    pub open spec fn with_notification(self, notification: Notification) -> ResourceCacheView {
        ResourceCacheView { notifications: self.notifications.push(notification), ..self }
    }

    /// The cache after the blob handler, if there is one, was left a
    /// notification.
    pub open spec fn with_blob_handler_notified(self, notification: Notification) -> ResourceCacheView {
        if self.has_blob_image_handler {
            self.with_notification(notification)
        } else {
            self
        }
    }

    /// The cache after a font was declared under a shared key.
    pub open spec fn with_font_added(self, font_key: FontKey, template: FontTemplate) -> ResourceCacheView {
        ResourceCacheView {
            notifications: self.notifications.push(Notification::RasterizerAddFont(font_key)),
            fonts: SharedFontResourcesView { templates: self.fonts.templates.insert(font_key, template), ..self.fonts },
            ..self
        }
    }

    /// The cache after the declaration of a font was removed: the glyphs of
    /// the instances of the font are forgotten.
    pub open spec fn with_font_deleted(self, font_key: FontKey) -> ResourceCacheView {
        ResourceCacheView {
            notifications: self.notifications.push(Notification::RasterizerDeleteFont(font_key)),
            fonts: SharedFontResourcesView { templates: self.fonts.templates.remove(font_key), ..self.fonts },
            glyphs: self.glyphs.restrict(Set::new(|f: FontInstance| f.font_key != font_key)),
            ..self
        }
    }

    /// The cache after an image was declared.
    pub open spec fn with_image_added(
        self,
        key: ImageKey,
        descriptor: ImageDescriptor,
        data: CachedImageData,
        visible_rect: DeviceIntRect,
        tiling: Option<TileSize>,
    ) -> ResourceCacheView {
        ResourceCacheView {
            templates: self.templates.insert(
                key,
                ImageResource {
                    descriptor,
                    data,
                    tiling: added_tiling(self.texture_cache.tiling_threshold, descriptor, data, tiling),
                    visible_rect,
                    adjustment: AdjustedImageSource::spec_new(),
                    generation: ImageGeneration(0),
                },
            ),
            ..self
        }
    }

    /// The cache after the declaration of an image was replaced.
    pub open spec fn with_image_updated(
        self,
        key: ImageKey,
        descriptor: ImageDescriptor,
        data: CachedImageData,
        dirty_rect: ImageDirtyRect,
    ) -> ResourceCacheView {
        let tiling = updated_tiling(
            self.texture_cache.tiling_threshold,
            descriptor,
            data,
            self.templates[key].tiling,
        );
        ResourceCacheView {
            templates: self.templates.insert(
                key,
                ImageResource {
                    descriptor,
                    data,
                    tiling,
                    visible_rect: DeviceIntRect::spec_from_size(descriptor.size),
                    adjustment: AdjustedImageSource::spec_new(),
                    generation: ImageGeneration((self.templates[key].generation.0 + 1) as u32),
                },
            ),
            cached_images: if self.cached_images.contains_key(key) {
                self.cached_images.insert(key, self.cached_images[key].dirtied(tiling, descriptor.size, dirty_rect))
            } else {
                self.cached_images
            },
            ..self
        }
    }

    /// The cache after the generation of an image grew by one.
    pub open spec fn with_generation_incremented(self, key: ImageKey) -> ResourceCacheView {
        if self.templates.contains_key(key) {
            ResourceCacheView {
                templates: self.templates.insert(
                    key,
                    ImageResource {
                        generation: ImageGeneration((self.templates[key].generation.0 + 1) as u32),
                        ..self.templates[key]
                    },
                ),
                ..self
            }
        } else {
            self
        }
    }

    /// The cache after the declaration of an image was removed.
    pub open spec fn with_image_deleted(self, key: ImageKey) -> ResourceCacheView {
        let was_blob = self.templates.contains_key(key) && self.templates[key].data is Blob;
        ResourceCacheView {
            templates: self.templates.remove(key),
            cached_images: self.cached_images.remove(key),
            texture_cache: if self.cached_images.contains_key(key) {
                self.texture_cache.evicted_all(self.cached_images[key].handles())
            } else {
                self.texture_cache
            },
            deleted_blob_keys: if was_blob {
                self.deleted_blob_keys.update(
                    self.deleted_blob_keys.len() - 1,
                    self.deleted_blob_keys.last().push(BlobImageKey(key)),
                )
            } else {
                self.deleted_blob_keys
            },
            rasterized_blobs: if was_blob {
                self.rasterized_blobs.remove(BlobImageKey(key))
            } else {
                self.rasterized_blobs
            },
            ..self
        }
    }

    /// The generation of an image, or the invalid generation if the image is
    /// not declared.
    pub open spec fn image_generation(self, key: ImageKey) -> ImageGeneration {
        if self.templates.contains_key(key) {
            self.templates[key].generation
        } else {
            ImageGeneration(u32::MAX)
        }
    }

    /// What the renderer needs to know of an image, if the image is
    /// declared. Only an external texture handle is an external image to the
    /// renderer.
    pub open spec fn image_properties(self, key: ImageKey) -> Option<ImageProperties> {
        if self.templates.contains_key(key) {
            let template = self.templates[key];
            Some(
                ImageProperties {
                    descriptor: template.descriptor,
                    external_image: match template.data {
                        CachedImageData::External(ext) => if ext.image_type is TextureHandle {
                            Some(ext)
                        } else {
                            None
                        },
                        _ => None,
                    },
                    tiling: template.tiling,
                    visible_rect: template.visible_rect,
                    adjustment: template.adjustment,
                },
            )
        } else {
            None
        }
    }

    /// The cache after everything of a blob outside an area was forgotten.
    /// Nothing changes for an image that is not declared, has no tiling, or
    /// has nothing rasterized.
    pub open spec fn with_tiles_discarded(self, key: BlobImageKey, area: DeviceIntRect) -> ResourceCacheView {
        if !self.templates.contains_key(key.0) || self.templates[key.0].tiling.is_none()
            || !self.rasterized_blobs.contains_key(key) {
            self
        } else {
            let tile_range = tile_range_of(area, self.templates[key.0].tiling.unwrap());
            let tiles = self.rasterized_blobs[key].restrict(Set::new(|t: TileOffset| tile_range.spec_contains(t)));
            let multi = self.cached_images.contains_key(key.0) && self.cached_images[key.0] is Multi;
            ResourceCacheView {
                rasterized_blobs: self.rasterized_blobs.insert(key, tiles),
                cached_images: if multi {
                    self.cached_images.insert(
                        key.0,
                        ImageResultView::Multi(
                            self.cached_images[key.0]->Multi_0.restrict(
                                Set::new(|k: CachedImageKey| keeps_variant(tile_range, k)),
                            ),
                        ),
                    )
                } else {
                    self.cached_images
                },
                texture_cache: if multi {
                    self.texture_cache.evicted_all(discarded_handles(self.cached_images[key.0]->Multi_0, tile_range))
                } else {
                    self.texture_cache
                },
                ..self
            }
        }
    }

    /// The cache after the visible part of an image was set.
    pub open spec fn with_visible_rect(self, key: ImageKey, rect: DeviceIntRect) -> ResourceCacheView {
        if self.templates.contains_key(key) {
            let template = self.templates[key];
            ResourceCacheView {
                templates: self.templates.insert(
                    key,
                    ImageResource {
                        visible_rect: rect,
                        descriptor: ImageDescriptor {
                            size: DeviceIntSize {
                                width: (rect.max.x - rect.min.x) as i32,
                                height: (rect.max.y - rect.min.y) as i32,
                            },
                            ..template.descriptor
                        },
                        ..template
                    },
                ),
                ..self
            }
        } else {
            self
        }
    }

    /// The cache after a frame was begun: resources may be added, the
    /// texture cache counts in the new frame, and the log of deleted blob
    /// keys drops its oldest frame and opens an empty one.
    pub open spec fn with_frame_begun(self, stamp: FrameStamp) -> ResourceCacheView {
        ResourceCacheView {
            state: State::AddResources,
            current_frame_id: stamp.id,
            texture_cache: TextureCacheView { now: stamp.id, ..self.texture_cache },
            deleted_blob_keys: self.deleted_blob_keys.drop_first().push(Seq::empty()),
            ..self
        }
    }

    /// The size of what a request asks for: of a tile the part of the
    /// visible rect that falls into it, else the size of the image.
    pub open spec fn request_size(self, request: ImageRequest) -> DeviceIntSize
        recommends
            self.templates.contains_key(request.key),
    {
        let template = self.templates[request.key];
        match request.tile {
            Some(tile) => tile_size_of(template.visible_rect, template.tiling.unwrap(), tile),
            None => template.descriptor.size,
        }
    }

    /// The side that the hardware has to take for an image: that of its
    /// tiles, or the longer side of an image without tiling.
    pub open spec fn side_size(self, key: ImageKey) -> int
        recommends
            self.templates.contains_key(key),
    {
        let template = self.templates[key];
        match template.tiling {
            Some(tile_size) => tile_size as int,
            None => if template.descriptor.size.width >= template.descriptor.size.height {
                template.descriptor.size.width as int
            } else {
                template.descriptor.size.height as int
            },
        }
    }

    /// Whether a request goes on to the cached state of its image: the image
    /// is declared, goes through the texture cache, and fits the hardware.
    pub open spec fn cacheable(self, request: ImageRequest) -> bool {
        &&& self.templates.contains_key(request.key)
        &&& self.templates[request.key].data.spec_uses_texture_cache()
        &&& self.side_size(request.key) <= self.texture_cache.max_texture_size
    }

    /// The cached state of the image of a request once the variant that the
    /// request is for is in it. A whole-image state that has to take a second
    /// variant becomes a multi-variant state, where it keeps its handle as
    /// the variant of the whole image rendered as it comes; a multi-variant
    /// state stays one. A failed state counts as none.
    pub open spec fn storage_after_request(self, request: ImageRequest) -> ImageResultView {
        let fresh = CachedImageInfo {
            texture_cache_handle: TextureCacheHandle { slot: None },
            dirty_rect: DirtyRect::All,
            manual_eviction: false,
        };
        let wanted = request.cached_key();
        let base: ImageResultView = if self.cached_images.contains_key(request.key) {
            match self.cached_images[request.key] {
                ImageResultView::UntiledAuto(info) => if request.spec_is_untiled_auto() {
                    ImageResultView::UntiledAuto(info)
                } else {
                    ImageResultView::Multi(
                        Map::empty().insert(CachedImageKey { rendering: ImageRendering::Auto, tile: None }, info),
                    )
                },
                ImageResultView::Multi(entries) => ImageResultView::Multi(entries),
                ImageResultView::Failed(_) => if request.spec_is_untiled_auto() {
                    ImageResultView::UntiledAuto(fresh)
                } else {
                    ImageResultView::Multi(Map::empty())
                },
            }
        } else if request.spec_is_untiled_auto() {
            ImageResultView::UntiledAuto(fresh)
        } else {
            ImageResultView::Multi(Map::empty())
        };
        match base {
            ImageResultView::Multi(entries) => if entries.contains_key(wanted) {
                base
            } else {
                ImageResultView::Multi(entries.insert(wanted, fresh))
            },
            _ => base,
        }
    }

    /// Whether a request has to be uploaded: it goes on to the cached state,
    /// and its variant has no live allocation or is dirty.
    pub open spec fn needs_upload(self, request: ImageRequest) -> bool {
        let info = self.storage_after_request(request).info(request).unwrap();
        &&& self.cacheable(request)
        &&& (!self.texture_cache.allocated(info.texture_cache_handle) || !info.dirty_rect.spec_is_empty())
    }

    /// Whether `request_image` may be called: resources are being added; a
    /// request for a tile is for an image with a tiling; and a blob that is
    /// about to be queued is asked for by tile, and that tile has been
    /// rasterized.
    pub open spec fn can_request(self, request: ImageRequest) -> bool {
        &&& self.state == State::AddResources
        &&& self.templates.contains_key(request.key) && request.tile.is_some()
            ==> self.templates[request.key].tiling.is_some()
        &&& self.needs_upload(request) && !self.pending_requests.contains(request)
            && self.templates[request.key].data is Blob ==> {
            &&& request.tile.is_some()
            &&& self.rasterized_blobs.contains_key(BlobImageKey(request.key))
            &&& self.rasterized_blobs[BlobImageKey(request.key)].contains_key(request.tile.unwrap())
        }
    }

    /// What `request_image` returns.
    pub open spec fn requested_size(self, request: ImageRequest) -> DeviceIntSize {
        if !self.templates.contains_key(request.key) {
            DeviceIntSize { width: 0, height: 0 }
        } else if !self.templates[request.key].data.spec_uses_texture_cache() {
            self.request_size(request)
        } else if !self.cacheable(request) {
            DeviceIntSize { width: 0, height: 0 }
        } else {
            self.request_size(request)
        }
    }

    /// The cache after an image was asked for.
    pub open spec fn with_image_requested(self, request: ImageRequest) -> ResourceCacheView {
        if !self.templates.contains_key(request.key) || !self.templates[request.key].data.spec_uses_texture_cache() {
            self
        } else if !self.cacheable(request) {
            ResourceCacheView {
                cached_images: self.cached_images.insert(
                    request.key,
                    ImageResultView::Failed(ImageCacheError::OverLimitSize),
                ),
                texture_cache: if self.cached_images.contains_key(request.key) {
                    self.texture_cache.evicted_all(self.cached_images[request.key].handles())
                } else {
                    self.texture_cache
                },
                ..self
            }
        } else {
            let storage = self.storage_after_request(request);
            ResourceCacheView {
                cached_images: self.cached_images.insert(request.key, storage),
                texture_cache: self.texture_cache.touched(storage.info(request).unwrap().texture_cache_handle),
                pending_requests: if self.needs_upload(request) && !self.pending_requests.contains(request) {
                    self.pending_requests.push(request)
                } else {
                    self.pending_requests
                },
                ..self
            }
        }
    }

    /// Whether `render_as_image` may be called: the image is declared, and
    /// its cached state, if it has one, is that of the whole image.
    pub open spec fn can_render_as_image(self, key: ImageKey) -> bool {
        &&& self.templates.contains_key(key)
        &&& self.cached_images.contains_key(key) ==> self.cached_images[key] is UntiledAuto
    }

    /// The cached variant of a snapshot before it is rendered: the one that
    /// is there, or a fresh one under manual eviction.
    pub open spec fn snapshot_info(self, key: ImageKey) -> CachedImageInfo {
        if self.cached_images.contains_key(key) {
            self.cached_images[key]->UntiledAuto_0
        } else {
            CachedImageInfo {
                texture_cache_handle: TextureCacheHandle { slot: None },
                dirty_rect: DirtyRect::All,
                manual_eviction: true,
            }
        }
    }

    /// The layout of the texture that a snapshot is rendered into.
    pub open spec fn snapshot_descriptor(self, size: DeviceIntSize, is_opaque: bool) -> ImageDescriptor {
        ImageDescriptor {
            format: self.texture_cache.shared_color_format,
            size,
            stride: None,
            offset: 0,
            flags: ImageDescriptorFlags { is_opaque, allow_mipmaps: false },
        }
    }

    /// The cache after a snapshot was bound to an image key.
    pub open spec fn with_image_rendered(
        self,
        key: ImageKey,
        size: DeviceIntSize,
        is_opaque: bool,
        adjustment: AdjustedImageSource,
        uv_rect_kind: UvRectKind,
    ) -> ResourceCacheView {
        let info = self.snapshot_info(key);
        let descriptor = self.snapshot_descriptor(size, is_opaque);
        ResourceCacheView {
            cached_images: self.cached_images.insert(
                key,
                ImageResultView::UntiledAuto(
                    CachedImageInfo {
                        texture_cache_handle: self.texture_cache.handle_after_update(
                            info.texture_cache_handle,
                            descriptor,
                        ),
                        ..info
                    },
                ),
            ),
            texture_cache: self.texture_cache.updated(
                info.texture_cache_handle,
                descriptor,
                TextureFilter::Linear,
                None,
                FloatBits4 { x: 0, y: 0, z: 0, w: 0 },
                DirtyRect::All,
                uv_rect_kind,
                Eviction::Manual,
                TargetShader::Default,
                true,
            ),
            templates: self.templates.insert(key, ImageResource { adjustment, ..self.templates[key] }),
            ..self
        }
    }

    /// Where the render task of a snapshot has to draw: into the colour
    /// texture of the snapshot, all of it.
    pub open spec fn render_location(self, key: ImageKey, size: DeviceIntSize, is_opaque: bool) -> RenderTaskLocation {
        RenderTaskLocation::Static {
            surface: StaticRenderTaskSurface::TextureCache {
                texture: CacheTextureId(
                    self.texture_cache.handle_after_update(
                        self.snapshot_info(key).texture_cache_handle,
                        self.snapshot_descriptor(size, is_opaque),
                    ).slot.unwrap(),
                ),
                target_kind: RenderTargetKind::Color,
            },
            rect: DeviceIntRect::spec_from_size(size),
        }
    }

    /// Where asking for glyphs of a font instance ends.
    pub open spec fn glyph_requests(self, font: FontInstance, keys: Seq<GlyphKey>) -> GlyphRequests {
        (GlyphRequests {
            glyphs: if self.glyphs.contains_key(font) {
                self.glyphs[font]
            } else {
                Map::empty()
            },
            texture_cache: self.texture_cache,
            wanted: Seq::empty(),
        }).with_keys(keys)
    }

    /// The cache after glyphs of a font instance were asked for.
    pub open spec fn with_glyphs_requested(self, font: FontInstance, keys: Seq<GlyphKey>) -> ResourceCacheView {
        let done = self.glyph_requests(font, keys);
        ResourceCacheView { glyphs: self.glyphs.insert(font, done.glyphs), texture_cache: done.texture_cache, ..self }
    }

    /// Whether `block_until_all_resources_added` may be called: resources
    /// are being added or queried, every font instance of a job is known to
    /// the glyph cache, and every pending request can be uploaded.
    pub open spec fn can_block(self, jobs: Seq<GlyphRasterJob>) -> bool {
        &&& self.state == State::AddResources || self.state == State::QueryResources
        &&& forall|i: int| 0 <= i < jobs.len() ==> self.glyphs.contains_key(#[trigger] jobs[i].font)
        &&& self.all_pending_uploadable()
    }

    /// The cache after the answers of the rasterizer were taken in.
    pub open spec fn with_glyphs_resolved(self, jobs: Seq<GlyphRasterJob>) -> ResourceCacheView {
        let done = (GlyphResolution { glyphs: self.glyphs, texture_cache: self.texture_cache }).with_jobs(
            jobs,
        );
        ResourceCacheView { glyphs: done.glyphs, texture_cache: done.texture_cache, ..self }
    }

    /// The cache after the phase in which resources are added: glyphs
    /// first, then the fallback image if it is missing, then the pending
    /// images.
    pub open spec fn with_resources_blocked(self, jobs: Seq<GlyphRasterJob>) -> ResourceCacheView {
        (ResourceCacheView {
            state: State::QueryResources,
            ..self.with_glyphs_resolved(jobs)
        }).with_texture_cache_updated()
    }

    /// The pixel of the fallback image: pink to be seen, else transparent.
    pub open spec fn fallback_pixel(self) -> Seq<u8> {
        if self.debug_fallback_pink {
            seq![255u8, 0u8, 255u8, 255u8]
        } else {
            seq![0u8, 0u8, 0u8, 0u8]
        }
    }

    /// The layout of the fallback image: one pixel.
    pub open spec fn fallback_descriptor() -> ImageDescriptor {
        ImageDescriptor {
            size: DeviceIntSize { width: 1, height: 1 },
            stride: None,
            format: ImageFormat::BGRA8,
            flags: ImageDescriptorFlags { is_opaque: false, allow_mipmaps: false },
            offset: 0,
        }
    }

    /// The cache once it has a fallback image: where the fallback handle was
    /// never set, the image is allocated under manual eviction and its pixel
    /// is queued.
    pub open spec fn with_fallback_created(self) -> ResourceCacheView {
        if self.fallback_handle.slot.is_none() {
            ResourceCacheView {
                texture_cache: self.texture_cache.updated(
                    self.fallback_handle,
                    Self::fallback_descriptor(),
                    TextureFilter::Linear,
                    Some(CachedImageDataView::Raw(self.fallback_pixel())),
                    FloatBits4 { x: 0, y: 0, z: 0, w: 0 },
                    DirtyRect::All,
                    UvRectKind::Rect,
                    Eviction::Manual,
                    TargetShader::Default,
                    false,
                ),
                fallback_handle: self.texture_cache.handle_after_update(
                    self.fallback_handle,
                    Self::fallback_descriptor(),
                ),
                ..self
            }
        } else {
            self
        }
    }

    /// Whether a pending request can be uploaded. Its image is declared and
    /// goes through the texture cache. Unless the image is a snapshot, the
    /// cached state of the image holds the variant of the request; a request
    /// for a tile is for an image with a tiling; the tile of an image that is
    /// one piece in memory has a layout in `i32` values, and the visible rect
    /// of that image starts at the origin; and a blob is asked for by tile,
    /// and that tile has been rasterized.
    pub open spec fn can_upload(self, request: ImageRequest) -> bool {
        &&& self.templates.contains_key(request.key)
        &&& self.templates[request.key].data.spec_uses_texture_cache()
        &&& !(self.templates[request.key].data is Snapshot) ==> {
            let template = self.templates[request.key];
            &&& self.cached_images.contains_key(request.key)
            &&& self.cached_images[request.key].info(request).is_some()
            &&& request.tile.is_some() ==> {
                &&& template.tiling.is_some()
                &&& !(template.data is Blob) ==> {
                    &&& template.visible_rect.min == DeviceIntPoint { x: 0, y: 0 }
                    &&& tile_layout_fits(template.descriptor, template.tiling.unwrap(), request.tile.unwrap())
                }
            }
            &&& template.data is Blob ==> {
                &&& request.tile.is_some()
                &&& self.rasterized_blobs.contains_key(BlobImageKey(request.key))
                &&& self.rasterized_blobs[BlobImageKey(request.key)].contains_key(request.tile.unwrap())
            }
        }
    }

    /// Whether every pending request can be uploaded.
    pub open spec fn all_pending_uploadable(self) -> bool {
        forall|i: int| 0 <= i < self.pending_requests.len() ==> self.can_upload(#[trigger] self.pending_requests[i])
    }

    /// The layout of the pixels that are uploaded for a request: that of the
    /// image, or that of the tile.
    pub open spec fn upload_descriptor(self, request: ImageRequest) -> ImageDescriptor {
        let template = self.templates[request.key];
        match request.tile {
            Some(tile) => tile_descriptor(
                template.descriptor,
                tile_size_of(template.visible_rect, template.tiling.unwrap(), tile),
                template.tiling.unwrap(),
                tile,
                template.data is Blob,
            ),
            None => template.descriptor,
        }
    }

    /// The pixels that are uploaded for a request: the rasterized tile of a
    /// blob, else the data of the image.
    pub open spec fn upload_data(self, request: ImageRequest) -> CachedImageDataView {
        let template = self.templates[request.key];
        if template.data is Blob {
            CachedImageDataView::Raw(
                self.rasterized_blobs[BlobImageKey(request.key)][request.tile.unwrap()].data@,
            )
        } else {
            template.data@
        }
    }

    /// The part that is uploaded for a request: of a blob what was
    /// rasterized, else what the dirty rects of the variant add up to.
    pub open spec fn upload_dirty_rect(self, request: ImageRequest) -> ImageDirtyRect {
        let template = self.templates[request.key];
        if template.data is Blob {
            DirtyRect::Partial(
                self.rasterized_blobs[BlobImageKey(request.key)][request.tile.unwrap()].rasterized_rect,
            )
        } else {
            self.cached_images[request.key].info(request).unwrap().dirty_rect
        }
    }

    /// The cache after the image of one pending request was written to the
    /// texture cache. Nothing is written for a snapshot. A blob goes under
    /// manual eviction, everything else under automatic eviction.
    pub open spec fn with_request_uploaded(self, request: ImageRequest) -> ResourceCacheView {
        let template = self.templates[request.key];
        if template.data is Snapshot {
            self
        } else {
            let info = self.cached_images[request.key].info(request).unwrap();
            let descriptor = self.upload_descriptor(request);
            let manual = template.data is Blob;
            ResourceCacheView {
                cached_images: self.cached_images.insert(
                    request.key,
                    self.cached_images[request.key].uploaded(
                        request,
                        self.texture_cache.handle_after_update(info.texture_cache_handle, descriptor),
                        manual,
                    ),
                ),
                texture_cache: self.texture_cache.updated(
                    info.texture_cache_handle,
                    descriptor,
                    upload_filter(
                        request.rendering,
                        descriptor,
                        self.texture_cache.allowed_in_shared_cache(TextureFilter::Linear, descriptor),
                    ),
                    Some(self.upload_data(request)),
                    FloatBits4 { x: 0, y: 0, z: 0, w: 0 },
                    self.upload_dirty_rect(request),
                    UvRectKind::Rect,
                    if manual {
                        Eviction::Manual
                    } else {
                        Eviction::Auto
                    },
                    TargetShader::Default,
                    false,
                ),
                ..self
            }
        }
    }

    /// The cache after the images of some requests were written to the
    /// texture cache, the first request first.
    pub open spec fn with_requests_uploaded(self, requests: Seq<ImageRequest>) -> ResourceCacheView
        decreases requests.len(),
    {
        if requests.len() == 0 {
            self
        } else {
            self.with_requests_uploaded(requests.drop_last()).with_request_uploaded(requests.last())
        }
    }

    /// The cache after everything that was pending was written to the
    /// texture cache.
    pub open spec fn with_texture_cache_updated(self) -> ResourceCacheView {
        (ResourceCacheView {
            pending_requests: Seq::empty(),
            ..self.with_fallback_created()
        }).with_requests_uploaded(self.pending_requests)
    }

    /// Writing what is pending to the texture cache neither reads nor writes
    /// the phase of the frame.
    pub proof fn lemma_state_apart(self, state: State)
        ensures
            (ResourceCacheView { state, ..self }).with_texture_cache_updated() == (ResourceCacheView {
                state,
                ..self.with_texture_cache_updated()
            }),
            self.with_texture_cache_updated().pending_requests.len() == 0,
    {
        let a = ResourceCacheView { state, ..self };
        let start_a = ResourceCacheView { pending_requests: Seq::empty(), ..a.with_fallback_created() };
        let start = ResourceCacheView { pending_requests: Seq::empty(), ..self.with_fallback_created() };
        assert(start_a == (ResourceCacheView { state, ..start }));
        start.lemma_state_apart_uploads(state, self.pending_requests);
    }

    /// Uploading requests neither reads nor writes the phase of the frame,
    /// and changes nothing but the cached images and the texture cache.
    pub proof fn lemma_state_apart_uploads(self, state: State, requests: Seq<ImageRequest>)
        ensures
            (ResourceCacheView { state, ..self }).with_requests_uploaded(requests) == (ResourceCacheView {
                state,
                ..self.with_requests_uploaded(requests)
            }),
            self.with_requests_uploaded(requests) == (ResourceCacheView {
                cached_images: self.with_requests_uploaded(requests).cached_images,
                texture_cache: self.with_requests_uploaded(requests).texture_cache,
                ..self
            }),
        decreases requests.len(),
    {
        if requests.len() > 0 {
            self.lemma_state_apart_uploads(state, requests.drop_last());
        }
    }

    /// Creating the fallback image keeps the cache well-formed and changes
    /// nothing that the upload of a request depends on.
    pub proof fn lemma_fallback_keeps_wf(self)
        requires
            self.wf(),
        ensures
            self.with_fallback_created().wf(),
            (ResourceCacheView { pending_requests: Seq::empty(), ..self.with_fallback_created() }).wf(),
            forall|r: ImageRequest|
                self.can_upload(r) ==> (ResourceCacheView {
                    pending_requests: Seq::empty(),
                    ..self.with_fallback_created()
                }).can_upload(r),
    {
        self.texture_cache.lemma_update_keeps_render_targets(
            self.fallback_handle,
            Self::fallback_descriptor(),
            TextureFilter::Linear,
            Some(CachedImageDataView::Raw(self.fallback_pixel())),
            FloatBits4 { x: 0, y: 0, z: 0, w: 0 },
            DirtyRect::All,
            UvRectKind::Rect,
            Eviction::Manual,
            TargetShader::Default,
            false,
        );
    }

    /// Uploading a request keeps the cache well-formed, and every request
    /// that could be uploaded before can be uploaded after.
    pub proof fn lemma_upload_keeps_wf(self, request: ImageRequest)
        requires
            self.wf(),
            self.can_upload(request),
        ensures
            self.with_request_uploaded(request).wf(),
            forall|r: ImageRequest| self.can_upload(r) ==> self.with_request_uploaded(request).can_upload(r),
    {
        let template = self.templates[request.key];
        if !(template.data is Snapshot) {
            let info = self.cached_images[request.key].info(request).unwrap();
            let descriptor = self.upload_descriptor(request);
            self.texture_cache.lemma_update_keeps_render_targets(
                info.texture_cache_handle,
                descriptor,
                upload_filter(
                    request.rendering,
                    descriptor,
                    self.texture_cache.allowed_in_shared_cache(TextureFilter::Linear, descriptor),
                ),
                Some(self.upload_data(request)),
                FloatBits4 { x: 0, y: 0, z: 0, w: 0 },
                self.upload_dirty_rect(request),
                UvRectKind::Rect,
                if template.data is Blob {
                    Eviction::Manual
                } else {
                    Eviction::Auto
                },
                TargetShader::Default,
                false,
            );
        }
    }

    /// Uploading the first `n` of some requests that can all be uploaded
    /// keeps the cache well-formed, and the others can still be uploaded.
    pub proof fn lemma_upload_all_keeps_wf(self, requests: Seq<ImageRequest>, n: int)
        requires
            self.wf(),
            0 <= n <= requests.len(),
            forall|j: int| 0 <= j < requests.len() ==> self.can_upload(#[trigger] requests[j]),
        ensures
            self.with_requests_uploaded(requests.take(n)).wf(),
            forall|r: ImageRequest| self.can_upload(r) ==> self.with_requests_uploaded(requests.take(n)).can_upload(r),
        decreases n,
    {
        if n > 0 {
            self.lemma_upload_all_keeps_wf(requests, n - 1);
            assert(requests.take(n).drop_last() =~= requests.take(n - 1));
            assert(requests.take(n).last() == requests[n - 1]);
            self.with_requests_uploaded(requests.take(n - 1)).lemma_upload_keeps_wf(requests[n - 1]);
        }
    }

    /// Where the item of a handle sits, if its allocation is alive.
    pub open spec fn texture_cache_item(self, handle: TextureCacheHandle) -> Result<CacheItem, ()> {
        if self.texture_cache.allocated(handle) {
            Ok(self.texture_cache.item(handle))
        } else {
            Err(())
        }
    }

    /// Whether `get_cached_image` may be called: resources are being
    /// queried; the image has a cached state; unless that is the failed
    /// state, it holds the variant of the request; and if the variant has no
    /// live allocation, the image is a snapshot and a missing snapshot is not
    /// to be fatal.
    pub open spec fn can_get_cached_image(self, request: ImageRequest) -> bool {
        &&& self.state == State::QueryResources
        &&& self.cached_images.contains_key(request.key)
        &&& !(self.cached_images[request.key] is Failed) ==> {
            &&& self.cached_images[request.key].info(request).is_some()
            &&& !self.texture_cache.allocated(
                self.cached_images[request.key].info(request).unwrap().texture_cache_handle,
            ) ==> {
                &&& self.templates.contains_key(request.key)
                &&& self.templates[request.key].data is Snapshot
                &&& !self.debug_fallback_panic
            }
        }
    }

    /// What `get_cached_image` returns.
    pub open spec fn cached_image(self, request: ImageRequest) -> Result<CacheItem, ()> {
        match self.cached_images[request.key].info(request) {
            Some(info) => if self.texture_cache.allocated(info.texture_cache_handle) {
                Ok(self.texture_cache.item(info.texture_cache_handle))
            } else {
                self.texture_cache_item(self.fallback_handle)
            },
            None => Err(()),
        }
    }

    /// Whether the pool of render targets can be collected: its memory can
    /// be counted, and if it is above the threshold, none of its targets is
    /// lent out.
    pub open spec fn can_collect_render_targets(self, total_bytes_threshold: usize) -> bool {
        &&& pool_measurable(self.render_target_pool)
        &&& pool_bytes(self.render_target_pool) > total_bytes_threshold ==> all_inactive(self.render_target_pool)
    }

    /// The cache after its pool of render targets was collected. A pool that
    /// is not above the threshold is left alone. Else the targets are looked
    /// at from the one used longest ago to the one used last, and each is
    /// kept or given up by what the pool takes at that moment.
    pub open spec fn with_render_targets_collected(
        self,
        total_bytes_threshold: usize,
        total_bytes_red_line_threshold: usize,
        frames_threshold: u64,
    ) -> ResourceCacheView {
        if pool_bytes(self.render_target_pool) <= total_bytes_threshold {
            self
        } else {
            let sorted = sorted_by_age(self.render_target_pool);
            let done = Collection::after(
                sorted,
                sorted.len() as int,
                self.texture_cache,
                self.current_frame_id,
                total_bytes_threshold,
                total_bytes_red_line_threshold,
                frames_threshold,
            );
            ResourceCacheView { render_target_pool: done.retained, texture_cache: done.texture_cache, ..self }
        }
    }

    /// Whether `end_frame` may be called: resources are being queried, and
    /// the pool of render targets can be collected.
    pub open spec fn can_end_frame(self) -> bool {
        &&& self.state == State::QueryResources
        &&& self.can_collect_render_targets(0x400_0000)
    }

    /// The cache after a frame was ended: it is idle, and its pool of render
    /// targets was collected with a threshold of 64 MiB, a red line of
    /// 320 MiB and a grace of 60 frames.
    pub open spec fn with_frame_ended(self) -> ResourceCacheView {
        (ResourceCacheView { state: State::Idle, ..self }).with_render_targets_collected(
            0x400_0000,
            0x1400_0000,
            60,
        )
    }

    /// The cache after the renderer took what the frame left for it.
    pub open spec fn with_updates_taken(self) -> ResourceCacheView {
        ResourceCacheView {
            texture_cache: TextureCacheView { pending_updates: Seq::empty(), ..self.texture_cache },
            native_surface_updates: Seq::empty(),
            ..self
        }
    }

    /// The cache after an operation for the native compositor was queued.
    pub open spec fn with_native_surface_update(self, details: NativeSurfaceOperationDetails) -> ResourceCacheView {
        ResourceCacheView {
            native_surface_updates: self.native_surface_updates.push(NativeSurfaceOperation { details }),
            ..self
        }
    }

    /// The cache after the debug switches were taken.
    pub open spec fn with_debug_flags(self, flags: DebugFlags) -> ResourceCacheView {
        ResourceCacheView {
            notifications: self.notifications.push(Notification::RasterizerSetGlyphFlashing(flags.glyph_flashing)),
            debug_fallback_panic: flags.missing_snapshot_panic,
            debug_fallback_pink: flags.missing_snapshot_pink,
            texture_cache: if flags.missing_snapshot_pink != self.debug_fallback_pink
                && self.fallback_handle.slot.is_some() {
                self.texture_cache.evicted(self.fallback_handle)
            } else {
                self.texture_cache
            },
            ..self
        }
    }

    /// The cache after what `what` names was forgotten.
    pub open spec fn with_caches_cleared(self, what: ClearCache) -> ResourceCacheView {
        let images_gone = if what.images {
            ResourceCacheView {
                cached_images: Map::empty(),
                texture_cache: self.texture_cache.evicted_all(all_handles(self.cached_images)),
                ..self
            }
        } else {
            self
        };
        let textures_gone = ResourceCacheView {
            glyphs: if what.glyphs {
                Map::empty()
            } else {
                images_gone.glyphs
            },
            glyph_dimensions: if what.glyph_dimensions {
                Map::empty()
            } else {
                images_gone.glyph_dimensions
            },
            texture_cache: if what.texture_cache {
                images_gone.texture_cache.cleared()
            } else {
                images_gone.texture_cache
            },
            ..images_gone
        };
        if what.render_targets {
            textures_gone.with_render_targets_cleared()
        } else {
            textures_gone
        }
    }

    /// Forgetting caches keeps the cache well-formed.
    pub proof fn lemma_clear_keeps_wf(self, what: ClearCache)
        requires
            self.wf(),
        ensures
            self.with_caches_cleared(what).wf(),
            what.texture_cache ==> pool_backed(
                self.render_target_pool,
                self.texture_cache.evicted_all(all_handles(self.cached_images)).cleared(),
            ),
            pool_backed(self.render_target_pool, self.texture_cache.evicted_all(all_handles(self.cached_images))),
            pool_backed(self.render_target_pool, self.texture_cache.cleared()),
    {
        self.texture_cache.lemma_render_targets_kept();
        self.texture_cache.evicted_all(all_handles(self.cached_images)).lemma_render_targets_kept();
    }

    /// The images that are declared under keys of a namespace, or all
    /// declared images if no namespace is given.
    pub open spec fn images_of(self, namespace: Option<IdNamespace>) -> Set<ImageKey> {
        Set::new(|k: ImageKey| self.templates.contains_key(k) && in_namespace(k, namespace))
    }

    /// The cache after some images were deleted, the first one first.
    pub open spec fn with_images_deleted(self, keys: Seq<ImageKey>) -> ResourceCacheView
        decreases keys.len(),
    {
        if keys.len() == 0 {
            self
        } else {
            self.with_images_deleted(keys.drop_last()).with_image_deleted(keys.last())
        }
    }

    /// Deleting images changes neither glyphs nor fonts nor notifications.
    pub proof fn lemma_images_deleted_frame(self, keys: Seq<ImageKey>)
        ensures
            self.with_images_deleted(keys).glyphs == self.glyphs,
            self.with_images_deleted(keys).fonts == self.fonts,
            self.with_images_deleted(keys).notifications == self.notifications,
            self.with_images_deleted(keys).has_blob_image_handler == self.has_blob_image_handler,
        decreases keys.len(),
    {
        if keys.len() > 0 {
            self.lemma_images_deleted_frame(keys.drop_last());
        }
    }

    /// The cache after a namespace was cleared, where `images` are the
    /// images that were deleted, `deleted_fonts` the fonts that were
    /// declared under keys of the namespace, and `shared_instances` and
    /// `shared_fonts` the shared font instances and fonts that lost their
    /// last key.
    pub open spec fn with_namespace_cleared(
        self,
        namespace: IdNamespace,
        images: Seq<ImageKey>,
        deleted_fonts: Seq<FontKey>,
        shared_instances: Seq<FontInstanceKey>,
        shared_fonts: Seq<FontKey>,
    ) -> ResourceCacheView {
        let images_gone = self.with_images_deleted(images);
        ResourceCacheView {
            fonts: self.fonts.with_namespace_cleared(namespace),
            glyphs: self.glyphs.restrict(
                Set::new(
                    |f: FontInstance|
                        f.instance_key.0 != namespace && !shared_instances.contains(f.instance_key)
                            && !shared_fonts.contains(f.font_key),
                ),
            ),
            notifications: self.notifications + font_deletions(deleted_fonts) + (if self.has_blob_image_handler {
                seq![Notification::BlobHandlerClearNamespace(namespace)]
            } else {
                Seq::empty()
            }) + font_instance_deletions(shared_instances) + font_deletions(shared_fonts) + (
            if self.has_blob_image_handler {
                blob_font_deletions(shared_fonts)
            } else {
                Seq::empty()
            }),
            ..images_gone
        }
    }

    /// The position of the target that is lent out for a size and format,
    /// if the pool has one to lend.
    pub open spec fn available_render_target(self, size: DeviceIntSize, format: ImageFormat) -> Option<int> {
        first_available(
            self.render_target_pool,
            RenderTarget {
                size,
                format,
                texture_id: CacheTextureId(0),
                is_active: false,
                last_frame_used: FrameId(0),
            },
            self.render_target_pool.len() as int,
        )
    }

    /// The texture that is handed out for a size and format: that of the
    /// target that the pool has to lend, or a new one.
    pub open spec fn render_target_to_lend(self, size: DeviceIntSize, format: ImageFormat) -> CacheTextureId {
        match self.available_render_target(size, format) {
            Some(i) => self.render_target_pool[i].texture_id,
            None => CacheTextureId(self.texture_cache.slots.len() as usize),
        }
    }

    /// The cache after a render target was lent out. The target is in use,
    /// and was last used in the current frame.
    pub open spec fn with_render_target_lent(self, size: DeviceIntSize, format: ImageFormat) -> ResourceCacheView {
        match self.available_render_target(size, format) {
            Some(i) => ResourceCacheView {
                render_target_pool: self.render_target_pool.update(
                    i,
                    RenderTarget {
                        is_active: true,
                        last_frame_used: self.current_frame_id,
                        ..self.render_target_pool[i]
                    },
                ),
                ..self
            },
            None => ResourceCacheView {
                render_target_pool: self.render_target_pool.push(
                    RenderTarget {
                        size,
                        format,
                        texture_id: CacheTextureId(self.texture_cache.slots.len() as usize),
                        is_active: true,
                        last_frame_used: self.current_frame_id,
                    },
                ),
                texture_cache: self.texture_cache.render_target_allocated(size, format),
                ..self
            },
        }
    }

    /// Whether a texture is that of a render target of the pool that is
    /// lent out.
    pub open spec fn is_lent(self, id: CacheTextureId) -> bool {
        exists|i: int|
            0 <= i < self.render_target_pool.len() && (#[trigger] self.render_target_pool[i]).texture_id == id
                && self.render_target_pool[i].is_active
    }

    /// The cache after a render target was taken back.
    pub open spec fn with_render_target_returned(self, id: CacheTextureId) -> ResourceCacheView {
        let i = position_of(self.render_target_pool, id);
        ResourceCacheView {
            render_target_pool: self.render_target_pool.update(
                i,
                RenderTarget { is_active: false, ..self.render_target_pool[i] },
            ),
            ..self
        }
    }

    /// The cache after every render target of the pool was given up.
    pub open spec fn with_render_targets_cleared(self) -> ResourceCacheView {
        ResourceCacheView {
            render_target_pool: Seq::empty(),
            texture_cache: self.texture_cache.render_targets_freed(pool_textures(self.render_target_pool)),
            ..self
        }
    }
}

} // verus!
