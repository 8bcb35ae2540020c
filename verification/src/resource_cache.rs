//! The resource cache: the declared images and fonts, the cached state of
//! the images in the texture cache, the requests of a frame, the pool of
//! render targets and the phases of the frame.
//!
//! What every operation does to the cache is said over `ResourceCacheView`,
//! the cache as a mathematical value.

use std::sync::Arc;
use smallvec::SmallVec;
use vstd::prelude::*;
use crate::api::{
    AddFont,
    BlobDirtyRect,
    BlobImageKey,
    BlobImageRequest,
    BlobImageResult,
    ClearCache,
    DEFAULT_TILE_SIZE,
    DebugFlags,
    DirtyRect,
    ExternalImageData,
    ExternalImageId,
    ExternalImageType,
    FontInstanceKey,
    FontKey,
    IdNamespace,
    ImageData,
    ImageDescriptor,
    ImageDescriptorFlags,
    ImageDirtyRect,
    ImageFormat,
    ImageKey,
    ImageRendering,
    MAX_TILE_SIZE,
    MIN_TILE_SIZE,
    RasterizedBlobImage,
    ResourceUpdate,
    share_bytes,
};
use crate::cache_view::{
    ResourceCacheView,
    all_handles,
    blob_font_deletions,
    blob_views,
    discarded_handles,
    failed_blobs,
    font_deletions,
    font_instance_deletions,
    image_views,
    in_namespace,
    keeps_variant,
    key_lists,
    local_dirty_rect,
    spec_should_tile,
    tile_descriptor,
    tile_layout_fits,
    tile_local_rect,
    upload_filter,
};
use crate::class_cache::{CacheKey, ResourceClassCache};
use crate::font::{
    BaseFontInstance,
    ClearedFonts,
    FontTemplate,
    SharedFontResources,
    SharedFontResourcesView,
    released_by_namespace,
};
use crate::glyph_cache::{
    GlyphBatch,
    GlyphCache,
    GlyphCacheEntry,
    GlyphFetch,
    GlyphResolution,
    batch_views,
    can_fetch_glyphs,
};
use crate::glyph_rasterizer::{FontInstance, GlyphKey, GlyphRasterJob};
use crate::gpu_types::UvRectKind;
use crate::image_tiling::{TileSize, compute_tile_range, compute_tile_size};
use crate::internal_types::{
    CacheTextureId,
    FloatBits4,
    FrameId,
    FrameStamp,
    GpuCacheHandle,
    NativeSurfaceId,
    NativeTileId,
    TextureFilter,
    TextureSource,
};
use crate::render_target_pool::{
    Collection,
    KeptTargets,
    all_inactive,
    first_available,
    kept_targets,
    lemma_first_available,
    pool_backed,
    pool_bytes,
    pool_measurable,
    pool_textures,
    sort_by_age,
    sorted_by_age,
};
use crate::texture_cache::{
    update_views,
    Eviction,
    TargetShader,
    TextureCache,
    TextureCacheHandle,
    TextureCacheView,
    TextureUpdate,
};
use crate::units::{
    DeviceIntPoint,
    DeviceIntRect,
    DeviceIntSize,
    TileOffset,
};

verus! {

/// Where a cached item sits in the texture cache.
///
/// The rectangle is in texels, never normalised, so that a texture that
/// grows does not move the items it holds.
#[derive(Clone, Copy, Debug, PartialEq, Eq, Structural)]
pub struct CacheItem {
    pub texture_id: TextureSource,
    pub uv_rect_handle: GpuCacheHandle,
    pub uv_rect: DeviceIntRect,
    pub user_data: FloatBits4,
}

impl CacheItem {
    /// The item that names no texture.
    pub fn invalid() -> (item: Self)
        ensures
            item.texture_id == TextureSource::Invalid,
            item.uv_rect_handle.location.is_none(),
            item.uv_rect == DeviceIntRect::spec_from_size(DeviceIntSize { width: 0, height: 0 }),
            item.user_data == (FloatBits4 { x: 0, y: 0, z: 0, w: 0 }),
            !item.spec_is_valid(),
    {
        CacheItem {
            texture_id: TextureSource::Invalid,
            uv_rect_handle: GpuCacheHandle::new(),
            uv_rect: DeviceIntRect::zero(),
            user_data: FloatBits4::zero(),
        }
    }

    pub open spec fn spec_is_valid(&self) -> bool {
        self.texture_id != TextureSource::Invalid
    }

    /// An item is valid when it names a texture.
    pub fn is_valid(&self) -> (valid: bool)
        ensures
            valid == self.spec_is_valid(),
    {
        self.texture_id != TextureSource::Invalid
    }
}

/// The backing store of an image in the cache.
pub enum CachedImageData {
    /// Bytes that the embedder provided and the cache shares. Their format
    /// is in the image's descriptor.
    Raw(Arc<Vec<u8>>),
    /// Recorded commands that are rasterized elsewhere; the pixels arrive
    /// tile by tile.
    Blob,
    /// A stacking context of which a snapshot was asked for. The pixels are
    /// rendered on the GPU, so there is nothing to store here.
    Snapshot,
    /// A texture or buffer that the embedder owns.
    External(ExternalImageData),
}

/// The backing store of an image as a mathematical value.
pub enum CachedImageDataView {
    Raw(Seq<u8>),
    Blob,
    Snapshot,
    External(ExternalImageData),
}

impl CachedImageData {
    pub open spec fn view(&self) -> CachedImageDataView {
        match *self {
            CachedImageData::Raw(bytes) => CachedImageDataView::Raw(bytes@),
            CachedImageData::Blob => CachedImageDataView::Blob,
            CachedImageData::Snapshot => CachedImageDataView::Snapshot,
            CachedImageData::External(ext) => CachedImageDataView::External(ext),
        }
    }

    pub open spec fn spec_from(data: ImageData) -> CachedImageData {
        match data {
            ImageData::Raw(bytes) => CachedImageData::Raw(bytes),
            ImageData::External(ext) => CachedImageData::External(ext),
        }
    }

    pub open spec fn spec_is_blob(&self) -> bool {
        *self is Blob
    }

    pub open spec fn spec_is_snapshot(&self) -> bool {
        *self is Snapshot
    }

    /// Everything goes through the texture cache but an external texture
    /// handle, which is a texture already.
    pub open spec fn spec_uses_texture_cache(&self) -> bool {
        match *self {
            CachedImageData::External(ext) => ext.image_type == ExternalImageType::Buffer,
            _ => true,
        }
    }

    /// The backing store for the pixels of an image declaration.
    pub fn from_image_data(data: ImageData) -> (cached: Self)
        ensures
            cached == Self::spec_from(data),
    {
        match data {
            ImageData::Raw(bytes) => CachedImageData::Raw(bytes),
            ImageData::External(ext) => CachedImageData::External(ext),
        }
    }

    /// Whether this is a blob.
    pub fn is_blob(&self) -> (b: bool)
        ensures
            b == self.spec_is_blob(),
    {
        match *self {
            CachedImageData::Blob => true,
            _ => false,
        }
    }

    pub fn is_snapshot(&self) -> (b: bool)
        ensures
            b == self.spec_is_snapshot(),
    {
        match *self {
            CachedImageData::Snapshot => true,
            _ => false,
        }
    }

    /// Whether images with this backing store go through the texture cache.
    pub fn uses_texture_cache(&self) -> (b: bool)
        ensures
            b == self.spec_uses_texture_cache(),
    {
        match self {
            CachedImageData::External(ext_data) => match ext_data.image_type {
                ExternalImageType::TextureHandle(_) => false,
                ExternalImageType::Buffer => true,
            },
            CachedImageData::Blob => true,
            CachedImageData::Raw(_) => true,
            CachedImageData::Snapshot => true,
        }
    }

    /// The same backing store once more; raw bytes are shared, not copied.
    pub fn share(&self) -> (other: Self)
        ensures
            other == *self,
    {
        match self {
            CachedImageData::Raw(bytes) => CachedImageData::Raw(share_bytes(bytes)),
            CachedImageData::Blob => CachedImageData::Blob,
            CachedImageData::Snapshot => CachedImageData::Snapshot,
            CachedImageData::External(ext) => CachedImageData::External(*ext),
        }
    }
}

impl From<ImageData> for CachedImageData {
    fn from(img_data: ImageData) -> (cached: Self) {
        CachedImageData::from_image_data(img_data)
    }
}

impl vstd::std_specs::convert::FromSpecImpl<ImageData> for CachedImageData {
    open spec fn obeys_from_spec() -> bool {
        true
    }

    open spec fn from_spec(img_data: ImageData) -> Self {
        CachedImageData::spec_from(img_data)
    }
}

/// What the renderer needs to know of an image to draw it.
#[derive(Clone, Copy, Debug, PartialEq, Eq, Structural)]
pub struct ImageProperties {
    pub descriptor: ImageDescriptor,
    /// The external texture behind the image, if it has one.
    pub external_image: Option<ExternalImageData>,
    pub tiling: Option<TileSize>,
    /// The part of the image that is mapped to the bounds of the display
    /// item; it may be smaller than the image.
    pub visible_rect: DeviceIntRect,
    pub adjustment: AdjustedImageSource,
}

/// How the source rectangle of a snapshot is to be adjusted when it is
/// drawn: an offset and a scale.
#[derive(Clone, Copy, Debug, PartialEq, Eq, Structural)]
pub struct AdjustedImageSource {
    pub values: FloatBits4,
}

impl AdjustedImageSource {
    /// The adjustment that changes nothing: offset zero and scale one.
    pub fn new() -> (a: Self)
        ensures
            a == Self::spec_new(),
    {
        AdjustedImageSource { values: FloatBits4 { x: 0, y: 0, z: 0x3f80_0000, w: 0x3f80_0000 } }
    }

    pub open spec fn spec_new() -> AdjustedImageSource {
        AdjustedImageSource { values: FloatBits4 { x: 0, y: 0, z: 0x3f80_0000, w: 0x3f80_0000 } }
    }
}

/// The phase of the frame that the cache is in.
#[derive(Clone, Copy, Debug, PartialEq, Eq, Structural)]
pub enum State {
    Idle,
    AddResources,
    QueryResources,
}

/// Counts the updates of an image, so that what was derived from the image
/// can tell that it is out of date.
#[derive(Clone, Copy, Debug, PartialEq, Eq, Structural)]
pub struct ImageGeneration(pub u32);

impl ImageGeneration {
    /// The generation of an image that is not declared.
    pub fn invalid() -> (g: Self)
        ensures
            g == ImageGeneration(u32::MAX),
    {
        ImageGeneration(u32::MAX)
    }
}

impl Default for ImageGeneration {
    fn default() -> (g: Self)
        ensures
            g == ImageGeneration(0),
    {
        ImageGeneration(0)
    }
}

/// The declaration of an image: its template.
pub struct ImageResource {
    pub data: CachedImageData,
    pub descriptor: ImageDescriptor,
    pub tiling: Option<TileSize>,
    /// Of an image that is virtually very large, the part that is valid at
    /// this time.
    pub visible_rect: DeviceIntRect,
    pub adjustment: AdjustedImageSource,
    pub generation: ImageGeneration,
}

/// One allocation in the texture cache that holds pixels of an image (all
/// of it, or one tile), and what part of it is out of date.
#[derive(Clone, Copy, Debug, PartialEq, Eq, Structural)]
pub struct CachedImageInfo {
    pub texture_cache_handle: TextureCacheHandle,
    pub dirty_rect: ImageDirtyRect,
    /// The allocation stays until `mark_unused` gives it up.
    pub manual_eviction: bool,
}

impl CachedImageInfo {
    /// Gives up the allocation in the texture cache. Only after this may an
    /// entry with `manual_eviction` be dropped.
    pub fn mark_unused(&mut self, texture_cache: &mut TextureCache)
        ensures
            final(texture_cache)@ == old(texture_cache)@.evicted(old(self).texture_cache_handle),
            *final(self) == (CachedImageInfo { manual_eviction: false, ..*old(self) }),
    {
        texture_cache.evict_handle(&self.texture_cache_handle);
        self.manual_eviction = false;
    }
}

/// Which of the cached variants of an image: how it is rendered, and which
/// tile of it.
#[derive(Clone, Copy, Debug, PartialEq, Eq, Structural, Hash)]
pub struct CachedImageKey {
    pub rendering: ImageRendering,
    pub tile: Option<TileOffset>,
}

impl CacheKey for CachedImageKey {
    fn same(&self, other: &Self) -> (r: bool) {
        *self == *other
    }
}

/// Asks for an image, or one tile of it, to be in the texture cache.
#[derive(Clone, Copy, Debug, PartialEq, Eq, Structural, Hash)]
pub struct ImageRequest {
    pub key: ImageKey,
    pub rendering: ImageRendering,
    pub tile: Option<TileOffset>,
}

impl ImageRequest {
    /// The same request for one tile.
    pub fn with_tile(&self, offset: TileOffset) -> (r: Self)
        ensures
            r == (ImageRequest { key: self.key, rendering: self.rendering, tile: Some(offset) }),
    {
        ImageRequest { key: self.key, rendering: self.rendering, tile: Some(offset) }
    }

    pub open spec fn spec_is_untiled_auto(&self) -> bool {
        self.tile.is_none() && self.rendering == ImageRendering::Auto
    }

    /// The common case: the whole image, rendered as it comes.
    pub fn is_untiled_auto(&self) -> (b: bool)
        ensures
            b == self.spec_is_untiled_auto(),
    {
        self.tile.is_none() && self.rendering == ImageRendering::Auto
    }

    /// The variant of the image that the request is for.
    pub open spec fn cached_key(&self) -> CachedImageKey {
        CachedImageKey { rendering: self.rendering, tile: self.tile }
    }

    /// The variant of the image that the request is for.
    pub fn into_cached_image_key(self) -> (k: CachedImageKey)
        ensures
            k == self.cached_key(),
    {
        CachedImageKey { rendering: self.rendering, tile: self.tile }
    }

    /// The blob tile that a tiled request is for.
    pub fn into_blob_image_request(self) -> (r: BlobImageRequest)
        requires
            self.tile.is_some(),
        ensures
            r == (BlobImageRequest { key: BlobImageKey(self.key), tile: self.tile.unwrap() }),
    {
        BlobImageRequest { key: BlobImageKey(self.key), tile: self.tile.unwrap() }
    }
}

impl From<ImageRequest> for CachedImageKey {
    fn from(request: ImageRequest) -> (key: Self) {
        request.into_cached_image_key()
    }
}

impl vstd::std_specs::convert::FromSpecImpl<ImageRequest> for CachedImageKey {
    open spec fn obeys_from_spec() -> bool {
        true
    }

    open spec fn from_spec(request: ImageRequest) -> Self {
        request.cached_key()
    }
}

/// Why an image cannot be cached.
#[derive(Clone, Copy, Debug, PartialEq, Eq, Structural)]
pub enum ImageCacheError {
    /// A side of the image, or of its tiles, is larger than the hardware
    /// takes.
    OverLimitSize,
}

/// The cached state of one image.
pub enum ImageResult {
    /// The whole image, rendered as it comes: the common case.
    UntiledAuto(CachedImageInfo),
    /// Several variants: tiles, or other ways of rendering.
    Multi(ResourceClassCache<CachedImageKey, CachedImageInfo, ()>),
    /// The image cannot be cached.
    Failed(ImageCacheError),
}

/// The cached state of one image as a mathematical value.
pub enum ImageResultView {
    UntiledAuto(CachedImageInfo),
    Multi(Map<CachedImageKey, CachedImageInfo>),
    Failed(ImageCacheError),
}

impl ImageResultView {
    /// The handles of all the variants.
    pub open spec fn handles(self) -> Set<TextureCacheHandle> {
        match self {
            ImageResultView::UntiledAuto(info) => set![info.texture_cache_handle],
            ImageResultView::Multi(entries) => Set::new(
                |h: TextureCacheHandle|
                    exists|k: CachedImageKey| #[trigger]
                        entries.contains_key(k) && entries[k].texture_cache_handle == h,
            ),
            ImageResultView::Failed(_) => Set::empty(),
        }
    }

    /// The same state with no variant under manual eviction.
    pub open spec fn released(self) -> ImageResultView {
        match self {
            ImageResultView::UntiledAuto(info) => ImageResultView::UntiledAuto(
                CachedImageInfo { manual_eviction: false, ..info },
            ),
            ImageResultView::Multi(entries) => ImageResultView::Multi(
                entries.map_values(|info: CachedImageInfo| CachedImageInfo { manual_eviction: false, ..info }),
            ),
            ImageResultView::Failed(e) => ImageResultView::Failed(e),
        }
    }

    /// The same state after a part of the image changed: every variant
    /// adds its share of the change to its dirty rect.
    pub open spec fn dirtied(
        self,
        tiling: Option<TileSize>,
        image_size: DeviceIntSize,
        dirty_rect: ImageDirtyRect,
    ) -> ImageResultView {
        match self {
            ImageResultView::UntiledAuto(info) => ImageResultView::UntiledAuto(
                CachedImageInfo { dirty_rect: info.dirty_rect.spec_union(dirty_rect), ..info },
            ),
            ImageResultView::Multi(entries) => ImageResultView::Multi(
                Map::new(
                    |k: CachedImageKey| entries.contains_key(k),
                    |k: CachedImageKey|
                        CachedImageInfo {
                            dirty_rect: entries[k].dirty_rect.spec_union(
                                local_dirty_rect(tiling, k.tile, image_size, dirty_rect),
                            ),
                            ..entries[k]
                        },
                ),
            ),
            ImageResultView::Failed(e) => ImageResultView::Failed(e),
        }
    }

    /// The same state after the variant of a request was written to the
    /// texture cache: the variant has the handle that the update left, its
    /// dirty rect is used up, and it is under manual eviction if the upload
    /// was.
    pub open spec fn uploaded(
        self,
        request: ImageRequest,
        handle: TextureCacheHandle,
        manual: bool,
    ) -> ImageResultView
        recommends
            self.info(request).is_some(),
    {
        let info = self.info(request).unwrap();
        let after = CachedImageInfo {
            texture_cache_handle: handle,
            dirty_rect: DirtyRect::spec_empty(),
            manual_eviction: manual || info.manual_eviction,
        };
        match self {
            ImageResultView::UntiledAuto(_) => ImageResultView::UntiledAuto(after),
            ImageResultView::Multi(entries) => ImageResultView::Multi(entries.insert(request.cached_key(), after)),
            ImageResultView::Failed(e) => ImageResultView::Failed(e),
        }
    }

    /// The variant that a request is for, if it is there.
    pub open spec fn info(self, request: ImageRequest) -> Option<CachedImageInfo> {
        match self {
            ImageResultView::UntiledAuto(info) => Some(info),
            ImageResultView::Multi(entries) => if entries.contains_key(request.cached_key()) {
                Some(entries[request.cached_key()])
            } else {
                None
            },
            ImageResultView::Failed(_) => None,
        }
    }
}

impl ImageResult {
    pub open spec fn wf(&self) -> bool {
        match self {
            ImageResult::Multi(entries) => entries.wf(),
            _ => true,
        }
    }

    pub open spec fn view(&self) -> ImageResultView {
        match self {
            ImageResult::UntiledAuto(info) => ImageResultView::UntiledAuto(*info),
            ImageResult::Multi(entries) => ImageResultView::Multi(entries@),
            ImageResult::Failed(e) => ImageResultView::Failed(*e),
        }
    }

    /// Records that a part of the image changed. Each variant keeps a dirty
    /// rect of its own, so that the variants can be uploaded one by one.
    fn apply_dirty_rect(&mut self, tiling: Option<TileSize>, image_size: DeviceIntSize, dirty_rect: &ImageDirtyRect)
        requires
            old(self).wf(),
        ensures
            final(self).wf(),
            final(self)@ == old(self)@.dirtied(tiling, image_size, *dirty_rect),
    {
        match self {
            ImageResult::UntiledAuto(entry) => {
                entry.dirty_rect = entry.dirty_rect.union(dirty_rect);
            },
            ImageResult::Multi(entries) => {
                let ghost old_entries = *entries;
                let n = entries.len();
                let mut i: usize = 0;
                while i < n
                    invariant
                        i <= n,
                        n == old_entries.order().len(),
                        old_entries.wf(),
                        entries.wf(),
                        entries.order() == old_entries.order(),
                        forall|j: int|
                            0 <= j < i ==> #[trigger] entries@[old_entries.order()[j]] == (CachedImageInfo {
                                dirty_rect: old_entries@[old_entries.order()[j]].dirty_rect.spec_union(
                                    local_dirty_rect(tiling, old_entries.order()[j].tile, image_size, *dirty_rect),
                                ),
                                ..old_entries@[old_entries.order()[j]]
                            }),
                        forall|j: int|
                            i <= j < n ==> #[trigger] entries@[old_entries.order()[j]]
                                == old_entries@[old_entries.order()[j]],
                        forall|k: CachedImageKey| entries@.contains_key(k) <==> old_entries@.contains_key(k),
                    decreases n - i,
                {
                    let ghost before = *entries;
                    proof {
                        old_entries.lemma_positions();
                        before.lemma_positions();
                    }
                    let key = entries.key_at(i);
                    // The dirty rect is wanted relative to the tile, not to
                    // the whole image.
                    let local = compute_local_dirty_rect(tiling, key.tile, image_size, dirty_rect);
                    let entry = entries.value_at_mut(i);
                    entry.dirty_rect = entry.dirty_rect.union(&local);
                    proof {
                        assert forall|j: int| 0 <= j < n && j != i implies #[trigger] entries@[old_entries.order(
                        )[j]] == before@[old_entries.order()[j]] by {
                            assert(old_entries.order()[j] != old_entries.order()[i as int]);
                        }
                    }
                    i = i + 1;
                }
                proof {
                    old_entries.lemma_positions();
                    entries.lemma_positions();
                    let expected = old(self)@.dirtied(tiling, image_size, *dirty_rect);
                    assert(expected matches ImageResultView::Multi(m) && m =~= entries@) by {
                        assert forall|k: CachedImageKey| entries@.contains_key(k) implies #[trigger] entries@[k]
                            == (CachedImageInfo {
                            dirty_rect: old_entries@[k].dirty_rect.spec_union(
                                local_dirty_rect(tiling, k.tile, image_size, *dirty_rect),
                            ),
                            ..old_entries@[k]
                        }) by {
                            crate::class_cache::lemma_index_of(old_entries.order(), k);
                            let j = old_entries.order().index_of(k);
                            assert(old_entries.order()[j] == k);
                        }
                    }
                }
            },
            ImageResult::Failed(_) => {},
        }
    }

    /// Writes the variant of a request to the texture cache. The dirty rect
    /// of the variant is used up, unless `dirty_rect` says what to upload.
    fn upload(
        &mut self,
        request: ImageRequest,
        texture_cache: &mut TextureCache,
        descriptor: ImageDescriptor,
        filter: TextureFilter,
        data: CachedImageData,
        dirty_rect: Option<ImageDirtyRect>,
        manual: bool,
    )
        requires
            old(self).wf(),
            old(self)@.info(request).is_some(),
        ensures
            final(self).wf(),
            final(self)@ == old(self)@.uploaded(
                request,
                old(texture_cache)@.handle_after_update(
                    old(self)@.info(request).unwrap().texture_cache_handle,
                    descriptor,
                ),
                manual,
            ),
            final(texture_cache)@ == old(texture_cache)@.updated(
                old(self)@.info(request).unwrap().texture_cache_handle,
                descriptor,
                filter,
                Some(data@),
                FloatBits4 { x: 0, y: 0, z: 0, w: 0 },
                match dirty_rect {
                    Some(d) => d,
                    None => old(self)@.info(request).unwrap().dirty_rect,
                },
                UvRectKind::Rect,
                if manual {
                    Eviction::Manual
                } else {
                    Eviction::Auto
                },
                TargetShader::Default,
                false,
            ),
    {
        let entry = match self {
            ImageResult::UntiledAuto(entry) => entry,
            ImageResult::Multi(entries) => entries.get_mut(&request.into_cached_image_key()),
            ImageResult::Failed(_) => {
                proof {
                    assert(false);
                }
                return ;
            },
        };
        let own_dirty_rect = entry.dirty_rect.replace_with_empty();
        let dirty_rect = match dirty_rect {
            Some(d) => d,
            None => own_dirty_rect,
        };
        let eviction = if manual {
            entry.manual_eviction = true;
            Eviction::Manual
        } else {
            Eviction::Auto
        };
        // At this point the dirty rect is local to the descriptor's space.
        texture_cache.update(
            &mut entry.texture_cache_handle,
            descriptor,
            filter,
            Some(data),
            FloatBits4::zero(),
            dirty_rect,
            UvRectKind::Rect,
            eviction,
            TargetShader::Default,
            false,
        );
    }

    /// Gives up every allocation in the texture cache that this state holds.
    pub fn drop_from_cache(&mut self, texture_cache: &mut TextureCache)
        requires
            old(self).wf(),
        ensures
            final(self).wf(),
            final(self)@ == old(self)@.released(),
            final(texture_cache)@ == old(texture_cache)@.evicted_all(old(self)@.handles()),
    {
        proof {
            texture_cache.lemma_slots_countable();
            old(texture_cache)@.lemma_evicted_all_step(Set::empty(), TextureCacheHandle { slot: None });
        }
        match self {
            ImageResult::UntiledAuto(entry) => {
                proof {
                    assert(set![entry.texture_cache_handle] =~= Set::<TextureCacheHandle>::empty().insert(
                        entry.texture_cache_handle,
                    ));
                    old(texture_cache)@.lemma_evicted_all_step(Set::empty(), entry.texture_cache_handle);
                }
                entry.mark_unused(texture_cache);
            },
            ImageResult::Multi(entries) => {
                let ghost old_entries = *entries;
                let n = entries.len();
                let mut i: usize = 0;
                assert(Set::new(
                    |h: TextureCacheHandle|
                        exists|j: int|
                            0 <= j < 0 && #[trigger] old_entries@[old_entries.order()[j]].texture_cache_handle == h,
                ) =~= Set::<TextureCacheHandle>::empty());
                while i < n
                    invariant
                        i <= n,
                        n == old_entries.order().len(),
                        old_entries.wf(),
                        entries.wf(),
                        entries.order() == old_entries.order(),
                        old(texture_cache)@.slots.len() <= usize::MAX,
                        forall|j: int|
                            0 <= j < i ==> #[trigger] entries@[old_entries.order()[j]] == (CachedImageInfo {
                                manual_eviction: false,
                                ..old_entries@[old_entries.order()[j]]
                            }),
                        forall|j: int|
                            i <= j < n ==> #[trigger] entries@[old_entries.order()[j]]
                                == old_entries@[old_entries.order()[j]],
                        forall|k: CachedImageKey| entries@.contains_key(k) <==> old_entries@.contains_key(k),
                        texture_cache@ == old(texture_cache)@.evicted_all(
                            Set::new(
                                |h: TextureCacheHandle|
                                    exists|j: int|
                                        0 <= j < i && #[trigger] old_entries@[old_entries.order(
                                        )[j]].texture_cache_handle == h,
                            ),
                        ),
                    decreases n - i,
                {
                    let ghost before = *entries;
                    let ghost done = Set::new(
                        |h: TextureCacheHandle|
                            exists|j: int|
                                0 <= j < i && #[trigger] old_entries@[old_entries.order()[j]].texture_cache_handle
                                    == h,
                    );
                    proof {
                        old_entries.lemma_positions();
                        before.lemma_positions();
                    }
                    let entry = entries.value_at_mut(i);
                    let ghost handle = entry.texture_cache_handle;
                    entry.mark_unused(texture_cache);
                    proof {
                        old(texture_cache)@.lemma_evicted_all_step(done, handle);
                        let next = Set::new(
                            |h: TextureCacheHandle|
                                exists|j: int|
                                    0 <= j < i + 1 && #[trigger] old_entries@[old_entries.order(
                                    )[j]].texture_cache_handle == h,
                        );
                        assert(handle == old_entries@[old_entries.order()[i as int]].texture_cache_handle);
                        assert(next =~= done.insert(handle));
                        assert forall|j: int| 0 <= j < n && j != i implies #[trigger] entries@[old_entries.order(
                        )[j]] == before@[old_entries.order()[j]] by {
                            assert(old_entries.order()[j] != old_entries.order()[i as int]);
                        }
                    }
                    i = i + 1;
                }
                proof {
                    old_entries.lemma_positions();
                    entries.lemma_positions();
                    let all = Set::new(
                        |h: TextureCacheHandle|
                            exists|j: int|
                                0 <= j < n && #[trigger] old_entries@[old_entries.order()[j]].texture_cache_handle
                                    == h,
                    );
                    assert(all =~= old(self)@.handles()) by {
                        assert forall|h: TextureCacheHandle| old(self)@.handles().contains(h) implies all.contains(
                            h,
                        ) by {
                            let k = choose|k: CachedImageKey| #[trigger]
                                old_entries@.contains_key(k) && old_entries@[k].texture_cache_handle == h;
                            crate::class_cache::lemma_index_of(old_entries.order(), k);
                            let j = old_entries.order().index_of(k);
                            assert(old_entries@[old_entries.order()[j]].texture_cache_handle == h);
                        }
                    }
                    assert(entries@ =~= old_entries@.map_values(
                        |info: CachedImageInfo| CachedImageInfo { manual_eviction: false, ..info },
                    )) by {
                        assert forall|k: CachedImageKey| entries@.contains_key(k) implies #[trigger] entries@[k]
                            == (CachedImageInfo { manual_eviction: false, ..old_entries@[k] }) by {
                            crate::class_cache::lemma_index_of(old_entries.order(), k);
                            let j = old_entries.order().index_of(k);
                            assert(old_entries.order()[j] == k);
                        }
                    }
                }
            },
            ImageResult::Failed(_) => {},
        }
    }
}

/// What is cached of an image.
pub enum CachedVariants {
    /// The image has no cached state.
    Nothing,
    /// The whole image, rendered as it comes.
    UntiledAuto(CachedImageInfo),
    /// Several variants, under these keys.
    Multi(Vec<CachedImageKey>),
    /// The image cannot be cached.
    Failed(ImageCacheError),
}

/// The rasterized tiles of one blob image.
pub type RasterizedBlob = ResourceClassCache<TileOffset, RasterizedBlobImage, ()>;

/// An off-screen render target of the pool.
#[derive(Clone, Copy, Debug, PartialEq, Eq, Structural)]
pub struct RenderTarget {
    pub size: DeviceIntSize,
    pub format: ImageFormat,
    pub texture_id: CacheTextureId,
    /// The target is lent out, and not to be handed to anyone else.
    pub is_active: bool,
    pub last_frame_used: FrameId,
}

impl RenderTarget {
    /// The GPU memory that the target takes.
    pub open spec fn spec_size_in_bytes(&self) -> int {
        self.size.width * self.size.height * self.format.spec_bytes_per_pixel()
    }

    /// Whether the memory of the target can be computed: the number of its
    /// pixels is a non-negative `i32`, and the number of its bytes a `usize`.
    pub open spec fn measurable(&self) -> bool {
        &&& 0 <= self.size.width * self.size.height <= i32::MAX
        &&& self.spec_size_in_bytes() <= usize::MAX
    }

    pub open spec fn spec_used_recently(&self, current_frame_id: FrameId, threshold: u64) -> bool {
        self.last_frame_used.0 + threshold >= current_frame_id.0
    }

    pub fn size_in_bytes(&self) -> (bytes: usize)
        requires
            self.measurable(),
        ensures
            bytes == self.spec_size_in_bytes(),
    {
        let bpp = self.format.bytes_per_pixel() as usize;
        let pixels = (self.size.width * self.size.height) as usize;
        assert(pixels * bpp == self.spec_size_in_bytes());
        pixels * bpp
    }

    /// Whether the target was used within `threshold` frames of the current
    /// frame.
    pub fn used_recently(&self, current_frame_id: FrameId, threshold: u64) -> (recent: bool)
        ensures
            recent == self.spec_used_recently(current_frame_id, threshold),
    {
        current_frame_id.0 <= self.last_frame_used.0 || current_frame_id.0 - self.last_frame_used.0
            <= threshold
    }
}

/// The kind of target that a render task draws into.
#[derive(Clone, Copy, Debug, PartialEq, Eq, Structural)]
pub enum RenderTargetKind {
    Color,
    Alpha,
}

/// A surface that exists before the frame is built.
#[derive(Clone, Copy, Debug, PartialEq, Eq, Structural)]
pub enum StaticRenderTaskSurface {
    /// A texture of the texture cache.
    TextureCache { texture: CacheTextureId, target_kind: RenderTargetKind },
}

/// Where a render task draws.
#[derive(Clone, Copy, Debug, PartialEq, Eq, Structural)]
pub enum RenderTaskLocation {
    /// Not decided yet.
    Unallocated,
    /// Into a rect of a surface that exists before the frame is built.
    Static { surface: StaticRenderTaskSurface, rect: DeviceIntRect },
}

/// An operation on the surfaces of the native compositor.
#[derive(Clone, Copy, Debug, PartialEq, Eq, Structural)]
#[allow(inconsistent_fields)]
pub enum NativeSurfaceOperationDetails {
    CreateSurface { id: NativeSurfaceId, virtual_offset: DeviceIntPoint, tile_size: DeviceIntSize, is_opaque: bool },
    CreateExternalSurface { id: NativeSurfaceId, is_opaque: bool },
    /// A surface of one colour; the colour is four single-precision numbers.
    CreateBackdropSurface { id: NativeSurfaceId, color: FloatBits4 },
    DestroySurface { id: NativeSurfaceId },
    CreateTile { id: NativeTileId },
    DestroyTile { id: NativeTileId },
    AttachExternalImage { id: NativeSurfaceId, external_image: ExternalImageId },
}

/// An operation that waits for the native compositor.
#[derive(Clone, Copy, Debug, PartialEq, Eq, Structural)]
pub struct NativeSurfaceOperation {
    pub details: NativeSurfaceOperationDetails,
}

/// What one frame leaves for the renderer to apply.
pub struct ResourceUpdateList {
    /// Uploads into the textures of the texture cache.
    pub texture_updates: Vec<TextureUpdate>,
    /// Operations on the surfaces of the native compositor.
    pub native_surface_updates: Vec<NativeSurfaceOperation>,
}

/// What the cache asks of its collaborators outside: the glyph rasterizer
/// and the blob handler.
#[derive(Clone, Copy, Debug, PartialEq, Eq, Structural)]
pub enum Notification {
    /// The rasterizer has to load a font; its declaration is in the fonts.
    RasterizerAddFont(FontKey),
    RasterizerDeleteFont(FontKey),
    RasterizerDeleteFontInstance(FontInstanceKey),
    RasterizerEnableMultithreading(bool),
    /// The rasterizer has to tint fresh glyphs, or to stop doing so.
    RasterizerSetGlyphFlashing(bool),
    BlobHandlerDeleteFont(FontKey),
    BlobHandlerDeleteFontInstance(FontInstanceKey),
    BlobHandlerClearNamespace(IdNamespace),
}

/// Names a glyph of a font instance by its index in the font.
#[derive(Clone, Copy, Debug, PartialEq, Eq, Structural, Hash)]
pub struct GlyphDimensionsKey {
    pub font: FontInstanceKey,
    pub glyph_index: u32,
}

impl CacheKey for GlyphDimensionsKey {
    fn same(&self, other: &Self) -> (r: bool) {
        *self == *other
    }
}

/// The size of a glyph and where it sits relative to the pen.
#[derive(Clone, Copy, Debug, PartialEq, Eq, Structural)]
pub struct GlyphDimensions {
    pub left: i32,
    pub top: i32,
    pub width: i32,
    pub height: i32,
    /// How far the pen moves, a single-precision number.
    pub advance: u32,
}

/// What clearing a namespace took away.
pub struct ClearedNamespace {
    /// The images that were declared under keys of the namespace.
    pub images: Vec<ImageKey>,
    pub fonts: ClearedFonts,
}

/// The pixels that are uploaded for a request, each with the rect that was
/// rasterized if they are those of a blob, in a `smallvec::SmallVec`: a
/// vector that needs no allocation while it holds one item or none.
#[verifier::external_body]
pub struct UploadList {
    updates: SmallVec<[(CachedImageData, Option<DeviceIntRect>); 1]>,
}

/// What the `SmallVec` of uploads holds, oldest item first.
pub uninterp spec fn upload_list(list: UploadList) -> Seq<(CachedImageData, Option<DeviceIntRect>)>;

impl UploadList {
    /// `SmallVec::new`: a vector that holds nothing.
    #[verifier::external_body]
    pub(crate) fn new() -> (list: UploadList)
        ensures
            upload_list(list) == Seq::<(CachedImageData, Option<DeviceIntRect>)>::empty(),
    {
        UploadList { updates: SmallVec::new() }
    }

    /// `SmallVec::push`: appends one item behind the others.
    #[verifier::external_body]
    pub(crate) fn push(&mut self, update: (CachedImageData, Option<DeviceIntRect>))
        ensures
            upload_list(*final(self)) == upload_list(*old(self)).push(update),
    {
        self.updates.push(update)
    }

    /// `SmallVec::into_vec`: the same items in the same order, as a `Vec`.
    #[verifier::external_body]
    pub(crate) fn into_vec(self) -> (updates: Vec<(CachedImageData, Option<DeviceIntRect>)>)
        ensures
            updates@ == upload_list(self),
    {
        self.updates.into_vec()
    }
}

/// The keys of the images that are about to be deleted, in a
/// `smallvec::SmallVec`: a vector that needs no allocation while it holds
/// sixteen keys or fewer.
#[verifier::external_body]
pub struct ImageKeyList {
    keys: SmallVec<[ImageKey; 16]>,
}

/// What the `SmallVec` of image keys holds, oldest item first.
pub uninterp spec fn image_key_list(list: ImageKeyList) -> Seq<ImageKey>;

impl ImageKeyList {
    /// `SmallVec::new`: a vector that holds nothing.
    #[verifier::external_body]
    pub(crate) fn new() -> (list: ImageKeyList)
        ensures
            image_key_list(list) == Seq::<ImageKey>::empty(),
    {
        ImageKeyList { keys: SmallVec::new() }
    }

    /// `SmallVec::push`: appends one item behind the others.
    #[verifier::external_body]
    pub(crate) fn push(&mut self, key: ImageKey)
        ensures
            image_key_list(*final(self)) == image_key_list(*old(self)).push(key),
    {
        self.keys.push(key)
    }

    /// `SmallVec::into_vec`: the same items in the same order, as a `Vec`.
    #[verifier::external_body]
    pub(crate) fn into_vec(self) -> (keys: Vec<ImageKey>)
        ensures
            keys@ == image_key_list(self),
    {
        self.keys.into_vec()
    }
}

/// Cuts a dirty box of an image to one tile and moves it into the
/// coordinates of the tile.
fn clip_rect_to_tile(rect: &DeviceIntRect, image_size: DeviceIntSize, tile_size: TileSize, tile: TileOffset) -> (r:
    DeviceIntRect)
    ensures
        r == tile_local_rect(*rect, image_size, tile_size, tile),
{
    let image_rect = DeviceIntRect::from_size(image_size);
    let size = compute_tile_size(&image_rect, tile_size, tile);
    if size.width == 0 || size.height == 0 {
        // The tile has no pixel of the image.
        return DeviceIntRect::zero();
    }
    proof {
        crate::image_tiling::lemma_tile_length_in_range(0, image_size.width as int, tile_size as int, tile.x as int);
        crate::image_tiling::lemma_tile_length_in_range(0, image_size.height as int, tile_size as int, tile.y as int);
        let ts = tile_size as int;
        assert((tile.x + 1) * ts == tile.x * ts + ts) by (nonlinear_arith);
        assert((tile.y + 1) * ts == tile.y * ts + ts) by (nonlinear_arith);
        assert(tile.x >= 0) by (nonlinear_arith)
            requires
                0 < tile.x * ts + ts,
                ts > 0,
        ;
        assert(tile.y >= 0) by (nonlinear_arith)
            requires
                0 < tile.y * ts + ts,
                ts > 0,
        ;
        assert(tile.x * ts >= 0) by (nonlinear_arith)
            requires
                tile.x >= 0,
                ts > 0,
        ;
        assert(tile.y * ts >= 0) by (nonlinear_arith)
            requires
                tile.y >= 0,
                ts > 0,
        ;
    }
    // A tile with a pixel of the image starts inside the image.
    let origin_x: i32 = tile.x * (tile_size as i32);
    let origin_y: i32 = tile.y * (tile_size as i32);
    let tile_rect = DeviceIntRect::new(
        DeviceIntPoint::new(origin_x, origin_y),
        DeviceIntPoint::new(origin_x + size.width, origin_y + size.height),
    );
    match rect.intersection(&tile_rect) {
        Some(part) => part.translate(-origin_x, -origin_y),
        None => DeviceIntRect::zero(),
    }
}

/// What a dirty rect of an image means for one cached variant.
fn compute_local_dirty_rect(
    tiling: Option<TileSize>,
    tile: Option<TileOffset>,
    image_size: DeviceIntSize,
    dirty_rect: &ImageDirtyRect,
) -> (local: ImageDirtyRect)
    ensures
        local == local_dirty_rect(tiling, tile, image_size, *dirty_rect),
{
    match (tiling, tile) {
        (Some(tile_size), Some(tile)) => match dirty_rect {
            DirtyRect::All => DirtyRect::All,
            DirtyRect::Partial(rect) => DirtyRect::Partial(clip_rect_to_tile(rect, image_size, tile_size, tile)),
        },
        (None, Some(_)) => DirtyRect::All,
        _ => *dirty_rect,
    }
}

/// The layout of the pixels that are uploaded for one tile.
fn compute_tile_descriptor(
    descriptor: &ImageDescriptor,
    clipped_tile_size: DeviceIntSize,
    tile_size: TileSize,
    tile: TileOffset,
    tiled_on_cpu: bool,
) -> (d: ImageDescriptor)
    requires
        !tiled_on_cpu ==> tile_layout_fits(*descriptor, tile_size, tile),
    ensures
        d == tile_descriptor(*descriptor, clipped_tile_size, tile_size, tile, tiled_on_cpu),
{
    let mut d = *descriptor;
    if !tiled_on_cpu {
        let bpp = descriptor.format.bytes_per_pixel();
        let stride = descriptor.compute_stride();
        assert(-0x8000_0000 * 0x1_0000 <= tile.y * tile_size <= 0x8000_0000 * 0x1_0000 && -0x8000_0000
            * 0x1_0000 <= tile.x * tile_size <= 0x8000_0000 * 0x1_0000) by (nonlinear_arith)
            requires
                -0x8000_0000 <= tile.x <= 0x8000_0000,
                -0x8000_0000 <= tile.y <= 0x8000_0000,
                0 <= tile_size <= 0x1_0000,
        ;
        let rows: i128 = (tile.y as i128) * (tile_size as i128);
        let columns: i128 = (tile.x as i128) * (tile_size as i128);
        assert(-0x8000_0000 * 0x1_0000 * 0x8000_0000 <= rows * stride <= 0x8000_0000 * 0x1_0000 * 0x8000_0000)
            by (nonlinear_arith)
            requires
                -0x8000_0000 * 0x1_0000 <= rows <= 0x8000_0000 * 0x1_0000,
                -0x8000_0000 <= stride <= 0x8000_0000,
        ;
        assert(-0x8000_0000 * 0x1_0000 * 16 <= columns * bpp <= 0x8000_0000 * 0x1_0000 * 16) by (nonlinear_arith)
            requires
                -0x8000_0000 * 0x1_0000 <= columns <= 0x8000_0000 * 0x1_0000,
                0 <= bpp <= 16,
        ;
        let offset: i128 = (descriptor.offset as i128) + rows * (stride as i128) + columns * (bpp as i128);
        d.stride = Some(stride);
        d.offset = offset as i32;
    }
    d.size = clipped_tile_size;
    d
}

/// Whether stride and byte offset of a tile of an image are `i32` values.
fn tile_layout_fits_check(descriptor: &ImageDescriptor, tile_size: TileSize, tile: TileOffset) -> (fits: bool)
    ensures
        fits == tile_layout_fits(*descriptor, tile_size, tile),
{
    let bpp = descriptor.format.bytes_per_pixel() as i128;
    let stride: i128 = match descriptor.stride {
        Some(stride) => stride as i128,
        None => {
            assert(-0x8000_0000 * 16 <= descriptor.size.width * bpp <= 0x8000_0000 * 16) by (nonlinear_arith)
                requires
                    -0x8000_0000 <= descriptor.size.width <= 0x8000_0000,
                    0 <= bpp <= 16,
            ;
            (descriptor.size.width as i128) * bpp
        },
    };
    if stride < -0x8000_0000 || stride > 0x7fff_ffff {
        return false;
    }
    assert(-0x8000_0000 * 0x1_0000 <= tile.y * tile_size <= 0x8000_0000 * 0x1_0000 && -0x8000_0000 * 0x1_0000
        <= tile.x * tile_size <= 0x8000_0000 * 0x1_0000) by (nonlinear_arith)
        requires
            -0x8000_0000 <= tile.x <= 0x8000_0000,
            -0x8000_0000 <= tile.y <= 0x8000_0000,
            0 <= tile_size <= 0x1_0000,
    ;
    let rows: i128 = (tile.y as i128) * (tile_size as i128);
    let columns: i128 = (tile.x as i128) * (tile_size as i128);
    assert(-0x8000_0000 * 0x1_0000 * 0x8000_0000 <= rows * stride <= 0x8000_0000 * 0x1_0000 * 0x8000_0000)
        by (nonlinear_arith)
        requires
            -0x8000_0000 * 0x1_0000 <= rows <= 0x8000_0000 * 0x1_0000,
            -0x8000_0000 <= stride <= 0x8000_0000,
    ;
    assert(-0x8000_0000 * 0x1_0000 * 16 <= columns * bpp <= 0x8000_0000 * 0x1_0000 * 16) by (nonlinear_arith)
        requires
            -0x8000_0000 * 0x1_0000 <= columns <= 0x8000_0000 * 0x1_0000,
            0 <= bpp <= 16,
    ;
    let offset: i128 = (descriptor.offset as i128) + rows * stride + columns * bpp;
    -0x8000_0000 <= offset && offset <= 0x7fff_ffff
}

/// The filter for an upload.
fn compute_upload_filter(
    rendering: ImageRendering,
    descriptor: &ImageDescriptor,
    texture_cache: &TextureCache,
) -> (filter: TextureFilter)
    ensures
        filter == upload_filter(
            rendering,
            *descriptor,
            texture_cache@.allowed_in_shared_cache(TextureFilter::Linear, *descriptor),
        ),
{
    match rendering {
        ImageRendering::Pixelated => TextureFilter::Nearest,
        ImageRendering::Auto | ImageRendering::CrispEdges => {
            // With linear filtering, mipmaps give the better picture. They
            // are only had on textures outside the shared cache, which
            // takes nothing above 512 pixels on a side anyway.
            if descriptor.allow_mipmaps() && descriptor.size.width > 512 && descriptor.size.height > 512
                && !texture_cache.is_allowed_in_shared_cache(TextureFilter::Linear, descriptor) {
                TextureFilter::Trilinear
            } else {
                TextureFilter::Linear
            }
        },
    }
}

/// A dirty rect of a blob as a dirty rect of its image: the same rect.
fn to_image_dirty_rect(blob_dirty_rect: &BlobDirtyRect) -> (dirty_rect: ImageDirtyRect)
    ensures
        dirty_rect == *blob_dirty_rect,
{
    match blob_dirty_rect {
        DirtyRect::Partial(rect) => DirtyRect::Partial(*rect),
        DirtyRect::All => DirtyRect::All,
    }
}

/// Whether width and height of a box are `i32` values.
fn rect_is_measurable(rect: &DeviceIntRect) -> (ok: bool)
    ensures
        ok == rect.measurable(),
{
    let width: i64 = rect.max.x as i64 - rect.min.x as i64;
    let height: i64 = rect.max.y as i64 - rect.min.y as i64;
    -0x8000_0000 <= width && width <= 0x7fff_ffff && -0x8000_0000 <= height && height <= 0x7fff_ffff
}

/// Queues the notifications that tell the rasterizer, or else the blob
/// handler, to drop fonts.
fn notify_font_deletions(queue: &mut Vec<Notification>, keys: &Vec<FontKey>, blob_handler: bool)
    ensures
        final(queue)@ == old(queue)@ + (if blob_handler {
            blob_font_deletions(keys@)
        } else {
            font_deletions(keys@)
        }),
{
    let mut i: usize = 0;
    while i < keys.len()
        invariant
            i <= keys@.len(),
            queue@ == old(queue)@ + (if blob_handler {
                blob_font_deletions(keys@.take(i as int))
            } else {
                font_deletions(keys@.take(i as int))
            }),
        decreases keys@.len() - i,
    {
        let key = keys[i];
        proof {
            assert(keys@.take(i + 1) =~= keys@.take(i as int).push(key));
            assert(font_deletions(keys@.take(i + 1)) =~= font_deletions(keys@.take(i as int)).push(
                Notification::RasterizerDeleteFont(key),
            ));
            assert(blob_font_deletions(keys@.take(i + 1)) =~= blob_font_deletions(keys@.take(i as int)).push(
                Notification::BlobHandlerDeleteFont(key),
            ));
        }
        if blob_handler {
            queue.push(Notification::BlobHandlerDeleteFont(key));
        } else {
            queue.push(Notification::RasterizerDeleteFont(key));
        }
        i = i + 1;
    }
    proof {
        assert(keys@.take(i as int) =~= keys@);
    }
}

/// Queues the notifications that tell the rasterizer to drop font instances.
fn notify_font_instance_deletions(queue: &mut Vec<Notification>, keys: &Vec<FontInstanceKey>)
    ensures
        final(queue)@ == old(queue)@ + font_instance_deletions(keys@),
{
    let mut i: usize = 0;
    while i < keys.len()
        invariant
            i <= keys@.len(),
            queue@ == old(queue)@ + font_instance_deletions(keys@.take(i as int)),
        decreases keys@.len() - i,
    {
        let key = keys[i];
        proof {
            assert(keys@.take(i + 1) =~= keys@.take(i as int).push(key));
            assert(font_instance_deletions(keys@.take(i + 1)) =~= font_instance_deletions(
                keys@.take(i as int),
            ).push(Notification::RasterizerDeleteFontInstance(key)));
        }
        queue.push(Notification::RasterizerDeleteFontInstance(key));
        i = i + 1;
    }
    proof {
        assert(keys@.take(i as int) =~= keys@);
    }
}

/// Container of the resources that the render backend manages: images and
/// their cached state in the texture cache, rasterized blobs, the pool of
/// render targets and the operations that wait for the native compositor.
pub struct ResourceCache {
    cached_glyphs: GlyphCache,
    /// The sizes of glyphs that were asked of the rasterizer before.
    cached_glyph_dimensions: ResourceClassCache<GlyphDimensionsKey, Option<GlyphDimensions>, ()>,
    fonts: SharedFontResources,
    /// Whether there is a blob handler that wants to be told of fonts and
    /// namespaces that go.
    has_blob_image_handler: bool,
    /// What the glyph rasterizer and the blob handler have to be told.
    pending_notifications: Vec<Notification>,
    cached_images: ResourceClassCache<ImageKey, ImageResult, ()>,
    image_templates: ResourceClassCache<ImageKey, ImageResource, ()>,
    state: State,
    current_frame_id: FrameId,
    texture_cache: TextureCache,
    /// The images that are absent from the texture cache or out of date
    /// there, and have to be uploaded in this frame.
    pending_image_requests: Vec<ImageRequest>,
    rasterized_blob_images: ResourceClassCache<BlobImageKey, RasterizedBlob, ()>,
    /// A log of the blob keys that the last three frames deleted.
    deleted_blob_keys: Vec<Vec<BlobImageKey>>,
    /// The compositor surface updates to apply next frame.
    pending_native_surface_updates: Vec<NativeSurfaceOperation>,
    /// The render targets that the render task graph may borrow.
    render_target_pool: Vec<RenderTarget>,
    /// An empty image (one transparent pixel) that is used where a snapshot
    /// of a stacking context is missing.
    fallback_handle: TextureCacheHandle,
    debug_fallback_panic: bool,
    debug_fallback_pink: bool,
}

impl ResourceCache {
    pub closed spec fn view(&self) -> ResourceCacheView {
        ResourceCacheView {
            state: self.state,
            current_frame_id: self.current_frame_id,
            templates: self.image_templates@,
            cached_images: image_views(self.cached_images@),
            pending_requests: self.pending_image_requests@,
            rasterized_blobs: blob_views(self.rasterized_blob_images@),
            deleted_blob_keys: key_lists(self.deleted_blob_keys@),
            texture_cache: self.texture_cache@,
            render_target_pool: self.render_target_pool@,
            native_surface_updates: self.pending_native_surface_updates@,
            fallback_handle: self.fallback_handle,
            debug_fallback_panic: self.debug_fallback_panic,
            debug_fallback_pink: self.debug_fallback_pink,
            glyphs: self.cached_glyphs@,
            glyph_dimensions: self.cached_glyph_dimensions@,
            fonts: self.fonts@,
            notifications: self.pending_notifications@,
            has_blob_image_handler: self.has_blob_image_handler,
        }
    }

    /// The stores hold every key once, every tiling is a tile size that a
    /// template may carry, no request is pending twice, the log of deleted
    /// blob keys spans three frames, and the targets of the pool are live
    /// render targets of the texture cache, each listed once.
    pub closed spec fn wf(&self) -> bool {
        &&& self.stores_wf()
        &&& self@.wf()
    }

    /// The stores hold every key once.
    spec fn stores_wf(&self) -> bool {
        &&& self.cached_glyphs.wf()
        &&& self.cached_glyph_dimensions.wf()
        &&& self.fonts.wf()
        &&& self.image_templates.wf()
        &&& self.cached_images.wf()
        &&& forall|k: ImageKey| #[trigger]
            self.cached_images@.contains_key(k) ==> self.cached_images@[k].wf()
        &&& self.rasterized_blob_images.wf()
        &&& forall|k: BlobImageKey| #[trigger]
            self.rasterized_blob_images@.contains_key(k) ==> self.rasterized_blob_images@[k].wf()
    }

    pub fn new(
        texture_cache: TextureCache,
        cached_glyphs: GlyphCache,
        fonts: SharedFontResources,
        has_blob_image_handler: bool,
    ) -> (cache: Self)
        requires
            cached_glyphs.wf(),
            fonts.wf(),
        ensures
            cache.wf(),
            cache@ == ResourceCacheView::initial(texture_cache@, cached_glyphs@, fonts@, has_blob_image_handler),
    {
        let mut deleted_blob_keys: Vec<Vec<BlobImageKey>> = Vec::new();
        deleted_blob_keys.push(Vec::new());
        deleted_blob_keys.push(Vec::new());
        deleted_blob_keys.push(Vec::new());
        let cache = ResourceCache {
            cached_glyphs,
            cached_glyph_dimensions: ResourceClassCache::new(),
            fonts,
            has_blob_image_handler,
            pending_notifications: Vec::new(),
            cached_images: ResourceClassCache::new(),
            image_templates: ResourceClassCache::new(),
            state: State::Idle,
            current_frame_id: FrameId::invalid(),
            texture_cache,
            pending_image_requests: Vec::new(),
            rasterized_blob_images: ResourceClassCache::new(),
            deleted_blob_keys,
            pending_native_surface_updates: Vec::new(),
            render_target_pool: Vec::new(),
            fallback_handle: TextureCacheHandle::invalid(),
            debug_fallback_panic: false,
            debug_fallback_pink: false,
        };
        proof {
            assert(cache@.cached_images =~= Map::empty());
            assert(cache@.rasterized_blobs =~= Map::empty());
            assert(cache@.deleted_blob_keys =~= seq![Seq::empty(), Seq::empty(), Seq::empty()]);
        }
        cache
    }

    /// A cache for tests: textures of up to 4096 pixels a side, and nothing
    /// declared or cached.
    pub fn new_for_testing() -> (cache: Self)
        ensures
            cache.wf(),
            cache@ == ResourceCacheView::initial(
                TextureCacheView {
                    max_texture_size: 4096,
                    tiling_threshold: 4096,
                    shared_color_format: ImageFormat::RGBA8,
                    shared_cache_limit: 512,
                    slots: Seq::empty(),
                    now: FrameId(0),
                    pending_updates: Seq::empty(),
                },
                Map::empty(),
                SharedFontResourcesView::empty(),
                false,
            ),
    {
        let texture_cache = TextureCache::new_for_testing(4096, ImageFormat::RGBA8);
        let cached_glyphs = GlyphCache::new();
        let fonts = SharedFontResources::new();
        ResourceCache::new(texture_cache, cached_glyphs, fonts, false)
    }

    /// The texture cache that the resource cache writes to.
    pub fn texture_cache(&self) -> (texture_cache: &TextureCache)
        ensures
            texture_cache@ == self@.texture_cache,
    {
        &self.texture_cache
    }

    /// The largest side of a texture that the hardware takes.
    pub fn max_texture_size(&self) -> (size: i32)
        ensures
            size == self@.texture_cache.max_texture_size,
    {
        self.texture_cache.max_texture_size()
    }

    /// The side above which it is better to break an image into tiles.
    pub fn tiling_threshold(&self) -> (size: i32)
        ensures
            size == self@.texture_cache.tiling_threshold,
    {
        self.texture_cache.tiling_threshold()
    }

    /// The phase of the frame that the cache is in.
    pub fn state(&self) -> (state: State)
        ensures
            state == self@.state,
    {
        self.state
    }

    /// Tells the glyph rasterizer whether to work on several threads.
    pub fn enable_multithreading(&mut self, enable: bool)
        requires
            old(self).wf(),
        ensures
            final(self).wf(),
            final(self)@ == old(self)@.with_notification(Notification::RasterizerEnableMultithreading(enable)),
    {
        self.pending_notifications.push(Notification::RasterizerEnableMultithreading(enable));
    }

    /// Applies the resource updates of a transaction, the first one first.
    pub fn post_scene_building_update(&mut self, updates: Vec<ResourceUpdate>)
        requires
            old(self).wf(),
            old(self)@.can_apply_updates(updates@),
        ensures
            final(self).wf(),
            final(self)@ == old(self)@.with_updates_applied(updates@),
    {
        let ghost all = updates@;
        proof {
            assert(all.take(0) =~= Seq::empty());
            old(self)@.lemma_can_apply_prefix(all, 0);
        }
        for update in it: updates
            invariant
                it.seq() == all,
                self.wf(),
                old(self)@.can_apply_updates(all),
                self@ == old(self)@.with_updates_applied(all.take(it.index() as int)),
        {
            proof {
                let n = it.index() as int;
                assert(all.take(n + 1).drop_last() =~= all.take(n));
                assert(all.take(n + 1).last() == update);
                old(self)@.lemma_can_apply_prefix(all, n + 1);
            }
            self.apply_update(update);
        }
        proof {
            assert(all.take(all.len() as int) =~= all);
        }
    }

    /// Whether a resource update can be applied.
    pub fn can_apply_update(&self, update: &ResourceUpdate) -> (ok: bool)
        requires
            self.wf(),
        ensures
            ok == self@.can_apply_update(*update),
    {
        match update {
            ResourceUpdate::UpdateImage(img) => match self.image_templates.try_get(&img.key) {
                Some(template) => template.generation.0 < u32::MAX,
                None => false,
            },
            ResourceUpdate::UpdateBlobImage(img) => match self.image_templates.try_get(&img.key.as_image()) {
                Some(template) => template.generation.0 < u32::MAX && rect_is_measurable(&img.visible_rect),
                None => false,
            },
            ResourceUpdate::SetBlobImageVisibleArea(key, area) => {
                !self.image_templates.contains_key(&key.as_image()) || rect_is_measurable(area)
            },
            _ => true,
        }
    }

    /// Applies one resource update.
    pub fn apply_update(&mut self, update: ResourceUpdate)
        requires
            old(self).wf(),
            old(self)@.can_apply_update(update),
        ensures
            final(self).wf(),
            final(self)@ == old(self)@.with_update_applied(update),
    {
        match update {
            ResourceUpdate::AddImage(img) => {
                let size_rect = DeviceIntRect::from_size(img.descriptor.size);
                self.add_image_template(
                    img.key,
                    img.descriptor,
                    CachedImageData::from_image_data(img.data),
                    &size_rect,
                    img.tiling,
                );
            },
            ResourceUpdate::UpdateImage(img) => {
                self.update_image_template(
                    img.key,
                    img.descriptor,
                    CachedImageData::from_image_data(img.data),
                    &img.dirty_rect,
                );
            },
            ResourceUpdate::AddBlobImage(img) => {
                self.add_image_template(
                    img.key.as_image(),
                    img.descriptor,
                    CachedImageData::Blob,
                    &img.visible_rect,
                    Some(img.tile_size),
                );
            },
            ResourceUpdate::UpdateBlobImage(img) => {
                self.update_image_template(
                    img.key.as_image(),
                    img.descriptor,
                    CachedImageData::Blob,
                    &to_image_dirty_rect(&img.dirty_rect),
                );
                self.discard_tiles_outside_visible_area(img.key, &img.visible_rect);
                self.set_image_visible_rect(img.key.as_image(), &img.visible_rect);
            },
            ResourceUpdate::DeleteImage(img) => {
                self.delete_image_template(img);
            },
            ResourceUpdate::DeleteBlobImage(img) => {
                self.delete_image_template(img.as_image());
            },
            ResourceUpdate::AddSnapshotImage(img) => {
                let format = self.texture_cache.shared_color_expected_format();
                self.add_image_template(
                    img.key.as_image(),
                    ImageDescriptor {
                        format,
                        // The size is known when the render task is made.
                        size: DeviceIntSize::zero(),
                        stride: None,
                        offset: 0,
                        flags: ImageDescriptorFlags::empty(),
                    },
                    CachedImageData::Snapshot,
                    &DeviceIntRect::zero(),
                    None,
                );
            },
            ResourceUpdate::DeleteSnapshotImage(img) => {
                self.delete_image_template(img.as_image());
            },
            ResourceUpdate::DeleteFont(font) => {
                if let Some(shared_key) = self.fonts.delete_font_key(&font) {
                    self.delete_font_template(shared_key);
                    if self.has_blob_image_handler {
                        self.pending_notifications.push(Notification::BlobHandlerDeleteFont(shared_key));
                    }
                }
            },
            ResourceUpdate::DeleteFontInstance(font) => {
                if let Some(shared_key) = self.fonts.delete_font_instance_key(&font) {
                    self.delete_font_instance(shared_key);
                }
                if self.has_blob_image_handler {
                    self.pending_notifications.push(Notification::BlobHandlerDeleteFontInstance(font));
                }
            },
            ResourceUpdate::SetBlobImageVisibleArea(key, area) => {
                self.discard_tiles_outside_visible_area(key, &area);
                self.set_image_visible_rect(key.as_image(), &area);
            },
            ResourceUpdate::AddFont(font) => {
                // The shared key is known already. The first time a font is
                // seen here, it is declared and the rasterizer loads it.
                let (key, template) = match font {
                    AddFont::Raw(key, bytes, index) => (key, FontTemplate::Raw(bytes, index)),
                    AddFont::Native(key, native_font_handle) => (key, FontTemplate::Native(native_font_handle)),
                };
                let shared_key = self.fonts.map_font_key(key);
                if !self.fonts.has_font(&shared_key) {
                    self.add_font_template(shared_key, template);
                }
            },
            ResourceUpdate::AddFontInstance(_) => {
                // Font instances are declared where the keys are mapped.
            },
        }
    }

    /// Takes in rasterized blob tiles. A tile that failed is skipped. Any
    /// other tile replaces what was rasterized for it before, and the cached
    /// variant of the tile, if there is one, is dirty all over. Returns how
    /// many tiles failed.
    pub fn add_rasterized_blob_images(&mut self, images: Vec<(BlobImageRequest, BlobImageResult)>) -> (failed: usize)
        requires
            old(self).wf(),
        ensures
            final(self).wf(),
            final(self)@ == old(self)@.with_blobs_rasterized(images@),
            failed == failed_blobs(images@),
    {
        let ghost all = images@;
        let mut failed: usize = 0;
        let _ = images.len();
        proof {
            assert(all.take(0) =~= Seq::empty());
        }
        for image in it: images
            invariant
                it.seq() == all,
                self.wf(),
                self@ == old(self)@.with_blobs_rasterized(all.take(it.index() as int)),
                failed == failed_blobs(all.take(it.index() as int)),
                failed <= it.index() <= all.len() <= usize::MAX,
        {
            proof {
                let n = it.index() as int;
                assert(all.take(n + 1).drop_last() =~= all.take(n));
                assert(all.take(n + 1).last() == image);
            }
            let (request, result) = image;
            match result {
                Err(_) => {
                    failed = failed + 1;
                },
                Ok(data) => {
                    self.add_rasterized_blob_image(request, data);
                },
            }
        }
        proof {
            assert(all.take(all.len() as int) =~= all);
        }
        failed
    }

    /// Takes in one rasterized blob tile.
    fn add_rasterized_blob_image(&mut self, request: BlobImageRequest, data: RasterizedBlobImage)
        requires
            old(self).wf(),
        ensures
            final(self).wf(),
            final(self)@ == old(self)@.with_blob_rasterized(request, data),
    {
        let ghost before = old(self)@;
        // First make sure we have an entry for this key (using a
        // placeholder if need be).
        if !self.rasterized_blob_images.contains_key(&request.key) {
            self.rasterized_blob_images.insert(request.key, ResourceClassCache::new());
        }
        let tiles = self.rasterized_blob_images.get_mut(&request.key);
        tiles.insert(request.tile, data);
        match self.cached_images.try_get_mut(&request.key.as_image()) {
            Some(ImageResult::Multi(entries)) => {
                let cached_key = CachedImageKey { rendering: ImageRendering::Auto, tile: Some(request.tile) };
                if let Some(entry) = entries.try_get_mut(&cached_key) {
                    entry.dirty_rect = DirtyRect::All;
                }
            },
            _ => {},
        }
        proof {
            let expected = before.with_blob_rasterized(request, data);
            assert(self@.rasterized_blobs =~= expected.rasterized_blobs);
            assert(self@.cached_images =~= expected.cached_images) by {
                let key = request.key.0;
                if before.cached_images.contains_key(key) {
                    match (self@.cached_images[key], expected.cached_images[key]) {
                        (ImageResultView::Multi(a), ImageResultView::Multi(b)) => {
                            assert(a =~= b);
                        },
                        _ => {},
                    }
                }
            }
        }
    }

    /// Declares a font under a shared key, and has the rasterizer load it.
    pub fn add_font_template(&mut self, font_key: FontKey, template: FontTemplate)
        requires
            old(self).wf(),
        ensures
            final(self).wf(),
            final(self)@ == old(self)@.with_font_added(font_key, template),
    {
        self.pending_notifications.push(Notification::RasterizerAddFont(font_key));
        self.fonts.add_font(font_key, template);
    }

    /// Removes the declaration of a font, by shared key, together with the
    /// glyphs of its instances, and has the rasterizer drop it.
    pub fn delete_font_template(&mut self, font_key: FontKey)
        requires
            old(self).wf(),
        ensures
            final(self).wf(),
            final(self)@ == old(self)@.with_font_deleted(font_key),
    {
        self.pending_notifications.push(Notification::RasterizerDeleteFont(font_key));
        self.fonts.delete_font(&font_key);
        let mut keys: Vec<FontKey> = Vec::new();
        keys.push(font_key);
        self.cached_glyphs.delete_fonts(keys.as_slice());
        proof {
            assert(Set::new(|f: FontInstance| !keys@.contains(f.font_key)) =~= Set::new(
                |f: FontInstance| f.font_key != font_key,
            )) by {
                assert(keys@[0] == font_key);
            }
        }
    }

    /// Removes the declaration of a font instance, by shared key.
    pub fn delete_font_instance(&mut self, instance_key: FontInstanceKey)
        requires
            old(self).wf(),
        ensures
            final(self).wf(),
            final(self)@ == (ResourceCacheView {
                fonts: SharedFontResourcesView {
                    instances: old(self)@.fonts.instances.remove(instance_key),
                    ..old(self)@.fonts
                },
                ..old(self)@
            }),
    {
        self.fonts.delete_font_instance(instance_key);
    }

    /// The declaration of a font instance, by shared key.
    pub fn get_font_instance(&self, instance_key: FontInstanceKey) -> (instance: Option<BaseFontInstance>)
        requires
            self.wf(),
        ensures
            instance == (if self@.fonts.instances.contains_key(instance_key) {
                Some(self@.fonts.instances[instance_key])
            } else {
                None
            }),
    {
        self.fonts.get_font_instance(instance_key)
    }

    /// The declared fonts and font instances.
    pub fn get_fonts(&self) -> (fonts: &SharedFontResources)
        requires
            self.wf(),
        ensures
            fonts.wf(),
            fonts@ == self@.fonts,
    {
        &self.fonts
    }

    /// Maps a font key of a client to a shared key.
    pub fn add_font_key(&mut self, key: FontKey, shared_key: FontKey)
        requires
            old(self).wf(),
        ensures
            final(self).wf(),
            final(self)@ == (ResourceCacheView {
                fonts: SharedFontResourcesView {
                    font_keys: old(self)@.fonts.font_keys.insert(key, shared_key),
                    ..old(self)@.fonts
                },
                ..old(self)@
            }),
    {
        self.fonts.add_font_key(key, shared_key);
    }

    /// Declares a font instance under a shared key, and maps a key of a
    /// client to it.
    pub fn add_font_instance(&mut self, key: FontInstanceKey, instance: BaseFontInstance)
        requires
            old(self).wf(),
        ensures
            final(self).wf(),
            final(self)@ == (ResourceCacheView {
                fonts: SharedFontResourcesView {
                    instance_keys: old(self)@.fonts.instance_keys.insert(key, instance.instance_key),
                    instances: old(self)@.fonts.instances.insert(instance.instance_key, instance),
                    ..old(self)@.fonts
                },
                ..old(self)@
            }),
    {
        self.fonts.add_font_instance(key, instance);
    }

    /// The shared key of a font key.
    pub fn map_font_key(&self, key: FontKey) -> (shared_key: FontKey)
        requires
            self.wf(),
        ensures
            shared_key == self@.fonts.shared_font_key(key),
    {
        self.fonts.map_font_key(key)
    }

    /// The shared key of a font instance key.
    pub fn map_font_instance_key(&self, key: FontInstanceKey) -> (shared_key: FontInstanceKey)
        requires
            self.wf(),
        ensures
            shared_key == self@.fonts.shared_instance_key(key),
    {
        self.fonts.map_font_instance_key(key)
    }

    fn should_tile(limit: i32, descriptor: &ImageDescriptor, data: &CachedImageData) -> (tile: bool)
        ensures
            tile == spec_should_tile(limit, *descriptor, *data),
    {
        let size_check = descriptor.size.width > limit || descriptor.size.height > limit;
        match data {
            CachedImageData::Raw(_) | CachedImageData::Blob => size_check,
            CachedImageData::External(info) => {
                // An external handle stands for a texture that exists: there
                // is no point in cutting it into smaller ones.
                info.image_type == ExternalImageType::Buffer && size_check
            },
            CachedImageData::Snapshot => false,
        }
    }

    /// Declares an image. An earlier declaration under the same key is
    /// replaced; the generation starts at zero.
    pub fn add_image_template(
        &mut self,
        image_key: ImageKey,
        descriptor: ImageDescriptor,
        data: CachedImageData,
        visible_rect: &DeviceIntRect,
        tiling: Option<TileSize>,
    )
        requires
            old(self).wf(),
        ensures
            final(self).wf(),
            final(self)@ == old(self)@.with_image_added(image_key, descriptor, data, *visible_rect, tiling),
    {
        let mut tiling = tiling;
        if let Some(tile_size) = tiling {
            // The value may come from a preference: keep it in bounds.
            let clamped = if tile_size < MIN_TILE_SIZE {
                MIN_TILE_SIZE
            } else if tile_size > MAX_TILE_SIZE {
                MAX_TILE_SIZE
            } else {
                tile_size
            };
            tiling = Some(clamped);
        }
        if tiling.is_none() && Self::should_tile(self.tiling_threshold(), &descriptor, &data) {
            // A texture this big cannot be uploaded in one piece: tile it,
            // although no tiling was asked for.
            tiling = Some(DEFAULT_TILE_SIZE);
        }
        let resource = ImageResource {
            descriptor,
            data,
            tiling,
            visible_rect: *visible_rect,
            adjustment: AdjustedImageSource::new(),
            generation: ImageGeneration(0),
        };
        self.image_templates.insert(image_key, resource);
    }

    /// Replaces the declaration of an image. A tiling that the image has
    /// stays; the cached variants add the dirty rect to theirs; the
    /// generation grows by one.
    pub fn update_image_template(
        &mut self,
        image_key: ImageKey,
        descriptor: ImageDescriptor,
        data: CachedImageData,
        dirty_rect: &ImageDirtyRect,
    )
        requires
            old(self).wf(),
            old(self)@.templates.contains_key(image_key),
            old(self)@.templates[image_key].generation.0 < u32::MAX,
        ensures
            final(self).wf(),
            final(self)@ == old(self)@.with_image_updated(image_key, descriptor, data, *dirty_rect),
    {
        let tiling_threshold = self.tiling_threshold();
        let image = self.image_templates.get(&image_key);
        let generation = image.generation;
        let mut tiling = image.tiling;
        if tiling.is_none() && Self::should_tile(tiling_threshold, &descriptor, &data) {
            tiling = Some(DEFAULT_TILE_SIZE);
        }
        match self.cached_images.try_get_mut(&image_key) {
            Some(cached) => {
                cached.apply_dirty_rect(tiling, descriptor.size, dirty_rect);
            },
            None => {},
        }
        self.image_templates.insert(
            image_key,
            ImageResource {
                descriptor,
                data,
                tiling,
                visible_rect: DeviceIntRect::from_size(descriptor.size),
                adjustment: AdjustedImageSource::new(),
                generation: ImageGeneration(generation.0 + 1),
            },
        );
        proof {
            assert(self@.cached_images =~= old(self)@.with_image_updated(
                image_key,
                descriptor,
                data,
                *dirty_rect,
            ).cached_images);
        }
    }

    /// Tells the caches that were derived from an image that they are out of
    /// date, by a new generation.
    pub fn increment_image_generation(&mut self, key: ImageKey)
        requires
            old(self).wf(),
            old(self)@.templates.contains_key(key) ==> old(self)@.templates[key].generation.0 < u32::MAX,
        ensures
            final(self).wf(),
            final(self)@ == old(self)@.with_generation_incremented(key),
    {
        if let Some(image) = self.image_templates.try_get_mut(&key) {
            image.generation = ImageGeneration(image.generation.0 + 1);
        }
        proof {
            assert(self@.templates =~= old(self)@.with_generation_incremented(key).templates);
        }
    }

    /// Removes the declaration of an image together with its cached state,
    /// whose allocations in the texture cache are given up first. Of a blob
    /// the key goes into the log of deleted blob keys, and the rasterized
    /// tiles are discarded.
    pub fn delete_image_template(&mut self, image_key: ImageKey)
        requires
            old(self).wf(),
        ensures
            final(self).wf(),
            final(self)@ == old(self)@.with_image_deleted(image_key),
    {
        proof {
            self@.texture_cache.lemma_render_targets_kept();
        }
        // Remove the template.
        let value = self.image_templates.remove(&image_key);
        // Release the corresponding texture cache entries, if any.
        if let Some(mut cached) = self.cached_images.remove(&image_key) {
            cached.drop_from_cache(&mut self.texture_cache);
        }
        match value {
            Some(image) => if image.data.is_blob() {
                let blob_key = BlobImageKey(image_key);
                let last = self.deleted_blob_keys.len() - 1;
                self.deleted_blob_keys[last].push(blob_key);
                let _ = self.rasterized_blob_images.remove(&blob_key);
            },
            None => {},
        }
        proof {
            let expected = old(self)@.with_image_deleted(image_key);
            assert(self@.cached_images =~= expected.cached_images);
            assert(self@.rasterized_blobs =~= expected.rasterized_blobs);
            assert(self@.deleted_blob_keys =~= expected.deleted_blob_keys);
        }
    }

    /// The generation of an image, or the invalid generation if the image is
    /// not declared.
    pub fn get_image_generation(&self, key: ImageKey) -> (generation: ImageGeneration)
        requires
            self.wf(),
        ensures
            generation == self@.image_generation(key),
    {
        match self.image_templates.try_get(&key) {
            Some(template) => template.generation,
            None => ImageGeneration::invalid(),
        }
    }

    /// What the renderer needs to know of an image, if the image is declared.
    pub fn get_image_properties(&self, image_key: ImageKey) -> (properties: Option<ImageProperties>)
        requires
            self.wf(),
        ensures
            properties == self@.image_properties(image_key),
    {
        match self.image_templates.try_get(&image_key) {
            Some(image_template) => {
                let external_image = match &image_template.data {
                    CachedImageData::External(ext_image) => match ext_image.image_type {
                        ExternalImageType::TextureHandle(_) => Some(*ext_image),
                        // An external buffer goes through the texture cache.
                        ExternalImageType::Buffer => None,
                    },
                    // So do raw images, blobs and snapshots.
                    CachedImageData::Raw(_) | CachedImageData::Blob | CachedImageData::Snapshot => None,
                };
                Some(
                    ImageProperties {
                        descriptor: image_template.descriptor,
                        external_image,
                        tiling: image_template.tiling,
                        visible_rect: image_template.visible_rect,
                        adjustment: image_template.adjustment,
                    },
                )
            },
            None => None,
        }
    }

    /// Forgets what was rasterized and cached of a blob outside an area:
    /// every tile that the area does not touch. The cached variants of those
    /// tiles give up their allocations.
    fn discard_tiles_outside_visible_area(&mut self, key: BlobImageKey, area: &DeviceIntRect)
        requires
            old(self).wf(),
        ensures
            final(self).wf(),
            final(self)@ == old(self)@.with_tiles_discarded(key, *area),
    {
        proof {
            self@.texture_cache.lemma_render_targets_kept();
            self.texture_cache.lemma_slots_countable();
        }
        let tile_size = match self.image_templates.try_get(&key.as_image()) {
            Some(template) => match template.tiling {
                Some(tile_size) => tile_size,
                None => {
                    return ;
                },
            },
            None => {
                return ;
            },
        };
        if !self.rasterized_blob_images.contains_key(&key) {
            return ;
        }
        let tile_range = compute_tile_range(area, tile_size);
        let tiles = self.rasterized_blob_images.get_mut(&key);
        let ghost old_tiles = tiles@;
        let mut i: usize = 0;
        while i < tiles.len()
            invariant
                tiles.wf(),
                i <= tiles.order().len(),
                forall|t: TileOffset| #[trigger]
                    tiles@.contains_key(t) ==> old_tiles.contains_key(t) && tiles@[t] == old_tiles[t],
                forall|t: TileOffset|
                    old_tiles.contains_key(t) && tile_range.spec_contains(t) ==> #[trigger] tiles@.contains_key(t),
                forall|j: int| 0 <= j < i ==> tile_range.spec_contains(#[trigger] tiles.order()[j]),
            decreases tiles.order().len() - i,
        {
            let tile = tiles.key_at(i);
            proof {
                tiles.lemma_positions();
            }
            if tile_range.contains(tile) {
                i = i + 1;
            } else {
                let ghost before = *tiles;
                let _ = tiles.remove(&tile);
                proof {
                    before.order().index_of_first_ensures(tile);
                    crate::class_cache::lemma_index_of(before.order(), tile);
                    assert(tiles.order() =~= before.order().remove(i as int));
                }
            }
        }
        proof {
            tiles.lemma_positions();
            assert(tiles@ =~= old_tiles.restrict(Set::new(|t: TileOffset| tile_range.spec_contains(t)))) by {
                assert forall|t: TileOffset| tiles@.contains_key(t) implies tile_range.spec_contains(t) by {
                    crate::class_cache::lemma_index_of(tiles.order(), t);
                }
            }
        }
        proof {
            let expected = old(self)@.with_tiles_discarded(key, *area);
            assert(self@.rasterized_blobs =~= expected.rasterized_blobs);
        }
        let texture_cache = &mut self.texture_cache;
        let ghost start = texture_cache@;
        match self.cached_images.try_get_mut(&key.as_image()) {
            Some(ImageResult::Multi(entries)) => {
                let ghost old_entries = entries@;
                let ghost gone = Set::<TextureCacheHandle>::empty();
                let mut i: usize = 0;
                proof {
                    start.lemma_evicted_all_step(Set::empty(), TextureCacheHandle { slot: None });
                }
                while i < entries.len()
                    invariant
                        entries.wf(),
                        i <= entries.order().len(),
                        start.slots.len() <= usize::MAX,
                        forall|k: CachedImageKey| #[trigger]
                            entries@.contains_key(k) ==> old_entries.contains_key(k) && entries@[k] == old_entries[k],
                        forall|k: CachedImageKey|
                            old_entries.contains_key(k) && keeps_variant(tile_range, k) ==> #[trigger] entries@.contains_key(
                                k,
                            ),
                        forall|j: int| 0 <= j < i ==> keeps_variant(tile_range, #[trigger] entries.order()[j]),
                        texture_cache@ == start.evicted_all(gone),
                        forall|h: TextureCacheHandle|
                            gone.contains(h) <==> exists|k: CachedImageKey| #[trigger]
                                old_entries.contains_key(k) && !entries@.contains_key(k)
                                    && old_entries[k].texture_cache_handle == h,
                    decreases entries.order().len() - i,
                {
                    let cached_key = entries.key_at(i);
                    proof {
                        entries.lemma_positions();
                    }
                    let keep = match cached_key.tile {
                        Some(tile) => tile_range.contains(tile),
                        None => true,
                    };
                    if keep {
                        i = i + 1;
                    } else {
                        let ghost before = *entries;
                        let ghost gone_before = gone;
                        let removed = entries.remove(&cached_key);
                        let mut entry = removed.unwrap();
                        entry.mark_unused(texture_cache);
                        proof {
                            before.order().index_of_first_ensures(cached_key);
                            crate::class_cache::lemma_index_of(before.order(), cached_key);
                            assert(entries.order() =~= before.order().remove(i as int));
                            gone = gone_before.insert(entry.texture_cache_handle);
                            start.lemma_evicted_all_step(gone_before, entry.texture_cache_handle);
                            assert forall|h: TextureCacheHandle| gone.contains(h) <==> exists|k: CachedImageKey| #[trigger]
                                old_entries.contains_key(k) && !entries@.contains_key(k)
                                    && old_entries[k].texture_cache_handle == h by {
                                if gone.contains(h) {
                                    if h == entry.texture_cache_handle {
                                        assert(old_entries.contains_key(cached_key) && !entries@.contains_key(
                                            cached_key,
                                        ));
                                    } else {
                                        let k = choose|k: CachedImageKey| #[trigger]
                                            old_entries.contains_key(k) && !before@.contains_key(k)
                                                && old_entries[k].texture_cache_handle == h;
                                        assert(old_entries.contains_key(k) && !entries@.contains_key(k));
                                    }
                                }
                                if exists|k: CachedImageKey| #[trigger]
                                    old_entries.contains_key(k) && !entries@.contains_key(k)
                                        && old_entries[k].texture_cache_handle == h {
                                    let k = choose|k: CachedImageKey| #[trigger]
                                        old_entries.contains_key(k) && !entries@.contains_key(k)
                                            && old_entries[k].texture_cache_handle == h;
                                    if k != cached_key {
                                        assert(old_entries.contains_key(k) && !before@.contains_key(k));
                                    }
                                }
                            }
                        }
                    }
                }
                proof {
                    entries.lemma_positions();
                    let kept = old_entries.restrict(Set::new(|k: CachedImageKey| keeps_variant(tile_range, k)));
                    assert(entries@ =~= kept) by {
                        assert forall|k: CachedImageKey| entries@.contains_key(k) implies keeps_variant(
                            tile_range,
                            k,
                        ) by {
                            crate::class_cache::lemma_index_of(entries.order(), k);
                        }
                    }
                    assert(gone =~= discarded_handles(old_entries, tile_range));
                }
            },
            _ => {},
        }
        proof {
            let expected = old(self)@.with_tiles_discarded(key, *area);
            assert(self@.cached_images =~= expected.cached_images);
        }
    }

    /// Sets the part of an image that is valid at this time; the image is
    /// then as large as that part.
    fn set_image_visible_rect(&mut self, key: ImageKey, rect: &DeviceIntRect)
        requires
            old(self).wf(),
            old(self)@.templates.contains_key(key) ==> rect.measurable(),
        ensures
            final(self).wf(),
            final(self)@ == old(self)@.with_visible_rect(key, *rect),
    {
        if let Some(image) = self.image_templates.try_get_mut(&key) {
            image.visible_rect = *rect;
            image.descriptor.size = rect.size();
        }
        proof {
            assert(self@.templates =~= old(self)@.with_visible_rect(key, *rect).templates);
        }
    }

    /// Starts a frame: from now on images and glyphs may be asked for. The
    /// log of deleted blob keys moves on by one frame.
    pub fn begin_frame(&mut self, stamp: FrameStamp)
        requires
            old(self).wf(),
            old(self)@.state == State::Idle,
        ensures
            final(self).wf(),
            final(self)@ == old(self)@.with_frame_begun(stamp),
    {
        self.state = State::AddResources;
        self.texture_cache.begin_frame(stamp);
        self.current_frame_id = stamp.frame_id();
        // Pop the old frame and push a new one.
        let mut v = self.deleted_blob_keys.remove(0);
        v.clear();
        self.deleted_blob_keys.push(v);
        proof {
            let expected = old(self)@.with_frame_begun(stamp);
            assert(self@.deleted_blob_keys =~= expected.deleted_blob_keys);
        }
    }

    /// Whether `request_image` may be called with this request.
    pub fn can_request_image(&self, request: ImageRequest) -> (ok: bool)
        requires
            self.wf(),
        ensures
            ok == self@.can_request(request),
    {
        if self.state != State::AddResources {
            return false;
        }
        let template = match self.image_templates.try_get(&request.key) {
            Some(template) => template,
            None => {
                return true;
            },
        };
        if request.tile.is_some() && template.tiling.is_none() {
            return false;
        }
        if !template.data.is_blob() || !template.data.uses_texture_cache() {
            return true;
        }
        let side_size: i32 = match template.tiling {
            Some(tile_size) => tile_size as i32,
            None => if template.descriptor.size.width >= template.descriptor.size.height {
                template.descriptor.size.width
            } else {
                template.descriptor.size.height
            },
        };
        if side_size > self.texture_cache.max_texture_size() {
            return true;
        }
        // A blob that goes on to the cached state: will it be queued?
        let fresh = CachedImageInfo {
            texture_cache_handle: TextureCacheHandle::invalid(),
            dirty_rect: DirtyRect::All,
            manual_eviction: false,
        };
        let info = match self.cached_images.try_get(&request.key) {
            Some(ImageResult::UntiledAuto(info)) => if request.is_untiled_auto() {
                *info
            } else {
                fresh
            },
            Some(ImageResult::Multi(entries)) => match entries.try_get(&request.into_cached_image_key()) {
                Some(info) => *info,
                None => fresh,
            },
            _ => fresh,
        };
        proof {
            let storage = self@.storage_after_request(request);
            assert(storage.info(request) == Some(info));
        }
        let allocated = self.texture_cache.try_get(&info.texture_cache_handle).is_some();
        if allocated && info.dirty_rect.is_empty() {
            return true;
        }
        if self.is_pending(&request) {
            return true;
        }
        match request.tile {
            Some(tile) => match self.rasterized_blob_images.try_get(&BlobImageKey(request.key)) {
                Some(tiles) => tiles.contains_key(&tile),
                None => false,
            },
            None => false,
        }
    }

    /// Whether a request is pending.
    fn is_pending(&self, request: &ImageRequest) -> (pending: bool)
        ensures
            pending == self@.pending_requests.contains(*request),
    {
        let mut i: usize = 0;
        while i < self.pending_image_requests.len()
            invariant
                i <= self.pending_image_requests@.len(),
                forall|j: int| 0 <= j < i ==> self.pending_image_requests@[j] != *request,
            decreases self.pending_image_requests@.len() - i,
        {
            if self.pending_image_requests[i] == *request {
                return true;
            }
            i = i + 1;
        }
        false
    }

    /// Asks for an image, or a tile of it, to be in the texture cache in
    /// this frame. Returns the size in device pixels of the image or tile;
    /// the size is zero where the image is not declared or too large for the
    /// hardware.
    pub fn request_image(&mut self, request: ImageRequest) -> (size: DeviceIntSize)
        requires
            old(self).wf(),
            old(self)@.can_request(request),
        ensures
            final(self).wf(),
            final(self)@ == old(self)@.with_image_requested(request),
            size == old(self)@.requested_size(request),
    {
        proof {
            self@.texture_cache.lemma_render_targets_kept();
        }
        let template = match self.image_templates.try_get(&request.key) {
            Some(template) => template,
            None => {
                return DeviceIntSize::zero();
            },
        };
        let size = match request.tile {
            Some(tile) => compute_tile_size(&template.visible_rect, template.tiling.unwrap(), tile),
            None => template.descriptor.size,
        };
        // Images that don't use the texture cache can early out.
        if !template.data.uses_texture_cache() {
            return size;
        }
        let is_blob = template.data.is_blob();
        let side_size: i32 = match template.tiling {
            Some(tile_size) => tile_size as i32,
            None => if template.descriptor.size.width >= template.descriptor.size.height {
                template.descriptor.size.width
            } else {
                template.descriptor.size.height
            },
        };
        let existing = self.cached_images.remove(&request.key);
        if side_size > self.texture_cache.max_texture_size() {
            // The image or its tiles are too big for the hardware. What was
            // cached of the image is given up before it is forgotten.
            if let Some(mut cached) = existing {
                cached.drop_from_cache(&mut self.texture_cache);
            }
            self.cached_images.insert(request.key, ImageResult::Failed(ImageCacheError::OverLimitSize));
            proof {
                let expected = old(self)@.with_image_requested(request);
                assert(self@.cached_images =~= expected.cached_images);
            }
            return DeviceIntSize::zero();
        }
        let fresh = CachedImageInfo {
            texture_cache_handle: TextureCacheHandle::invalid(),
            dirty_rect: DirtyRect::All,
            manual_eviction: false,
        };
        let mut storage = match existing {
            Some(ImageResult::UntiledAuto(entry)) => {
                if request.is_untiled_auto() {
                    ImageResult::UntiledAuto(entry)
                } else {
                    // There is an untiled entry and a second one is wanted:
                    // the old entry moves into the multi-entry variant.
                    let mut entries = ResourceClassCache::new();
                    let untiled_key = CachedImageKey { rendering: ImageRendering::Auto, tile: None };
                    entries.insert(untiled_key, entry);
                    ImageResult::Multi(entries)
                }
            },
            Some(ImageResult::Multi(entries)) => ImageResult::Multi(entries),
            _ => {
                if request.is_untiled_auto() {
                    ImageResult::UntiledAuto(fresh)
                } else {
                    ImageResult::Multi(ResourceClassCache::new())
                }
            },
        };
        // If this image exists in the texture cache, *and* the dirty rect
        // in the cache is empty, then it is valid to use as-is.
        let entry = match &mut storage {
            ImageResult::UntiledAuto(entry) => *entry,
            ImageResult::Multi(entries) => {
                let cached_key = request.into_cached_image_key();
                if !entries.contains_key(&cached_key) {
                    entries.insert(cached_key, fresh);
                }
                *entries.get(&cached_key)
            },
            ImageResult::Failed(_) => fresh,
        };
        proof {
            assert(storage@ == old(self)@.storage_after_request(request)) by {
                match (storage@, old(self)@.storage_after_request(request)) {
                    (ImageResultView::Multi(a), ImageResultView::Multi(b)) => {
                        assert(a =~= b);
                    },
                    _ => {},
                }
            }
        }
        let needs_upload = self.texture_cache.request(&entry.texture_cache_handle);
        self.cached_images.insert(request.key, storage);
        proof {
            let expected = old(self)@.with_image_requested(request);
            assert(self@.cached_images =~= expected.cached_images);
        }
        if !needs_upload && entry.dirty_rect.is_empty() {
            return size;
        }
        if self.is_pending(&request) {
            return size;
        }
        self.pending_image_requests.push(request);
        size
    }

    /// The requests that are pending, oldest first.
    pub fn pending_image_requests(&self) -> (requests: &Vec<ImageRequest>)
        ensures
            requests@ == self@.pending_requests,
    {
        &self.pending_image_requests
    }

    /// Whether `render_as_image` may be called for this image.
    pub fn can_render_as_image(&self, image_key: ImageKey) -> (ok: bool)
        requires
            self.wf(),
        ensures
            ok == self@.can_render_as_image(image_key),
    {
        if !self.image_templates.contains_key(&image_key) {
            return false;
        }
        match self.cached_images.try_get(&image_key) {
            None => true,
            Some(ImageResult::UntiledAuto(_)) => true,
            Some(_) => false,
        }
    }

    /// Binds the output of a render task to an image key: the snapshot of a
    /// stacking context. The image gets a texture of its own under manual
    /// eviction, of the size asked for and in the shared colour format, and
    /// nothing is uploaded. Returns where the render task has to draw.
    pub fn render_as_image(
        &mut self,
        image_key: ImageKey,
        size: DeviceIntSize,
        is_opaque: bool,
        adjustment: &AdjustedImageSource,
        uv_rect_kind: UvRectKind,
    ) -> (location: RenderTaskLocation)
        requires
            old(self).wf(),
            old(self)@.can_render_as_image(image_key),
        ensures
            final(self).wf(),
            final(self)@ == old(self)@.with_image_rendered(image_key, size, is_opaque, *adjustment, uv_rect_kind),
            location == old(self)@.render_location(image_key, size, is_opaque),
    {
        proof {
            self.texture_cache.lemma_slots_countable();
        }
        // An image info and texture cache handle that exist for this key are
        // updated, not overwritten.
        if !self.cached_images.contains_key(&image_key) {
            self.cached_images.insert(
                image_key,
                ImageResult::UntiledAuto(
                    CachedImageInfo {
                        texture_cache_handle: TextureCacheHandle::invalid(),
                        dirty_rect: DirtyRect::All,
                        manual_eviction: true,
                    },
                ),
            );
        }
        let descriptor = ImageDescriptor::new(
            size.width,
            size.height,
            self.texture_cache.shared_color_expected_format(),
            ImageDescriptorFlags { is_opaque, allow_mipmaps: false },
        );
        proof {
            self@.texture_cache.lemma_update_keeps_render_targets(
                old(self)@.snapshot_info(image_key).texture_cache_handle,
                descriptor,
                TextureFilter::Linear,
                None,
                FloatBits4 { x: 0, y: 0, z: 0, w: 0 },
                DirtyRect::All,
                uv_rect_kind,
                Eviction::Manual,
                TargetShader::Default,
                true,
            );
        }
        let image_result = self.cached_images.get_mut(&image_key);
        let info = match image_result {
            ImageResult::UntiledAuto(info) => info,
            _ => {
                proof {
                    assert(false);
                }
                return RenderTaskLocation::Unallocated;
            },
        };
        // Snapshots get a texture of their own, however small they are.
        let force_standalone_texture = true;
        // Space is allocated in the texture cache, and no data is supplied
        // to be uploaded.
        self.texture_cache.update(
            &mut info.texture_cache_handle,
            descriptor,
            TextureFilter::Linear,
            None,
            FloatBits4::zero(),
            DirtyRect::All,
            uv_rect_kind,
            Eviction::Manual,
            TargetShader::Default,
            force_standalone_texture,
        );
        // The render task is told where the allocation is: the renderer
        // draws the task into that rect of the texture cache in this frame.
        let (texture_id, uv_rect) = self.texture_cache.get_cache_location(&info.texture_cache_handle);
        proof {
            let before = old(self)@.texture_cache;
            let handle = old(self)@.snapshot_info(image_key).texture_cache_handle;
            let after = before.updated(
                handle,
                descriptor,
                TextureFilter::Linear,
                None,
                FloatBits4 { x: 0, y: 0, z: 0, w: 0 },
                DirtyRect::All,
                uv_rect_kind,
                Eviction::Manual,
                TargetShader::Default,
                true,
            );
            let new_handle = before.handle_after_update(handle, descriptor);
            if before.needs_realloc(handle, descriptor) {
                assert(before.evicted(handle).slots.len() == before.slots.len());
            }
            assert(after.entry(new_handle).unwrap().size == size);
        }
        let image = self.image_templates.get_mut(&image_key);
        image.adjustment = *adjustment;
        proof {
            let expected = old(self)@.with_image_rendered(image_key, size, is_opaque, *adjustment, uv_rect_kind);
            assert(self@.cached_images =~= expected.cached_images);
            assert(self@.templates =~= expected.templates);
        }
        RenderTaskLocation::Static {
            surface: StaticRenderTaskSurface::TextureCache { texture: texture_id, target_kind: RenderTargetKind::Color },
            rect: uv_rect,
        }
    }

    /// Asks for glyphs of a font instance to be in the texture cache in this
    /// frame. Returns the glyphs that the rasterizer has to make.
    pub fn request_glyphs(&mut self, font: FontInstance, glyph_keys: &[GlyphKey]) -> (wanted: Vec<GlyphKey>)
        requires
            old(self).wf(),
            old(self)@.state == State::AddResources,
        ensures
            final(self).wf(),
            final(self)@ == old(self)@.with_glyphs_requested(font, glyph_keys@),
            wanted@ == old(self)@.glyph_requests(font, glyph_keys@).wanted,
    {
        self.cached_glyphs.request_glyphs(font, glyph_keys, &mut self.texture_cache)
    }

    /// Whether a pending request can be uploaded.
    pub fn can_upload(&self, request: ImageRequest) -> (ok: bool)
        requires
            self.wf(),
        ensures
            ok == self@.can_upload(request),
    {
        let template = match self.image_templates.try_get(&request.key) {
            Some(template) => template,
            None => {
                return false;
            },
        };
        if !template.data.uses_texture_cache() {
            return false;
        }
        if template.data.is_snapshot() {
            return true;
        }
        let has_variant = match self.cached_images.try_get(&request.key) {
            None => false,
            Some(ImageResult::Failed(_)) => false,
            Some(ImageResult::UntiledAuto(_)) => true,
            Some(ImageResult::Multi(entries)) => entries.contains_key(&request.into_cached_image_key()),
        };
        if !has_variant {
            return false;
        }
        if let Some(tile) = request.tile {
            let tile_size = match template.tiling {
                Some(tile_size) => tile_size,
                None => {
                    return false;
                },
            };
            if !template.data.is_blob() {
                if !(template.visible_rect.min.x == 0 && template.visible_rect.min.y == 0) {
                    return false;
                }
                if !tile_layout_fits_check(&template.descriptor, tile_size, tile) {
                    return false;
                }
            }
        }
        if template.data.is_blob() {
            return match request.tile {
                Some(tile) => match self.rasterized_blob_images.try_get(&BlobImageKey(request.key)) {
                    Some(tiles) => tiles.contains_key(&tile),
                    None => false,
                },
                None => false,
            };
        }
        true
    }

    /// Whether `block_until_all_resources_added` may be called with these
    /// jobs.
    pub fn can_block_until_all_resources_added(&self, jobs: &Vec<GlyphRasterJob>) -> (ok: bool)
        requires
            self.wf(),
        ensures
            ok == self@.can_block(jobs@),
    {
        if !(self.state == State::AddResources || self.state == State::QueryResources) {
            return false;
        }
        let mut i: usize = 0;
        while i < jobs.len()
            invariant
                self.wf(),
                i <= jobs@.len(),
                forall|j: int| 0 <= j < i ==> self@.glyphs.contains_key(#[trigger] jobs@[j].font),
            decreases jobs@.len() - i,
        {
            if !self.cached_glyphs.has_font(&jobs[i].font) {
                return false;
            }
            i = i + 1;
        }
        let mut k: usize = 0;
        while k < self.pending_image_requests.len()
            invariant
                self.wf(),
                k <= self.pending_image_requests@.len(),
                forall|j: int| 0 <= j < k ==> self@.can_upload(#[trigger] self.pending_image_requests@[j]),
            decreases self.pending_image_requests@.len() - k,
        {
            if !self.can_upload(self.pending_image_requests[k]) {
                return false;
            }
            k = k + 1;
        }
        true
    }

    /// Ends the phase in which resources are asked for: the glyphs that the
    /// rasterizer is done with go to the texture cache, then the images
    /// that are pending. From now on the cache may be queried. Called again
    /// while the cache is queried, it takes in what is handed to it and
    /// finds no image pending.
    pub fn block_until_all_resources_added(&mut self, jobs: Vec<GlyphRasterJob>)
        requires
            old(self).wf(),
            old(self)@.can_block(jobs@),
        ensures
            final(self).wf(),
            final(self)@ == old(self)@.with_resources_blocked(jobs@),
            final(self)@.state == State::QueryResources,
            final(self)@.pending_requests.len() == 0,
    {
        proof {
            (GlyphResolution { glyphs: self@.glyphs, texture_cache: self@.texture_cache }).lemma_with_jobs(
                jobs@,
            );
            self@.with_glyphs_resolved(jobs@).lemma_fallback_keeps_wf();
            (ResourceCacheView {
                pending_requests: Seq::empty(),
                ..self@.with_glyphs_resolved(jobs@).with_fallback_created()
            }).lemma_upload_all_keeps_wf(self@.pending_requests, self@.pending_requests.len() as int);
            assert(self@.pending_requests.take(self@.pending_requests.len() as int) =~= self@.pending_requests);
        }
        self.cached_glyphs.resolve_glyphs(jobs, &mut self.texture_cache);
        // Apply any updates of new / updated images (incl. blobs) to the
        // texture cache.
        self.update_texture_cache();
        self.state = State::QueryResources;
        proof {
            let resolved = old(self)@.with_glyphs_resolved(jobs@);
            resolved.lemma_state_apart(State::QueryResources);
            let start = ResourceCacheView { pending_requests: Seq::empty(), ..resolved.with_fallback_created() };
            start.lemma_state_apart_uploads(State::QueryResources, resolved.pending_requests);
            assert(self@.fallback_handle == resolved.with_fallback_created().fallback_handle);
        }
    }

    /// Writes what is pending to the texture cache: first the fallback image,
    /// if there is none yet, then the image of every pending request, oldest
    /// first. No request is pending afterwards.
    fn update_texture_cache(&mut self)
        requires
            old(self).wf(),
            old(self)@.all_pending_uploadable(),
        ensures
            final(self).wf(),
            final(self)@ == old(self)@.with_texture_cache_updated(),
    {
        proof {
            self@.lemma_fallback_keeps_wf();
        }
        if self.fallback_handle.slot.is_none() {
            let fallback_color: Vec<u8> = if self.debug_fallback_pink {
                vec![255, 0, 255, 255]
            } else {
                vec![0, 0, 0, 0]
            };
            self.texture_cache.update(
                &mut self.fallback_handle,
                ImageDescriptor {
                    size: DeviceIntSize::new(1, 1),
                    stride: None,
                    format: ImageFormat::BGRA8,
                    flags: ImageDescriptorFlags::empty(),
                    offset: 0,
                },
                TextureFilter::Linear,
                Some(CachedImageData::Raw(Arc::new(fallback_color))),
                FloatBits4::zero(),
                DirtyRect::All,
                UvRectKind::Rect,
                Eviction::Manual,
                TargetShader::Default,
                false,
            );
        }
        let mut requests: Vec<ImageRequest> = Vec::new();
        std::mem::swap(&mut requests, &mut self.pending_image_requests);
        let ghost start = self@;
        assert(start == (ResourceCacheView { pending_requests: Seq::empty(), ..old(self)@.with_fallback_created() }));
        proof {
            start.lemma_upload_all_keeps_wf(requests@, 0);
            assert(requests@.take(0) =~= Seq::empty());
        }
        let mut i: usize = 0;
        while i < requests.len()
            invariant
                i <= requests@.len(),
                self.wf(),
                start.wf(),
                self@ == start.with_requests_uploaded(requests@.take(i as int)),
                forall|j: int| 0 <= j < requests@.len() ==> start.can_upload(#[trigger] requests@[j]),
            decreases requests@.len() - i,
        {
            let request = requests[i];
            proof {
                start.lemma_upload_all_keeps_wf(requests@, i as int);
                start.lemma_upload_all_keeps_wf(requests@, i + 1);
                assert(requests@.take(i + 1).drop_last() =~= requests@.take(i as int));
                assert(requests@.take(i + 1).last() == request);
            }
            self.upload_request(request);
            i = i + 1;
        }
        proof {
            assert(requests@.take(i as int) =~= requests@);
        }
    }

    /// Writes the image of one request to the texture cache.
    fn upload_request(&mut self, request: ImageRequest)
        requires
            old(self).wf(),
            old(self)@.can_upload(request),
        ensures
            final(self).wf(),
            final(self)@ == old(self)@.with_request_uploaded(request),
    {
        let image_template = self.image_templates.get(&request.key);
        let mut updates = UploadList::new();
        match &image_template.data {
            CachedImageData::Snapshot => {
                // The update was made when the snapshot was rendered.
            },
            CachedImageData::Raw(_) | CachedImageData::External(_) => {
                // Sharing is cheap: raw bytes are reference counted, and
                // what is known of an external image is small.
                updates.push((image_template.data.share(), None));
            },
            CachedImageData::Blob => {
                let blob_image = self.rasterized_blob_images.get(&BlobImageKey(request.key));
                let img = blob_image.get(&request.tile.unwrap());
                updates.push((CachedImageData::Raw(share_bytes(&img.data)), Some(img.rasterized_rect)));
            },
        }
        let updates = updates.into_vec();
        let ghost all = updates@;
        for update in it: updates
            invariant
                it.seq() == all,
                all.len() <= 1,
                all.len() == 0 <==> old(self)@.templates[request.key].data is Snapshot,
                all.len() == 1 ==> all[0].0@ == old(self)@.upload_data(request) && (all[0].1 is Some <==> old(
                    self,
                )@.templates[request.key].data is Blob) && (all[0].1 matches Some(rect) ==> DirtyRect::Partial(rect)
                    == old(self)@.upload_dirty_rect(request)),
                old(self).wf(),
                old(self)@.can_upload(request),
                it.index() == 0 ==> *self == *old(self),
                it.index() == 1 ==> self.wf() && self@ == old(self)@.with_request_uploaded(request),
        {
            let (image_data, blob_rasterized_rect) = update;
            self.upload_image_data(request, image_data, blob_rasterized_rect);
        }
    }

    /// Writes pixels for a request to the texture cache: those of the image
    /// or tile, or those of a rasterized blob tile with the rect that was
    /// rasterized.
    fn upload_image_data(
        &mut self,
        request: ImageRequest,
        image_data: CachedImageData,
        blob_rasterized_rect: Option<DeviceIntRect>,
    )
        requires
            old(self).wf(),
            old(self)@.can_upload(request),
            !(old(self)@.templates[request.key].data is Snapshot),
            image_data@ == old(self)@.upload_data(request),
            blob_rasterized_rect is Some <==> old(self)@.templates[request.key].data is Blob,
            blob_rasterized_rect matches Some(rect) ==> DirtyRect::Partial(rect) == old(self)@.upload_dirty_rect(
                request,
            ),
        ensures
            final(self).wf(),
            final(self)@ == old(self)@.with_request_uploaded(request),
    {
        proof {
            self@.lemma_upload_keeps_wf(request);
        }
        let image_template = self.image_templates.get(&request.key);
        let mut descriptor = image_template.descriptor;
        if let Some(tile) = request.tile {
            let tile_size = image_template.tiling.unwrap();
            let clipped_tile_size = compute_tile_size(&image_template.visible_rect, tile_size, tile);
            // The tiled image is stored on the CPU either as one large image
            // or already broken up into tiles. Stride and offset depend on
            // which.
            let tiled_on_cpu = image_template.data.is_blob();
            descriptor = compute_tile_descriptor(&descriptor, clipped_tile_size, tile_size, tile, tiled_on_cpu);
        }
        // Of a blob the rasterized rect is uploaded, whatever the dirty rect
        // of the image says.
        let dirty_rect = match blob_rasterized_rect {
            Some(rect) => Some(DirtyRect::Partial(rect)),
            None => None,
        };
        let filter = compute_upload_filter(request.rendering, &descriptor, &self.texture_cache);
        let manual = image_template.data.is_blob();
        let cached = self.cached_images.get_mut(&request.key);
        cached.upload(request, &mut self.texture_cache, descriptor, filter, image_data, dirty_rect, manual);
        proof {
            let expected = old(self)@.with_request_uploaded(request);
            assert(self@.cached_images =~= expected.cached_images);
        }
    }

    /// Whether `get_cached_image` may be called with this request.
    pub fn can_get_cached_image(&self, request: ImageRequest) -> (ok: bool)
        requires
            self.wf(),
        ensures
            ok == self@.can_get_cached_image(request),
    {
        if self.state != State::QueryResources {
            return false;
        }
        let info = match self.cached_images.try_get(&request.key) {
            None => {
                return false;
            },
            Some(ImageResult::Failed(_)) => {
                return true;
            },
            Some(ImageResult::UntiledAuto(info)) => *info,
            Some(ImageResult::Multi(entries)) => match entries.try_get(&request.into_cached_image_key()) {
                Some(info) => *info,
                None => {
                    return false;
                },
            },
        };
        if self.texture_cache.try_get(&info.texture_cache_handle).is_some() {
            return true;
        }
        match self.image_templates.try_get(&request.key) {
            Some(template) => template.data.is_snapshot() && !self.debug_fallback_panic,
            None => false,
        }
    }

    /// Where an image that was asked for sits in the texture cache. An image
    /// that cannot be cached has no such place. For a snapshot that is
    /// missing, the place of the fallback image is given.
    pub fn get_cached_image(&self, request: ImageRequest) -> (item: Result<CacheItem, ()>)
        requires
            self.wf(),
            self@.can_get_cached_image(request),
        ensures
            item == self@.cached_image(request),
            self@.cached_images[request.key] is Failed ==> item.is_err(),
    {
        let image_info = match self.get_image_info(request) {
            Ok(info) => info,
            Err(_) => {
                return Err(());
            },
        };
        if let Ok(item) = self.get_texture_cache_item(&image_info.texture_cache_handle) {
            // Common path.
            return Ok(item);
        }
        self.get_texture_cache_item(&self.fallback_handle)
    }

    /// The cached variant that a request is for.
    pub fn get_image_info(&self, request: ImageRequest) -> (info: Result<CachedImageInfo, ()>)
        requires
            self.wf(),
            self@.cached_images.contains_key(request.key),
            self@.cached_images[request.key] is Failed
                || self@.cached_images[request.key].info(request).is_some(),
        ensures
            info == (match self@.cached_images[request.key].info(request) {
                Some(i) => Ok::<CachedImageInfo, ()>(i),
                None => Err(()),
            }),
    {
        match self.cached_images.get(&request.key) {
            ImageResult::UntiledAuto(image_info) => Ok(*image_info),
            ImageResult::Multi(entries) => Ok(*entries.get(&request.into_cached_image_key())),
            ImageResult::Failed(_) => Err(()),
        }
    }

    /// Where the item of a handle sits in the texture cache, if its
    /// allocation is alive.
    pub fn get_texture_cache_item(&self, handle: &TextureCacheHandle) -> (item: Result<CacheItem, ()>)
        ensures
            item == self@.texture_cache_item(*handle),
    {
        if let Some(item) = self.texture_cache.try_get(handle) {
            return Ok(item);
        }
        Err(())
    }

    /// What is cached of an image: nothing, the whole image, the variants
    /// under their keys, or the reason why it cannot be cached.
    pub fn cached_variants(&self, key: ImageKey) -> (variants: CachedVariants)
        requires
            self.wf(),
        ensures
            match variants {
                CachedVariants::Nothing => !self@.cached_images.contains_key(key),
                CachedVariants::UntiledAuto(info) => self@.cached_images.contains_key(key)
                    && self@.cached_images[key] == ImageResultView::UntiledAuto(info),
                CachedVariants::Multi(keys) => self@.cached_images.contains_key(key) && self@.cached_images[key] is Multi
                    && keys@.no_duplicates() && keys@.to_set() == self@.cached_images[key]->Multi_0.dom(),
                CachedVariants::Failed(e) => self@.cached_images.contains_key(key) && self@.cached_images[key]
                    == ImageResultView::Failed(e),
            },
    {
        match self.cached_images.try_get(&key) {
            None => CachedVariants::Nothing,
            Some(ImageResult::UntiledAuto(info)) => CachedVariants::UntiledAuto(*info),
            Some(ImageResult::Failed(e)) => CachedVariants::Failed(*e),
            Some(ImageResult::Multi(entries)) => {
                let mut keys: Vec<CachedImageKey> = Vec::new();
                let mut i: usize = 0;
                proof {
                    entries.lemma_positions();
                }
                while i < entries.len()
                    invariant
                        entries.wf(),
                        i <= entries.order().len(),
                        keys@ == entries.order().take(i as int),
                    decreases entries.order().len() - i,
                {
                    keys.push(entries.key_at(i));
                    proof {
                        assert(entries.order().take(i + 1) =~= entries.order().take(i as int).push(
                            entries.order()[i as int],
                        ));
                    }
                    i = i + 1;
                }
                proof {
                    entries.lemma_positions();
                    assert(entries.order().take(i as int) =~= entries.order());
                    assert(keys@.to_set() =~= entries@.dom());
                }
                CachedVariants::Multi(keys)
            },
        }
    }

    /// The handle of the fallback image.
    pub fn fallback_handle(&self) -> (handle: TextureCacheHandle)
        ensures
            handle == self@.fallback_handle,
    {
        self.fallback_handle
    }

    /// Whether `fetch_glyphs` may be called for this text run.
    pub fn can_fetch_glyphs(&self, font: FontInstance, glyph_keys: &[GlyphKey]) -> (ok: bool)
        requires
            self.wf(),
        ensures
            ok == (self@.state == State::QueryResources && self@.glyphs.contains_key(font) && can_fetch_glyphs(
                self@.glyphs[font],
                self@.texture_cache,
                glyph_keys@,
            )),
    {
        if self.state != State::QueryResources || !self.cached_glyphs.has_font(&font) {
            return false;
        }
        if glyph_keys.len() > 0x7fff_ffff {
            return false;
        }
        let mut i: usize = 0;
        while i < glyph_keys.len()
            invariant
                self.wf(),
                self@.glyphs.contains_key(font),
                i <= glyph_keys@.len(),
                forall|j: int|
                    0 <= j < i ==> self@.glyphs[font].contains_key(#[trigger] glyph_keys@[j])
                        && match self@.glyphs[font][glyph_keys@[j]] {
                        GlyphCacheEntry::Cached(glyph) => self@.texture_cache.allocated(glyph.texture_cache_handle),
                        _ => true,
                    },
            decreases glyph_keys@.len() - i,
        {
            match self.cached_glyphs.get_entry(&font, &glyph_keys[i]) {
                None => {
                    return false;
                },
                Some(GlyphCacheEntry::Cached(glyph)) => {
                    if self.texture_cache.try_get(&glyph.texture_cache_handle).is_none() {
                        return false;
                    }
                },
                Some(_) => {},
            }
            i = i + 1;
        }
        true
    }

    /// Collects the glyphs of a text run for drawing: glyphs that follow
    /// one another and share texture and format form a batch.
    pub fn fetch_glyphs(&self, font: FontInstance, glyph_keys: &[GlyphKey]) -> (batches: Vec<GlyphBatch>)
        requires
            self.wf(),
            self@.state == State::QueryResources,
            self@.glyphs.contains_key(font),
            can_fetch_glyphs(self@.glyphs[font], self@.texture_cache, glyph_keys@),
        ensures
            batch_views(batches@) == GlyphFetch::of_run(
                self@.glyphs[font],
                self@.texture_cache,
                glyph_keys@,
                glyph_keys@.len() as int,
            ).flushed(),
    {
        self.cached_glyphs.fetch_glyphs(font, glyph_keys, &self.texture_cache)
    }

    /// The size of a glyph, if it was asked of the rasterizer before: then
    /// what the rasterizer said, which is nothing for a glyph that it could
    /// not load.
    pub fn get_glyph_dimensions(&self, font: &FontInstance, glyph_index: u32) -> (dimensions: Option<
        Option<GlyphDimensions>,
    >)
        requires
            self.wf(),
        ensures
            dimensions == (if self@.glyph_dimensions.contains_key(
                GlyphDimensionsKey { font: font.instance_key, glyph_index },
            ) {
                Some(self@.glyph_dimensions[GlyphDimensionsKey { font: font.instance_key, glyph_index }])
            } else {
                None
            }),
    {
        match self.cached_glyph_dimensions.try_get(&GlyphDimensionsKey { font: font.instance_key, glyph_index }) {
            Some(dimensions) => Some(*dimensions),
            None => None,
        }
    }

    /// Keeps what the rasterizer said of the size of a glyph.
    pub fn cache_glyph_dimensions(
        &mut self,
        font: &FontInstance,
        glyph_index: u32,
        dimensions: Option<GlyphDimensions>,
    )
        requires
            old(self).wf(),
        ensures
            final(self).wf(),
            final(self)@ == (ResourceCacheView {
                glyph_dimensions: old(self)@.glyph_dimensions.insert(
                    GlyphDimensionsKey { font: font.instance_key, glyph_index },
                    dimensions,
                ),
                ..old(self)@
            }),
    {
        self.cached_glyph_dimensions.insert(GlyphDimensionsKey { font: font.instance_key, glyph_index }, dimensions);
    }

    /// The blob keys that were deleted `frames_ago` frames ago: in the
    /// current frame for 0, up to two frames back.
    pub fn deleted_blob_keys(&self, frames_ago: usize) -> (keys: &Vec<BlobImageKey>)
        requires
            self.wf(),
            frames_ago < 3,
        ensures
            keys@ == self@.deleted_blob_keys[2 - frames_ago],
    {
        &self.deleted_blob_keys[2 - frames_ago]
    }

    /// Whether `end_frame` may be called.
    pub fn can_end_frame(&self) -> (ok: bool)
        requires
            self.wf(),
        ensures
            ok == self@.can_end_frame(),
    {
        if self.state != State::QueryResources {
            return false;
        }
        // Count the memory of the pool, as far as it can be counted.
        let mut total: usize = 0;
        let mut any_active = false;
        let mut i: usize = 0;
        proof {
            assert(self.render_target_pool@.take(0) =~= Seq::empty());
        }
        while i < self.render_target_pool.len()
            invariant
                i <= self.render_target_pool@.len(),
                total == pool_bytes(self.render_target_pool@.take(i as int)),
                forall|j: int| 0 <= j < i ==> (#[trigger] self.render_target_pool@[j]).measurable(),
                any_active == !all_inactive(self.render_target_pool@.take(i as int)),
            decreases self.render_target_pool@.len() - i,
        {
            let target = self.render_target_pool[i];
            let ghost pool = self.render_target_pool@;
            proof {
                assert(pool.take(i + 1).drop_last() =~= pool.take(i as int));
                assert(pool.take(i + 1).last() == target);
            }
            assert(-0x8000_0000 * 0x8000_0000 <= target.size.width * target.size.height <= 0x8000_0000
                * 0x8000_0000) by (nonlinear_arith)
                requires
                    -0x8000_0000 <= target.size.width <= 0x8000_0000,
                    -0x8000_0000 <= target.size.height <= 0x8000_0000,
            ;
            let pixels: i64 = (target.size.width as i64) * (target.size.height as i64);
            if pixels < 0 || pixels > 0x7fff_ffff {
                return false;
            }
            let bpp = target.format.bytes_per_pixel();
            assert(0 <= pixels * bpp <= 0x7fff_ffff * 16) by (nonlinear_arith)
                requires
                    0 <= pixels <= 0x7fff_ffff,
                    0 <= bpp <= 16,
            ;
            let bytes: u64 = (pixels as u64) * (bpp as u64);
            assert(bytes == target.spec_size_in_bytes());
            if bytes > usize::MAX as u64 {
                return false;
            }
            if bytes as usize > usize::MAX - total {
                proof {
                    assert(forall|j: int| 0 <= j < i + 1 ==> (#[trigger] pool[j]).measurable());
                    if pool_measurable(pool) {
                        crate::render_target_pool::lemma_pool_bytes_split(pool, i + 1);
                    }
                }
                return false;
            }
            total = total + bytes as usize;
            if target.is_active {
                any_active = true;
                proof {
                    assert(pool.take(i + 1)[i as int].is_active);
                }
            } else {
                proof {
                    if all_inactive(pool.take(i as int)) {
                        assert forall|j: int| 0 <= j < pool.take(i + 1).len() implies !(#[trigger] pool.take(
                            i + 1,
                        )[j]).is_active by {
                            if j < i {
                                assert(!pool.take(i as int)[j].is_active);
                            }
                        }
                    } else {
                        let j = choose|j: int| 0 <= j < pool.take(i as int).len() && (#[trigger] pool.take(
                            i as int,
                        )[j]).is_active;
                        assert(pool.take(i + 1)[j].is_active);
                    }
                }
            }
            i = i + 1;
        }
        proof {
            assert(self.render_target_pool@.take(i as int) =~= self.render_target_pool@);
        }
        !(total > 64 * 1024 * 1024 && any_active)
    }

    /// Ends the frame. Render targets that the pool holds beyond its
    /// thresholds and that have not been used for a while are given up.
    pub fn end_frame(&mut self)
        requires
            old(self).wf(),
            old(self)@.can_end_frame(),
        ensures
            final(self).wf(),
            final(self)@ == old(self)@.with_frame_ended(),
            final(self)@.state == State::Idle,
            final(self)@.pending_requests.len() == 0,
    {
        self.state = State::Idle;
        // The pool is collected once it takes more than 64 MiB. Targets that
        // were not used in the last 60 frames go, until the pool is under
        // that threshold. Above a red line of 320 MiB, targets go however
        // lately they were used: many targets within a few frames must not
        // use up the memory.
        self.gc_render_targets(64 * 1024 * 1024, 32 * 1024 * 1024 * 10, 60);
    }

    /// Hands what the frame left for the renderer to the renderer: the
    /// uploads and the operations on native surfaces. Both queues are empty
    /// afterwards.
    pub fn pending_updates(&mut self) -> (updates: ResourceUpdateList)
        requires
            old(self).wf(),
        ensures
            final(self).wf(),
            final(self)@ == old(self)@.with_updates_taken(),
            update_views(updates.texture_updates@) == old(self)@.texture_cache.pending_updates,
            updates.native_surface_updates@ == old(self)@.native_surface_updates,
    {
        let mut native_surface_updates: Vec<NativeSurfaceOperation> = Vec::new();
        std::mem::swap(&mut native_surface_updates, &mut self.pending_native_surface_updates);
        ResourceUpdateList { texture_updates: self.texture_cache.pending_updates(), native_surface_updates }
    }

    /// Hands out what the rasterizer and the blob handler have to be told,
    /// oldest first, and empties that queue.
    pub fn pending_notifications(&mut self) -> (notifications: Vec<Notification>)
        requires
            old(self).wf(),
        ensures
            final(self).wf(),
            final(self)@ == (ResourceCacheView { notifications: Seq::empty(), ..old(self)@ }),
            notifications@ == old(self)@.notifications,
    {
        let mut notifications: Vec<Notification> = Vec::new();
        std::mem::swap(&mut notifications, &mut self.pending_notifications);
        notifications
    }

    /// Queues an operation for the native compositor.
    fn push_native_surface_update(&mut self, details: NativeSurfaceOperationDetails)
        requires
            old(self).wf(),
        ensures
            final(self).wf(),
            final(self)@ == old(self)@.with_native_surface_update(details),
    {
        self.pending_native_surface_updates.push(NativeSurfaceOperation { details });
    }

    /// Queues the allocation of a surface of one colour under a fresh id.
    pub fn create_compositor_backdrop_surface(&mut self, id: NativeSurfaceId, color: FloatBits4) -> (r: NativeSurfaceId)
        requires
            old(self).wf(),
        ensures
            final(self).wf(),
            final(self)@ == old(self)@.with_native_surface_update(
                NativeSurfaceOperationDetails::CreateBackdropSurface { id, color },
            ),
            r == id,
    {
        self.push_native_surface_update(NativeSurfaceOperationDetails::CreateBackdropSurface { id, color });
        id
    }

    /// Queues the allocation of a native compositor surface with the given
    /// tile size under a fresh id.
    pub fn create_compositor_surface(
        &mut self,
        id: NativeSurfaceId,
        virtual_offset: DeviceIntPoint,
        tile_size: DeviceIntSize,
        is_opaque: bool,
    ) -> (r: NativeSurfaceId)
        requires
            old(self).wf(),
        ensures
            final(self).wf(),
            final(self)@ == old(self)@.with_native_surface_update(
                NativeSurfaceOperationDetails::CreateSurface { id, virtual_offset, tile_size, is_opaque },
            ),
            r == id,
    {
        self.push_native_surface_update(
            NativeSurfaceOperationDetails::CreateSurface { id, virtual_offset, tile_size, is_opaque },
        );
        id
    }

    /// Queues the allocation of a surface for an external image under a
    /// fresh id.
    pub fn create_compositor_external_surface(&mut self, id: NativeSurfaceId, is_opaque: bool) -> (r: NativeSurfaceId)
        requires
            old(self).wf(),
        ensures
            final(self).wf(),
            final(self)@ == old(self)@.with_native_surface_update(
                NativeSurfaceOperationDetails::CreateExternalSurface { id, is_opaque },
            ),
            r == id,
    {
        self.push_native_surface_update(NativeSurfaceOperationDetails::CreateExternalSurface { id, is_opaque });
        id
    }

    /// Queues the destruction of a native surface, as when a picture cache
    /// surface is dropped or resized.
    pub fn destroy_compositor_surface(&mut self, id: NativeSurfaceId)
        requires
            old(self).wf(),
        ensures
            final(self).wf(),
            final(self)@ == old(self)@.with_native_surface_update(NativeSurfaceOperationDetails::DestroySurface { id }),
    {
        self.push_native_surface_update(NativeSurfaceOperationDetails::DestroySurface { id });
    }

    /// Queues the construction of a tile on a native surface.
    pub fn create_compositor_tile(&mut self, id: NativeTileId)
        requires
            old(self).wf(),
        ensures
            final(self).wf(),
            final(self)@ == old(self)@.with_native_surface_update(NativeSurfaceOperationDetails::CreateTile { id }),
    {
        self.push_native_surface_update(NativeSurfaceOperationDetails::CreateTile { id });
    }

    /// Queues the destruction of a tile of a native surface.
    pub fn destroy_compositor_tile(&mut self, id: NativeTileId)
        requires
            old(self).wf(),
        ensures
            final(self).wf(),
            final(self)@ == old(self)@.with_native_surface_update(NativeSurfaceOperationDetails::DestroyTile { id }),
    {
        self.push_native_surface_update(NativeSurfaceOperationDetails::DestroyTile { id });
    }

    /// Queues the attachment of an external image to a native surface.
    pub fn attach_compositor_external_image(&mut self, id: NativeSurfaceId, external_image: ExternalImageId)
        requires
            old(self).wf(),
        ensures
            final(self).wf(),
            final(self)@ == old(self)@.with_native_surface_update(
                NativeSurfaceOperationDetails::AttachExternalImage { id, external_image },
            ),
    {
        self.push_native_surface_update(NativeSurfaceOperationDetails::AttachExternalImage { id, external_image });
    }

    /// Takes the debug switches. The rasterizer is told whether to tint
    /// fresh glyphs. If the colour of the fallback image changes and the
    /// image was made, its allocation is given up.
    pub fn set_debug_flags(&mut self, flags: DebugFlags)
        requires
            old(self).wf(),
        ensures
            final(self).wf(),
            final(self)@ == old(self)@.with_debug_flags(flags),
    {
        proof {
            self@.texture_cache.lemma_render_targets_kept();
        }
        self.pending_notifications.push(Notification::RasterizerSetGlyphFlashing(flags.glyph_flashing));
        self.debug_fallback_panic = flags.missing_snapshot_panic;
        let fallback_pink = flags.missing_snapshot_pink;
        if fallback_pink != self.debug_fallback_pink && self.fallback_handle.slot.is_some() {
            self.texture_cache.evict_handle(&self.fallback_handle);
        }
        self.debug_fallback_pink = fallback_pink;
    }

    /// Forgets what `what` names: cached images (their declarations stay),
    /// glyphs, sizes of glyphs, everything in the texture cache, the pool of
    /// render targets.
    pub fn clear(&mut self, what: ClearCache)
        requires
            old(self).wf(),
            what.render_targets ==> all_inactive(old(self)@.render_target_pool),
        ensures
            final(self).wf(),
            final(self)@ == old(self)@.with_caches_cleared(what),
    {
        proof {
            self@.lemma_clear_keeps_wf(what);
        }
        if what.images {
            proof {
                self.texture_cache.lemma_slots_countable();
                self@.texture_cache.lemma_evicted_all_step(Set::empty(), TextureCacheHandle { slot: None });
                self.cached_images.lemma_positions();
            }
            let ghost start = self@.texture_cache;
            let ghost all_images = self.cached_images@;
            let n = self.cached_images.len();
            let mut i: usize = 0;
            let ghost gone = Set::<TextureCacheHandle>::empty();
            while i < n
                invariant
                    i <= n,
                    n == self.cached_images.order().len(),
                    self.stores_wf(),
                    self.cached_images.order() == old(self).cached_images.order(),
                    start.slots.len() <= usize::MAX,
                    forall|j: int|
                        0 <= j < n ==> self.cached_images@.contains_key(#[trigger] self.cached_images.order()[j])
                            && all_images.contains_key(self.cached_images.order()[j]),
                    forall|k: ImageKey| all_images.contains_key(k) ==> self.cached_images.order().contains(k),
                    forall|j: int|
                        i <= j < n ==> self.cached_images@[#[trigger] self.cached_images.order()[j]]
                            == all_images[self.cached_images.order()[j]],
                    self.cached_images.order().no_duplicates(),
                    forall|h: TextureCacheHandle|
                        gone.contains(h) <==> exists|j: int|
                            0 <= j < i && #[trigger] image_views(all_images)[self.cached_images.order()[j]].handles(
                            ).contains(h),
                    self.texture_cache@ == start.evicted_all(gone),
                    self@ == (ResourceCacheView {
                        texture_cache: self.texture_cache@,
                        cached_images: self@.cached_images,
                        ..old(self)@
                    }),
                decreases n - i,
            {
                let ghost order = self.cached_images.order();
                let ghost before = self.cached_images@;
                let ghost gone_before = gone;
                let ghost cache_before = self.texture_cache@;
                let cached = self.cached_images.value_at_mut(i);
                let ghost handles = cached@.handles();
                assert(handles == image_views(all_images)[order[i as int]].handles());
                cached.drop_from_cache(&mut self.texture_cache);
                proof {
                    gone = gone_before.union(handles);
                    start.lemma_evicted_all_union(gone_before, handles);
                    assert forall|j: int| i + 1 <= j < n implies self.cached_images@[#[trigger] order[j]]
                        == all_images[order[j]] by {
                        assert(order[j] != order[i as int]);
                    }
                    assert forall|h: TextureCacheHandle|
                        gone.contains(h) <==> exists|j: int|
                            0 <= j < i + 1 && #[trigger] image_views(all_images)[order[j]].handles().contains(h) by {
                        if gone.contains(h) {
                            if gone_before.contains(h) {
                                let j = choose|j: int|
                                    0 <= j < i && #[trigger] image_views(all_images)[order[j]].handles().contains(h);
                                assert(0 <= j < i + 1);
                            } else {
                                assert(image_views(all_images)[order[i as int]].handles().contains(h));
                            }
                        }
                    }
                }
                i = i + 1;
            }
            proof {
                assert(gone =~= all_handles(image_views(all_images))) by {
                    assert forall|h: TextureCacheHandle| all_handles(image_views(all_images)).contains(h)
                        implies gone.contains(h) by {
                        let k = choose|k: ImageKey| #[trigger]
                            image_views(all_images).contains_key(k) && image_views(all_images)[k].handles().contains(
                                h,
                            );
                        crate::class_cache::lemma_index_of(self.cached_images.order(), k);
                        let j = self.cached_images.order().index_of(k);
                        assert(self.cached_images.order()[j] == k);
                    }
                    assert forall|h: TextureCacheHandle| gone.contains(h) implies all_handles(
                        image_views(all_images),
                    ).contains(h) by {
                        let j = choose|j: int|
                            0 <= j < n && #[trigger] image_views(all_images)[self.cached_images.order()[j]].handles(
                            ).contains(h);
                        assert(image_views(all_images).contains_key(self.cached_images.order()[j]));
                    }
                }
            }
            self.cached_images.clear();
            proof {
                assert(self@.cached_images =~= Map::empty());
            }
        }
        if what.glyphs {
            self.cached_glyphs.clear();
        }
        if what.glyph_dimensions {
            self.cached_glyph_dimensions.clear();
        }
        if what.texture_cache {
            self.texture_cache.clear_all();
        }
        if what.render_targets {
            proof {
                self@.texture_cache.lemma_render_targets_kept();
            }
            self.clear_render_target_pool();
        }
    }

    /// Deletes every image that is declared under a key of the namespace,
    /// or every image if no namespace is given. Returns the keys of the
    /// images that were deleted, each once, in the order in which they were
    /// deleted.
    pub fn clear_images(&mut self, namespace: Option<IdNamespace>) -> (deleted: Vec<ImageKey>)
        requires
            old(self).wf(),
        ensures
            final(self).wf(),
            final(self)@ == old(self)@.with_images_deleted(deleted@),
            deleted@.no_duplicates(),
            deleted@.to_set() == old(self)@.images_of(namespace),
    {
        let mut keys = ImageKeyList::new();
        let mut i: usize = 0;
        proof {
            self.image_templates.lemma_positions();
        }
        while i < self.image_templates.len()
            invariant
                self.wf(),
                *self == *old(self),
                i <= self.image_templates.order().len(),
                image_key_list(keys).no_duplicates(),
                forall|k: ImageKey|
                    image_key_list(keys).contains(k) <==> exists|j: int|
                        0 <= j < i && #[trigger] self.image_templates.order()[j] == k && in_namespace(k, namespace),
            decreases self.image_templates.order().len() - i,
        {
            let key = self.image_templates.key_at(i);
            let ghost before = image_key_list(keys);
            let wanted = match namespace {
                Some(ns) => key.0 == ns,
                None => true,
            };
            if wanted {
                proof {
                    self.image_templates.lemma_positions();
                    if before.contains(key) {
                        let j = choose|j: int| 0 <= j < i && #[trigger] self.image_templates.order()[j] == key;
                        assert(self.image_templates.order()[j] != self.image_templates.order()[i as int]);
                    }
                }
                keys.push(key);
            }
            proof {
                let now = image_key_list(keys);
                assert forall|k: ImageKey|
                    now.contains(k) <==> exists|j: int|
                        0 <= j < i + 1 && #[trigger] self.image_templates.order()[j] == k && in_namespace(
                            k,
                            namespace,
                        ) by {
                    if now.contains(k) {
                        let p = choose|p: int| 0 <= p < now.len() && now[p] == k;
                        if p < before.len() {
                            assert(before[p] == k);
                            assert(before.contains(k));
                            let j = choose|j: int|
                                0 <= j < i && #[trigger] self.image_templates.order()[j] == k && in_namespace(
                                    k,
                                    namespace,
                                );
                            assert(0 <= j < i + 1 && self.image_templates.order()[j] == k);
                        } else {
                            assert(self.image_templates.order()[i as int] == k);
                        }
                    }
                    if exists|j: int|
                        0 <= j < i + 1 && #[trigger] self.image_templates.order()[j] == k && in_namespace(
                            k,
                            namespace,
                        ) {
                        let j = choose|j: int|
                            0 <= j < i + 1 && #[trigger] self.image_templates.order()[j] == k && in_namespace(
                                k,
                                namespace,
                            );
                        if j < i {
                            assert(before.contains(k));
                            let p = choose|p: int| 0 <= p < before.len() && before[p] == k;
                            assert(now[p] == k);
                        } else {
                            assert(now[before.len() as int] == k);
                        }
                    }
                }
            }
            i = i + 1;
        }
        proof {
            self.image_templates.lemma_positions();
            assert(image_key_list(keys).to_set() =~= old(self)@.images_of(namespace)) by {
                assert forall|k: ImageKey| old(self)@.images_of(namespace).contains(k) implies image_key_list(
                    keys,
                ).contains(k) by {
                    crate::class_cache::lemma_index_of(self.image_templates.order(), k);
                    let j = self.image_templates.order().index_of(k);
                    assert(self.image_templates.order()[j] == k);
                }
            }
        }
        let deleted = keys.into_vec();
        let mut j: usize = 0;
        proof {
            assert(deleted@.take(0) =~= Seq::empty());
        }
        while j < deleted.len()
            invariant
                j <= deleted@.len(),
                self.wf(),
                self@ == old(self)@.with_images_deleted(deleted@.take(j as int)),
            decreases deleted@.len() - j,
        {
            proof {
                assert(deleted@.take(j + 1).drop_last() =~= deleted@.take(j as int));
                assert(deleted@.take(j + 1).last() == deleted@[j as int]);
            }
            self.delete_image_template(deleted[j]);
            j = j + 1;
        }
        proof {
            assert(deleted@.take(j as int) =~= deleted@);
        }
        deleted
    }

    /// Forgets everything of a namespace: its images, its fonts and font
    /// instances with their glyphs, and the shared fonts and font instances
    /// that lose their last key. The rasterizer and the blob handler are
    /// told.
    pub fn clear_namespace(&mut self, namespace: IdNamespace) -> (cleared: ClearedNamespace)
        requires
            old(self).wf(),
        ensures
            final(self).wf(),
            final(self)@ == old(self)@.with_namespace_cleared(
                namespace,
                cleared.images@,
                cleared.fonts.deleted_keys@,
                cleared.fonts.shared_instance_keys@,
                cleared.fonts.shared_keys@,
            ),
            cleared.images@.no_duplicates(),
            cleared.images@.to_set() == old(self)@.images_of(Some(namespace)),
            cleared.fonts.deleted_keys@.no_duplicates(),
            cleared.fonts.deleted_keys@.to_set() == Set::new(
                |k: FontKey| old(self)@.fonts.templates.contains_key(k) && k.0 == namespace,
            ),
            cleared.fonts.shared_instance_keys@.no_duplicates(),
            cleared.fonts.shared_instance_keys@.to_set() == released_by_namespace(
                old(self)@.fonts.instance_keys,
                namespace,
            ),
            cleared.fonts.shared_keys@.no_duplicates(),
            cleared.fonts.shared_keys@.to_set() == released_by_namespace(old(self)@.fonts.font_keys, namespace),
    {
        let images = self.clear_images(Some(namespace));
        proof {
            old(self)@.lemma_images_deleted_frame(images@);
        }
        // First what is declared under keys of the namespace itself, then
        // the shared keys that were mapped from the namespace.
        let fonts = self.fonts.clear_namespace(namespace);
        notify_font_deletions(&mut self.pending_notifications, &fonts.deleted_keys, false);
        self.cached_glyphs.clear_namespace(namespace);
        if self.has_blob_image_handler {
            self.pending_notifications.push(Notification::BlobHandlerClearNamespace(namespace));
        }
        if fonts.shared_instance_keys.len() > 0 {
            self.cached_glyphs.delete_font_instances(fonts.shared_instance_keys.as_slice());
            notify_font_instance_deletions(&mut self.pending_notifications, &fonts.shared_instance_keys);
        }
        if fonts.shared_keys.len() > 0 {
            notify_font_deletions(&mut self.pending_notifications, &fonts.shared_keys, false);
            self.cached_glyphs.delete_fonts(fonts.shared_keys.as_slice());
            if self.has_blob_image_handler {
                notify_font_deletions(&mut self.pending_notifications, &fonts.shared_keys, true);
            }
        }
        proof {
            let expected = old(self)@.with_namespace_cleared(
                namespace,
                images@,
                fonts.deleted_keys@,
                fonts.shared_instance_keys@,
                fonts.shared_keys@,
            );
            assert(self@.glyphs =~= expected.glyphs);
            assert(self@.notifications =~= expected.notifications);
        }
        ClearedNamespace { images, fonts }
    }

    /// Lends out a render target of the pool: the first one of that size and
    /// format that is not lent out, or else a new one.
    pub fn get_or_create_render_target_from_pool(&mut self, size: DeviceIntSize, format: ImageFormat) -> (id:
        CacheTextureId)
        requires
            old(self).wf(),
        ensures
            final(self).wf(),
            final(self)@ == old(self)@.with_render_target_lent(size, format),
            id == old(self)@.render_target_to_lend(size, format),
            final(self)@.is_lent(id),
    {
        let ghost wanted = RenderTarget {
            size,
            format,
            texture_id: CacheTextureId(0),
            is_active: false,
            last_frame_used: FrameId(0),
        };
        let mut i: usize = 0;
        while i < self.render_target_pool.len()
            invariant
                i <= self.render_target_pool@.len(),
                *self == *old(self),
                self.wf(),
                wanted == (RenderTarget {
                    size,
                    format,
                    texture_id: CacheTextureId(0),
                    is_active: false,
                    last_frame_used: FrameId(0),
                }),
                first_available(self.render_target_pool@, wanted, i as int).is_none(),
            decreases self.render_target_pool@.len() - i,
        {
            let target = self.render_target_pool[i];
            if target.size == size && target.format == format && !target.is_active {
                // A target that is not in use and fits. Its last use is
                // noted for the collection.
                let taken = RenderTarget { is_active: true, last_frame_used: self.current_frame_id, ..target };
                self.render_target_pool[i] = taken;
                proof {
                    lemma_first_available(old(self)@.render_target_pool, wanted, i as int);
                    assert(old(self)@.available_render_target(size, format) == Some(i as int));
                    assert(self@.render_target_pool =~= old(self)@.render_target_pool.update(i as int, taken));
                    assert(self@.render_target_pool[i as int].texture_id == target.texture_id);
                }
                return target.texture_id;
            }
            i = i + 1;
        }
        proof {
            lemma_first_available(old(self)@.render_target_pool, wanted, self.render_target_pool@.len() as int);
        }
        // A new render target is needed.
        let texture_id = self.texture_cache.alloc_render_target(size, format);
        self.render_target_pool.push(
            RenderTarget { size, format, texture_id, is_active: true, last_frame_used: self.current_frame_id },
        );
        proof {
            assert(self@.render_target_pool[self@.render_target_pool.len() - 1].texture_id == texture_id);
        }
        texture_id
    }

    /// Whether a texture is that of a render target of the pool that is
    /// lent out, so that it can be returned.
    pub fn is_render_target_lent(&self, id: CacheTextureId) -> (lent: bool)
        ensures
            lent == self@.is_lent(id),
    {
        let mut i: usize = 0;
        while i < self.render_target_pool.len()
            invariant
                i <= self.render_target_pool@.len(),
                forall|j: int|
                    0 <= j < i ==> !((#[trigger] self.render_target_pool@[j]).texture_id == id
                        && self.render_target_pool@[j].is_active),
            decreases self.render_target_pool@.len() - i,
        {
            let target = self.render_target_pool[i];
            if target.texture_id == id && target.is_active {
                return true;
            }
            i = i + 1;
        }
        false
    }

    /// Takes back a render target that was lent out.
    pub fn return_render_target_to_pool(&mut self, id: CacheTextureId)
        requires
            old(self).wf(),
            old(self)@.is_lent(id),
        ensures
            final(self).wf(),
            final(self)@ == old(self)@.with_render_target_returned(id),
            !final(self)@.is_lent(id),
    {
        let mut i: usize = 0;
        while i < self.render_target_pool.len()
            invariant
                i <= self.render_target_pool@.len(),
                *self == *old(self),
                self.wf(),
                forall|j: int| 0 <= j < i ==> (#[trigger] self.render_target_pool@[j]).texture_id != id,
            decreases self.render_target_pool@.len() - i,
        {
            let target = self.render_target_pool[i];
            if target.texture_id == id {
                self.render_target_pool[i] = RenderTarget { is_active: false, ..target };
                return ;
            }
            i = i + 1;
        }
    }

    /// Whether no render target of the pool is lent out, so that the pool
    /// can be cleared.
    pub fn all_render_targets_returned(&self) -> (ok: bool)
        ensures
            ok == all_inactive(self@.render_target_pool),
    {
        let mut i: usize = 0;
        while i < self.render_target_pool.len()
            invariant
                i <= self.render_target_pool@.len(),
                forall|j: int| 0 <= j < i ==> !(#[trigger] self.render_target_pool@[j]).is_active,
            decreases self.render_target_pool@.len() - i,
        {
            if self.render_target_pool[i].is_active {
                return false;
            }
            i = i + 1;
        }
        true
    }

    /// The render targets of the pool.
    pub fn render_target_pool(&self) -> (pool: &Vec<RenderTarget>)
        ensures
            pool@ == self@.render_target_pool,
    {
        &self.render_target_pool
    }

    /// Gives up every render target of the pool.
    fn clear_render_target_pool(&mut self)
        requires
            old(self).wf(),
            all_inactive(old(self)@.render_target_pool),
        ensures
            final(self).wf(),
            final(self)@ == old(self)@.with_render_targets_cleared(),
    {
        let mut pool: Vec<RenderTarget> = Vec::new();
        std::mem::swap(&mut pool, &mut self.render_target_pool);
        let ghost start = self@.texture_cache;
        proof {
            self.texture_cache.lemma_slots_countable();
            assert(pool_textures(pool@.take(0)) =~= Set::empty());
            start.lemma_render_targets_freed_none();
        }
        let mut i: usize = 0;
        while i < pool.len()
            invariant
                i <= pool@.len(),
                pool@ == old(self)@.render_target_pool,
                pool_backed(pool@, start),
                start.slots.len() <= usize::MAX,
                self.texture_cache@ == start.render_targets_freed(pool_textures(pool@.take(i as int))),
                self.stores_wf(),
                self@ == (ResourceCacheView {
                    texture_cache: self.texture_cache@,
                    render_target_pool: Seq::empty(),
                    ..old(self)@
                }),
            decreases pool@.len() - i,
        {
            let target = pool[i];
            proof {
                start.lemma_render_targets_freed_step(pool_textures(pool@.take(i as int)), target.texture_id);
                assert(pool_textures(pool@.take(i + 1)) =~= pool_textures(pool@.take(i as int)).insert(
                    target.texture_id,
                )) by {
                    assert(pool@.take(i + 1)[i as int].texture_id == target.texture_id);
                    assert forall|id: CacheTextureId| pool_textures(pool@.take(i as int)).contains(id)
                        implies pool_textures(pool@.take(i + 1)).contains(id) by {
                        let j = choose|j: int|
                            0 <= j < pool@.take(i as int).len() && (#[trigger] pool@.take(i as int)[j]).texture_id
                                == id;
                        assert(pool@.take(i + 1)[j].texture_id == id);
                    }
                    assert forall|id: CacheTextureId| pool_textures(pool@.take(i + 1)).contains(id)
                        implies pool_textures(pool@.take(i as int)).insert(target.texture_id).contains(id) by {
                        let j = choose|j: int|
                            0 <= j < pool@.take(i + 1).len() && (#[trigger] pool@.take(i + 1)[j]).texture_id == id;
                        if j < i {
                            assert(pool@.take(i as int)[j].texture_id == id);
                        }
                    }
                }
                assert(!pool_textures(pool@.take(i as int)).contains(target.texture_id)) by {
                    if pool_textures(pool@.take(i as int)).contains(target.texture_id) {
                        let j = choose|j: int|
                            0 <= j < pool@.take(i as int).len() && (#[trigger] pool@.take(i as int)[j]).texture_id
                                == target.texture_id;
                        assert(pool@[j].texture_id != pool@[i as int].texture_id);
                    }
                }
                assert(start.is_render_target(pool@[i as int].texture_id));
            }
            self.texture_cache.free_render_target(target.texture_id);
            i = i + 1;
        }
        proof {
            assert(pool@.take(i as int) =~= pool@);
        }
    }

    /// Collects the pool of render targets: if the pool takes more memory
    /// than the threshold, targets that have not been used for some time are
    /// given up, the one that was used longest ago first.
    fn gc_render_targets(
        &mut self,
        total_bytes_threshold: usize,
        total_bytes_red_line_threshold: usize,
        frames_threshold: u64,
    )
        requires
            old(self).wf(),
            old(self)@.can_collect_render_targets(total_bytes_threshold),
        ensures
            final(self).wf(),
            final(self)@ == old(self)@.with_render_targets_collected(
                total_bytes_threshold,
                total_bytes_red_line_threshold,
                frames_threshold,
            ),
    {
        // The GPU memory that the pool takes now.
        let mut rt_pool_size_in_bytes: usize = 0;
        let mut i: usize = 0;
        proof {
            assert(self.render_target_pool@.take(0) =~= Seq::empty());
        }
        while i < self.render_target_pool.len()
            invariant
                i <= self.render_target_pool@.len(),
                *self == *old(self),
                pool_measurable(self.render_target_pool@),
                rt_pool_size_in_bytes == pool_bytes(self.render_target_pool@.take(i as int)),
            decreases self.render_target_pool@.len() - i,
        {
            proof {
                crate::render_target_pool::lemma_pool_bytes_split(self.render_target_pool@, i + 1);
                assert(self.render_target_pool@.take(i + 1).drop_last() =~= self.render_target_pool@.take(i as int));
            }
            rt_pool_size_in_bytes = rt_pool_size_in_bytes + self.render_target_pool[i].size_in_bytes();
            i = i + 1;
        }
        proof {
            assert(self.render_target_pool@.take(i as int) =~= self.render_target_pool@);
        }
        // A pool under the threshold is left alone.
        if rt_pool_size_in_bytes <= total_bytes_threshold {
            return ;
        }
        proof {
            crate::render_target_pool::lemma_sorted_pool(self.render_target_pool@, self.texture_cache@);
        }
        // Sort the pool by age, so that the oldest textures go first.
        sort_by_age(&mut self.render_target_pool);
        // `retain` would not do: a target that goes has to be freed.
        let mut retained_targets = KeptTargets::new();
        let mut pool: Vec<RenderTarget> = Vec::new();
        std::mem::swap(&mut pool, &mut self.render_target_pool);
        let ghost start = self@.texture_cache;
        let ghost sorted = pool@;
        let current_frame_id = self.current_frame_id;
        let mut k: usize = 0;
        while k < pool.len()
            invariant
                k <= pool@.len(),
                pool@ == sorted,
                sorted == sorted_by_age(old(self)@.render_target_pool),
                pool_measurable(sorted),
                all_inactive(sorted),
                pool_backed(sorted, start),
                current_frame_id == old(self)@.current_frame_id,
                old(self)@.wf(),
                self.stores_wf(),
                self@ == (ResourceCacheView {
                    texture_cache: self.texture_cache@,
                    render_target_pool: Seq::empty(),
                    ..old(self)@
                }),
                (Collection {
                    retained: kept_targets(retained_targets),
                    bytes: rt_pool_size_in_bytes as int,
                    texture_cache: self.texture_cache@,
                }) == Collection::after(
                    sorted,
                    k as int,
                    start,
                    current_frame_id,
                    total_bytes_threshold,
                    total_bytes_red_line_threshold,
                    frames_threshold,
                ),
                rt_pool_size_in_bytes >= pool_bytes(sorted) - pool_bytes(sorted.take(k as int)),
                // What was kept is backed; what is left to look at still is.
                pool_backed(kept_targets(retained_targets), self.texture_cache@),
                forall|j: int| k <= j < sorted.len() ==> self.texture_cache@.is_render_target(
                    (#[trigger] sorted[j]).texture_id,
                ),
                forall|j: int|
                    0 <= j < kept_targets(retained_targets).len() ==> exists|m: int|
                        0 <= m < k && sorted[m] == #[trigger] kept_targets(retained_targets)[j],
            decreases pool@.len() - k,
        {
            let target = pool[k];
            proof {
                crate::render_target_pool::lemma_pool_bytes_split(sorted, k as int);
                crate::render_target_pool::lemma_pool_bytes_split(sorted, k + 1);
                assert(sorted.take(k + 1).drop_last() =~= sorted.take(k as int));
                assert(sorted.take(k + 1).last() == target);
                crate::render_target_pool::lemma_size_not_negative(target);
            }
            // Drop the oldest textures until the pool is under the
            // threshold. What was used lately always stays, so that pages
            // that need a large pool and change all the time do not thrash
            // the texture allocations.
            let above_red_line = rt_pool_size_in_bytes > total_bytes_red_line_threshold;
            let above_threshold = rt_pool_size_in_bytes > total_bytes_threshold;
            let used_recently = target.used_recently(current_frame_id, frames_threshold);
            let used_this_frame = target.last_frame_used == current_frame_id;
            let ghost kept_before = kept_targets(retained_targets);
            let ghost cache_before = self.texture_cache@;
            if !used_this_frame && (above_red_line || (above_threshold && !used_recently)) {
                rt_pool_size_in_bytes = rt_pool_size_in_bytes - target.size_in_bytes();
                self.texture_cache.free_render_target(target.texture_id);
                proof {
                    assert forall|j: int| 0 <= j < kept_before.len() implies self.texture_cache@.is_render_target(
                        (#[trigger] kept_before[j]).texture_id,
                    ) by {
                        let m = choose|m: int| 0 <= m < k && sorted[m] == kept_before[j];
                        assert(sorted[m].texture_id != sorted[k as int].texture_id);
                        assert(cache_before.is_render_target(kept_before[j].texture_id));
                    }
                    assert forall|j: int| k + 1 <= j < sorted.len() implies self.texture_cache@.is_render_target(
                        (#[trigger] sorted[j]).texture_id,
                    ) by {
                        assert(sorted[k as int].texture_id != sorted[j].texture_id);
                    }
                }
            } else {
                retained_targets.push(target);
                proof {
                    let kept = kept_targets(retained_targets);
                    assert forall|j: int| 0 <= j < kept.len() implies exists|m: int|
                        0 <= m < k + 1 && sorted[m] == #[trigger] kept[j] by {
                        if j < kept_before.len() {
                            let m = choose|m: int| 0 <= m < k && sorted[m] == kept_before[j];
                            assert(sorted[m] == kept[j]);
                        } else {
                            assert(sorted[k as int] == kept[j]);
                        }
                    }
                    assert forall|a: int, b: int| 0 <= a < b < kept.len() implies (#[trigger] kept[a]).texture_id != (
                    #[trigger] kept[b]).texture_id by {
                        if b == kept.len() - 1 {
                            let m = choose|m: int| 0 <= m < k && sorted[m] == kept_before[a];
                            assert(sorted[m].texture_id != sorted[k as int].texture_id);
                        }
                    }
                }
            }
            k = k + 1;
        }
        retained_targets.extend_into(&mut self.render_target_pool);
        proof {
            assert(self.render_target_pool@ =~= kept_targets(retained_targets));
        }
    }

    /// Whether the pool of render targets holds, in this order, targets of
    /// the given widths, heights and formats, and no others.
    pub fn validate_surfaces(&self, expected_surfaces: &[(i32, i32, ImageFormat)]) -> (valid: bool)
        ensures
            valid == (expected_surfaces@.len() == self@.render_target_pool.len() && forall|i: int|
                0 <= i < expected_surfaces@.len() ==> {
                    &&& (#[trigger] self@.render_target_pool[i]).size.width == expected_surfaces@[i].0
                    &&& self@.render_target_pool[i].size.height == expected_surfaces@[i].1
                    &&& self@.render_target_pool[i].format == expected_surfaces@[i].2
                }),
    {
        if expected_surfaces.len() != self.render_target_pool.len() {
            return false;
        }
        let mut i: usize = 0;
        while i < expected_surfaces.len()
            invariant
                i <= expected_surfaces@.len(),
                expected_surfaces@.len() == self.render_target_pool@.len(),
                forall|j: int|
                    0 <= j < i ==> {
                        &&& (#[trigger] self.render_target_pool@[j]).size.width == expected_surfaces@[j].0
                        &&& self.render_target_pool@[j].size.height == expected_surfaces@[j].1
                        &&& self.render_target_pool@[j].format == expected_surfaces@[j].2
                    },
            decreases expected_surfaces@.len() - i,
        {
            let expected = expected_surfaces[i];
            let surface = self.render_target_pool[i];
            if !(surface.size.width == expected.0 && surface.size.height == expected.1 && surface.format
                == expected.2) {
                return false;
            }
            i = i + 1;
        }
        true
    }
}

} // verus!
