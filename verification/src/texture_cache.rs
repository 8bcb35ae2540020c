//! The texture cache as the resource cache sees it: which handles are
//! backed by a texture, with what parameters, and which uploads are queued
//! for the renderer.
//!
//! Every allocation gets a texture slot of its own and a slot is never given
//! out twice, so a handle that went stale cannot come to name a newer
//! allocation. Where the pixels end up inside the GPU's textures is left to
//! whoever drains the queue of updates.

use vstd::prelude::*;
use crate::api::{DirtyRect, ImageDescriptor, ImageDirtyRect, ImageFormat};
use crate::gpu_types::UvRectKind;
use crate::internal_types::{
    CacheTextureId,
    FloatBits4,
    FrameId,
    FrameStamp,
    GpuCacheHandle,
    TextureFilter,
    TextureSource,
};
use crate::resource_cache::{CacheItem, CachedImageData, CachedImageDataView};
use crate::units::{DeviceIntRect, DeviceIntSize};

verus! {

/// Who decides when a cached item leaves the texture cache.
#[derive(Clone, Copy, Debug, PartialEq, Eq, Structural, Hash)]
pub enum Eviction {
    /// The texture cache, when the item has not been used for a while.
    Auto,
    /// The owner of the handle, by `evict_handle`.
    Manual,
}

/// The shader that will sample the item.
#[derive(Clone, Copy, Debug, PartialEq, Eq, Structural, Hash)]
pub enum TargetShader {
    Default,
    Text,
}

/// Names an allocation in the texture cache. A handle may be invalid from
/// the start, or go stale when its allocation is evicted.
#[derive(Clone, Copy, Debug, PartialEq, Eq, Structural, Hash)]
pub struct TextureCacheHandle {
    pub slot: Option<usize>,
}

impl TextureCacheHandle {
    /// The handle that names no allocation.
    pub fn invalid() -> (h: Self)
        ensures
            h.slot.is_none(),
    {
        TextureCacheHandle { slot: None }
    }
}

/// What the texture cache knows of one cached item.
#[derive(Clone, Copy, Debug, PartialEq, Eq, Structural)]
pub struct CacheEntry {
    pub size: DeviceIntSize,
    pub format: ImageFormat,
    pub filter: TextureFilter,
    pub user_data: FloatBits4,
    pub uv_rect_kind: UvRectKind,
    pub eviction: Eviction,
    pub shader: TargetShader,
    /// The item may not share a texture with other items.
    pub standalone: bool,
    /// The frame in which the item was last asked for or written.
    pub last_access: FrameId,
}

/// One texture slot of the texture cache.
#[derive(Clone, Copy, Debug, PartialEq, Eq, Structural)]
pub enum TextureSlot {
    /// The slot was given up.
    Free,
    /// The slot backs a cached item.
    Item(CacheEntry),
    /// The slot is an off-screen render target.
    RenderTarget { size: DeviceIntSize, format: ImageFormat },
}

/// An upload that waits for the renderer.
pub struct TextureUpdate {
    pub texture_id: CacheTextureId,
    /// Layout of `data`.
    pub descriptor: ImageDescriptor,
    pub data: CachedImageData,
    /// The part of the item that `data` renews.
    pub dirty_rect: ImageDirtyRect,
}

/// An upload that waits for the renderer, as a mathematical value.
pub struct TextureUpdateView {
    pub texture_id: CacheTextureId,
    pub descriptor: ImageDescriptor,
    pub data: CachedImageDataView,
    pub dirty_rect: ImageDirtyRect,
}

impl TextureUpdate {
    pub open spec fn view(&self) -> TextureUpdateView {
        TextureUpdateView {
            texture_id: self.texture_id,
            descriptor: self.descriptor,
            data: self.data@,
            dirty_rect: self.dirty_rect,
        }
    }
}

/// The queued uploads as mathematical values.
pub open spec fn update_views(updates: Seq<TextureUpdate>) -> Seq<TextureUpdateView> {
    updates.map_values(|u: TextureUpdate| u@)
}

/// The texture cache as a mathematical value.
pub struct TextureCacheView {
    pub max_texture_size: i32,
    pub tiling_threshold: i32,
    pub shared_color_format: ImageFormat,
    pub shared_cache_limit: i32,
    pub slots: Seq<TextureSlot>,
    pub now: FrameId,
    pub pending_updates: Seq<TextureUpdateView>,
}

/// Allocation bookkeeping and update queue of the texture cache.
pub struct TextureCache {
    max_texture_size: i32,
    tiling_threshold: i32,
    shared_color_format: ImageFormat,
    shared_cache_limit: i32,
    slots: Vec<TextureSlot>,
    now: FrameId,
    pending_updates: Vec<TextureUpdate>,
}

impl TextureCacheView {
    /// The cached item that a handle names, if its allocation is alive.
    pub open spec fn entry(self, handle: TextureCacheHandle) -> Option<CacheEntry> {
        match handle.slot {
            Some(i) => if i < self.slots.len() {
                match self.slots[i as int] {
                    TextureSlot::Item(e) => Some(e),
                    _ => None,
                }
            } else {
                None
            },
            None => None,
        }
    }

    /// Whether the handle names an allocation that is alive.
    pub open spec fn allocated(self, handle: TextureCacheHandle) -> bool {
        self.entry(handle).is_some()
    }

    /// Whether the id names a render target that is alive.
    pub open spec fn is_render_target(self, id: CacheTextureId) -> bool {
        id.0 < self.slots.len() && self.slots[id.0 as int] is RenderTarget
    }

    /// Where the item of a live handle sits.
    pub open spec fn item(self, handle: TextureCacheHandle) -> CacheItem
        recommends
            self.allocated(handle),
    {
        CacheItem {
            texture_id: TextureSource::TextureCache(CacheTextureId(handle.slot.unwrap())),
            uv_rect_handle: GpuCacheHandle { location: handle.slot },
            uv_rect: DeviceIntRect::spec_from_size(self.entry(handle).unwrap().size),
            user_data: self.entry(handle).unwrap().user_data,
        }
    }

    /// Whether an item of this layout may share a texture with others: it
    /// must fit the shared textures, and what is sampled unfiltered needs
    /// more than two bytes per pixel.
    pub open spec fn allowed_in_shared_cache(self, filter: TextureFilter, descriptor: ImageDescriptor) -> bool {
        &&& descriptor.size.width <= self.shared_cache_limit
        &&& descriptor.size.height <= self.shared_cache_limit
        &&& !(filter == TextureFilter::Nearest && descriptor.format.spec_bytes_per_pixel() <= 2)
    }

    /// The cache after the item of `handle` was asked for: a live item is
    /// marked as used in this frame.
    pub open spec fn touched(self, handle: TextureCacheHandle) -> TextureCacheView {
        match self.entry(handle) {
            Some(e) => TextureCacheView {
                slots: self.slots.update(
                    handle.slot.unwrap() as int,
                    TextureSlot::Item(CacheEntry { last_access: self.now, ..e }),
                ),
                ..self
            },
            None => self,
        }
    }

    /// The cache after the allocation of `handle`, if any, was given up.
    pub open spec fn evicted(self, handle: TextureCacheHandle) -> TextureCacheView {
        if self.allocated(handle) {
            TextureCacheView { slots: self.slots.update(handle.slot.unwrap() as int, TextureSlot::Free), ..self }
        } else {
            self
        }
    }

    /// The cache after the allocations of all the handles in a set were
    /// given up.
    pub open spec fn evicted_all(self, handles: Set<TextureCacheHandle>) -> TextureCacheView {
        TextureCacheView {
            slots: Seq::new(
                self.slots.len(),
                |i: int|
                    if self.slots[i] is Item && handles.contains(TextureCacheHandle { slot: Some(i as usize) }) {
                        TextureSlot::Free
                    } else {
                        self.slots[i]
                    },
            ),
            ..self
        }
    }

    /// Giving up the allocations of a set of handles and then that of one
    /// more is giving up those of the larger set; the empty set changes
    /// nothing.
    pub proof fn lemma_evicted_all_step(self, handles: Set<TextureCacheHandle>, handle: TextureCacheHandle)
        requires
            self.slots.len() <= usize::MAX,
        ensures
            self.evicted_all(handles).evicted(handle) == self.evicted_all(handles.insert(handle)),
            self.evicted_all(Set::empty()) == self,
    {
        let a = self.evicted_all(handles).evicted(handle);
        let b = self.evicted_all(handles.insert(handle));
        assert(a.slots =~= b.slots) by {
            assert forall|i: int| 0 <= i < self.slots.len() implies a.slots[i] == b.slots[i] by {
                let h = TextureCacheHandle { slot: Some(i as usize) };
                if handle.slot == Some(i as usize) {
                    assert(h == handle);
                }
            }
        }
        assert(self.evicted_all(Set::empty()).slots =~= self.slots);
    }

    /// The cache after a render target was given up.
    pub open spec fn render_target_freed(self, id: CacheTextureId) -> TextureCacheView {
        TextureCacheView { slots: self.slots.update(id.0 as int, TextureSlot::Free), ..self }
    }

    /// The cache after a render target was allocated.
    pub open spec fn render_target_allocated(self, size: DeviceIntSize, format: ImageFormat) -> TextureCacheView {
        TextureCacheView { slots: self.slots.push(TextureSlot::RenderTarget { size, format }), ..self }
    }

    /// The cache after all the render targets of a set were given up.
    pub open spec fn render_targets_freed(self, ids: Set<CacheTextureId>) -> TextureCacheView {
        TextureCacheView {
            slots: Seq::new(
                self.slots.len(),
                |i: int|
                    if self.slots[i] is RenderTarget && ids.contains(CacheTextureId(i as usize)) {
                        TextureSlot::Free
                    } else {
                        self.slots[i]
                    },
            ),
            ..self
        }
    }

    /// Giving up no render target changes nothing.
    pub proof fn lemma_render_targets_freed_none(self)
        ensures
            self.render_targets_freed(Set::empty()) == self,
    {
        assert(self.render_targets_freed(Set::empty()).slots =~= self.slots);
    }

    /// Giving up the render targets of a set and then one more is giving up
    /// those of the larger set.
    pub proof fn lemma_render_targets_freed_step(self, ids: Set<CacheTextureId>, id: CacheTextureId)
        requires
            self.slots.len() <= usize::MAX,
            self.is_render_target(id),
        ensures
            self.render_targets_freed(ids).render_target_freed(id) == self.render_targets_freed(ids.insert(id)),
    {
        let a = self.render_targets_freed(ids).render_target_freed(id);
        let b = self.render_targets_freed(ids.insert(id));
        assert(a.slots =~= b.slots) by {
            assert forall|i: int| 0 <= i < self.slots.len() implies a.slots[i] == b.slots[i] by {
                if id.0 == i {
                    assert(CacheTextureId(i as usize) == id);
                }
            }
        }
    }

    /// Whether two caches have the same live render targets.
    pub open spec fn same_render_targets(self, other: TextureCacheView) -> bool {
        forall|id: CacheTextureId| self.is_render_target(id) == other.is_render_target(id)
    }

    /// Asking for items, giving items up and clearing the items leave the
    /// render targets alone.
    pub proof fn lemma_render_targets_kept(self)
        ensures
            forall|h: TextureCacheHandle| self.same_render_targets(#[trigger] self.touched(h)),
            forall|h: TextureCacheHandle| self.same_render_targets(#[trigger] self.evicted(h)),
            forall|s: Set<TextureCacheHandle>| self.same_render_targets(#[trigger] self.evicted_all(s)),
            self.same_render_targets(self.cleared()),
    {
    }

    /// An update leaves the render targets alone.
    pub proof fn lemma_update_keeps_render_targets(
        self,
        handle: TextureCacheHandle,
        descriptor: ImageDescriptor,
        filter: TextureFilter,
        data: Option<CachedImageDataView>,
        user_data: FloatBits4,
        dirty_rect: ImageDirtyRect,
        uv_rect_kind: UvRectKind,
        eviction: Eviction,
        shader: TargetShader,
        force_standalone: bool,
    )
        ensures
            self.same_render_targets(
                self.updated(
                    handle,
                    descriptor,
                    filter,
                    data,
                    user_data,
                    dirty_rect,
                    uv_rect_kind,
                    eviction,
                    shader,
                    force_standalone,
                ),
            ),
    {
    }

    /// Giving up the allocations of two sets of handles one after the other
    /// is giving up those of their union.
    pub proof fn lemma_evicted_all_union(self, first: Set<TextureCacheHandle>, second: Set<TextureCacheHandle>)
        ensures
            self.evicted_all(first).evicted_all(second) == self.evicted_all(first.union(second)),
    {
        assert(self.evicted_all(first).evicted_all(second).slots =~= self.evicted_all(first.union(second)).slots);
    }

    /// An update needs a fresh allocation when the handle has none, or has
    /// one of another size or format.
    pub open spec fn needs_realloc(self, handle: TextureCacheHandle, descriptor: ImageDescriptor) -> bool {
        match self.entry(handle) {
            Some(e) => e.size != descriptor.size || e.format != descriptor.format,
            None => true,
        }
    }

    /// The handle after an update: that of the fresh allocation, or the old one.
    pub open spec fn handle_after_update(
        self,
        handle: TextureCacheHandle,
        descriptor: ImageDescriptor,
    ) -> TextureCacheHandle {
        if self.needs_realloc(handle, descriptor) {
            TextureCacheHandle { slot: Some(self.slots.len() as usize) }
        } else {
            handle
        }
    }

    /// The cache after an update. A fresh allocation takes the next slot and
    /// all the parameters, gives up what the handle named before, and has
    /// all of its pixels uploaded. An allocation that is kept only takes the
    /// new `uv_rect_kind`. Where there is data, an upload is queued.
    pub open spec fn updated(
        self,
        handle: TextureCacheHandle,
        descriptor: ImageDescriptor,
        filter: TextureFilter,
        data: Option<CachedImageDataView>,
        user_data: FloatBits4,
        dirty_rect: ImageDirtyRect,
        uv_rect_kind: UvRectKind,
        eviction: Eviction,
        shader: TargetShader,
        force_standalone: bool,
    ) -> TextureCacheView {
        let realloc = self.needs_realloc(handle, descriptor);
        let new_handle = self.handle_after_update(handle, descriptor);
        let slots = if realloc {
            self.evicted(handle).slots.push(
                TextureSlot::Item(
                    CacheEntry {
                        size: descriptor.size,
                        format: descriptor.format,
                        filter,
                        user_data,
                        uv_rect_kind,
                        eviction,
                        shader,
                        standalone: force_standalone || !self.allowed_in_shared_cache(filter, descriptor),
                        last_access: self.now,
                    },
                ),
            )
        } else {
            self.slots.update(
                handle.slot.unwrap() as int,
                TextureSlot::Item(CacheEntry { uv_rect_kind, last_access: self.now, ..self.entry(handle).unwrap() }),
            )
        };
        let pending_updates = match data {
            Some(d) => self.pending_updates.push(
                TextureUpdateView {
                    texture_id: CacheTextureId(new_handle.slot.unwrap()),
                    descriptor,
                    data: d,
                    dirty_rect: if realloc { DirtyRect::All } else { dirty_rect },
                },
            ),
            None => self.pending_updates,
        };
        TextureCacheView { slots, pending_updates, ..self }
    }

    /// The cache after every cached item was given up. Render targets stay.
    pub open spec fn cleared(self) -> TextureCacheView {
        TextureCacheView {
            slots: Seq::new(
                self.slots.len(),
                |i: int| if self.slots[i] is Item { TextureSlot::Free } else { self.slots[i] },
            ),
            ..self
        }
    }
}

impl TextureCache {
    /// The slots of a cache can be counted.
    pub proof fn lemma_slots_countable(&self)
        ensures
            self@.slots.len() <= usize::MAX,
    {
        vstd::std_specs::vec::axiom_spec_len(&self.slots);
    }

    pub closed spec fn view(&self) -> TextureCacheView {
        TextureCacheView {
            max_texture_size: self.max_texture_size,
            tiling_threshold: self.tiling_threshold,
            shared_color_format: self.shared_color_format,
            shared_cache_limit: self.shared_cache_limit,
            slots: self.slots@,
            now: self.now,
            pending_updates: update_views(self.pending_updates@),
        }
    }

    /// A cache with no allocation, before the first frame.
    pub fn new(
        max_texture_size: i32,
        tiling_threshold: i32,
        shared_color_format: ImageFormat,
        shared_cache_limit: i32,
    ) -> (cache: Self)
        ensures
            cache@ == (TextureCacheView {
                max_texture_size,
                tiling_threshold,
                shared_color_format,
                shared_cache_limit,
                slots: Seq::empty(),
                now: FrameId(0),
                pending_updates: Seq::empty(),
            }),
    {
        let cache = TextureCache {
            max_texture_size,
            tiling_threshold,
            shared_color_format,
            shared_cache_limit,
            slots: Vec::new(),
            now: FrameId::invalid(),
            pending_updates: Vec::new(),
        };
        assert(cache@.pending_updates =~= Seq::empty());
        cache
    }

    /// A cache for tests: images are tiled only where the hardware forces
    /// it, and shared textures hold items of up to 512 pixels a side.
    pub fn new_for_testing(max_texture_size: i32, image_format: ImageFormat) -> (cache: Self)
        ensures
            cache@ == (TextureCacheView {
                max_texture_size,
                tiling_threshold: max_texture_size,
                shared_color_format: image_format,
                shared_cache_limit: 512,
                slots: Seq::empty(),
                now: FrameId(0),
                pending_updates: Seq::empty(),
            }),
    {
        Self::new(max_texture_size, max_texture_size, image_format, 512)
    }

    /// The largest side of a texture that the hardware takes.
    pub fn max_texture_size(&self) -> (size: i32)
        ensures
            size == self@.max_texture_size,
    {
        self.max_texture_size
    }

    /// The side above which an image is better cut into tiles.
    pub fn tiling_threshold(&self) -> (size: i32)
        ensures
            size == self@.tiling_threshold,
    {
        self.tiling_threshold
    }

    /// The format of the shared colour textures.
    pub fn shared_color_expected_format(&self) -> (format: ImageFormat)
        ensures
            format == self@.shared_color_format,
    {
        self.shared_color_format
    }

    /// Whether an item of this layout may share a texture with others.
    pub fn is_allowed_in_shared_cache(&self, filter: TextureFilter, descriptor: &ImageDescriptor) -> (allowed:
        bool)
        ensures
            allowed == self@.allowed_in_shared_cache(filter, *descriptor),
    {
        descriptor.size.width <= self.shared_cache_limit && descriptor.size.height
            <= self.shared_cache_limit && !(filter == TextureFilter::Nearest
            && descriptor.format.bytes_per_pixel() <= 2)
    }

    /// Starts a frame: what is asked for from now on counts as used in it.
    pub fn begin_frame(&mut self, stamp: FrameStamp)
        ensures
            final(self)@ == (TextureCacheView { now: stamp.id, ..old(self)@ }),
    {
        self.now = stamp.frame_id();
    }

    /// The cached item of a handle, if its allocation is alive.
    pub fn entry_of(&self, handle: &TextureCacheHandle) -> (entry: Option<CacheEntry>)
        ensures
            entry == self@.entry(*handle),
    {
        match handle.slot {
            Some(i) => if i < self.slots.len() {
                match self.slots[i] {
                    TextureSlot::Item(e) => Some(e),
                    _ => None,
                }
            } else {
                None
            },
            None => None,
        }
    }

    /// Asks for the item of a handle to be there in this frame. Returns
    /// whether the item has to be uploaded because the handle has no live
    /// allocation; a live item is marked as used.
    pub fn request(&mut self, handle: &TextureCacheHandle) -> (needs_upload: bool)
        ensures
            needs_upload == !old(self)@.allocated(*handle),
            final(self)@ == old(self)@.touched(*handle),
    {
        match self.entry_of(handle) {
            Some(e) => {
                let i = handle.slot.unwrap();
                self.slots[i] = TextureSlot::Item(CacheEntry { last_access: self.now, ..e });
                false
            },
            None => true,
        }
    }

    /// Where the item of a handle sits, if its allocation is alive.
    pub fn try_get(&self, handle: &TextureCacheHandle) -> (item: Option<CacheItem>)
        ensures
            item == (if self@.allocated(*handle) {
                Some(self@.item(*handle))
            } else {
                None
            }),
    {
        match self.entry_of(handle) {
            Some(e) => Some(
                CacheItem {
                    texture_id: TextureSource::TextureCache(CacheTextureId(handle.slot.unwrap())),
                    uv_rect_handle: GpuCacheHandle { location: handle.slot },
                    uv_rect: DeviceIntRect::from_size(e.size),
                    user_data: e.user_data,
                },
            ),
            None => None,
        }
    }

    /// Where the item of a live handle sits.
    pub fn get(&self, handle: &TextureCacheHandle) -> (item: CacheItem)
        requires
            self@.allocated(*handle),
        ensures
            item == self@.item(*handle),
    {
        self.try_get(handle).unwrap()
    }

    /// The texture and the rectangle of a live handle.
    pub fn get_cache_location(&self, handle: &TextureCacheHandle) -> (location: (CacheTextureId, DeviceIntRect))
        requires
            self@.allocated(*handle),
        ensures
            location.0 == CacheTextureId(handle.slot.unwrap()),
            location.1 == DeviceIntRect::spec_from_size(self@.entry(*handle).unwrap().size),
    {
        let e = self.entry_of(handle).unwrap();
        (CacheTextureId(handle.slot.unwrap()), DeviceIntRect::from_size(e.size))
    }

    /// Gives up the allocation of a handle, whoever was to decide on its
    /// eviction. The handle is stale from then on.
    pub fn evict_handle(&mut self, handle: &TextureCacheHandle)
        ensures
            final(self)@ == old(self)@.evicted(*handle),
            !final(self)@.allocated(*handle),
    {
        match self.entry_of(handle) {
            Some(_) => {
                let i = handle.slot.unwrap();
                self.slots[i] = TextureSlot::Free;
            },
            None => {},
        }
    }

    /// Allocates for the handle where that is needed, and queues the upload
    /// of `data` where there is any.
    pub fn update(
        &mut self,
        handle: &mut TextureCacheHandle,
        descriptor: ImageDescriptor,
        filter: TextureFilter,
        data: Option<CachedImageData>,
        user_data: FloatBits4,
        dirty_rect: ImageDirtyRect,
        uv_rect_kind: UvRectKind,
        eviction: Eviction,
        shader: TargetShader,
        force_standalone: bool,
    )
        ensures
            final(self)@ == old(self)@.updated(
                *old(handle),
                descriptor,
                filter,
                match data {
                    Some(d) => Some(d@),
                    None => None,
                },
                user_data,
                dirty_rect,
                uv_rect_kind,
                eviction,
                shader,
                force_standalone,
            ),
            *final(handle) == old(self)@.handle_after_update(*old(handle), descriptor),
            final(self)@.allocated(*final(handle)),
    {
        let realloc = match self.entry_of(handle) {
            Some(e) => e.size != descriptor.size || e.format != descriptor.format,
            None => true,
        };
        let mut dirty_rect = dirty_rect;
        if realloc {
            let standalone = force_standalone || !self.is_allowed_in_shared_cache(filter, &descriptor);
            self.evict_handle(handle);
            let slot = self.slots.len();
            self.slots.push(
                TextureSlot::Item(
                    CacheEntry {
                        size: descriptor.size,
                        format: descriptor.format,
                        filter,
                        user_data,
                        uv_rect_kind,
                        eviction,
                        shader,
                        standalone,
                        last_access: self.now,
                    },
                ),
            );
            *handle = TextureCacheHandle { slot: Some(slot) };
            // A fresh allocation holds nothing yet: all of it is uploaded.
            dirty_rect = DirtyRect::All;
        } else {
            let i = handle.slot.unwrap();
            let e = self.entry_of(handle).unwrap();
            self.slots[i] = TextureSlot::Item(CacheEntry { uv_rect_kind, last_access: self.now, ..e });
        }
        match data {
            Some(d) => {
                let ghost queued = self.pending_updates@;
                let update = TextureUpdate {
                    texture_id: CacheTextureId(handle.slot.unwrap()),
                    descriptor,
                    data: d,
                    dirty_rect,
                };
                self.pending_updates.push(update);
                assert(update_views(self.pending_updates@) =~= update_views(queued).push(update@));
            },
            None => {},
        }
    }

    /// Allocates an off-screen render target.
    pub fn alloc_render_target(&mut self, size: DeviceIntSize, format: ImageFormat) -> (id: CacheTextureId)
        ensures
            id == CacheTextureId(old(self)@.slots.len() as usize),
            final(self)@ == old(self)@.render_target_allocated(size, format),
            !old(self)@.is_render_target(id),
            final(self)@.is_render_target(id),
    {
        let id = CacheTextureId(self.slots.len());
        self.slots.push(TextureSlot::RenderTarget { size, format });
        id
    }

    /// Gives up a render target. Its id names nothing from then on.
    pub fn free_render_target(&mut self, id: CacheTextureId)
        requires
            old(self)@.is_render_target(id),
        ensures
            final(self)@ == old(self)@.render_target_freed(id),
            !final(self)@.is_render_target(id),
    {
        self.slots[id.0] = TextureSlot::Free;
    }

    /// Hands the queued uploads to the renderer and empties the queue.
    pub fn pending_updates(&mut self) -> (updates: Vec<TextureUpdate>)
        ensures
            update_views(updates@) == old(self)@.pending_updates,
            final(self)@ == (TextureCacheView { pending_updates: Seq::empty(), ..old(self)@ }),
    {
        let mut updates = Vec::new();
        std::mem::swap(&mut updates, &mut self.pending_updates);
        assert(update_views(self.pending_updates@) =~= Seq::empty());
        updates
    }

    /// Gives up every cached item. Render targets stay.
    pub fn clear_all(&mut self)
        ensures
            final(self)@ == old(self)@.cleared(),
    {
        let mut i: usize = 0;
        while i < self.slots.len()
            invariant
                i <= self.slots@.len(),
                self.slots@.len() == old(self).slots@.len(),
                forall|j: int| 0 <= j < i ==> self.slots@[j] == old(self)@.cleared().slots[j],
                forall|j: int| i <= j < self.slots@.len() ==> self.slots@[j] == old(self).slots@[j],
                self.max_texture_size == old(self).max_texture_size,
                self.tiling_threshold == old(self).tiling_threshold,
                self.shared_color_format == old(self).shared_color_format,
                self.shared_cache_limit == old(self).shared_cache_limit,
                self.now == old(self).now,
                self.pending_updates == old(self).pending_updates,
            decreases self.slots@.len() - i,
        {
            match self.slots[i] {
                TextureSlot::Item(_) => {
                    self.slots[i] = TextureSlot::Free;
                },
                _ => {},
            }
            i = i + 1;
        }
        assert(self@.slots =~= old(self)@.cleared().slots);
    }
}

} // verus!
