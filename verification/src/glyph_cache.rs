//! The cache of rasterized glyphs, by font instance and glyph.
//!
//! A glyph that was asked for is `Pending` until the rasterizer is done with
//! it, and then `Cached` in the texture cache, or `Blank` when there is
//! nothing to draw.

use std::sync::Arc;
use vstd::prelude::*;
use crate::api::{DirtyRect, FontInstanceKey, FontKey, IdNamespace, ImageDescriptor, ImageDescriptorFlags};
use crate::class_cache::{list_contains, ResourceClassCache};
use crate::glyph_rasterizer::{
    negated,
    spec_negated,
    FontInstance,
    GlyphFormat,
    GlyphKey,
    GlyphRasterJob,
    RasterizedGlyph,
};
use crate::gpu_types::UvRectKind;
use crate::internal_types::{FloatBits4, GpuCacheHandle, TextureFilter, TextureSource};
use crate::resource_cache::{CachedImageData, CachedImageDataView};
use crate::texture_cache::{Eviction, TargetShader, TextureCache, TextureCacheHandle, TextureCacheView};
use crate::units::DeviceIntSize;

verus! {

/// A glyph that sits in the texture cache.
#[derive(Clone, Copy, Debug, PartialEq, Eq, Structural)]
pub struct CachedGlyphInfo {
    pub format: GlyphFormat,
    pub texture_cache_handle: TextureCacheHandle,
}

/// What the cache knows of a glyph.
#[derive(Clone, Copy, Debug, PartialEq, Eq, Structural)]
pub enum GlyphCacheEntry {
    /// The glyph was rasterized and uploaded.
    Cached(CachedGlyphInfo),
    /// The glyph has no pixels, or could not be rasterized.
    Blank,
    /// The rasterizer was asked for the glyph and has not answered.
    Pending,
}

/// The glyphs of one font instance.
pub type GlyphKeyCache = ResourceClassCache<GlyphKey, GlyphCacheEntry, ()>;

/// The glyphs of all font instances.
pub struct GlyphCache {
    glyph_key_caches: ResourceClassCache<FontInstance, GlyphKeyCache, ()>,
}

/// A glyph of a text run as the text shader wants it.
#[derive(Clone, Copy, Debug, PartialEq, Eq, Structural)]
pub struct GlyphFetchResult {
    pub index_in_text_run: i32,
    /// Where the GPU cache keeps the rectangle of the glyph.
    pub uv_rect_handle: GpuCacheHandle,
    /// The offset of the glyph from the pen position, two single-precision
    /// numbers.
    pub offset_x: u32,
    pub offset_y: u32,
    pub size: DeviceIntSize,
    /// The scale of the glyph, a single-precision number.
    pub scale: u32,
}

/// Glyphs of a text run that follow one another and are drawn from the same
/// texture in the same format.
pub struct GlyphBatch {
    pub texture_id: TextureSource,
    pub format: GlyphFormat,
    pub glyphs: Vec<GlyphFetchResult>,
}

/// A batch of glyphs as a mathematical value.
pub struct GlyphBatchView {
    pub texture_id: TextureSource,
    pub format: GlyphFormat,
    pub glyphs: Seq<GlyphFetchResult>,
}

impl GlyphBatch {
    pub open spec fn view(&self) -> GlyphBatchView {
        GlyphBatchView { texture_id: self.texture_id, format: self.format, glyphs: self.glyphs@ }
    }
}

/// Batches as mathematical values.
pub open spec fn batch_views(batches: Seq<GlyphBatch>) -> Seq<GlyphBatchView> {
    batches.map_values(|b: GlyphBatch| b@)
}

/// The glyphs of the font instances as mathematical values.
pub open spec fn glyph_views(caches: Map<FontInstance, GlyphKeyCache>) -> Map<
    FontInstance,
    Map<GlyphKey, GlyphCacheEntry>,
> {
    caches.map_values(|c: GlyphKeyCache| c@)
}

/// Where asking for the glyphs of a font instance stands: the glyphs of the
/// instance, the texture cache, and the glyphs that the rasterizer has to
/// make.
pub struct GlyphRequests {
    pub glyphs: Map<GlyphKey, GlyphCacheEntry>,
    pub texture_cache: TextureCacheView,
    pub wanted: Seq<GlyphKey>,
}

impl GlyphRequests {
    /// Asking for one more glyph. A cached glyph whose allocation is alive
    /// is marked as used. A glyph that is blank or pending is left alone. A
    /// glyph that is unknown, or whose allocation is gone, becomes pending
    /// and is wanted from the rasterizer.
    pub open spec fn with_key(self, key: GlyphKey) -> GlyphRequests {
        let rasterize = GlyphRequests {
            glyphs: self.glyphs.insert(key, GlyphCacheEntry::Pending),
            wanted: self.wanted.push(key),
            ..self
        };
        if self.glyphs.contains_key(key) {
            match self.glyphs[key] {
                GlyphCacheEntry::Cached(glyph) => if self.texture_cache.allocated(glyph.texture_cache_handle) {
                    GlyphRequests {
                        texture_cache: self.texture_cache.touched(glyph.texture_cache_handle),
                        ..self
                    }
                } else {
                    rasterize
                },
                GlyphCacheEntry::Blank | GlyphCacheEntry::Pending => self,
            }
        } else {
            rasterize
        }
    }

    /// Asking for some glyphs, the first one first.
    pub open spec fn with_keys(self, keys: Seq<GlyphKey>) -> GlyphRequests
        decreases keys.len(),
    {
        if keys.len() == 0 {
            self
        } else {
            self.with_keys(keys.drop_last()).with_key(keys.last())
        }
    }
}

/// Where taking in the answers of the rasterizer stands: the glyphs of all
/// font instances, and the texture cache.
pub struct GlyphResolution {
    pub glyphs: Map<FontInstance, Map<GlyphKey, GlyphCacheEntry>>,
    pub texture_cache: TextureCacheView,
}

/// The layout of the pixels of a rasterized glyph.
pub open spec fn glyph_descriptor(glyph: RasterizedGlyph) -> ImageDescriptor {
    ImageDescriptor {
        size: DeviceIntSize { width: glyph.width, height: glyph.height },
        stride: None,
        format: glyph.image_format,
        flags: ImageDescriptorFlags { is_opaque: false, allow_mipmaps: false },
        offset: 0,
    }
}

/// What the text shader is told of a glyph: its offset from the pen, with
/// the vertical axis pointing down, and its scale.
pub open spec fn glyph_user_data(glyph: RasterizedGlyph) -> FloatBits4 {
    FloatBits4 { x: glyph.left, y: spec_negated(glyph.top), z: glyph.scale, w: 0 }
}

/// Whether a job brings pixels: it did not fail, and its glyph is neither
/// of width nor of height zero.
pub open spec fn job_has_pixels(job: GlyphRasterJob) -> bool {
    match job.result {
        Ok(glyph) => !(glyph.width == 0 || glyph.height == 0),
        Err(_) => false,
    }
}

impl GlyphResolution {
    /// Taking in one answer. A glyph that failed or has no pixels is blank.
    /// Any other glyph gets a fresh allocation under automatic eviction, for
    /// the text shader and with linear filtering, and all its pixels are
    /// queued.
    pub open spec fn with_job(self, job: GlyphRasterJob) -> GlyphResolution {
        if job_has_pixels(job) {
            let glyph = job.result->Ok_0;
            let descriptor = glyph_descriptor(glyph);
            let handle = TextureCacheHandle { slot: None };
            GlyphResolution {
                glyphs: self.glyphs.insert(
                    job.font,
                    self.glyphs[job.font].insert(
                        job.key,
                        GlyphCacheEntry::Cached(
                            CachedGlyphInfo {
                                format: glyph.format,
                                texture_cache_handle: self.texture_cache.handle_after_update(handle, descriptor),
                            },
                        ),
                    ),
                ),
                texture_cache: self.texture_cache.updated(
                    handle,
                    descriptor,
                    TextureFilter::Linear,
                    Some(CachedImageDataView::Raw(glyph.bytes@)),
                    glyph_user_data(glyph),
                    DirtyRect::All,
                    UvRectKind::Rect,
                    Eviction::Auto,
                    TargetShader::Text,
                    false,
                ),
            }
        } else {
            GlyphResolution {
                glyphs: self.glyphs.insert(job.font, self.glyphs[job.font].insert(job.key, GlyphCacheEntry::Blank)),
                ..self
            }
        }
    }

    /// Taking in some answers, the first one first.
    pub open spec fn with_jobs(self, jobs: Seq<GlyphRasterJob>) -> GlyphResolution
        decreases jobs.len(),
    {
        if jobs.len() == 0 {
            self
        } else {
            self.with_jobs(jobs.drop_last()).with_job(jobs.last())
        }
    }

    /// Taking in answers keeps the render targets and the font instances
    /// that there are.
    pub proof fn lemma_with_jobs(self, jobs: Seq<GlyphRasterJob>)
        ensures
            self.texture_cache.same_render_targets(self.with_jobs(jobs).texture_cache),
            forall|f: FontInstance|
                self.glyphs.contains_key(f) ==> self.with_jobs(jobs).glyphs.contains_key(f),
        decreases jobs.len(),
    {
        if jobs.len() > 0 {
            self.lemma_with_jobs(jobs.drop_last());
            let before = self.with_jobs(jobs.drop_last());
            let job = jobs.last();
            if job_has_pixels(job) {
                let glyph = job.result->Ok_0;
                before.texture_cache.lemma_update_keeps_render_targets(
                    TextureCacheHandle { slot: None },
                    glyph_descriptor(glyph),
                    TextureFilter::Linear,
                    Some(CachedImageDataView::Raw(glyph.bytes@)),
                    glyph_user_data(glyph),
                    DirtyRect::All,
                    UvRectKind::Rect,
                    Eviction::Auto,
                    TargetShader::Text,
                    false,
                );
            }
        }
    }
}

/// Where collecting the glyphs of a text run stands: the batches that are
/// complete, and the batch that is being filled.
pub struct GlyphFetch {
    pub batches: Seq<GlyphBatchView>,
    pub texture_id: TextureSource,
    pub format: GlyphFormat,
    pub buffer: Seq<GlyphFetchResult>,
}

impl GlyphFetch {
    /// Nothing collected yet.
    pub open spec fn start() -> GlyphFetch {
        GlyphFetch {
            batches: Seq::empty(),
            texture_id: TextureSource::Invalid,
            format: GlyphFormat::Subpixel,
            buffer: Seq::empty(),
        }
    }

    /// The batches with the one that is being filled, if it holds a glyph.
    pub open spec fn flushed(self) -> Seq<GlyphBatchView> {
        if self.buffer.len() > 0 {
            self.batches.push(
                GlyphBatchView { texture_id: self.texture_id, format: self.format, glyphs: self.buffer },
            )
        } else {
            self.batches
        }
    }

    /// Collecting the glyph at `index` of the run. A glyph that is not
    /// cached is skipped. A cached glyph of another texture or format than
    /// the batch that is being filled closes that batch and starts the next.
    pub open spec fn with_glyph(self, index: int, entry: GlyphCacheEntry, texture_cache: TextureCacheView) -> GlyphFetch {
        match entry {
            GlyphCacheEntry::Cached(glyph) => {
                let item = texture_cache.item(glyph.texture_cache_handle);
                let result = GlyphFetchResult {
                    index_in_text_run: index as i32,
                    uv_rect_handle: item.uv_rect_handle,
                    offset_x: item.user_data.x,
                    offset_y: item.user_data.y,
                    size: DeviceIntSize {
                        width: (item.uv_rect.max.x - item.uv_rect.min.x) as i32,
                        height: (item.uv_rect.max.y - item.uv_rect.min.y) as i32,
                    },
                    scale: item.user_data.z,
                };
                if self.texture_id != item.texture_id || self.format != glyph.format {
                    GlyphFetch {
                        batches: self.flushed(),
                        texture_id: item.texture_id,
                        format: glyph.format,
                        buffer: seq![result],
                    }
                } else {
                    GlyphFetch { buffer: self.buffer.push(result), ..self }
                }
            },
            GlyphCacheEntry::Blank | GlyphCacheEntry::Pending => self,
        }
    }

    /// Collecting the first `n` glyphs of a run.
    pub open spec fn of_run(
        glyphs: Map<GlyphKey, GlyphCacheEntry>,
        texture_cache: TextureCacheView,
        keys: Seq<GlyphKey>,
        n: int,
    ) -> GlyphFetch
        decreases n,
    {
        if n <= 0 {
            Self::start()
        } else {
            Self::of_run(glyphs, texture_cache, keys, n - 1).with_glyph(n - 1, glyphs[keys[n - 1]], texture_cache)
        }
    }
}

/// Whether the glyphs of a text run can be fetched: the run is not longer
/// than an `i32` counts, the cache knows every glyph of it, and every
/// cached glyph of it has a live allocation.
pub open spec fn can_fetch_glyphs(
    glyphs: Map<GlyphKey, GlyphCacheEntry>,
    texture_cache: TextureCacheView,
    keys: Seq<GlyphKey>,
) -> bool {
    &&& keys.len() <= i32::MAX
    &&& forall|i: int|
        0 <= i < keys.len() ==> glyphs.contains_key(#[trigger] keys[i]) && match glyphs[keys[i]] {
            GlyphCacheEntry::Cached(glyph) => texture_cache.allocated(glyph.texture_cache_handle),
            _ => true,
        }
}

impl GlyphCache {
    /// Every font instance occurs once, and so does every glyph of an
    /// instance.
    pub closed spec fn wf(&self) -> bool {
        &&& self.glyph_key_caches.wf()
        &&& forall|f: FontInstance| #[trigger]
            self.glyph_key_caches@.contains_key(f) ==> self.glyph_key_caches@[f].wf()
    }

    pub closed spec fn view(&self) -> Map<FontInstance, Map<GlyphKey, GlyphCacheEntry>> {
        glyph_views(self.glyph_key_caches@)
    }

    /// A cache without glyphs.
    pub fn new() -> (cache: Self)
        ensures
            cache.wf(),
            cache@ == Map::<FontInstance, Map<GlyphKey, GlyphCacheEntry>>::empty(),
    {
        let cache = GlyphCache { glyph_key_caches: ResourceClassCache::new() };
        assert(cache@ =~= Map::empty());
        cache
    }

    /// Whether the cache knows a font instance.
    pub fn has_font(&self, font: &FontInstance) -> (known: bool)
        requires
            self.wf(),
        ensures
            known == self@.contains_key(*font),
    {
        self.glyph_key_caches.contains_key(font)
    }

    /// What the cache knows of a glyph of a font instance.
    pub fn get_entry(&self, font: &FontInstance, key: &GlyphKey) -> (entry: Option<GlyphCacheEntry>)
        requires
            self.wf(),
        ensures
            entry == (if self@.contains_key(*font) && self@[*font].contains_key(*key) {
                Some(self@[*font][*key])
            } else {
                None
            }),
    {
        match self.glyph_key_caches.try_get(font) {
            Some(cache) => match cache.try_get(key) {
                Some(entry) => Some(*entry),
                None => None,
            },
            None => None,
        }
    }

    /// Forgets every glyph of every font instance.
    pub fn clear(&mut self)
        ensures
            final(self).wf(),
            final(self)@ == Map::<FontInstance, Map<GlyphKey, GlyphCacheEntry>>::empty(),
    {
        self.glyph_key_caches.clear();
        assert(self@ =~= Map::empty());
    }

    /// Forgets the glyphs of the font instances for which `keep` says no.
    fn retain(&mut self, keep: &Vec<bool>, Ghost(kept): Ghost<Set<FontInstance>>)
        requires
            old(self).wf(),
            keep@.len() == old(self).glyph_key_caches.order().len(),
            forall|i: int|
                0 <= i < keep@.len() ==> keep@[i] == kept.contains(#[trigger] old(self).glyph_key_caches.order()[i]),
        ensures
            final(self).wf(),
            final(self)@ == old(self)@.restrict(kept),
    {
        proof {
            self.glyph_key_caches.lemma_marked_is_restrict(keep@, kept);
        }
        let _ = self.glyph_key_caches.retain_marked(keep);
        assert(self@ =~= old(self)@.restrict(kept));
    }

    /// Forgets the glyphs of every font instance of some fonts.
    pub fn delete_fonts(&mut self, font_keys: &[FontKey])
        requires
            old(self).wf(),
        ensures
            final(self).wf(),
            final(self)@ == old(self)@.restrict(Set::new(|f: FontInstance| !font_keys@.contains(f.font_key))),
    {
        let mut keep: Vec<bool> = Vec::new();
        let mut i: usize = 0;
        while i < self.glyph_key_caches.len()
            invariant
                self.wf(),
                *self == *old(self),
                i <= self.glyph_key_caches.order().len(),
                keep@.len() == i,
                forall|j: int|
                    0 <= j < i ==> keep@[j] == !font_keys@.contains(
                        (#[trigger] self.glyph_key_caches.order()[j]).font_key,
                    ),
            decreases self.glyph_key_caches.order().len() - i,
        {
            let font = self.glyph_key_caches.key_at(i);
            keep.push(!list_contains(font_keys, &font.font_key));
            i = i + 1;
        }
        self.retain(&keep, Ghost(Set::new(|f: FontInstance| !font_keys@.contains(f.font_key))));
    }

    /// Forgets the glyphs of some font instances.
    pub fn delete_font_instances(&mut self, instance_keys: &[FontInstanceKey])
        requires
            old(self).wf(),
        ensures
            final(self).wf(),
            final(self)@ == old(self)@.restrict(
                Set::new(|f: FontInstance| !instance_keys@.contains(f.instance_key)),
            ),
    {
        let mut keep: Vec<bool> = Vec::new();
        let mut i: usize = 0;
        while i < self.glyph_key_caches.len()
            invariant
                self.wf(),
                *self == *old(self),
                i <= self.glyph_key_caches.order().len(),
                keep@.len() == i,
                forall|j: int|
                    0 <= j < i ==> keep@[j] == !instance_keys@.contains(
                        (#[trigger] self.glyph_key_caches.order()[j]).instance_key,
                    ),
            decreases self.glyph_key_caches.order().len() - i,
        {
            let font = self.glyph_key_caches.key_at(i);
            keep.push(!list_contains(instance_keys, &font.instance_key));
            i = i + 1;
        }
        self.retain(&keep, Ghost(Set::new(|f: FontInstance| !instance_keys@.contains(f.instance_key))));
    }

    /// Forgets the glyphs of every font instance of a namespace.
    pub fn clear_namespace(&mut self, namespace: IdNamespace)
        requires
            old(self).wf(),
        ensures
            final(self).wf(),
            final(self)@ == old(self)@.restrict(Set::new(|f: FontInstance| f.instance_key.0 != namespace)),
    {
        let mut keep: Vec<bool> = Vec::new();
        let mut i: usize = 0;
        while i < self.glyph_key_caches.len()
            invariant
                self.wf(),
                *self == *old(self),
                i <= self.glyph_key_caches.order().len(),
                keep@.len() == i,
                forall|j: int|
                    0 <= j < i ==> keep@[j] == ((#[trigger] self.glyph_key_caches.order()[j]).instance_key.0
                        != namespace),
            decreases self.glyph_key_caches.order().len() - i,
        {
            let font = self.glyph_key_caches.key_at(i);
            keep.push(font.instance_key.0 != namespace);
            i = i + 1;
        }
        self.retain(&keep, Ghost(Set::new(|f: FontInstance| f.instance_key.0 != namespace)));
    }

    /// Asks for glyphs of a font instance to be in the texture cache in this
    /// frame. Returns the glyphs that the rasterizer has to make; they are
    /// pending from now on. The font instance is known to the cache
    /// afterwards, whether it has glyphs or not.
    pub fn request_glyphs(
        &mut self,
        font: FontInstance,
        glyph_keys: &[GlyphKey],
        texture_cache: &mut TextureCache,
    ) -> (wanted: Vec<GlyphKey>)
        requires
            old(self).wf(),
        ensures
            final(self).wf(),
            ({
                let known = if old(self)@.contains_key(font) {
                    old(self)@[font]
                } else {
                    Map::empty()
                };
                let done = (GlyphRequests {
                    glyphs: known,
                    texture_cache: old(texture_cache)@,
                    wanted: Seq::empty(),
                }).with_keys(glyph_keys@);
                &&& final(self)@ == old(self)@.insert(font, done.glyphs)
                &&& final(texture_cache)@ == done.texture_cache
                &&& wanted@ == done.wanted
                &&& old(texture_cache)@.same_render_targets(done.texture_cache)
            }),
    {
        if !self.glyph_key_caches.contains_key(&font) {
            self.glyph_key_caches.insert(font, ResourceClassCache::new());
        }
        let glyph_key_cache = self.glyph_key_caches.get_mut(&font);
        let ghost start = GlyphRequests {
            glyphs: glyph_key_cache@,
            texture_cache: texture_cache@,
            wanted: Seq::empty(),
        };
        let mut wanted: Vec<GlyphKey> = Vec::new();
        let mut i: usize = 0;
        proof {
            assert(glyph_keys@.take(0) =~= Seq::empty());
        }
        while i < glyph_keys.len()
            invariant
                i <= glyph_keys@.len(),
                glyph_key_cache.wf(),
                (GlyphRequests { glyphs: glyph_key_cache@, texture_cache: texture_cache@, wanted: wanted@ })
                    == start.with_keys(glyph_keys@.take(i as int)),
                start.texture_cache.same_render_targets(texture_cache@),
            decreases glyph_keys@.len() - i,
        {
            let key = glyph_keys[i];
            proof {
                assert(glyph_keys@.take(i + 1).drop_last() =~= glyph_keys@.take(i as int));
                assert(glyph_keys@.take(i + 1).last() == key);
                texture_cache@.lemma_render_targets_kept();
            }
            let rasterize = match glyph_key_cache.try_get(&key) {
                Some(GlyphCacheEntry::Cached(glyph)) => {
                    // A glyph with a live allocation is done. One that was
                    // rasterized and then evicted from the texture cache is
                    // made again.
                    texture_cache.request(&glyph.texture_cache_handle)
                },
                // A glyph that is blank or pending is left alone.
                Some(GlyphCacheEntry::Blank) | Some(GlyphCacheEntry::Pending) => false,
                None => true,
            };
            if rasterize {
                glyph_key_cache.insert(key, GlyphCacheEntry::Pending);
                wanted.push(key);
            }
            i = i + 1;
        }
        proof {
            assert(glyph_keys@.take(i as int) =~= glyph_keys@);
            assert(self@ =~= old(self)@.insert(font, glyph_key_cache@));
        }
        wanted
    }

    /// Takes in the glyphs that the rasterizer is done with, the first job
    /// first: each is uploaded to the texture cache, or recorded as blank.
    pub fn resolve_glyphs(
        &mut self,
        jobs: Vec<GlyphRasterJob>,
        texture_cache: &mut TextureCache,
    )
        requires
            old(self).wf(),
            forall|i: int| 0 <= i < jobs@.len() ==> old(self)@.contains_key(#[trigger] jobs@[i].font),
        ensures
            final(self).wf(),
            ({
                let done = (GlyphResolution { glyphs: old(self)@, texture_cache: old(texture_cache)@ }).with_jobs(
                    jobs@,
                );
                &&& final(self)@ == done.glyphs
                &&& final(texture_cache)@ == done.texture_cache
            }),
    {
        let ghost start = GlyphResolution { glyphs: self@, texture_cache: texture_cache@ };
        let ghost all = jobs@;
        proof {
            assert(all.take(0) =~= Seq::empty());
        }
        for job in it: jobs
            invariant
                it.seq() == all,
                self.wf(),
                forall|i: int| 0 <= i < all.len() ==> start.glyphs.contains_key(#[trigger] all[i].font),
                (GlyphResolution { glyphs: self@, texture_cache: texture_cache@ }) == start.with_jobs(
                    all.take(it.index() as int),
                ),
        {
            proof {
                let n = it.index() as int;
                assert(all.take(n + 1).drop_last() =~= all.take(n));
                assert(all.take(n + 1).last() == job);
                start.lemma_with_jobs(all.take(n));
                assert(start.glyphs.contains_key(all[n].font));
            }
            let ghost before = self@;
            let GlyphRasterJob { font, key, result } = job;
            let glyph_info = match result {
                Err(_) => GlyphCacheEntry::Blank,
                Ok(glyph) => {
                    if glyph.width == 0 || glyph.height == 0 {
                        GlyphCacheEntry::Blank
                    } else {
                        let mut texture_cache_handle = TextureCacheHandle::invalid();
                        let _ = texture_cache.request(&texture_cache_handle);
                        let format = glyph.format;
                        texture_cache.update(
                            &mut texture_cache_handle,
                            ImageDescriptor {
                                size: DeviceIntSize::new(glyph.width, glyph.height),
                                stride: None,
                                format: glyph.image_format,
                                flags: ImageDescriptorFlags::empty(),
                                offset: 0,
                            },
                            TextureFilter::Linear,
                            Some(CachedImageData::Raw(Arc::new(glyph.bytes))),
                            FloatBits4 { x: glyph.left, y: negated(glyph.top), z: glyph.scale, w: 0 },
                            DirtyRect::All,
                            UvRectKind::Rect,
                            Eviction::Auto,
                            TargetShader::Text,
                            false,
                        );
                        GlyphCacheEntry::Cached(CachedGlyphInfo { texture_cache_handle, format })
                    }
                },
            };
            let glyph_key_cache = self.glyph_key_caches.get_mut(&font);
            glyph_key_cache.insert(key, glyph_info);
            proof {
                assert(self@ =~= before.insert(font, before[font].insert(key, glyph_info)));
            }
        }
        proof {
            assert(all.take(all.len() as int) =~= all);
        }
    }

    /// Collects the glyphs of a text run for drawing, in the order of the
    /// run: glyphs that follow one another and share texture and format
    /// form a batch. Glyphs that are blank or pending are left out.
    pub fn fetch_glyphs(&self, font: FontInstance, glyph_keys: &[GlyphKey], texture_cache: &TextureCache) -> (batches:
        Vec<GlyphBatch>)
        requires
            self.wf(),
            self@.contains_key(font),
            can_fetch_glyphs(self@[font], texture_cache@, glyph_keys@),
        ensures
            batch_views(batches@) == GlyphFetch::of_run(
                self@[font],
                texture_cache@,
                glyph_keys@,
                glyph_keys@.len() as int,
            ).flushed(),
    {
        let glyph_key_cache = self.glyph_key_caches.get(&font);
        let mut batches: Vec<GlyphBatch> = Vec::new();
        let mut current_texture_id = TextureSource::Invalid;
        let mut current_glyph_format = GlyphFormat::Subpixel;
        let mut fetch_buffer: Vec<GlyphFetchResult> = Vec::new();
        let mut i: usize = 0;
        proof {
            assert(batch_views(batches@) =~= Seq::empty());
        }
        while i < glyph_keys.len()
            invariant
                i <= glyph_keys@.len(),
                glyph_key_cache.wf(),
                glyph_key_cache@ == self@[font],
                can_fetch_glyphs(glyph_key_cache@, texture_cache@, glyph_keys@),
                (GlyphFetch {
                    batches: batch_views(batches@),
                    texture_id: current_texture_id,
                    format: current_glyph_format,
                    buffer: fetch_buffer@,
                }) == GlyphFetch::of_run(glyph_key_cache@, texture_cache@, glyph_keys@, i as int),
            decreases glyph_keys@.len() - i,
        {
            let key = glyph_keys[i];
            assert(glyph_key_cache@.contains_key(glyph_keys@[i as int]));
            match glyph_key_cache.get(&key) {
                GlyphCacheEntry::Cached(glyph) => {
                    let cache_item = texture_cache.get(&glyph.texture_cache_handle);
                    let glyph_format = glyph.format;
                    if current_texture_id != cache_item.texture_id || current_glyph_format != glyph_format {
                        if fetch_buffer.len() > 0 {
                            let mut glyphs: Vec<GlyphFetchResult> = Vec::new();
                            std::mem::swap(&mut glyphs, &mut fetch_buffer);
                            let ghost closed = batch_views(batches@);
                            let batch = GlyphBatch {
                                texture_id: current_texture_id,
                                format: current_glyph_format,
                                glyphs,
                            };
                            batches.push(batch);
                            assert(batch_views(batches@) =~= closed.push(batch@));
                        }
                        current_texture_id = cache_item.texture_id;
                        current_glyph_format = glyph_format;
                    }
                    fetch_buffer.push(
                        GlyphFetchResult {
                            index_in_text_run: i as i32,
                            uv_rect_handle: cache_item.uv_rect_handle,
                            offset_x: cache_item.user_data.x,
                            offset_y: cache_item.user_data.y,
                            size: cache_item.uv_rect.size(),
                            scale: cache_item.user_data.z,
                        },
                    );
                    proof {
                        let next = GlyphFetch::of_run(glyph_key_cache@, texture_cache@, glyph_keys@, i + 1);
                        assert(fetch_buffer@ =~= next.buffer);
                    }
                },
                GlyphCacheEntry::Blank | GlyphCacheEntry::Pending => {},
            }
            i = i + 1;
        }
        if fetch_buffer.len() > 0 {
            let ghost closed = batch_views(batches@);
            let batch = GlyphBatch { texture_id: current_texture_id, format: current_glyph_format, glyphs: fetch_buffer };
            batches.push(batch);
            assert(batch_views(batches@) =~= closed.push(batch@));
        }
        batches
    }
}

} // verus!
