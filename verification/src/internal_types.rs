//! Small identifiers that the parts of the cache exchange.

use vstd::prelude::*;
use crate::class_cache::CacheKey;

verus! {

/// Counts the frames that were built. Frame 0 is no frame.
#[derive(Clone, Copy, Debug, PartialEq, Eq, Structural, Hash)]
pub struct FrameId(pub u64);

impl FrameId {
    /// The id that no frame has.
    pub fn invalid() -> (id: Self)
        ensures
            id == FrameId(0),
    {
        FrameId(0)
    }
}

/// Says which frame is being built.
#[derive(Clone, Copy, Debug, PartialEq, Eq, Structural, Hash)]
pub struct FrameStamp {
    pub id: FrameId,
}

impl FrameStamp {
    pub fn frame_id(&self) -> (id: FrameId)
        ensures
            id == self.id,
    {
        self.id
    }
}

/// Names a texture that the texture cache allocated.
#[derive(Clone, Copy, Debug, PartialEq, Eq, Structural, Hash)]
pub struct CacheTextureId(pub usize);

impl CacheKey for CacheTextureId {
    fn same(&self, other: &Self) -> (r: bool) {
        *self == *other
    }
}

/// The texture that a draw samples from.
#[derive(Clone, Copy, Debug, PartialEq, Eq, Structural, Hash)]
pub enum TextureSource {
    /// No texture: the item cannot be drawn.
    Invalid,
    /// A texture of the texture cache.
    TextureCache(CacheTextureId),
}

/// How a texture is sampled.
#[derive(Clone, Copy, Debug, PartialEq, Eq, Structural, Hash)]
pub enum TextureFilter {
    Nearest,
    Linear,
    Trilinear,
}

/// Names the place where the GPU cache keeps the rectangle of a cached item.
#[derive(Clone, Copy, Debug, PartialEq, Eq, Structural, Hash)]
pub struct GpuCacheHandle {
    pub location: Option<usize>,
}

impl GpuCacheHandle {
    /// The handle of nothing.
    pub fn new() -> (h: Self)
        ensures
            h.location.is_none(),
    {
        GpuCacheHandle { location: None }
    }
}

/// Four single-precision numbers, kept as their bit patterns: the cache
/// stores and hands on such numbers and computes with none of them.
#[derive(Clone, Copy, Debug, PartialEq, Eq, Structural, Hash)]
pub struct FloatBits4 {
    pub x: u32,
    pub y: u32,
    pub z: u32,
    pub w: u32,
}

impl FloatBits4 {
    /// Four times the number zero.
    pub fn zero() -> (v: Self)
        ensures
            v == (FloatBits4 { x: 0, y: 0, z: 0, w: 0 }),
    {
        FloatBits4 { x: 0, y: 0, z: 0, w: 0 }
    }
}

/// Names a task of the render-task graph.
#[derive(Clone, Copy, Debug, PartialEq, Eq, Structural, Hash)]
pub struct RenderTaskId(pub u32);

/// Names a surface of the native compositor.
#[derive(Clone, Copy, Debug, PartialEq, Eq, Structural, Hash)]
pub struct NativeSurfaceId(pub u64);

/// Names a tile of a surface of the native compositor.
#[derive(Clone, Copy, Debug, PartialEq, Eq, Structural, Hash)]
pub struct NativeTileId {
    pub surface_id: NativeSurfaceId,
    pub x: i32,
    pub y: i32,
}

} // verus!
