//! The vocabulary in which resources are declared to the cache: keys,
//! descriptors, pixel data and the resource updates of a transaction.

use std::sync::Arc;
use vstd::prelude::*;
use crate::class_cache::CacheKey;
use crate::font::NativeFontHandle;
use crate::image_tiling::TileSize;
use crate::units::{DeviceIntRect, DeviceIntSize, TileOffset};

verus! {

/// The tile size given to an image that is too large to upload in one piece.
pub const DEFAULT_TILE_SIZE: TileSize = 512;

/// The smallest tile size that a template may carry.
pub const MIN_TILE_SIZE: TileSize = 16;

/// The largest tile size that a template may carry.
pub const MAX_TILE_SIZE: TileSize = 2048;

/// Separates the keys of one client of the renderer from those of another.
#[derive(Clone, Copy, Debug, PartialEq, Eq, Structural, Hash)]
pub struct IdNamespace(pub u32);

/// Names an image, whatever its pixels come from.
#[derive(Clone, Copy, Debug, PartialEq, Eq, Structural, Hash)]
pub struct ImageKey(pub IdNamespace, pub u32);

/// Names an image whose pixels are rasterized from recorded commands.
#[derive(Clone, Copy, Debug, PartialEq, Eq, Structural, Hash)]
pub struct BlobImageKey(pub ImageKey);

/// Names an image whose pixels are a snapshot of a stacking context.
#[derive(Clone, Copy, Debug, PartialEq, Eq, Structural, Hash)]
pub struct SnapshotImageKey(pub ImageKey);

/// Names a font.
#[derive(Clone, Copy, Debug, PartialEq, Eq, Structural, Hash)]
pub struct FontKey(pub IdNamespace, pub u32);

/// Names a font at a size and with rendering options.
#[derive(Clone, Copy, Debug, PartialEq, Eq, Structural, Hash)]
pub struct FontInstanceKey(pub IdNamespace, pub u32);

/// Names a buffer or texture that the embedder owns.
#[derive(Clone, Copy, Debug, PartialEq, Eq, Structural, Hash)]
pub struct ExternalImageId(pub u64);

impl ImageKey {
    pub fn new(namespace: IdNamespace, key: u32) -> (k: Self)
        ensures
            k == ImageKey(namespace, key),
    {
        ImageKey(namespace, key)
    }
}

impl BlobImageKey {
    /// The image key under which the blob's template and cache entry live.
    pub fn as_image(self) -> (k: ImageKey)
        ensures
            k == self.0,
    {
        self.0
    }
}

impl SnapshotImageKey {
    /// The image key under which the snapshot's template and cache entry live.
    pub fn as_image(self) -> (k: ImageKey)
        ensures
            k == self.0,
    {
        self.0
    }
}

impl CacheKey for ImageKey {
    fn same(&self, other: &Self) -> (r: bool) {
        *self == *other
    }
}

impl CacheKey for BlobImageKey {
    fn same(&self, other: &Self) -> (r: bool) {
        *self == *other
    }
}

impl CacheKey for FontKey {
    fn same(&self, other: &Self) -> (r: bool) {
        *self == *other
    }
}

impl CacheKey for FontInstanceKey {
    fn same(&self, other: &Self) -> (r: bool) {
        *self == *other
    }
}

impl CacheKey for TileOffset {
    fn same(&self, other: &Self) -> (r: bool) {
        *self == *other
    }
}

/// The layout of a pixel in memory.
#[derive(Clone, Copy, Debug, PartialEq, Eq, Structural, Hash)]
pub enum ImageFormat {
    R8,
    R16,
    BGRA8,
    RGBAF32,
    RG8,
    RG16,
    RGBAI32,
    RGBA8,
}

impl ImageFormat {
    pub open spec fn spec_bytes_per_pixel(self) -> int {
        match self {
            ImageFormat::R8 => 1,
            ImageFormat::R16 => 2,
            ImageFormat::BGRA8 => 4,
            ImageFormat::RGBAF32 => 16,
            ImageFormat::RG8 => 2,
            ImageFormat::RG16 => 4,
            ImageFormat::RGBAI32 => 16,
            ImageFormat::RGBA8 => 4,
        }
    }

    /// The number of bytes that one pixel takes.
    pub fn bytes_per_pixel(self) -> (bpp: i32)
        ensures
            bpp == self.spec_bytes_per_pixel(),
    {
        match self {
            ImageFormat::R8 => 1,
            ImageFormat::R16 => 2,
            ImageFormat::BGRA8 => 4,
            ImageFormat::RGBAF32 => 16,
            ImageFormat::RG8 => 2,
            ImageFormat::RG16 => 4,
            ImageFormat::RGBAI32 => 16,
            ImageFormat::RGBA8 => 4,
        }
    }
}

/// What is known of an image beyond its size and format.
#[derive(Clone, Copy, Debug, PartialEq, Eq, Structural, Hash)]
pub struct ImageDescriptorFlags {
    /// No pixel of the image is translucent.
    pub is_opaque: bool,
    /// The image may be sampled through a chain of smaller copies.
    pub allow_mipmaps: bool,
}

impl ImageDescriptorFlags {
    pub fn empty() -> (f: Self)
        ensures
            !f.is_opaque,
            !f.allow_mipmaps,
    {
        ImageDescriptorFlags { is_opaque: false, allow_mipmaps: false }
    }
}

/// Size and memory layout of an image.
#[derive(Clone, Copy, Debug, PartialEq, Eq, Structural, Hash)]
pub struct ImageDescriptor {
    /// The layout of one pixel.
    pub format: ImageFormat,
    /// Width and height in pixels.
    pub size: DeviceIntSize,
    /// The number of bytes from one row to the next, where it is not
    /// `width * bytes_per_pixel`.
    pub stride: Option<i32>,
    /// The number of bytes before the first pixel.
    pub offset: i32,
    pub flags: ImageDescriptorFlags,
}

impl ImageDescriptor {
    /// The bytes from one row of pixels to the next.
    pub open spec fn spec_stride(self) -> int {
        match self.stride {
            Some(stride) => stride as int,
            None => self.size.width * self.format.spec_bytes_per_pixel(),
        }
    }

    /// A descriptor is valid when its size is not negative.
    pub open spec fn valid(self) -> bool {
        self.size.width >= 0 && self.size.height >= 0
    }

    pub fn new(width: i32, height: i32, format: ImageFormat, flags: ImageDescriptorFlags) -> (d: Self)
        ensures
            d == (ImageDescriptor {
                format,
                size: DeviceIntSize { width, height },
                stride: None,
                offset: 0,
                flags,
            }),
    {
        ImageDescriptor { format, size: DeviceIntSize { width, height }, stride: None, offset: 0, flags }
    }

    /// The bytes from one row to the next: the stride that was given, or
    /// that of tightly packed rows. The packed stride must be an `i32`.
    pub fn compute_stride(&self) -> (stride: i32)
        requires
            i32::MIN <= self.spec_stride() <= i32::MAX,
        ensures
            stride == self.spec_stride(),
    {
        match self.stride {
            Some(stride) => stride,
            None => {
                let bpp = self.format.bytes_per_pixel();
                assert(self.size.width * bpp == self.spec_stride());
                self.size.width * bpp
            },
        }
    }

    pub fn is_opaque(&self) -> (b: bool)
        ensures
            b == self.flags.is_opaque,
    {
        self.flags.is_opaque
    }

    pub fn allow_mipmaps(&self) -> (b: bool)
        ensures
            b == self.flags.allow_mipmaps,
    {
        self.flags.allow_mipmaps
    }
}

/// How an image is to be sampled when it is scaled.
#[derive(Clone, Copy, Debug, PartialEq, Eq, Structural, Hash)]
pub enum ImageRendering {
    Auto,
    CrispEdges,
    Pixelated,
}

/// The kind of texture behind an external texture handle.
#[derive(Clone, Copy, Debug, PartialEq, Eq, Structural, Hash)]
pub enum ImageBufferKind {
    Texture2D,
    TextureRect,
    TextureExternal,
    TextureExternalBT709,
}

/// Where the pixels of an external image are.
#[derive(Clone, Copy, Debug, PartialEq, Eq, Structural, Hash)]
pub enum ExternalImageType {
    /// In a texture that the embedder already holds on the GPU.
    TextureHandle(ImageBufferKind),
    /// In a buffer in CPU memory.
    Buffer,
}

/// An image whose pixels the embedder owns.
#[derive(Clone, Copy, Debug, PartialEq, Eq, Structural, Hash)]
pub struct ExternalImageData {
    pub id: ExternalImageId,
    pub channel_index: u8,
    pub image_type: ExternalImageType,
    pub normalized_uvs: bool,
}

/// The pixels that come with an image declaration.
pub enum ImageData {
    /// Bytes that are shared, not copied, between the holders.
    Raw(Arc<Vec<u8>>),
    External(ExternalImageData),
}

/// The part of an image that changed.
#[derive(Clone, Copy, Debug, PartialEq, Eq, Structural, Hash)]
pub enum DirtyRect {
    /// Everything changed.
    All,
    /// The pixels inside the box changed.
    Partial(DeviceIntRect),
}

/// A dirty rect in the pixels of an image.
pub type ImageDirtyRect = DirtyRect;

/// A dirty rect in the pixels of a blob.
pub type BlobDirtyRect = DirtyRect;

impl DirtyRect {
    pub open spec fn spec_empty() -> DirtyRect {
        DirtyRect::Partial(DeviceIntRect::spec_from_size(DeviceIntSize { width: 0, height: 0 }))
    }

    pub open spec fn spec_is_empty(self) -> bool {
        match self {
            DirtyRect::All => false,
            DirtyRect::Partial(rect) => rect.spec_is_empty(),
        }
    }

    /// `All` absorbs everything; two boxes unite to the box around them.
    pub open spec fn spec_union(self, other: DirtyRect) -> DirtyRect {
        match (self, other) {
            (DirtyRect::Partial(a), DirtyRect::Partial(b)) => DirtyRect::Partial(a.spec_union(b)),
            _ => DirtyRect::All,
        }
    }

    /// The dirty rect in which no pixel changed.
    pub fn empty() -> (d: Self)
        ensures
            d == Self::spec_empty(),
            d.spec_is_empty(),
    {
        DirtyRect::Partial(DeviceIntRect::zero())
    }

    pub fn is_empty(&self) -> (b: bool)
        ensures
            b == self.spec_is_empty(),
    {
        match self {
            DirtyRect::All => false,
            DirtyRect::Partial(rect) => rect.is_empty(),
        }
    }

    /// Takes the dirty rect out and leaves the empty one behind.
    pub fn replace_with_empty(&mut self) -> (taken: Self)
        ensures
            taken == *old(self),
            *final(self) == Self::spec_empty(),
    {
        let taken = *self;
        *self = DirtyRect::Partial(DeviceIntRect::zero());
        taken
    }

    pub fn union(&self, other: &DirtyRect) -> (d: Self)
        ensures
            d == self.spec_union(*other),
    {
        match (self, other) {
            (DirtyRect::Partial(a), DirtyRect::Partial(b)) => DirtyRect::Partial(a.union(b)),
            _ => DirtyRect::All,
        }
    }
}

/// Names one tile of a blob image.
#[derive(Clone, Copy, Debug, PartialEq, Eq, Structural, Hash)]
pub struct BlobImageRequest {
    pub key: BlobImageKey,
    pub tile: TileOffset,
}

/// The pixels of one rasterized blob tile.
pub struct RasterizedBlobImage {
    /// The part of the tile that was rasterized.
    pub rasterized_rect: DeviceIntRect,
    /// The pixels, shared between the holders.
    pub data: Arc<Vec<u8>>,
}

/// Why a blob could not be rasterized.
#[derive(Debug)]
pub enum BlobImageError {
    Oom,
    InvalidKey,
    InvalidData,
    Other(String),
}

pub type BlobImageResult = Result<RasterizedBlobImage, BlobImageError>;

/// Declares an image.
pub struct AddImage {
    pub key: ImageKey,
    pub descriptor: ImageDescriptor,
    pub data: ImageData,
    pub tiling: Option<TileSize>,
}

/// Replaces the declaration of an image.
pub struct UpdateImage {
    pub key: ImageKey,
    pub descriptor: ImageDescriptor,
    pub data: ImageData,
    pub dirty_rect: ImageDirtyRect,
}

/// Declares a blob image.
pub struct AddBlobImage {
    pub key: BlobImageKey,
    pub descriptor: ImageDescriptor,
    pub visible_rect: DeviceIntRect,
    pub tile_size: TileSize,
}

/// Replaces the declaration of a blob image.
pub struct UpdateBlobImage {
    pub key: BlobImageKey,
    pub descriptor: ImageDescriptor,
    pub visible_rect: DeviceIntRect,
    pub dirty_rect: BlobDirtyRect,
}

/// Declares the snapshot of a stacking context.
pub struct AddSnapshotImage {
    pub key: SnapshotImageKey,
}

/// Declares a font.
pub enum AddFont {
    Raw(FontKey, Arc<Vec<u8>>, u32),
    Native(FontKey, NativeFontHandle),
}

/// Declares a font instance.
pub struct AddFontInstance {
    pub key: FontInstanceKey,
    pub font_key: FontKey,
}

/// One step of a transaction on the declared resources.
pub enum ResourceUpdate {
    AddImage(AddImage),
    UpdateImage(UpdateImage),
    DeleteImage(ImageKey),
    AddBlobImage(AddBlobImage),
    UpdateBlobImage(UpdateBlobImage),
    DeleteBlobImage(BlobImageKey),
    SetBlobImageVisibleArea(BlobImageKey, DeviceIntRect),
    AddSnapshotImage(AddSnapshotImage),
    DeleteSnapshotImage(SnapshotImageKey),
    AddFont(AddFont),
    DeleteFont(FontKey),
    AddFontInstance(AddFontInstance),
    DeleteFontInstance(FontInstanceKey),
}

/// What the cache can be told to forget.
#[derive(Clone, Copy, Debug, PartialEq, Eq, Structural, Hash)]
pub struct ClearCache {
    pub images: bool,
    pub glyphs: bool,
    pub glyph_dimensions: bool,
    pub render_tasks: bool,
    pub texture_cache: bool,
    pub render_targets: bool,
}

/// Switches that change what the cache does for debugging.
#[derive(Clone, Copy, Debug, PartialEq, Eq, Structural, Hash)]
pub struct DebugFlags {
    /// Ask the glyph rasterizer to tint fresh glyphs.
    pub glyph_flashing: bool,
    /// Treat a missing snapshot as a fatal error.
    pub missing_snapshot_panic: bool,
    /// Show a missing snapshot in pink in place of transparent.
    pub missing_snapshot_pink: bool,
}

/// Shares a byte buffer: `Arc::clone`, which hands out one more reference to
/// the same bytes.
#[verifier::external_body]
pub(crate) fn share_bytes(data: &Arc<Vec<u8>>) -> (shared: Arc<Vec<u8>>)
    ensures
        shared == *data,
{
    Arc::clone(data)
}

} // verus!
