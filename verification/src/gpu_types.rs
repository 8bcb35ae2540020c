//! Values in the layout that the shaders read. The types here have to match
//! the structures that the shaders declare.
//!
//! Single-precision numbers are kept as their bit patterns: nothing here
//! computes with them.

use vstd::prelude::*;
use crate::class_cache::{CacheKey, ResourceClassCache};
use crate::internal_types::FloatBits4;

verus! {

/// The number of vectors that a transform takes in a vertex texture.
pub const VECS_PER_TRANSFORM: usize = 8;

/// The depth at which a primitive is drawn.
#[derive(Clone, Copy, Debug, PartialEq, Eq, Structural)]
pub struct ZBufferId(pub i32);

impl ZBufferId {
    /// The depth of nothing.
    pub fn invalid() -> (id: Self)
        ensures
            id == ZBufferId(i32::MAX),
    {
        ZBufferId(i32::MAX)
    }
}

/// Hands out depths, front to back, up to a limit.
#[derive(Debug)]
pub struct ZBufferIdGenerator {
    next: i32,
    max_depth_ids: i32,
}

impl ZBufferIdGenerator {
    /// The depth that is handed out next.
    pub closed spec fn spec_next(&self) -> int {
        self.next as int
    }

    /// The number of depths that there are.
    pub closed spec fn max_depth_ids(&self) -> int {
        self.max_depth_ids as int
    }

    pub fn new(max_depth_ids: i32) -> (generator: Self)
        ensures
            generator.spec_next() == 0,
            generator.max_depth_ids() == max_depth_ids,
    {
        ZBufferIdGenerator { next: 0, max_depth_ids }
    }

    /// Whether there is a depth left to hand out.
    pub fn has_next(&self) -> (ok: bool)
        ensures
            ok == (self.spec_next() < self.max_depth_ids()),
    {
        self.next < self.max_depth_ids
    }

    /// The next depth. Every depth is handed out once.
    pub fn next(&mut self) -> (id: ZBufferId)
        requires
            old(self).spec_next() < old(self).max_depth_ids(),
        ensures
            id.0 == old(self).spec_next(),
            final(self).spec_next() == old(self).spec_next() + 1,
            final(self).max_depth_ids() == old(self).max_depth_ids(),
    {
        let id = ZBufferId(self.next);
        self.next = self.next + 1;
        id
    }
}

/// The space in which a primitive is rasterized.
#[derive(Clone, Copy, Debug, PartialEq, Eq, Structural)]
pub enum RasterizationSpace {
    Local,
    Screen,
}

impl RasterizationSpace {
    /// The number under which the shaders know the space.
    pub fn as_int(self) -> (n: i32)
        ensures
            n == (match self {
                RasterizationSpace::Local => 0i32,
                RasterizationSpace::Screen => 1i32,
            }),
    {
        match self {
            RasterizationSpace::Local => 0,
            RasterizationSpace::Screen => 1,
        }
    }
}

/// How a box shadow is stretched along an axis.
#[derive(Clone, Copy, Debug, PartialEq, Eq, Structural)]
pub enum BoxShadowStretchMode {
    Stretch,
    Simple,
}

/// The direction of one pass of a blur.
#[derive(Clone, Copy, Debug, PartialEq, Eq, Structural)]
pub enum BlurDirection {
    Horizontal,
    Vertical,
}

impl BlurDirection {
    /// The number under which the shaders know the direction.
    pub fn as_int(self) -> (n: i32)
        ensures
            n == (match self {
                BlurDirection::Horizontal => 0i32,
                BlurDirection::Vertical => 1i32,
            }),
    {
        match self {
            BlurDirection::Horizontal => 0,
            BlurDirection::Vertical => 1,
        }
    }
}

/// What a blur reads beyond the edge of its source.
#[derive(Clone, Copy, Debug, PartialEq, Eq, Structural, Hash)]
pub enum BlurEdgeMode {
    Duplicate,
    Mirror,
}

impl BlurEdgeMode {
    /// The number under which the shaders know the mode.
    pub fn as_int(self) -> (n: i32)
        ensures
            n == (match self {
                BlurEdgeMode::Duplicate => 0i32,
                BlurEdgeMode::Mirror => 1i32,
            }),
    {
        match self {
            BlurEdgeMode::Duplicate => 0,
            BlurEdgeMode::Mirror => 1,
        }
    }
}

/// Where the data of a render task is in the vertex texture.
#[derive(Clone, Copy, Debug, PartialEq, Eq, Structural, Hash)]
pub struct RenderTaskAddress(pub i32);

/// An address in the GPU cache or a GPU buffer, as the shaders read it.
#[derive(Clone, Copy, Debug, PartialEq, Eq, Structural, Hash)]
pub struct GpuAddress(pub i32);

/// One instance of an SVG filter.
#[derive(Clone, Copy, Debug, PartialEq, Eq, Structural)]
pub struct SvgFilterInstance {
    pub task_address: RenderTaskAddress,
    pub input_1_task_address: RenderTaskAddress,
    pub input_2_task_address: RenderTaskAddress,
    pub kind: u16,
    pub input_count: u16,
    pub generic_int: u16,
    pub padding: u16,
    pub extra_data_address: GpuAddress,
}

/// A part of a border.
#[derive(Clone, Copy, Debug, PartialEq, Eq, Structural, Hash)]
pub enum BorderSegment {
    TopLeft,
    TopRight,
    BottomRight,
    BottomLeft,
    Left,
    Top,
    Right,
    Bottom,
}

/// The four words of a primitive instance.
#[derive(Clone, Copy, Debug, PartialEq, Eq, Structural)]
pub struct PrimitiveInstanceData {
    pub data0: i32,
    pub data1: i32,
    pub data2: i32,
    pub data3: i32,
}

/// The index of a primitive header.
#[derive(Clone, Copy, Debug, PartialEq, Eq, Structural)]
pub struct PrimitiveHeaderIndex(pub i32);

/// The number under which the shaders know the direction in which a glyph
/// is positioned at sub-pixel steps.
#[derive(Clone, Copy, Debug, PartialEq, Eq, Structural, Hash)]
pub struct SubpixelDirection(pub u8);

/// The number under which the shaders know a colour mode.
#[derive(Clone, Copy, Debug, PartialEq, Eq, Structural, Hash)]
pub struct ShaderColorMode(pub u8);

/// The third word of a glyph instance: the sub-pixel direction in the top
/// byte, the colour mode in the byte below, and the index of the glyph in
/// its text run in what is left.
pub open spec fn glyph_word(subpx_dir: u8, color_mode: u8, glyph_index_in_text_run: i32) -> i32 {
    ((((subpx_dir as u32) << 24u32) | ((color_mode as u32) << 16u32)) as i32) | glyph_index_in_text_run
}

/// A glyph that is drawn with a primitive header.
#[derive(Clone, Copy, Debug, PartialEq, Eq, Structural)]
pub struct GlyphInstance {
    pub prim_header_index: PrimitiveHeaderIndex,
}

impl GlyphInstance {
    pub fn new(prim_header_index: PrimitiveHeaderIndex) -> (instance: Self)
        ensures
            instance.prim_header_index == prim_header_index,
    {
        GlyphInstance { prim_header_index }
    }

    /// The four words of the instance.
    pub fn build(
        &self,
        clip_task: RenderTaskAddress,
        subpx_dir: SubpixelDirection,
        glyph_index_in_text_run: i32,
        glyph_uv_rect: GpuAddress,
        color_mode: ShaderColorMode,
    ) -> (data: PrimitiveInstanceData)
        ensures
            data == (PrimitiveInstanceData {
                data0: self.prim_header_index.0,
                data1: clip_task.0,
                data2: glyph_word(subpx_dir.0, color_mode.0, glyph_index_in_text_run),
                data3: glyph_uv_rect.0,
            }),
    {
        let high: u32 = ((subpx_dir.0 as u32) << 24u32) | ((color_mode.0 as u32) << 16u32);
        PrimitiveInstanceData {
            data0: self.prim_header_index.0,
            data1: clip_task.0,
            data2: (high as i32) | glyph_index_in_text_run,
            data3: glyph_uv_rect.0,
        }
    }
}

/// The glyph index of a text run of fewer than 65536 glyphs can be read
/// back from the third word of a glyph instance, and so can the direction
/// and the colour mode.
pub proof fn lemma_glyph_word(subpx_dir: u8, color_mode: u8, glyph_index_in_text_run: i32)
    requires
        subpx_dir < 128,
        0 <= glyph_index_in_text_run < 0x1_0000,
    ensures
        (glyph_word(subpx_dir, color_mode, glyph_index_in_text_run) as u32) & 0xffff == glyph_index_in_text_run as u32,
        ((glyph_word(subpx_dir, color_mode, glyph_index_in_text_run) as u32) >> 16u32) & 0xff == color_mode as u32,
        (glyph_word(subpx_dir, color_mode, glyph_index_in_text_run) as u32) >> 24u32 == subpx_dir as u32,
{
    let d = subpx_dir as u32;
    let c = color_mode as u32;
    let g = glyph_index_in_text_run;
    assert(((((d << 24u32) | (c << 16u32)) as i32) | g) as u32 & 0xffff == g as u32 && ((((((d << 24u32) | (c
        << 16u32)) as i32) | g) as u32) >> 16u32) & 0xff == c && (((((d << 24u32) | (c << 16u32)) as i32) | g)
        as u32) >> 24u32 == d) by (bit_vector)
        requires
            d < 128u32,
            c < 256u32,
            0 <= g < 0x1_0000i32,
    ;
}

/// A polygon of a plane split that is composited.
#[derive(Clone, Copy, Debug, PartialEq, Eq, Structural)]
pub struct SplitCompositeInstance {
    pub prim_header_index: PrimitiveHeaderIndex,
    pub polygons_address: i32,
    pub z: ZBufferId,
    pub render_task_address: RenderTaskAddress,
}

impl SplitCompositeInstance {
    /// The four words of the instance.
    pub fn into_primitive_instance_data(self) -> (data: PrimitiveInstanceData)
        ensures
            data == (PrimitiveInstanceData {
                data0: self.prim_header_index.0,
                data1: self.polygons_address,
                data2: self.z.0,
                data3: self.render_task_address.0,
            }),
    {
        PrimitiveInstanceData {
            data0: self.prim_header_index.0,
            data1: self.polygons_address,
            data2: self.z.0,
            data3: self.render_task_address.0,
        }
    }
}

impl From<SplitCompositeInstance> for PrimitiveInstanceData {
    fn from(instance: SplitCompositeInstance) -> (data: Self) {
        instance.into_primitive_instance_data()
    }
}

impl vstd::std_specs::convert::FromSpecImpl<SplitCompositeInstance> for PrimitiveInstanceData {
    open spec fn obeys_from_spec() -> bool {
        true
    }

    open spec fn from_spec(instance: SplitCompositeInstance) -> Self {
        PrimitiveInstanceData {
            data0: instance.prim_header_index.0,
            data1: instance.polygons_address,
            data2: instance.z.0,
            data3: instance.render_task_address.0,
        }
    }
}

/// A part of a quad that is drawn.
#[derive(Clone, Copy, Debug, PartialEq, Eq, Structural)]
pub struct QuadInstance {
    pub dst_task_address: RenderTaskAddress,
    pub prim_address_i: GpuAddress,
    pub prim_address_f: GpuAddress,
    pub quad_flags: u8,
    pub edge_flags: u8,
    pub part_index: u8,
    pub segment_index: u8,
}

/// The third word of a quad instance: quad flags, edge flags, part index and
/// segment index, one byte each, from the top byte down.
pub open spec fn quad_word(quad_flags: u8, edge_flags: u8, part_index: u8, segment_index: u8) -> u32 {
    ((quad_flags as u32) << 24u32) | ((edge_flags as u32) << 16u32) | ((part_index as u32) << 8u32) | (
    segment_index as u32)
}

impl QuadInstance {
    /// The four words of the instance.
    pub fn into_primitive_instance_data(self) -> (data: PrimitiveInstanceData)
        ensures
            data == (PrimitiveInstanceData {
                data0: self.prim_address_i.0,
                data1: self.prim_address_f.0,
                data2: quad_word(self.quad_flags, self.edge_flags, self.part_index, self.segment_index) as i32,
                data3: self.dst_task_address.0,
            }),
    {
        let word: u32 = ((self.quad_flags as u32) << 24u32) | ((self.edge_flags as u32) << 16u32) | ((
        self.part_index as u32) << 8u32) | (self.segment_index as u32);
        PrimitiveInstanceData {
            data0: self.prim_address_i.0,
            data1: self.prim_address_f.0,
            data2: word as i32,
            data3: self.dst_task_address.0,
        }
    }
}

impl From<QuadInstance> for PrimitiveInstanceData {
    fn from(instance: QuadInstance) -> (data: Self) {
        instance.into_primitive_instance_data()
    }
}

impl vstd::std_specs::convert::FromSpecImpl<QuadInstance> for PrimitiveInstanceData {
    open spec fn obeys_from_spec() -> bool {
        true
    }

    open spec fn from_spec(instance: QuadInstance) -> Self {
        PrimitiveInstanceData {
            data0: instance.prim_address_i.0,
            data1: instance.prim_address_f.0,
            data2: quad_word(
                instance.quad_flags,
                instance.edge_flags,
                instance.part_index,
                instance.segment_index,
            ) as i32,
            data3: instance.dst_task_address.0,
        }
    }
}

/// Each of the four bytes of the third word of a quad instance can be read
/// back from it.
pub proof fn lemma_quad_word(quad_flags: u8, edge_flags: u8, part_index: u8, segment_index: u8)
    ensures
        quad_word(quad_flags, edge_flags, part_index, segment_index) >> 24u32 == quad_flags as u32,
        (quad_word(quad_flags, edge_flags, part_index, segment_index) >> 16u32) & 0xff == edge_flags as u32,
        (quad_word(quad_flags, edge_flags, part_index, segment_index) >> 8u32) & 0xff == part_index as u32,
        quad_word(quad_flags, edge_flags, part_index, segment_index) & 0xff == segment_index as u32,
{
    let q = quad_flags as u32;
    let e = edge_flags as u32;
    let p = part_index as u32;
    let s = segment_index as u32;
    assert(((q << 24u32) | (e << 16u32) | (p << 8u32) | s) >> 24u32 == q && (((q << 24u32) | (e << 16u32) | (p
        << 8u32) | s) >> 16u32) & 0xff == e && (((q << 24u32) | (e << 16u32) | (p << 8u32) | s) >> 8u32) & 0xff
        == p && ((q << 24u32) | (e << 16u32) | (p << 8u32) | s) & 0xff == s) by (bit_vector)
        requires
            q < 256u32,
            e < 256u32,
            p < 256u32,
            s < 256u32,
    ;
}

/// The space in which a clip is given.
#[derive(Clone, Copy, Debug, PartialEq, Eq, Structural)]
pub enum ClipSpace {
    Raster,
    Primitive,
}

impl ClipSpace {
    /// The number under which the shaders know the space.
    pub fn as_int(self) -> (n: u32)
        ensures
            n == (match self {
                ClipSpace::Raster => 0u32,
                ClipSpace::Primitive => 1u32,
            }),
    {
        match self {
            ClipSpace::Raster => 0,
            ClipSpace::Primitive => 1,
        }
    }
}

/// One instance of a clip mask.
#[derive(Clone, Copy, Debug, PartialEq, Eq, Structural)]
pub struct MaskInstance {
    pub prim: PrimitiveInstanceData,
    pub clip_transform_id: TransformPaletteId,
    pub clip_address: i32,
    pub clip_space: u32,
    pub unused: i32,
}

/// Flags that tell the brush shaders how to process an instance. They take
/// up to twelve bits, as they are packed into the instance.
#[derive(Clone, Copy, Debug, PartialEq, Eq, Structural, Hash)]
pub struct BrushFlags {
    bits: u16,
}

impl BrushFlags {
    /// The flags as bits.
    pub closed spec fn spec_bits(&self) -> u16 {
        self.bits
    }

    /// No flag.
    pub fn empty() -> (flags: Self)
        ensures
            flags.spec_bits() == 0,
    {
        BrushFlags { bits: 0 }
    }

    /// Apply perspective interpolation to UVs.
    pub fn perspective_interpolation() -> (flags: Self)
        ensures
            flags.spec_bits() == 1,
    {
        BrushFlags { bits: 1 }
    }

    /// Interpolate relative to the segment rect, not to the primitive rect.
    pub fn segment_relative() -> (flags: Self)
        ensures
            flags.spec_bits() == 2,
    {
        BrushFlags { bits: 2 }
    }

    /// Repeat UVs horizontally.
    pub fn segment_repeat_x() -> (flags: Self)
        ensures
            flags.spec_bits() == 4,
    {
        BrushFlags { bits: 4 }
    }

    /// Repeat UVs vertically.
    pub fn segment_repeat_y() -> (flags: Self)
        ensures
            flags.spec_bits() == 8,
    {
        BrushFlags { bits: 8 }
    }

    /// Horizontally follow border-image-repeat: round.
    pub fn segment_repeat_x_round() -> (flags: Self)
        ensures
            flags.spec_bits() == 16,
    {
        BrushFlags { bits: 16 }
    }

    /// Vertically follow border-image-repeat: round.
    pub fn segment_repeat_y_round() -> (flags: Self)
        ensures
            flags.spec_bits() == 32,
    {
        BrushFlags { bits: 32 }
    }

    /// Position the repetitions so that the middle tile is horizontally
    /// centered.
    pub fn segment_repeat_x_centered() -> (flags: Self)
        ensures
            flags.spec_bits() == 64,
    {
        BrushFlags { bits: 64 }
    }

    /// Position the repetitions so that the middle tile is vertically
    /// centered.
    pub fn segment_repeat_y_centered() -> (flags: Self)
        ensures
            flags.spec_bits() == 128,
    {
        BrushFlags { bits: 128 }
    }

    /// The middle (fill) area of a border-image-repeat.
    pub fn segment_ninepatch_middle() -> (flags: Self)
        ensures
            flags.spec_bits() == 256,
    {
        BrushFlags { bits: 256 }
    }

    /// The extra segment data is a texel rect.
    pub fn segment_texel_rect() -> (flags: Self)
        ensures
            flags.spec_bits() == 512,
    {
        BrushFlags { bits: 512 }
    }

    /// Force anti-aliasing although the primitive is axis-aligned.
    pub fn force_aa() -> (flags: Self)
        ensures
            flags.spec_bits() == 1024,
    {
        BrushFlags { bits: 1024 }
    }

    /// The UV coordinates are normalized.
    pub fn normalized_uvs() -> (flags: Self)
        ensures
            flags.spec_bits() == 2048,
    {
        BrushFlags { bits: 2048 }
    }

    /// The flags as bits.
    pub fn bits(&self) -> (bits: u16)
        ensures
            bits == self.spec_bits(),
    {
        self.bits
    }

    /// The flags of bits; bits that are no flag are dropped.
    pub fn from_bits_truncate(bits: u16) -> (flags: Self)
        ensures
            flags.spec_bits() == bits & 0xfff,
    {
        BrushFlags { bits: bits & 0xfff }
    }

    pub fn is_empty(&self) -> (empty: bool)
        ensures
            empty == (self.spec_bits() == 0),
    {
        self.bits == 0
    }

    /// Whether all the flags of `other` are set.
    pub fn contains(&self, other: BrushFlags) -> (all: bool)
        ensures
            all == (self.spec_bits() & other.spec_bits() == other.spec_bits()),
    {
        self.bits & other.bits == other.bits
    }

    /// The flags of both.
    pub fn union(self, other: BrushFlags) -> (flags: Self)
        ensures
            flags.spec_bits() == self.spec_bits() | other.spec_bits(),
    {
        BrushFlags { bits: self.bits | other.bits }
    }
}

/// The union of two sets of flags holds the flags of each, and holds a flag
/// only if one of the two does.
pub proof fn lemma_brush_flags_union(a: BrushFlags, b: BrushFlags, c: BrushFlags)
    ensures
        (a.spec_bits() | b.spec_bits()) & a.spec_bits() == a.spec_bits(),
        (a.spec_bits() | b.spec_bits()) & b.spec_bits() == b.spec_bits(),
        (a.spec_bits() | b.spec_bits()) & c.spec_bits() == (a.spec_bits() & c.spec_bits()) | (b.spec_bits()
            & c.spec_bits()),
{
    let x = a.spec_bits();
    let y = b.spec_bits();
    let z = c.spec_bits();
    assert((x | y) & x == x && (x | y) & y == y && (x | y) & z == (x & z) | (y & z)) by (bit_vector);
}

/// A brush that is drawn.
#[derive(Clone, Copy, Debug, PartialEq, Eq, Structural)]
pub struct BrushInstance {
    pub prim_header_index: PrimitiveHeaderIndex,
    pub clip_task_address: RenderTaskAddress,
    pub segment_index: i32,
    /// The edges that are anti-aliased: four bits.
    pub edge_flags: u8,
    pub brush_flags: BrushFlags,
    pub resource_address: i32,
}

/// The third word of a brush instance: the edge flags in the top four bits,
/// the brush flags in the twelve bits below, over the segment index.
pub open spec fn brush_word(segment_index: i32, brush_flags: u16, edge_flags: u8) -> i32 {
    segment_index | (((brush_flags as u32) << 16u32) as i32) | (((edge_flags as u32) << 28u32) as i32)
}

impl BrushInstance {
    /// The four words of the instance.
    pub fn into_primitive_instance_data(self) -> (data: PrimitiveInstanceData)
        ensures
            data == (PrimitiveInstanceData {
                data0: self.prim_header_index.0,
                data1: self.clip_task_address.0,
                data2: brush_word(self.segment_index, self.brush_flags.spec_bits(), self.edge_flags),
                data3: self.resource_address,
            }),
    {
        let brush: u32 = (self.brush_flags.bits() as u32) << 16u32;
        let edge: u32 = (self.edge_flags as u32) << 28u32;
        PrimitiveInstanceData {
            data0: self.prim_header_index.0,
            data1: self.clip_task_address.0,
            data2: self.segment_index | (brush as i32) | (edge as i32),
            data3: self.resource_address,
        }
    }
}

impl From<BrushInstance> for PrimitiveInstanceData {
    fn from(instance: BrushInstance) -> (data: Self) {
        instance.into_primitive_instance_data()
    }
}

impl vstd::std_specs::convert::FromSpecImpl<BrushInstance> for PrimitiveInstanceData {
    open spec fn obeys_from_spec() -> bool {
        true
    }

    open spec fn from_spec(instance: BrushInstance) -> Self {
        PrimitiveInstanceData {
            data0: instance.prim_header_index.0,
            data1: instance.clip_task_address.0,
            data2: brush_word(instance.segment_index, instance.brush_flags.spec_bits(), instance.edge_flags),
            data3: instance.resource_address,
        }
    }
}

/// Segment index, brush flags and edge flags can be read back from the third
/// word of a brush instance, as long as each stays within its bits.
pub proof fn lemma_brush_word(segment_index: i32, brush_flags: u16, edge_flags: u8)
    requires
        0 <= segment_index < 0x1_0000,
        brush_flags < 0x1000,
        edge_flags < 16,
    ensures
        (brush_word(segment_index, brush_flags, edge_flags) as u32) & 0xffff == segment_index as u32,
        ((brush_word(segment_index, brush_flags, edge_flags) as u32) >> 16u32) & 0xfff == brush_flags as u32,
        (brush_word(segment_index, brush_flags, edge_flags) as u32) >> 28u32 == edge_flags as u32,
{
    let b = brush_flags as u32;
    let e = edge_flags as u32;
    let s = segment_index;
    assert(((s | ((b << 16u32) as i32) | ((e << 28u32) as i32)) as u32) & 0xffff == s as u32 && (((s | ((b
        << 16u32) as i32) | ((e << 28u32) as i32)) as u32) >> 16u32) & 0xfff == b && ((s | ((b << 16u32) as i32)
        | ((e << 28u32) as i32)) as u32) >> 28u32 == e) by (bit_vector)
        requires
            0 <= s < 0x1_0000i32,
            b < 0x1000u32,
            e < 16u32,
    ;
}

/// Whether the colours of an image are multiplied with its alpha.
#[derive(Clone, Copy, Debug, PartialEq, Eq, Structural, Hash)]
pub enum AlphaType {
    Alpha,
    PremultipliedAlpha,
}

impl AlphaType {
    pub open spec fn spec_as_int(self) -> i32 {
        match self {
            AlphaType::Alpha => 0,
            AlphaType::PremultipliedAlpha => 1,
        }
    }

    /// The number under which the shaders know the kind of alpha.
    pub fn as_int(self) -> (n: i32)
        ensures
            n == self.spec_as_int(),
    {
        match self {
            AlphaType::Alpha => 0,
            AlphaType::PremultipliedAlpha => 1,
        }
    }
}

/// What is encoded into the user data of an image brush.
#[derive(Clone, Copy, Debug, PartialEq, Eq, Structural)]
pub struct ImageBrushData {
    pub color_mode: ShaderColorMode,
    pub alpha_type: AlphaType,
    pub raster_space: RasterizationSpace,
    /// The opacity, a single-precision number.
    pub opacity: u32,
}

/// The first word of the user data of an image brush: the kind of alpha
/// above the colour mode.
pub open spec fn image_brush_word(color_mode: u8, alpha_type: i32) -> i32 {
    (color_mode as i32) | (alpha_type << 16u32)
}

impl ImageBrushData {
    /// The four words of user data. The opacity comes as the shaders take
    /// it, scaled to sixteen bits.
    pub fn encode(&self, shader_opacity: i32) -> (data: [i32; 4])
        ensures
            data@ == seq![
                image_brush_word(self.color_mode.0, self.alpha_type.spec_as_int()),
                match self.raster_space {
                    RasterizationSpace::Local => 0i32,
                    RasterizationSpace::Screen => 1i32,
                },
                shader_opacity,
                0i32,
            ],
    {
        let alpha = self.alpha_type.as_int();
        let data = [(self.color_mode.0 as i32) | (alpha << 16u32), self.raster_space.as_int(), shader_opacity, 0];
        assert(data@ =~= seq![
            image_brush_word(self.color_mode.0, self.alpha_type.spec_as_int()),
            match self.raster_space {
                RasterizationSpace::Local => 0i32,
                RasterizationSpace::Screen => 1i32,
            },
            shader_opacity,
            0i32,
        ]);
        data
    }
}

/// Whether a transform keeps rectangles axis-aligned.
#[derive(Clone, Copy, Debug, PartialEq, Eq, Structural)]
pub enum TransformedRectKind {
    AxisAligned,
    Complex,
}

impl TransformedRectKind {
    pub open spec fn spec_as_int(self) -> u32 {
        match self {
            TransformedRectKind::AxisAligned => 0,
            TransformedRectKind::Complex => 1,
        }
    }

    /// The number under which the shaders know the kind.
    pub fn as_int(self) -> (n: u32)
        ensures
            n == self.spec_as_int(),
    {
        match self {
            TransformedRectKind::AxisAligned => 0,
            TransformedRectKind::Complex => 1,
        }
    }
}

/// What the shaders are told of an entry of the transform palette: its
/// index in the low 23 bits, and above them whether the transform is other
/// than axis-aligned (an axis-aligned one gets pixel snapping).
#[derive(Clone, Copy, Debug, PartialEq, Eq, Structural)]
pub struct TransformPaletteId(pub u32);

impl TransformPaletteId {
    /// The id of the identity transform.
    pub fn identity() -> (id: Self)
        ensures
            id == TransformPaletteId(0),
    {
        TransformPaletteId(0)
    }

    pub open spec fn spec_transform_kind(&self) -> TransformedRectKind {
        if (self.0 >> 23u32) == 0 {
            TransformedRectKind::AxisAligned
        } else {
            TransformedRectKind::Complex
        }
    }

    /// The index of the entry in the palette.
    pub open spec fn spec_index(&self) -> u32 {
        self.0 & 0x7f_ffff
    }

    pub open spec fn spec_override_transform_kind(&self, kind: TransformedRectKind) -> TransformPaletteId {
        TransformPaletteId((self.0 & 0x7f_ffff) | (kind.spec_as_int() << 23u32))
    }

    /// The kind of transform of the entry.
    pub fn transform_kind(&self) -> (kind: TransformedRectKind)
        ensures
            kind == self.spec_transform_kind(),
    {
        if (self.0 >> 23u32) == 0 {
            TransformedRectKind::AxisAligned
        } else {
            TransformedRectKind::Complex
        }
    }

    /// The same entry under another kind. This serves where the shaders are
    /// not to take a transform for axis-aligned (a perspective warp, say)
    /// although in general it is.
    pub fn override_transform_kind(&self, kind: TransformedRectKind) -> (id: Self)
        ensures
            id == self.spec_override_transform_kind(kind),
            id.spec_transform_kind() == kind,
            id.spec_index() == self.spec_index(),
    {
        let k = kind.as_int();
        let bits = self.0;
        proof {
            assert((((bits & 0x7f_ffff) | (k << 23u32)) >> 23u32 == 0 <==> k == 0) && ((bits & 0x7f_ffff) | (k
                << 23u32)) & 0x7f_ffff == bits & 0x7f_ffff) by (bit_vector)
                requires
                    k < 2u32,
            ;
        }
        TransformPaletteId((self.0 & 0x7f_ffff) | (k << 23u32))
    }

    /// The id of the entry at an index of the palette.
    pub fn new(index: u32, kind: TransformedRectKind) -> (id: Self)
        requires
            index < 0x80_0000,
        ensures
            id == TransformPaletteId(index | (kind.spec_as_int() << 23u32)),
            id.spec_transform_kind() == kind,
            id.spec_index() == index,
    {
        let k = kind.as_int();
        proof {
            assert(((index | (k << 23u32)) >> 23u32 == 0 <==> k == 0) && (index | (k << 23u32)) & 0x7f_ffff
                == index) by (bit_vector)
                requires
                    k < 2u32,
                    index < 0x80_0000u32,
            ;
        }
        TransformPaletteId(index | (k << 23u32))
    }
}

/// What is kept of an entry of the transform palette besides its matrices.
#[derive(Clone, Copy, Debug, PartialEq, Eq, Structural)]
pub struct TransformMetadata {
    pub transform_kind: TransformedRectKind,
}

impl TransformMetadata {
    /// The metadata of an entry that stands for no transform.
    pub fn invalid() -> (metadata: Self)
        ensures
            metadata.transform_kind == TransformedRectKind::AxisAligned,
    {
        TransformMetadata { transform_kind: TransformedRectKind::AxisAligned }
    }
}

/// A matrix of four by four single-precision numbers.
#[derive(Clone, Copy, Debug, PartialEq, Eq, Structural)]
pub struct MatrixBits {
    pub row0: FloatBits4,
    pub row1: FloatBits4,
    pub row2: FloatBits4,
    pub row3: FloatBits4,
}

impl MatrixBits {
    pub open spec fn spec_identity() -> MatrixBits {
        let one: u32 = 0x3f80_0000;
        MatrixBits {
            row0: FloatBits4 { x: one, y: 0, z: 0, w: 0 },
            row1: FloatBits4 { x: 0, y: one, z: 0, w: 0 },
            row2: FloatBits4 { x: 0, y: 0, z: one, w: 0 },
            row3: FloatBits4 { x: 0, y: 0, z: 0, w: one },
        }
    }

    /// The matrix that maps every point to itself.
    pub fn identity() -> (m: Self)
        ensures
            m == Self::spec_identity(),
    {
        let one: u32 = 0x3f80_0000;
        MatrixBits {
            row0: FloatBits4 { x: one, y: 0, z: 0, w: 0 },
            row1: FloatBits4 { x: 0, y: one, z: 0, w: 0 },
            row2: FloatBits4 { x: 0, y: 0, z: one, w: 0 },
            row3: FloatBits4 { x: 0, y: 0, z: 0, w: one },
        }
    }
}

/// What the GPU is given of an entry of the transform palette: the
/// transform and its inverse.
#[derive(Clone, Copy, Debug, PartialEq, Eq, Structural)]
pub struct TransformData {
    pub transform: MatrixBits,
    pub inv_transform: MatrixBits,
}

impl TransformData {
    /// The data of an entry that stands for no transform.
    pub fn invalid() -> (data: Self)
        ensures
            data == (TransformData {
                transform: MatrixBits::spec_identity(),
                inv_transform: MatrixBits::spec_identity(),
            }),
    {
        TransformData { transform: MatrixBits::identity(), inv_transform: MatrixBits::identity() }
    }
}

/// Names a node of the spatial tree.
#[derive(Clone, Copy, Debug, PartialEq, Eq, Structural, Hash)]
pub struct SpatialNodeIndex(pub u32);

/// The nodes between which a transform leads.
#[derive(Clone, Copy, Debug, PartialEq, Eq, Structural, Hash)]
pub struct RelativeTransformKey {
    pub from_index: SpatialNodeIndex,
    pub to_index: SpatialNodeIndex,
}

impl CacheKey for RelativeTransformKey {
    fn same(&self, other: &Self) -> (r: bool) {
        *self == *other
    }
}

/// The transforms of a frame, ready for upload to the GPU. Entry 0 is the
/// identity; every pair of nodes that was asked for has one entry.
pub struct TransformPalette {
    transforms: Vec<TransformData>,
    metadata: Vec<TransformMetadata>,
    map: ResourceClassCache<RelativeTransformKey, usize, ()>,
}

impl TransformPalette {
    /// The data of the entries.
    pub closed spec fn transforms(&self) -> Seq<TransformData> {
        self.transforms@
    }

    /// The kinds of the entries.
    pub closed spec fn kinds(&self) -> Seq<TransformedRectKind> {
        self.metadata@.map_values(|m: TransformMetadata| m.transform_kind)
    }

    /// The entry of every pair of nodes that has one.
    pub closed spec fn indices(&self) -> Map<RelativeTransformKey, usize> {
        self.map@
    }

    /// There are as many kinds as entries, the first entry is there, and
    /// every pair of nodes leads to an entry.
    pub closed spec fn wf(&self) -> bool {
        &&& self.map.wf()
        &&& self.metadata@.len() == self.transforms@.len()
        &&& self.transforms@.len() >= 1
        &&& forall|k: RelativeTransformKey| #[trigger]
            self.map@.contains_key(k) ==> self.map@[k] < self.transforms@.len()
    }

    /// A palette with the identity as its only entry.
    pub fn new(count: usize) -> (palette: Self)
        ensures
            palette.wf(),
            palette.transforms() == seq![
                TransformData { transform: MatrixBits::spec_identity(), inv_transform: MatrixBits::spec_identity() },
            ],
            palette.kinds() == seq![TransformedRectKind::AxisAligned],
            palette.indices() == Map::<RelativeTransformKey, usize>::empty(),
    {
        let mut transforms = Vec::with_capacity(count);
        let mut metadata = Vec::with_capacity(count);
        transforms.push(TransformData::invalid());
        metadata.push(TransformMetadata::invalid());
        let palette = TransformPalette { transforms, metadata, map: ResourceClassCache::new() };
        assert(palette.kinds() =~= seq![TransformedRectKind::AxisAligned]);
        assert(palette.transforms() =~= seq![
            TransformData { transform: MatrixBits::spec_identity(), inv_transform: MatrixBits::spec_identity() },
        ]);
        palette
    }

    /// The data of the entries, for upload.
    pub fn finish(self) -> (transforms: Vec<TransformData>)
        ensures
            transforms@ == self.transforms(),
    {
        self.transforms
    }

    /// Appends an entry. Returns its index.
    fn register_transform(&mut self, data: TransformData, kind: TransformedRectKind) -> (index: usize)
        requires
            old(self).wf(),
        ensures
            final(self).wf(),
            index == old(self).transforms().len(),
            final(self).transforms() == old(self).transforms().push(data),
            final(self).kinds() == old(self).kinds().push(kind),
            final(self).indices() == old(self).indices(),
    {
        let index = self.transforms.len();
        self.metadata.push(TransformMetadata { transform_kind: kind });
        self.transforms.push(data);
        assert(self.kinds() =~= old(self).kinds().push(kind));
        index
    }

    /// The id of the transform between two nodes, if the palette has it. The
    /// transform from a node to itself is the identity.
    pub fn get_id(&self, from_index: SpatialNodeIndex, to_index: SpatialNodeIndex) -> (id: Option<
        TransformPaletteId,
    >)
        requires
            self.wf(),
            self.transforms().len() <= 0x80_0000,
        ensures
            id == self.spec_id(from_index, to_index),
    {
        let index = if from_index == to_index {
            0
        } else {
            match self.map.try_get(&RelativeTransformKey { from_index, to_index }) {
                Some(index) => *index,
                None => {
                    return None;
                },
            }
        };
        Some(TransformPaletteId::new(index as u32, self.metadata[index].transform_kind))
    }

    pub open spec fn spec_id(&self, from_index: SpatialNodeIndex, to_index: SpatialNodeIndex) -> Option<
        TransformPaletteId,
    > {
        let key = RelativeTransformKey { from_index, to_index };
        if from_index == to_index {
            Some(TransformPaletteId(0u32 | (self.kinds()[0].spec_as_int() << 23u32)))
        } else if self.indices().contains_key(key) {
            Some(
                TransformPaletteId(
                    (self.indices()[key] as u32) | (self.kinds()[self.indices()[key] as int].spec_as_int() << 23u32),
                ),
            )
        } else {
            None
        }
    }

    /// Takes the transform between two different nodes into the palette, of
    /// which the palette has none yet. Returns its id.
    pub fn add_relative_transform(
        &mut self,
        from_index: SpatialNodeIndex,
        to_index: SpatialNodeIndex,
        data: TransformData,
        kind: TransformedRectKind,
    ) -> (id: TransformPaletteId)
        requires
            old(self).wf(),
            old(self).transforms().len() < 0x80_0000,
            from_index != to_index,
            !old(self).indices().contains_key(RelativeTransformKey { from_index, to_index }),
        ensures
            final(self).wf(),
            final(self).transforms() == old(self).transforms().push(data),
            final(self).kinds() == old(self).kinds().push(kind),
            final(self).indices() == old(self).indices().insert(
                RelativeTransformKey { from_index, to_index },
                old(self).transforms().len() as usize,
            ),
            id == TransformPaletteId((old(self).transforms().len() as u32) | (kind.spec_as_int() << 23u32)),
            Some(id) == final(self).spec_id(from_index, to_index),
    {
        let index = self.register_transform(data, kind);
        self.map.insert(RelativeTransformKey { from_index, to_index }, index);
        TransformPaletteId::new(index as u32, kind)
    }

    /// Takes a transform into the palette that belongs to no pair of nodes.
    /// Returns its id.
    pub fn get_custom(&mut self, data: TransformData, kind: TransformedRectKind) -> (id: TransformPaletteId)
        requires
            old(self).wf(),
            old(self).transforms().len() < 0x80_0000,
        ensures
            final(self).wf(),
            final(self).transforms() == old(self).transforms().push(data),
            final(self).kinds() == old(self).kinds().push(kind),
            final(self).indices() == old(self).indices(),
            id == TransformPaletteId((old(self).transforms().len() as u32) | (kind.spec_as_int() << 23u32)),
    {
        let index = self.register_transform(data, kind);
        TransformPaletteId::new(index as u32, kind)
    }
}

/// The shape that a cached item covers inside its texture rectangle.
#[derive(Clone, Copy, Debug, PartialEq, Eq, Structural, Hash)]
pub enum UvRectKind {
    /// The item covers the whole rectangle.
    Rect,
    /// The item covers the quad between four corners, which are homogeneous
    /// vectors. The shaders interpolate between them.
    Quad { top_left: FloatBits4, top_right: FloatBits4, bottom_left: FloatBits4, bottom_right: FloatBits4 },
}

/// Where an image is in a texture, as the shaders are told.
#[derive(Clone, Copy, Debug, PartialEq, Eq, Structural)]
pub struct ImageSource {
    /// The corners of the image in the texture: two points.
    pub p0_x: u32,
    pub p0_y: u32,
    pub p1_x: u32,
    pub p1_y: u32,
    pub user_data: FloatBits4,
    pub uv_rect_kind: UvRectKind,
}

impl ImageSource {
    /// The blocks that the image takes in the GPU cache: its corners, its
    /// user data, and for a quad its four corners.
    pub open spec fn gpu_blocks(&self) -> Seq<FloatBits4> {
        let head = seq![FloatBits4 { x: self.p0_x, y: self.p0_y, z: self.p1_x, w: self.p1_y }, self.user_data];
        match self.uv_rect_kind {
            UvRectKind::Rect => head,
            UvRectKind::Quad { top_left, top_right, bottom_left, bottom_right } => head + seq![
                top_left,
                top_right,
                bottom_left,
                bottom_right,
            ],
        }
    }

    /// Writes the blocks of the image behind those of a request to the GPU
    /// cache.
    pub fn write_gpu_blocks(&self, request: &mut Vec<FloatBits4>)
        ensures
            final(request)@ == old(request)@ + self.gpu_blocks(),
    {
        request.push(FloatBits4 { x: self.p0_x, y: self.p0_y, z: self.p1_x, w: self.p1_y });
        request.push(self.user_data);
        // Of a quad the four vertices are uploaded as well.
        if let UvRectKind::Quad { top_left, top_right, bottom_left, bottom_right } = self.uv_rect_kind {
            request.push(top_left);
            request.push(top_right);
            request.push(bottom_left);
            request.push(bottom_right);
        }
        assert(request@ =~= old(request)@ + self.gpu_blocks());
    }
}

/// What the batching passes around of a primitive.
#[derive(Clone, Copy, Debug, PartialEq, Eq, Structural)]
pub struct PrimitiveHeader {
    /// The rect of the primitive: four single-precision numbers.
    pub local_rect: FloatBits4,
    pub local_clip_rect: FloatBits4,
    pub specific_prim_address: GpuAddress,
    pub transform_id: TransformPaletteId,
}

/// The part of a primitive header that is single-precision numbers.
#[derive(Clone, Copy, Debug, PartialEq, Eq, Structural)]
pub struct PrimitiveHeaderF {
    pub local_rect: FloatBits4,
    pub local_clip_rect: FloatBits4,
}

/// The part of a primitive header that is integers.
#[derive(Clone, Copy, Debug, PartialEq, Eq)]
pub struct PrimitiveHeaderI {
    pub z: ZBufferId,
    pub specific_prim_address: i32,
    pub transform_id: TransformPaletteId,
    pub render_task_address: RenderTaskAddress,
    pub user_data: [i32; 4],
}

/// The headers of the primitives of a frame, in two lists of equal length.
pub struct PrimitiveHeaders {
    /// The integer parts of the headers.
    pub headers_int: Vec<PrimitiveHeaderI>,
    /// The single-precision parts of the headers.
    pub headers_float: Vec<PrimitiveHeaderF>,
}

impl PrimitiveHeaders {
    /// No headers.
    pub fn new() -> (headers: PrimitiveHeaders)
        ensures
            headers.headers_int@.len() == 0,
            headers.headers_float@.len() == 0,
    {
        PrimitiveHeaders { headers_int: Vec::new(), headers_float: Vec::new() }
    }

    /// Adds the header of a primitive. Returns its index.
    pub fn push(
        &mut self,
        prim_header: &PrimitiveHeader,
        z: ZBufferId,
        render_task_address: RenderTaskAddress,
        user_data: [i32; 4],
    ) -> (index: PrimitiveHeaderIndex)
        requires
            old(self).headers_int@.len() == old(self).headers_float@.len(),
            old(self).headers_float@.len() <= i32::MAX,
        ensures
            index.0 == old(self).headers_float@.len(),
            final(self).headers_float@ == old(self).headers_float@.push(
                PrimitiveHeaderF { local_rect: prim_header.local_rect, local_clip_rect: prim_header.local_clip_rect },
            ),
            final(self).headers_int@ == old(self).headers_int@.push(
                PrimitiveHeaderI {
                    z,
                    render_task_address,
                    specific_prim_address: prim_header.specific_prim_address.0,
                    transform_id: prim_header.transform_id,
                    user_data,
                },
            ),
    {
        let id = self.headers_float.len();
        self.headers_float.push(
            PrimitiveHeaderF { local_rect: prim_header.local_rect, local_clip_rect: prim_header.local_clip_rect },
        );
        self.headers_int.push(
            PrimitiveHeaderI {
                z,
                render_task_address,
                specific_prim_address: prim_header.specific_prim_address.0,
                transform_id: prim_header.transform_id,
                user_data,
            },
        );
        PrimitiveHeaderIndex(id as i32)
    }
}

} // verus!
