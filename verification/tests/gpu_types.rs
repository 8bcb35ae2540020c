use resource_cache::gpu_types::{
    AlphaType, ImageBrushData, BlurDirection, BlurEdgeMode, BrushFlags, BrushInstance, ClipSpace, GlyphInstance, GpuAddress, ImageSource,
    MatrixBits, PrimitiveHeader, PrimitiveHeaderF, PrimitiveHeaderI, PrimitiveHeaderIndex, PrimitiveHeaders,
    PrimitiveInstanceData, QuadInstance, RasterizationSpace, RenderTaskAddress, ShaderColorMode, SpatialNodeIndex,
    SplitCompositeInstance, SubpixelDirection, TransformData, TransformMetadata, TransformPalette,
    TransformPaletteId, TransformedRectKind, UvRectKind, ZBufferId, ZBufferIdGenerator, VECS_PER_TRANSFORM,
};
use resource_cache::internal_types::FloatBits4;

#[test]
fn depth_ids_are_handed_out_in_order() {
    assert_eq!(ZBufferId::invalid(), ZBufferId(i32::MAX));
    let mut generator = ZBufferIdGenerator::new(3);
    assert!(generator.has_next());
    assert_eq!(generator.next(), ZBufferId(0));
    assert_eq!(generator.next(), ZBufferId(1));
    assert_eq!(generator.next(), ZBufferId(2));
    assert!(!generator.has_next());
    assert!(!ZBufferIdGenerator::new(0).has_next());
    assert_eq!(VECS_PER_TRANSFORM, 8);
}

#[test]
fn enums_have_the_numbers_of_the_shaders() {
    assert_eq!(BlurDirection::Horizontal.as_int(), 0);
    assert_eq!(BlurDirection::Vertical.as_int(), 1);
    assert_eq!(BlurEdgeMode::Duplicate.as_int(), 0);
    assert_eq!(BlurEdgeMode::Mirror.as_int(), 1);
    assert_eq!(ClipSpace::Raster.as_int(), 0);
    assert_eq!(ClipSpace::Primitive.as_int(), 1);
    assert_eq!(RasterizationSpace::Local.as_int(), 0);
    assert_eq!(RasterizationSpace::Screen.as_int(), 1);
    assert_eq!(TransformedRectKind::AxisAligned.as_int(), 0);
    assert_eq!(TransformedRectKind::Complex.as_int(), 1);
}

#[test]
fn glyph_instance_packs_direction_colour_mode_and_index() {
    let instance = GlyphInstance::new(PrimitiveHeaderIndex(17));
    let data = instance.build(
        RenderTaskAddress(5),
        SubpixelDirection(2),
        0x1234,
        GpuAddress(99),
        ShaderColorMode(7),
    );
    assert_eq!(data, PrimitiveInstanceData { data0: 17, data1: 5, data2: 0x0207_1234, data3: 99 });
    let data = instance.build(RenderTaskAddress(5), SubpixelDirection(0), 0, GpuAddress(0), ShaderColorMode(0));
    assert_eq!(data.data2, 0);
}

#[test]
fn split_composite_instance_is_its_four_numbers() {
    let instance = SplitCompositeInstance {
        prim_header_index: PrimitiveHeaderIndex(1),
        polygons_address: 2,
        z: ZBufferId(3),
        render_task_address: RenderTaskAddress(4),
    };
    assert_eq!(
        instance.into_primitive_instance_data(),
        PrimitiveInstanceData { data0: 1, data1: 2, data2: 3, data3: 4 }
    );
    let data: PrimitiveInstanceData = instance.into();
    assert_eq!(data, PrimitiveInstanceData { data0: 1, data1: 2, data2: 3, data3: 4 });
}

#[test]
fn quad_instance_packs_four_bytes() {
    let instance = QuadInstance {
        dst_task_address: RenderTaskAddress(9),
        prim_address_i: GpuAddress(10),
        prim_address_f: GpuAddress(11),
        quad_flags: 0x12,
        edge_flags: 0x34,
        part_index: 0x56,
        segment_index: 0x78,
    };
    assert_eq!(
        instance.into_primitive_instance_data(),
        PrimitiveInstanceData { data0: 10, data1: 11, data2: 0x1234_5678, data3: 9 }
    );
    assert_eq!(PrimitiveInstanceData::from(instance), instance.into_primitive_instance_data());
    let high = QuadInstance { quad_flags: 0xff, edge_flags: 0, part_index: 0, segment_index: 1, ..instance };
    assert_eq!(high.into_primitive_instance_data().data2, 0xff00_0001u32 as i32);
}

#[test]
fn brush_flags_are_bits() {
    assert_eq!(BrushFlags::perspective_interpolation().bits(), 1);
    assert_eq!(BrushFlags::segment_relative().bits(), 2);
    assert_eq!(BrushFlags::segment_repeat_x().bits(), 4);
    assert_eq!(BrushFlags::segment_repeat_y().bits(), 8);
    assert_eq!(BrushFlags::segment_repeat_x_round().bits(), 16);
    assert_eq!(BrushFlags::segment_repeat_y_round().bits(), 32);
    assert_eq!(BrushFlags::segment_repeat_x_centered().bits(), 64);
    assert_eq!(BrushFlags::segment_repeat_y_centered().bits(), 128);
    assert_eq!(BrushFlags::segment_ninepatch_middle().bits(), 256);
    assert_eq!(BrushFlags::segment_texel_rect().bits(), 512);
    assert_eq!(BrushFlags::force_aa().bits(), 1024);
    assert_eq!(BrushFlags::normalized_uvs().bits(), 2048);
    assert!(BrushFlags::empty().is_empty());
    let both = BrushFlags::force_aa().union(BrushFlags::segment_relative());
    assert_eq!(both.bits(), 1026);
    assert!(both.contains(BrushFlags::force_aa()));
    assert!(both.contains(BrushFlags::empty()));
    assert!(!both.contains(BrushFlags::normalized_uvs()));
    assert!(!both.contains(BrushFlags::force_aa().union(BrushFlags::normalized_uvs())));
    assert_eq!(BrushFlags::from_bits_truncate(0xf003), BrushFlags::perspective_interpolation().union(BrushFlags::segment_relative()));
}

#[test]
fn brush_instance_packs_flags_over_the_segment_index() {
    let instance = BrushInstance {
        prim_header_index: PrimitiveHeaderIndex(1),
        clip_task_address: RenderTaskAddress(2),
        segment_index: 0x21,
        edge_flags: 0x5,
        brush_flags: BrushFlags::normalized_uvs().union(BrushFlags::perspective_interpolation()),
        resource_address: 77,
    };
    assert_eq!(
        instance.into_primitive_instance_data(),
        PrimitiveInstanceData { data0: 1, data1: 2, data2: 0x5801_0021, data3: 77 }
    );
    assert_eq!(PrimitiveInstanceData::from(instance).data2, 0x5801_0021);
}

#[test]
fn transform_palette_id_holds_index_and_kind() {
    assert_eq!(TransformPaletteId::identity(), TransformPaletteId(0));
    assert_eq!(TransformPaletteId::identity().transform_kind(), TransformedRectKind::AxisAligned);
    let complex = TransformPaletteId::new(5, TransformedRectKind::Complex);
    assert_eq!(complex, TransformPaletteId(5 | (1 << 23)));
    assert_eq!(complex.transform_kind(), TransformedRectKind::Complex);
    let aligned = complex.override_transform_kind(TransformedRectKind::AxisAligned);
    assert_eq!(aligned, TransformPaletteId(5));
    assert_eq!(aligned.transform_kind(), TransformedRectKind::AxisAligned);
    assert_eq!(aligned.override_transform_kind(TransformedRectKind::Complex), complex);
    assert_eq!(complex.override_transform_kind(TransformedRectKind::Complex), complex);
    // Bits above the kind bit are dropped when the kind is set.
    assert_eq!(TransformPaletteId(0xff00_0003).override_transform_kind(TransformedRectKind::AxisAligned), TransformPaletteId(3));
    assert_eq!(TransformMetadata::invalid().transform_kind, TransformedRectKind::AxisAligned);
}

#[test]
fn transform_palette_has_one_entry_per_pair_of_nodes() {
    let mut palette = TransformPalette::new(4);
    let a = SpatialNodeIndex(1);
    let b = SpatialNodeIndex(2);
    assert_eq!(palette.get_id(a, a), Some(TransformPaletteId(0)));
    assert_eq!(palette.get_id(a, b), None);
    let data = TransformData {
        transform: MatrixBits { row0: FloatBits4 { x: 1, y: 2, z: 3, w: 4 }, ..MatrixBits::identity() },
        inv_transform: MatrixBits::identity(),
    };
    let id = palette.add_relative_transform(a, b, data, TransformedRectKind::Complex);
    assert_eq!(id, TransformPaletteId(1 | (1 << 23)));
    assert_eq!(palette.get_id(a, b), Some(id));
    assert_eq!(palette.get_id(b, a), None);
    let custom = palette.get_custom(TransformData::invalid(), TransformedRectKind::AxisAligned);
    assert_eq!(custom, TransformPaletteId(2));
    let back = palette.add_relative_transform(b, a, data, TransformedRectKind::AxisAligned);
    assert_eq!(back, TransformPaletteId(3));
    assert_eq!(palette.get_id(b, a), Some(back));
    let transforms = palette.finish();
    assert_eq!(transforms, vec![TransformData::invalid(), data, TransformData::invalid(), data]);
    assert_eq!(MatrixBits::identity().row1, FloatBits4 { x: 0, y: 0x3f80_0000, z: 0, w: 0 });
}

#[test]
fn image_source_writes_two_blocks_or_six() {
    let user_data = FloatBits4 { x: 9, y: 8, z: 7, w: 6 };
    let rect = ImageSource { p0_x: 1, p0_y: 2, p1_x: 3, p1_y: 4, user_data, uv_rect_kind: UvRectKind::Rect };
    let mut request = vec![FloatBits4::zero()];
    rect.write_gpu_blocks(&mut request);
    assert_eq!(request, vec![FloatBits4::zero(), FloatBits4 { x: 1, y: 2, z: 3, w: 4 }, user_data]);
    let corner = |n: u32| FloatBits4 { x: n, y: n, z: n, w: n };
    let quad = ImageSource {
        uv_rect_kind: UvRectKind::Quad {
            top_left: corner(1),
            top_right: corner(2),
            bottom_left: corner(3),
            bottom_right: corner(4),
        },
        ..rect
    };
    let mut request = Vec::new();
    quad.write_gpu_blocks(&mut request);
    assert_eq!(
        request,
        vec![FloatBits4 { x: 1, y: 2, z: 3, w: 4 }, user_data, corner(1), corner(2), corner(3), corner(4)]
    );
}

#[test]
fn primitive_headers_grow_in_step() {
    let mut headers = PrimitiveHeaders::new();
    let header = PrimitiveHeader {
        local_rect: FloatBits4 { x: 1, y: 2, z: 3, w: 4 },
        local_clip_rect: FloatBits4 { x: 5, y: 6, z: 7, w: 8 },
        specific_prim_address: GpuAddress(42),
        transform_id: TransformPaletteId(3),
    };
    let first = headers.push(&header, ZBufferId(1), RenderTaskAddress(2), [1, 2, 3, 4]);
    let second = headers.push(&header, ZBufferId(5), RenderTaskAddress(6), [0, 0, 0, 0]);
    assert_eq!(first, PrimitiveHeaderIndex(0));
    assert_eq!(second, PrimitiveHeaderIndex(1));
    assert_eq!(
        headers.headers_float,
        vec![PrimitiveHeaderF { local_rect: header.local_rect, local_clip_rect: header.local_clip_rect }; 2]
    );
    assert_eq!(
        headers.headers_int[0],
        PrimitiveHeaderI {
            z: ZBufferId(1),
            specific_prim_address: 42,
            transform_id: TransformPaletteId(3),
            render_task_address: RenderTaskAddress(2),
            user_data: [1, 2, 3, 4],
        }
    );
    assert_eq!(headers.headers_int[1].z, ZBufferId(5));
}

#[test]
fn image_brush_data_packs_alpha_type_over_colour_mode() {
    let data = ImageBrushData {
        color_mode: ShaderColorMode(8),
        alpha_type: AlphaType::PremultipliedAlpha,
        raster_space: RasterizationSpace::Screen,
        opacity: 0.5f32.to_bits(),
    };
    assert_eq!(data.encode(32768), [0x1_0008, 1, 32768, 0]);
    let plain = ImageBrushData { alpha_type: AlphaType::Alpha, raster_space: RasterizationSpace::Local, ..data };
    assert_eq!(plain.encode(0), [8, 0, 0, 0]);
    assert_eq!(AlphaType::Alpha.as_int(), 0);
    assert_eq!(AlphaType::PremultipliedAlpha.as_int(), 1);
}
