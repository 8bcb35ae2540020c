use resource_cache::api::{DirtyRect, ImageDescriptor, ImageDescriptorFlags, ImageFormat};
use resource_cache::units::{DeviceIntPoint, DeviceIntRect, DeviceIntSize};

fn boxed(x0: i32, y0: i32, x1: i32, y1: i32) -> DeviceIntRect {
    DeviceIntRect::new(DeviceIntPoint::new(x0, y0), DeviceIntPoint::new(x1, y1))
}

#[test]
fn box_without_pixels_is_empty() {
    assert!(DeviceIntRect::zero().is_empty());
    assert!(boxed(5, 5, 5, 9).is_empty());
    assert!(boxed(5, 5, 9, 5).is_empty());
    assert!(boxed(9, 9, 5, 5).is_empty());
    assert!(!boxed(5, 5, 6, 6).is_empty());
    assert_eq!(DeviceIntRect::from_size(DeviceIntSize::new(3, 4)), boxed(0, 0, 3, 4));
    assert_eq!(DeviceIntRect::zero(), boxed(0, 0, 0, 0));
}

#[test]
fn union_of_dirty_rects_is_the_box_around_both() {
    let a = DirtyRect::Partial(boxed(0, 0, 10, 10));
    let b = DirtyRect::Partial(boxed(50, 50, 60, 60));
    assert_eq!(a.union(&b), DirtyRect::Partial(boxed(0, 0, 60, 60)));
    assert_eq!(b.union(&a), DirtyRect::Partial(boxed(0, 0, 60, 60)));
    let c = DirtyRect::Partial(boxed(-5, 20, 3, 70));
    assert_eq!(a.union(&c), DirtyRect::Partial(boxed(-5, 0, 10, 70)));
}

#[test]
fn empty_dirty_rect_yields_to_the_other() {
    let a = DirtyRect::Partial(boxed(3, 4, 10, 10));
    assert_eq!(DirtyRect::empty().union(&a), a);
    assert_eq!(a.union(&DirtyRect::empty()), a);
    assert_eq!(a.union(&DirtyRect::Partial(boxed(100, 100, 100, 200))), a);
    assert_eq!(DirtyRect::empty().union(&DirtyRect::empty()), DirtyRect::empty());
    // Of two empty boxes the first one stays.
    assert_eq!(
        DirtyRect::Partial(boxed(1, 1, 1, 1)).union(&DirtyRect::Partial(boxed(2, 2, 2, 2))),
        DirtyRect::Partial(boxed(1, 1, 1, 1))
    );
}

#[test]
fn everything_dirty_absorbs_every_rect() {
    let a = DirtyRect::Partial(boxed(3, 4, 10, 10));
    assert_eq!(DirtyRect::All.union(&a), DirtyRect::All);
    assert_eq!(a.union(&DirtyRect::All), DirtyRect::All);
    assert_eq!(DirtyRect::All.union(&DirtyRect::All), DirtyRect::All);
    assert!(!DirtyRect::All.is_empty());
    assert!(DirtyRect::empty().is_empty());
    assert!(!a.is_empty());
}

#[test]
fn replace_with_empty_hands_out_the_dirty_rect() {
    let mut dirty = DirtyRect::Partial(boxed(3, 4, 10, 10));
    assert_eq!(dirty.replace_with_empty(), DirtyRect::Partial(boxed(3, 4, 10, 10)));
    assert_eq!(dirty, DirtyRect::empty());
    let mut all = DirtyRect::All;
    assert_eq!(all.replace_with_empty(), DirtyRect::All);
    assert!(all.is_empty());
}

#[test]
fn stride_is_the_one_given_or_that_of_packed_rows() {
    let packed = ImageDescriptor::new(100, 30, ImageFormat::RGBA8, ImageDescriptorFlags::empty());
    assert_eq!(packed.compute_stride(), 400);
    let padded = ImageDescriptor { stride: Some(512), ..packed };
    assert_eq!(padded.compute_stride(), 512);
    let wide = ImageDescriptor::new(100, 30, ImageFormat::RGBAF32, ImageDescriptorFlags::empty());
    assert_eq!(wide.compute_stride(), 1600);
    assert!(!packed.is_opaque());
    assert!(!packed.allow_mipmaps());
    let flagged = ImageDescriptor { flags: ImageDescriptorFlags { is_opaque: true, allow_mipmaps: true }, ..packed };
    assert!(flagged.is_opaque() && flagged.allow_mipmaps());
}

#[test]
fn formats_have_their_bytes_per_pixel() {
    assert_eq!(ImageFormat::R8.bytes_per_pixel(), 1);
    assert_eq!(ImageFormat::R16.bytes_per_pixel(), 2);
    assert_eq!(ImageFormat::BGRA8.bytes_per_pixel(), 4);
    assert_eq!(ImageFormat::RGBAF32.bytes_per_pixel(), 16);
    assert_eq!(ImageFormat::RG8.bytes_per_pixel(), 2);
    assert_eq!(ImageFormat::RG16.bytes_per_pixel(), 4);
    assert_eq!(ImageFormat::RGBAI32.bytes_per_pixel(), 16);
    assert_eq!(ImageFormat::RGBA8.bytes_per_pixel(), 4);
}
