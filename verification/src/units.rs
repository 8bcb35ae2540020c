//! Integer geometry in device pixels and in tile units.
//!
//! Rectangles are half-open boxes `[min, max)`. The box operations are the
//! ones of the `euclid` crate; the library hands it plain coordinates and
//! reads plain coordinates back.

use vstd::prelude::*;

verus! {

/// A point in device pixels.
#[derive(Clone, Copy, Debug, PartialEq, Eq, Structural, Hash)]
pub struct DeviceIntPoint {
    pub x: i32,
    pub y: i32,
}

/// A size in device pixels.
#[derive(Clone, Copy, Debug, PartialEq, Eq, Structural, Hash)]
pub struct DeviceIntSize {
    pub width: i32,
    pub height: i32,
}

/// A half-open box `[min, max)` in device pixels.
#[derive(Clone, Copy, Debug, PartialEq, Eq, Structural, Hash)]
pub struct DeviceIntRect {
    pub min: DeviceIntPoint,
    pub max: DeviceIntPoint,
}

/// The position of a tile, in tile units.
#[derive(Clone, Copy, Debug, PartialEq, Eq, Structural, Hash)]
pub struct TileOffset {
    pub x: i32,
    pub y: i32,
}

/// A half-open range of tiles `[min, max)`.
#[derive(Clone, Copy, Debug, PartialEq, Eq, Structural, Hash)]
pub struct TileRange {
    pub min: TileOffset,
    pub max: TileOffset,
}

impl DeviceIntPoint {
    pub fn new(x: i32, y: i32) -> (p: Self)
        ensures
            p.x == x,
            p.y == y,
    {
        DeviceIntPoint { x, y }
    }
}

impl DeviceIntSize {
    pub fn new(width: i32, height: i32) -> (s: Self)
        ensures
            s.width == width,
            s.height == height,
    {
        DeviceIntSize { width, height }
    }

    pub fn zero() -> (s: Self)
        ensures
            s.width == 0,
            s.height == 0,
    {
        DeviceIntSize { width: 0, height: 0 }
    }
}

impl TileOffset {
    pub fn new(x: i32, y: i32) -> (t: Self)
        ensures
            t.x == x,
            t.y == y,
    {
        TileOffset { x, y }
    }
}

impl TileRange {
    /// A tile is in the range when both coordinates are, the upper bound excluded.
    pub open spec fn spec_contains(self, tile: TileOffset) -> bool {
        self.min.x <= tile.x < self.max.x && self.min.y <= tile.y < self.max.y
    }

    pub fn contains(&self, tile: TileOffset) -> (inside: bool)
        ensures
            inside == self.spec_contains(tile),
    {
        self.min.x <= tile.x && tile.x < self.max.x && self.min.y <= tile.y && tile.y < self.max.y
    }
}

impl DeviceIntRect {
    /// A box has pixels only when it is wider and taller than zero.
    pub open spec fn spec_is_empty(self) -> bool {
        !(self.max.x > self.min.x && self.max.y > self.min.y)
    }

    /// The box from the origin to `size`.
    pub open spec fn spec_from_size(size: DeviceIntSize) -> DeviceIntRect {
        DeviceIntRect {
            min: DeviceIntPoint { x: 0, y: 0 },
            max: DeviceIntPoint { x: size.width, y: size.height },
        }
    }

    /// The overlap of two boxes, which may be negative when they are apart.
    pub open spec fn spec_overlap(self, other: DeviceIntRect) -> DeviceIntRect {
        DeviceIntRect {
            min: DeviceIntPoint {
                x: if self.min.x >= other.min.x { self.min.x } else { other.min.x },
                y: if self.min.y >= other.min.y { self.min.y } else { other.min.y },
            },
            max: DeviceIntPoint {
                x: if self.max.x <= other.max.x { self.max.x } else { other.max.x },
                y: if self.max.y <= other.max.y { self.max.y } else { other.max.y },
            },
        }
    }

    /// The overlap of two boxes, or nothing when they share no pixel.
    pub open spec fn spec_intersection(self, other: DeviceIntRect) -> Option<DeviceIntRect> {
        if self.spec_overlap(other).spec_is_empty() {
            None
        } else {
            Some(self.spec_overlap(other))
        }
    }

    /// The smallest box around two boxes; an empty box yields to the other.
    pub open spec fn spec_union(self, other: DeviceIntRect) -> DeviceIntRect {
        if other.spec_is_empty() {
            self
        } else if self.spec_is_empty() {
            other
        } else {
            DeviceIntRect {
                min: DeviceIntPoint {
                    x: if self.min.x <= other.min.x { self.min.x } else { other.min.x },
                    y: if self.min.y <= other.min.y { self.min.y } else { other.min.y },
                },
                max: DeviceIntPoint {
                    x: if self.max.x >= other.max.x { self.max.x } else { other.max.x },
                    y: if self.max.y >= other.max.y { self.max.y } else { other.max.y },
                },
            }
        }
    }

    /// Whether moving the box by `(dx, dy)` keeps every coordinate an `i32`.
    pub open spec fn translatable(self, dx: int, dy: int) -> bool {
        &&& i32::MIN <= self.min.x + dx <= i32::MAX
        &&& i32::MIN <= self.max.x + dx <= i32::MAX
        &&& i32::MIN <= self.min.y + dy <= i32::MAX
        &&& i32::MIN <= self.max.y + dy <= i32::MAX
    }

    /// Whether width and height of the box are `i32` values.
    pub open spec fn measurable(self) -> bool {
        &&& i32::MIN <= self.max.x - self.min.x <= i32::MAX
        &&& i32::MIN <= self.max.y - self.min.y <= i32::MAX
    }

    pub fn new(min: DeviceIntPoint, max: DeviceIntPoint) -> (r: Self)
        ensures
            r.min == min,
            r.max == max,
    {
        DeviceIntRect { min, max }
    }

    pub fn zero() -> (r: Self)
        ensures
            r == Self::spec_from_size(DeviceIntSize { width: 0, height: 0 }),
    {
        DeviceIntRect { min: DeviceIntPoint { x: 0, y: 0 }, max: DeviceIntPoint { x: 0, y: 0 } }
    }

    pub fn from_size(size: DeviceIntSize) -> (r: Self)
        ensures
            r == Self::spec_from_size(size),
    {
        DeviceIntRect {
            min: DeviceIntPoint { x: 0, y: 0 },
            max: DeviceIntPoint { x: size.width, y: size.height },
        }
    }

    pub fn is_empty(&self) -> (empty: bool)
        ensures
            empty == self.spec_is_empty(),
    {
        !(self.max.x > self.min.x && self.max.y > self.min.y)
    }

    /// `euclid::Box2D::intersection` on `i32` coordinates: the component-wise
    /// larger `min` and smaller `max`, or `None` when that box is empty.
    #[verifier::external_body]
    pub(crate) fn intersection(&self, other: &DeviceIntRect) -> (r: Option<DeviceIntRect>)
        ensures
            r == self.spec_intersection(*other),
    {
        let a = euclid::default::Box2D::new(
            euclid::point2(self.min.x, self.min.y),
            euclid::point2(self.max.x, self.max.y),
        );
        let b = euclid::default::Box2D::new(
            euclid::point2(other.min.x, other.min.y),
            euclid::point2(other.max.x, other.max.y),
        );
        a.intersection(&b).map(|c| DeviceIntRect {
            min: DeviceIntPoint { x: c.min.x, y: c.min.y },
            max: DeviceIntPoint { x: c.max.x, y: c.max.y },
        })
    }

    /// `euclid::Box2D::union` on `i32` coordinates: if one box is empty the
    /// other one (the receiver when both are), else the box around both.
    #[verifier::external_body]
    pub(crate) fn union(&self, other: &DeviceIntRect) -> (r: DeviceIntRect)
        ensures
            r == self.spec_union(*other),
    {
        let a = euclid::default::Box2D::new(
            euclid::point2(self.min.x, self.min.y),
            euclid::point2(self.max.x, self.max.y),
        );
        let b = euclid::default::Box2D::new(
            euclid::point2(other.min.x, other.min.y),
            euclid::point2(other.max.x, other.max.y),
        );
        let c = a.union(&b);
        DeviceIntRect {
            min: DeviceIntPoint { x: c.min.x, y: c.min.y },
            max: DeviceIntPoint { x: c.max.x, y: c.max.y },
        }
    }

    /// `euclid::Box2D::translate` on `i32` coordinates: adds the vector to
    /// both corners. The additions are plain `i32` additions, so the sums
    /// must be `i32` values.
    #[verifier::external_body]
    pub(crate) fn translate(&self, dx: i32, dy: i32) -> (r: DeviceIntRect)
        requires
            self.translatable(dx as int, dy as int),
        ensures
            r.min.x == self.min.x + dx,
            r.min.y == self.min.y + dy,
            r.max.x == self.max.x + dx,
            r.max.y == self.max.y + dy,
    {
        let a = euclid::default::Box2D::new(
            euclid::point2(self.min.x, self.min.y),
            euclid::point2(self.max.x, self.max.y),
        );
        let c = a.translate(euclid::vec2(dx, dy));
        DeviceIntRect {
            min: DeviceIntPoint { x: c.min.x, y: c.min.y },
            max: DeviceIntPoint { x: c.max.x, y: c.max.y },
        }
    }

    /// `euclid::Box2D::size` on `i32` coordinates: `max - min` per axis, in
    /// plain `i32` subtractions, so the differences must be `i32` values.
    #[verifier::external_body]
    pub(crate) fn size(&self) -> (s: DeviceIntSize)
        requires
            self.measurable(),
        ensures
            s.width == self.max.x - self.min.x,
            s.height == self.max.y - self.min.y,
    {
        let a = euclid::default::Box2D::new(
            euclid::point2(self.min.x, self.min.y),
            euclid::point2(self.max.x, self.max.y),
        );
        let s = a.size();
        DeviceIntSize { width: s.width, height: s.height }
    }
}

} // verus!
