//! Cutting a large image into regular tiles.
//!
//! Tile `t` of a grid with tile size `ts` covers the pixels
//! `[t * ts, (t + 1) * ts)` on each axis. The grid is anchored at the origin,
//! not at the image, so the first and the last tile of an image may be
//! partial.

use vstd::prelude::*;
use vstd::arithmetic::div_mod::{lemma_fundamental_div_mod, lemma_mod_bound};
use crate::units::{DeviceIntRect, DeviceIntSize, TileOffset, TileRange};

verus! {

/// The side of a tile, in pixels.
pub type TileSize = u16;

/// The tile that holds pixel `x`: the one `t` with `t * ts <= x < (t + 1) * ts`.
pub open spec fn tile_of_pixel(x: int, ts: int) -> int {
    x / ts
}

/// One past the last tile that holds a pixel below `x`.
pub open spec fn tile_after_pixel(x: int, ts: int) -> int {
    (x + ts - 1) / ts
}

/// How many pixels of the range `[lo, hi)` fall into tile `tile`.
pub open spec fn tile_length(lo: int, hi: int, ts: int, tile: int) -> int {
    let from = if lo >= tile * ts { lo } else { tile * ts };
    let to = if hi <= (tile + 1) * ts { hi } else { (tile + 1) * ts };
    if to > from { to - from } else { 0 }
}

/// The size of the part of `image_rect` that falls into `tile`.
pub open spec fn tile_size_of(image_rect: DeviceIntRect, ts: TileSize, tile: TileOffset) -> DeviceIntSize {
    DeviceIntSize {
        width: tile_length(image_rect.min.x as int, image_rect.max.x as int, ts as int, tile.x as int) as i32,
        height: tile_length(image_rect.min.y as int, image_rect.max.y as int, ts as int, tile.y as int) as i32,
    }
}

/// The tiles that a (non-empty) area touches.
pub open spec fn tile_range_of(area: DeviceIntRect, ts: TileSize) -> TileRange {
    TileRange {
        min: TileOffset {
            x: tile_of_pixel(area.min.x as int, ts as int) as i32,
            y: tile_of_pixel(area.min.y as int, ts as int) as i32,
        },
        max: TileOffset {
            x: tile_after_pixel(area.max.x as int, ts as int) as i32,
            y: tile_after_pixel(area.max.y as int, ts as int) as i32,
        },
    }
}

/// `tile_of_pixel` rounds down and `tile_after_pixel` rounds up: the first
/// is the only tile whose span holds `x`, the second the only tile whose
/// span starts at or after `x` while the span before it starts below `x`.
pub proof fn lemma_tile_bounds(x: int, ts: int)
    requires
        ts > 0,
    ensures
        tile_of_pixel(x, ts) * ts <= x < (tile_of_pixel(x, ts) + 1) * ts,
        (tile_after_pixel(x, ts) - 1) * ts < x <= tile_after_pixel(x, ts) * ts,
{
    lemma_fundamental_div_mod(x, ts);
    lemma_mod_bound(x, ts);
    lemma_fundamental_div_mod(x + ts - 1, ts);
    lemma_mod_bound(x + ts - 1, ts);
    let q = x / ts;
    let p = (x + ts - 1) / ts;
    assert(q * ts == ts * q && (q + 1) * ts == ts * q + ts) by (nonlinear_arith);
    assert(p * ts == ts * p && (p - 1) * ts == ts * p - ts) by (nonlinear_arith);
}

/// A tile has a pixel of the range `[lo, hi)` exactly when it lies in the
/// tile range of `[lo, hi)`, and no tile holds more than `ts` pixels.
pub proof fn lemma_tile_length_in_range(lo: int, hi: int, ts: int, tile: int)
    requires
        ts > 0,
    ensures
        0 <= tile_length(lo, hi, ts, tile) <= ts,
        tile_length(lo, hi, ts, tile) > 0 <==> (lo < hi && tile_of_pixel(lo, ts) <= tile
            < tile_after_pixel(hi, ts)),
        tile_length(lo, hi, ts, tile) > 0 ==> lo < (tile + 1) * ts && tile * ts < hi,
{
    lemma_tile_bounds(lo, ts);
    lemma_tile_bounds(hi, ts);
    let a = tile_of_pixel(lo, ts);
    let b = tile_after_pixel(hi, ts);
    assert((tile + 1) * ts == tile * ts + ts) by (nonlinear_arith);
    assert((a + 1) * ts == a * ts + ts) by (nonlinear_arith);
    assert((b - 1) * ts == b * ts - ts) by (nonlinear_arith);
    if tile < a {
        assert((tile + 1) * ts <= a * ts) by (nonlinear_arith)
            requires tile + 1 <= a, ts > 0;
    } else {
        assert(a * ts <= tile * ts) by (nonlinear_arith)
            requires a <= tile, ts > 0;
    }
    if tile >= b {
        assert(b * ts <= tile * ts) by (nonlinear_arith)
            requires b <= tile, ts > 0;
    } else {
        assert((tile + 1) * ts <= b * ts) by (nonlinear_arith)
            requires tile + 1 <= b, ts > 0;
    }
}

/// The first tile that holds a pixel at or after `lo`, and one past the last
/// tile that holds a pixel below `hi`.
fn tile_range_1d(lo: i32, hi: i32, regular_tile_size: i32) -> (r: (i32, i32))
    requires
        regular_tile_size > 0,
    ensures
        r.0 == tile_of_pixel(lo as int, regular_tile_size as int),
        r.1 == tile_after_pixel(hi as int, regular_tile_size as int),
{
    // The machine division truncates towards zero, so a partial first tile
    // below zero and a partial last tile above zero are off by one.
    let q_lo: i32 = lo / regular_tile_size;
    let m_lo: i32 = lo % regular_tile_size;
    let q_hi: i32 = hi / regular_tile_size;
    let m_hi: i32 = hi % regular_tile_size;
    proof {
        lemma_truncated_division(lo as int, regular_tile_size as int, q_lo as int, m_lo as int);
        lemma_truncated_division(hi as int, regular_tile_size as int, q_hi as int, m_hi as int);
    }
    let start: i32 = if m_lo < 0 { q_lo - 1 } else { q_lo };
    let end: i32 = if m_hi > 0 { q_hi + 1 } else { q_hi };
    proof {
        let ts = regular_tile_size as int;
        assert((start + 1) * ts == start * ts + ts) by (nonlinear_arith);
        assert((end - 1) * ts == end * ts - ts) by (nonlinear_arith);
        assert((q_lo - 1) * ts == q_lo * ts - ts) by (nonlinear_arith);
        assert((q_hi + 1) * ts == q_hi * ts + ts) by (nonlinear_arith);
        lemma_floor_unique(lo as int, ts, start as int);
        lemma_ceil_unique(hi as int, ts, end as int);
    }
    (start, end)
}

/// What the machine's truncating division and remainder give for a positive
/// divisor: the remainder has the sign of the dividend and is smaller than
/// the divisor, and a quotient that was rounded is not at the `i32` limits.
proof fn lemma_truncated_division(x: int, ts: int, q: int, m: int)
    requires
        ts > 0,
        i32::MIN <= x <= i32::MAX,
        q == (if x >= 0 { x / ts } else { -((-x) / ts) }),
        m == (if x >= 0 { x % ts } else { -((-x) % ts) }),
    ensures
        x == q * ts + m,
        -ts < m < ts,
        m < 0 ==> x < 0 && q > i32::MIN,
        m > 0 ==> x > 0 && q < i32::MAX,
{
    let a = if x >= 0 { x } else { -x };
    lemma_fundamental_div_mod(a, ts);
    lemma_mod_bound(a, ts);
    let qa = a / ts;
    assert(ts * qa == qa * ts) by (nonlinear_arith);
    assert((-qa) * ts == -(qa * ts)) by (nonlinear_arith);
    assert(0 <= qa) by (nonlinear_arith)
        requires a == qa * ts + a % ts, 0 <= a % ts < ts, a >= 0, ts > 0;
    if m != 0 {
        // A non-zero remainder needs a divisor of at least two, which at
        // least halves the dividend.
        assert(ts >= 2);
        assert(2 * qa <= a) by (nonlinear_arith)
            requires a == qa * ts + a % ts, 0 <= a % ts, ts >= 2, qa >= 0;
    }
}

proof fn lemma_floor_unique(x: int, ts: int, t: int)
    requires
        ts > 0,
        t * ts <= x < (t + 1) * ts,
    ensures
        t == tile_of_pixel(x, ts),
{
    lemma_tile_bounds(x, ts);
    let q = tile_of_pixel(x, ts);
    if t < q {
        assert((t + 1) * ts <= q * ts) by (nonlinear_arith)
            requires t + 1 <= q, ts > 0;
    } else if t > q {
        assert((q + 1) * ts <= t * ts) by (nonlinear_arith)
            requires q + 1 <= t, ts > 0;
    }
}

proof fn lemma_ceil_unique(x: int, ts: int, t: int)
    requires
        ts > 0,
        (t - 1) * ts < x <= t * ts,
    ensures
        t == tile_after_pixel(x, ts),
{
    lemma_tile_bounds(x, ts);
    let p = tile_after_pixel(x, ts);
    if t < p {
        assert(t * ts <= (p - 1) * ts) by (nonlinear_arith)
            requires t <= p - 1, ts > 0;
    } else if t > p {
        assert(p * ts <= (t - 1) * ts) by (nonlinear_arith)
            requires p <= t - 1, ts > 0;
    }
}

/// The number of pixels of `[lo, hi)` inside one tile.
fn compute_tile_length(lo: i32, hi: i32, regular_tile_size: u16, tile: i32) -> (len: i32)
    ensures
        len == tile_length(lo as int, hi as int, regular_tile_size as int, tile as int),
        0 <= len <= regular_tile_size,
{
    let ts: i64 = regular_tile_size as i64;
    assert(-0x8000_0000 * 0x1_0000 <= (tile as int) * (regular_tile_size as int)
        <= 0x8000_0000 * 0x1_0000) by (nonlinear_arith)
        requires
            -0x8000_0000 <= tile as int <= 0x8000_0000,
            0 <= regular_tile_size as int <= 0x1_0000,
    ;
    let tile_lo: i64 = (tile as i64) * ts;
    assert((tile as int + 1) * (regular_tile_size as int) == tile_lo + ts) by (nonlinear_arith)
        requires
            tile_lo == (tile as int) * (regular_tile_size as int),
            ts == regular_tile_size as int,
    ;
    let tile_hi: i64 = tile_lo + ts;
    let from: i64 = if lo as i64 >= tile_lo { lo as i64 } else { tile_lo };
    let to: i64 = if hi as i64 <= tile_hi { hi as i64 } else { tile_hi };
    if to > from {
        (to - from) as i32
    } else {
        0
    }
}

/// The size in pixels of one tile of an image: a regular tile is
/// `regular_tile_size` on each side, a tile at the border of the image is
/// clipped to the image, and a tile outside the image is empty.
pub fn compute_tile_size(image_rect: &DeviceIntRect, regular_tile_size: TileSize, tile: TileOffset) -> (size:
    DeviceIntSize)
    ensures
        size == tile_size_of(*image_rect, regular_tile_size, tile),
        0 <= size.width <= regular_tile_size,
        0 <= size.height <= regular_tile_size,
{
    DeviceIntSize {
        width: compute_tile_length(image_rect.min.x, image_rect.max.x, regular_tile_size, tile.x),
        height: compute_tile_length(image_rect.min.y, image_rect.max.y, regular_tile_size, tile.y),
    }
}

/// The range of tiles that `visible_area` touches.
pub fn compute_tile_range(visible_area: &DeviceIntRect, tile_size: TileSize) -> (range: TileRange)
    requires
        tile_size > 0,
    ensures
        range == tile_range_of(*visible_area, tile_size),
{
    let ts: i32 = tile_size as i32;
    let xs = tile_range_1d(visible_area.min.x, visible_area.max.x, ts);
    let ys = tile_range_1d(visible_area.min.y, visible_area.max.y, ts);
    TileRange {
        min: TileOffset { x: xs.0, y: ys.0 },
        max: TileOffset { x: xs.1, y: ys.1 },
    }
}

} // verus!
