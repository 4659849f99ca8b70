//! Integer rectangles in canvas pixel coordinates.

use vstd::prelude::*;

verus! {

/// Largest width or height a constructed rectangle has.
pub const MAX_EXTENT: u32 = 1073741823;

/// Largest corner coordinate a constructed rectangle has.
pub const MAX_COORD: i32 = 1073741823;

/// Smallest corner coordinate a constructed rectangle has.
pub const MIN_COORD: i32 = -1073741824;

/// A width or height forced into `1 ..= MAX_EXTENT`.
pub open spec fn clamp_extent(v: int) -> int {
    if v <= 0 {
        1
    } else if v > MAX_EXTENT {
        MAX_EXTENT as int
    } else {
        v
    }
}

/// A coordinate forced into `MIN_COORD ..= MAX_COORD`.
pub open spec fn clamp_coord(v: int) -> int {
    if v > MAX_COORD {
        MAX_COORD as int
    } else if v < MIN_COORD {
        MIN_COORD as int
    } else {
        v
    }
}

/// Half of `d`, rounded toward zero.
pub open spec fn half(d: int) -> int {
    if d >= 0 {
        d / 2
    } else {
        -((-d) / 2)
    }
}

/// The unsigned pixel count that a signed dimension stands for: the value
/// itself when it is not negative, and otherwise the unsigned 32-bit number
/// with the same bits.
pub open spec fn pixels(d: int) -> int {
    if d < 0 {
        d + 0x1_0000_0000
    } else {
        d
    }
}

/// The signed coordinate that an unsigned 32-bit number stands for: the
/// value itself up to `i32::MAX`, and otherwise the negative number with
/// the same bits.
pub open spec fn signed(u: int) -> int {
    if u > i32::MAX {
        u - 0x1_0000_0000
    } else {
        u
    }
}

/// Executable form of [`pixels`].
pub fn pixel_count(d: i32) -> (r: u32)
    ensures
        r == pixels(d as int),
{
    if d >= 0 {
        d as u32
    } else {
        let wide: i64 = d as i64 + 0x1_0000_0000;
        wide as u32
    }
}

/// Executable form of [`signed`].
pub fn signed_coord(u: u32) -> (r: i32)
    ensures
        r == signed(u as int),
{
    if u <= 0x7fff_ffff {
        u as i32
    } else {
        let wide: i64 = u as i64 - 0x1_0000_0000;
        wide as i32
    }
}

/// An axis-aligned box: top-left corner `(x, y)`, width `w`, height `h`.
#[derive(Clone, Copy, Debug, PartialEq, Eq, Structural)]
pub struct Rect {
    pub x: i32,
    pub y: i32,
    pub w: u32,
    pub h: u32,
}

impl Rect {
    /// A rectangle is well formed when it is not empty and neither side is
    /// longer than `MAX_EXTENT`. The corner is free: motion may carry it
    /// anywhere an `i32` can hold.
    pub open spec fn wf(self) -> bool {
        &&& 1 <= self.w <= MAX_EXTENT
        &&& 1 <= self.h <= MAX_EXTENT
    }

    /// The rectangle that the constructors build from unbounded values.
    pub open spec fn build(x: int, y: int, w: int, h: int) -> Rect {
        Rect {
            x: clamp_coord(x) as i32,
            y: clamp_coord(y) as i32,
            w: clamp_extent(w) as u32,
            h: clamp_extent(h) as u32,
        }
    }

    /// Whether this rectangle's top-left corner lies inside `outer`, all
    /// four edges of `outer` included.
    pub open spec fn corner_within(self, outer: Rect) -> bool {
        &&& outer.x <= self.x <= outer.x + outer.w
        &&& outer.y <= self.y <= outer.y + outer.h
    }

    /// Builds a rectangle, clamping the corner into
    /// `MIN_COORD ..= MAX_COORD` and each side into `1 ..= MAX_EXTENT`.
    pub fn new(x: i32, y: i32, width: u32, height: u32) -> (r: Rect)
        ensures
            r == Rect::build(x as int, y as int, width as int, height as int),
            r.wf(),
    {
        Rect::clamped(x as i64, y as i64, width, height)
    }

    /// As [`Rect::new`], for a corner computed in 64-bit arithmetic.
    pub fn clamped(x: i64, y: i64, width: u32, height: u32) -> (r: Rect)
        ensures
            r == Rect::build(x as int, y as int, width as int, height as int),
            r.wf(),
    {
        Rect { x: coord(x), y: coord(y), w: extent(width), h: extent(height) }
    }

    /// Executable form of [`Rect::corner_within`].
    pub fn corner_in(&self, outer: &Rect) -> (inside: bool)
        ensures
            inside == self.corner_within(*outer),
    {
        let x: i64 = self.x as i64;
        let y: i64 = self.y as i64;
        let left: i64 = outer.x as i64;
        let top: i64 = outer.y as i64;
        x >= left && x <= left + outer.w as i64 && y >= top && y <= top + outer.h as i64
    }
}

fn coord(v: i64) -> (r: i32)
    ensures
        r == clamp_coord(v as int),
{
    if v > MAX_COORD as i64 {
        MAX_COORD
    } else if v < MIN_COORD as i64 {
        MIN_COORD
    } else {
        v as i32
    }
}

fn extent(v: u32) -> (r: u32)
    ensures
        r == clamp_extent(v as int),
{
    if v == 0 {
        1
    } else if v > MAX_EXTENT {
        MAX_EXTENT
    } else {
        v
    }
}

} // verus!
