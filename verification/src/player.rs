//! The player's craft.

use vstd::prelude::*;
use crate::rect::{half, pixel_count, pixels, Rect};

verus! {

/// The craft: a box of fixed size whose top-left corner follows the pointer.
#[derive(Clone, Copy, Debug, PartialEq, Eq, Structural)]
pub struct Player {
    pub x: i32,
    pub y: i32,
    pub w: i32,
    pub h: i32,
}

impl Player {
    /// The corner that centres a side of length `d` on `c`.
    pub open spec fn corner_for(c: int, d: int) -> int {
        c - half(d)
    }

    /// The rectangle that the craft occupies.
    pub open spec fn bounds(self) -> Rect {
        Rect::build(self.x as int, self.y as int, pixels(self.w as int), pixels(self.h as int))
    }

    /// The craft after it was centred on `(x, y)`.
    pub open spec fn moved(self, x: i32, y: i32) -> Player {
        Player {
            x: Player::corner_for(x as int, self.w as int) as i32,
            y: Player::corner_for(y as int, self.h as int) as i32,
            w: self.w,
            h: self.h,
        }
    }

    /// Whether the corner that centres the craft on `(x, y)` fits an `i32`.
    pub open spec fn reaches(self, x: i32, y: i32) -> bool {
        &&& i32::MIN <= Player::corner_for(x as int, self.w as int) <= i32::MAX
        &&& i32::MIN <= Player::corner_for(y as int, self.h as int) <= i32::MAX
    }

    /// A craft of the given size with its corner at the origin.
    pub fn new(w: i32, h: i32) -> (p: Player)
        ensures
            p == (Player { x: 0, y: 0, w, h }),
    {
        Player { x: 0, y: 0, w, h }
    }

    /// Centres the craft on `(x, y)`. The size stays; nothing is clamped to
    /// the canvas. The new corner has to fit an `i32`.
    pub fn move_to(&mut self, x: i32, y: i32)
        requires
            old(self).reaches(x, y),
        ensures
            *final(self) == old(self).moved(x, y),
            final(self).x == x - half(old(self).w as int),
            final(self).y == y - half(old(self).h as int),
    {
        self.x = x - self.w / 2;
        self.y = y - self.h / 2;
    }

    /// Whether [`Player::move_to`] accepts the centre `(x, y)`.
    pub fn can_move_to(&self, x: i32, y: i32) -> (ok: bool)
        ensures
            ok == self.reaches(x, y),
    {
        let cx: i64 = x as i64 - (self.w / 2) as i64;
        let cy: i64 = y as i64 - (self.h / 2) as i64;
        cx >= i32::MIN as i64 && cx <= i32::MAX as i64 && cy >= i32::MIN as i64 && cy <= i32::MAX as i64
    }

    /// Executable form of [`Player::bounds`].
    pub fn rect(&self) -> (r: Rect)
        ensures
            r == self.bounds(),
            r.wf(),
    {
        Rect::new(self.x, self.y, pixel_count(self.w), pixel_count(self.h))
    }
}

} // verus!
