//! The enemy pool: craft that appear at the canvas top at a fixed rhythm
//! and descend.

use vstd::prelude::*;
use crate::pool::{advance, advanced, all_wf, lemma_advanced_len, Entry, Travel};
use crate::rect::{pixel_count, pixels, signed, signed_coord, Rect};
use crate::throttle::Throttle;

verus! {

/// Least time between two enemies, in milliseconds.
pub const ENEMY_INTERVAL_MS: u64 = 650;

/// The live enemies, the size that a new enemy gets, the canvas they cross,
/// and the throttle that spaces them.
#[derive(Debug)]
pub struct Enemy {
    pub throttle: Throttle,
    pub entries: Vec<Entry>,
    pub w: i32,
    pub h: i32,
    pub can_w: i32,
    pub can_h: i32,
}

/// What an [`Enemy`] pool holds, as mathematics.
pub struct EnemyModel {
    pub throttle: Throttle,
    pub entries: Seq<Entry>,
    pub w: i32,
    pub h: i32,
    pub can_w: i32,
    pub can_h: i32,
}

impl View for Enemy {
    type V = EnemyModel;

    open spec fn view(&self) -> EnemyModel {
        EnemyModel {
            throttle: self.throttle,
            entries: self.entries@,
            w: self.w,
            h: self.h,
            can_w: self.can_w,
            can_h: self.can_h,
        }
    }
}

/// How many horizontal positions a box `w` wide has on a canvas `can_w`
/// wide: the canvas width less the box width, and none if the box is at
/// least as wide as the canvas.
pub open spec fn span(can_w: int, w: int) -> int {
    if pixels(can_w) > pixels(w) {
        pixels(can_w) - pixels(w)
    } else {
        0
    }
}

impl EnemyModel {
    /// The empty pool that [`Enemy::new`] builds.
    pub open spec fn fresh(can_w: i32, can_h: i32, w: i32, h: i32, now: u64) -> EnemyModel {
        EnemyModel {
            throttle: Throttle { last: now, interval: ENEMY_INTERVAL_MS },
            entries: Seq::empty(),
            w,
            h,
            can_w,
            can_h,
        }
    }

    /// A pool is well formed when each of its entries is and an enemy has
    /// at least one position to appear at.
    pub open spec fn wf(self) -> bool {
        &&& all_wf(self.entries)
        &&& span(self.can_w as int, self.w as int) > 0
    }

    /// The travel of an enemy: down, until its top edge has passed the
    /// canvas bottom.
    pub open spec fn lane(self) -> Travel {
        Travel::Down { limit: self.can_h }
    }

    /// The rectangle of the enemy that the random number `draw` places: at
    /// the canvas top, `draw` reduced to the span of positions from the
    /// left edge.
    pub open spec fn entrance(self, draw: u32) -> Rect {
        Rect::build(
            signed(draw as int % span(self.can_w as int, self.w as int)),
            0,
            pixels(self.w as int),
            pixels(self.h as int),
        )
    }

    /// The entries once the throttle has been asked at `now`: a fresh enemy
    /// behind the old ones if it was due, the old ones alone if not.
    pub open spec fn loaded(self, now: u64, draw: u32) -> Seq<Entry> {
        if self.throttle.due(now) {
            self.entries.push(Entry { rect: self.entrance(draw), alive: true })
        } else {
            self.entries
        }
    }

    /// The pool after one call of [`Enemy::produce`].
    pub open spec fn produce(self, now: u64, draw: u32) -> EnemyModel {
        EnemyModel {
            throttle: self.throttle.after(now),
            entries: advanced(self.loaded(now, draw), self.lane()),
            w: self.w,
            h: self.h,
            can_w: self.can_w,
            can_h: self.can_h,
        }
    }
}

impl Enemy {
    /// Whether a canvas `can_w` wide leaves an enemy `w` wide a position to
    /// appear at, as [`Enemy::new`] asks.
    pub fn has_room(can_w: i32, w: i32) -> (ok: bool)
        ensures
            ok == (span(can_w as int, w as int) > 0),
    {
        pixel_count(can_w) > pixel_count(w)
    }

    /// An empty pool on a canvas of `can_w` by `can_h`, whose enemies will
    /// be `w` wide and `h` high, with the first interval starting at `now`.
    /// The canvas has to be wider than an enemy.
    pub fn new(can_w: i32, can_h: i32, w: i32, h: i32, now: u64) -> (pool: Enemy)
        requires
            span(can_w as int, w as int) > 0,
        ensures
            pool@ == EnemyModel::fresh(can_w, can_h, w, h, now),
            pool@.wf(),
    {
        Enemy {
            throttle: Throttle::new(ENEMY_INTERVAL_MS, now),
            entries: Vec::new(),
            w,
            h,
            can_w,
            can_h,
        }
    }

    /// One frame of the pool at time `now`. If a full interval has passed
    /// since the last enemy, a new one appears at the position that `draw`
    /// selects and the interval restarts at `now`; however long the wait
    /// was, one call adds at most one enemy. Then every enemy, the new one
    /// included, moves one pixel down, and the enemies that are dead or
    /// have passed the canvas bottom are removed. Returns whether an enemy
    /// appeared. `draw` is read only when one does.
    pub fn produce(&mut self, now: u64, draw: u32) -> (added: bool)
        requires
            old(self)@.wf(),
        ensures
            added == old(self)@.throttle.due(now),
            final(self)@ == old(self)@.produce(now, draw),
            final(self)@.entries.len() <= old(self)@.entries.len() + (if added {
                1nat
            } else {
                0nat
            }),
            final(self)@.wf(),
    {
        proof {
            lemma_advanced_len(old(self)@.loaded(now, draw), old(self)@.lane());
        }
        let added = self.throttle.fire(now);
        if added {
            let room: u32 = pixel_count(self.can_w) - pixel_count(self.w);
            let x: u32 = draw % room;
            let newcomer = Rect::new(signed_coord(x), 0, pixel_count(self.w), pixel_count(self.h));
            self.entries.push(Entry { rect: newcomer, alive: true });
        }
        advance(&mut self.entries, Travel::Down { limit: self.can_h });
        added
    }
}

} // verus!
