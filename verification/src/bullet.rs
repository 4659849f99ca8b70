//! The bullet pool: shots that the craft fires upward at a fixed rhythm.

use vstd::prelude::*;
use crate::pool::{advance, advanced, all_wf, lemma_advanced_len, Entry, Travel};
use crate::rect::{half, pixel_count, pixels, Rect};
use crate::throttle::Throttle;

verus! {

/// Least time between two shots, in milliseconds.
pub const BULLET_INTERVAL_MS: u64 = 350;

/// The live shots, the size that a new shot gets, and the throttle that
/// spaces the shots.
#[derive(Debug)]
pub struct Bullet {
    pub throttle: Throttle,
    pub entries: Vec<Entry>,
    pub w: i32,
    pub h: i32,
}

/// What a [`Bullet`] pool holds, as mathematics.
pub struct BulletModel {
    pub throttle: Throttle,
    pub entries: Seq<Entry>,
    pub w: i32,
    pub h: i32,
}

impl View for Bullet {
    type V = BulletModel;

    open spec fn view(&self) -> BulletModel {
        BulletModel { throttle: self.throttle, entries: self.entries@, w: self.w, h: self.h }
    }
}

impl BulletModel {
    /// The empty pool that [`Bullet::new`] builds.
    pub open spec fn fresh(w: i32, h: i32, now: u64) -> BulletModel {
        BulletModel {
            throttle: Throttle { last: now, interval: BULLET_INTERVAL_MS },
            entries: Seq::empty(),
            w,
            h,
        }
    }

    /// A pool is well formed when each of its entries is.
    pub open spec fn wf(self) -> bool {
        all_wf(self.entries)
    }

    /// The rectangle of a shot fired from a craft at `craft`: centred on it
    /// horizontally, with its top edge one shot width above the craft's top
    /// edge.
    pub open spec fn muzzle(self, craft: Rect) -> Rect {
        Rect::build(
            craft.x + craft.w / 2 - half(self.w as int),
            craft.y - self.w,
            pixels(self.w as int),
            pixels(self.h as int),
        )
    }

    /// The entries once the throttle has been asked at `now`: a fresh shot
    /// behind the old ones if it was due, the old ones alone if not.
    pub open spec fn loaded(self, now: u64, craft: Rect) -> Seq<Entry> {
        if self.throttle.due(now) {
            self.entries.push(Entry { rect: self.muzzle(craft), alive: true })
        } else {
            self.entries
        }
    }

    /// The pool after one call of [`Bullet::produce`].
    pub open spec fn produce(self, now: u64, craft: Rect) -> BulletModel {
        BulletModel {
            throttle: self.throttle.after(now),
            entries: advanced(self.loaded(now, craft), Travel::Up),
            w: self.w,
            h: self.h,
        }
    }
}

impl Bullet {
    /// An empty pool whose shots will be `w` wide and `h` high, with the
    /// first interval starting at `now`.
    pub fn new(w: i32, h: i32, now: u64) -> (pool: Bullet)
        ensures
            pool@ == BulletModel::fresh(w, h, now),
            pool@.wf(),
    {
        Bullet { throttle: Throttle::new(BULLET_INTERVAL_MS, now), entries: Vec::new(), w, h }
    }

    /// One frame of the pool at time `now`, with the craft at `play_pos`.
    /// If a full interval has passed since the last shot, a new shot is
    /// fired and the interval restarts at `now`; however long the wait was,
    /// one call fires at most one shot. Then every shot, the new one
    /// included, moves two pixels up, and the shots that are dead or have
    /// left the canvas are removed. Returns whether a shot was fired.
    pub fn produce(&mut self, now: u64, play_pos: Rect) -> (added: bool)
        requires
            old(self)@.wf(),
        ensures
            added == old(self)@.throttle.due(now),
            final(self)@ == old(self)@.produce(now, play_pos),
            final(self)@.entries.len() <= old(self)@.entries.len() + (if added {
                1nat
            } else {
                0nat
            }),
            final(self)@.wf(),
    {
        proof {
            lemma_advanced_len(old(self)@.loaded(now, play_pos), Travel::Up);
        }
        let added = self.throttle.fire(now);
        if added {
            let x: i64 = play_pos.x as i64 + (play_pos.w / 2) as i64 - (self.w / 2) as i64;
            let y: i64 = play_pos.y as i64 - self.w as i64;
            let shot = Rect::clamped(x, y, pixel_count(self.w), pixel_count(self.h));
            self.entries.push(Entry { rect: shot, alive: true });
        }
        advance(&mut self.entries, Travel::Up);
        added
    }
}

} // verus!
