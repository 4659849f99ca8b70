//! What the enemy pool and the bullet pool share: entries, uniform vertical
//! motion, and the pruning of entries that are dead or have left their
//! travel range.

use vstd::prelude::*;
use crate::rect::Rect;

verus! {

/// One entity of a pool. A dead entry stays in its pool until the next
/// pruning pass takes it out.
#[derive(Clone, Copy, Debug, PartialEq, Eq, Structural)]
pub struct Entry {
    pub rect: Rect,
    pub alive: bool,
}

/// How the entries of a pool travel.
#[derive(Clone, Copy, Debug, PartialEq, Eq, Structural)]
pub enum Travel {
    /// Two pixels up per step, until the box has passed the canvas top by
    /// more than its own height.
    Up,
    /// One pixel down per step, until the top edge has passed `limit`.
    Down { limit: i32 },
}

impl Travel {
    /// Vertical displacement of one step.
    pub open spec fn dy(self) -> int {
        match self {
            Travel::Up => -2,
            Travel::Down { .. } => 1,
        }
    }

    /// Whether a box of height `h` with its top edge at `y` is inside the
    /// travel range.
    pub open spec fn admits(self, y: int, h: int) -> bool {
        match self {
            Travel::Up => y >= -h,
            Travel::Down { limit } => y <= limit,
        }
    }
}

impl Entry {
    /// An entry is well formed when its rectangle is.
    pub open spec fn wf(self) -> bool {
        self.rect.wf()
    }

    /// The entry `steps` steps further along `lane`.
    pub open spec fn shifted(self, lane: Travel, steps: int) -> Entry {
        Entry {
            rect: Rect {
                x: self.rect.x,
                y: (self.rect.y + steps * lane.dy()) as i32,
                w: self.rect.w,
                h: self.rect.h,
            },
            alive: self.alive,
        }
    }

    /// Whether the entry is inside the travel range `steps` steps from now.
    pub open spec fn in_range_after(self, lane: Travel, steps: int) -> bool {
        lane.admits(self.rect.y + steps * lane.dy(), self.rect.h as int)
    }

    /// Whether one step and the pruning pass behind it leave the entry in
    /// the pool.
    pub open spec fn survives(self, lane: Travel) -> bool {
        self.alive && self.in_range_after(lane, 1)
    }

    /// Whether the entry is alive and stays inside the travel range at each
    /// of the next `steps` steps.
    pub open spec fn lasts(self, lane: Travel, steps: int) -> bool {
        self.alive && forall|k: int| 1 <= k <= steps ==> #[trigger] self.in_range_after(lane, k)
    }
}

/// Whether every entry of `s` is well formed.
pub open spec fn all_wf(s: Seq<Entry>) -> bool {
    forall|i: int| 0 <= i < s.len() ==> (#[trigger] s[i]).wf()
}

/// The pool after one step and one pruning pass: each survivor moved by one
/// step, in the order it had before.
pub open spec fn advanced(s: Seq<Entry>, lane: Travel) -> Seq<Entry>
    decreases s.len(),
{
    if s.len() == 0 {
        Seq::empty()
    } else {
        let before = advanced(s.drop_last(), lane);
        if s.last().survives(lane) {
            before.push(s.last().shifted(lane, 1))
        } else {
            before
        }
    }
}

/// The pool after `steps` rounds of step and pruning, with nothing spawned
/// or killed in between.
pub open spec fn advanced_by(s: Seq<Entry>, lane: Travel, steps: nat) -> Seq<Entry>
    decreases steps,
{
    if steps == 0 {
        s
    } else {
        advanced(advanced_by(s, lane, (steps - 1) as nat), lane)
    }
}

/// The entries of `s` that last `steps` steps, each moved by that many
/// steps, in the order they had before.
pub open spec fn lasting(s: Seq<Entry>, lane: Travel, steps: int) -> Seq<Entry>
    decreases s.len(),
{
    if s.len() == 0 {
        Seq::empty()
    } else {
        let before = lasting(s.drop_last(), lane, steps);
        if s.last().lasts(lane, steps) {
            before.push(s.last().shifted(lane, steps))
        } else {
            before
        }
    }
}

/// Moves every entry one step along `lane`, then removes the entries that
/// are dead or have left the travel range.
pub fn advance(entries: &mut Vec<Entry>, lane: Travel)
    requires
        all_wf(old(entries)@),
    ensures
        final(entries)@ == advanced(old(entries)@, lane),
        all_wf(final(entries)@),
{
    let mut kept: Vec<Entry> = Vec::new();
    let n: usize = entries.len();
    let mut i: usize = 0;
    while i < n
        invariant
            i <= n,
            n == entries@.len(),
            entries@ == old(entries)@,
            all_wf(entries@),
            kept@ == advanced(entries@.take(i as int), lane),
            all_wf(kept@),
        decreases n - i,
    {
        let e: Entry = entries[i];
        proof {
            assert(e.wf());
            assert(entries@.take(i + 1).drop_last() == entries@.take(i as int));
            assert(entries@.take(i + 1).last() == e);
        }
        let y: i64 = match lane {
            Travel::Up => e.rect.y as i64 - 2,
            Travel::Down { .. } => e.rect.y as i64 + 1,
        };
        let inside: bool = match lane {
            Travel::Up => y >= -(e.rect.h as i64),
            Travel::Down { limit } => y <= limit as i64,
        };
        if e.alive && inside {
            let moved = Entry {
                rect: Rect { x: e.rect.x, y: y as i32, w: e.rect.w, h: e.rect.h },
                alive: true,
            };
            kept.push(moved);
        }
        i += 1;
    }
    proof {
        assert(entries@.take(n as int) == entries@);
    }
    *entries = kept;
}

/// A round of step and pruning never grows a pool.
pub proof fn lemma_advanced_len(s: Seq<Entry>, lane: Travel)
    ensures
        advanced(s, lane).len() <= s.len(),
    decreases s.len(),
{
    if s.len() > 0 {
        lemma_advanced_len(s.drop_last(), lane);
    }
}

/// A round of step and pruning keeps well-formed entries well formed.
pub proof fn lemma_advanced_wf(s: Seq<Entry>, lane: Travel)
    requires
        all_wf(s),
    ensures
        all_wf(advanced(s, lane)),
    decreases s.len(),
{
    if s.len() > 0 {
        let t = s.drop_last();
        assert(all_wf(t)) by {
            assert forall|i: int| 0 <= i < t.len() implies (#[trigger] t[i]).wf() by {
                assert(t[i] == s[i]);
            }
        }
        lemma_advanced_wf(t, lane);
        assert(s.last().wf()) by {
            assert(s.last() == s[s.len() - 1]);
        }
    }
}

/// No dead entry outlives a pruning pass: after a round every entry of the
/// pool is alive and inside the travel range.
pub proof fn law_advanced_all_alive(s: Seq<Entry>, lane: Travel)
    requires
        all_wf(s),
    ensures
        forall|i: int|
            0 <= i < advanced(s, lane).len() ==> (#[trigger] advanced(s, lane)[i]).alive
                && advanced(s, lane)[i].in_range_after(lane, 0),
    decreases s.len(),
{
    if s.len() > 0 {
        let t = s.drop_last();
        assert(all_wf(t)) by {
            assert forall|i: int| 0 <= i < t.len() implies (#[trigger] t[i]).wf() by {
                assert(t[i] == s[i]);
            }
        }
        assert(s.last().wf()) by {
            assert(s.last() == s[s.len() - 1]);
        }
        law_advanced_all_alive(t, lane);
        let e = s.last();
        if e.survives(lane) {
            let m = e.shifted(lane, 1);
            assert(e.in_range_after(lane, 1));
            assert(m.rect.y == e.rect.y + lane.dy());
            assert(m.in_range_after(lane, 0));
            assert(advanced(s, lane).last() == m);
        }
        assert forall|i: int| 0 <= i < advanced(s, lane).len() implies (#[trigger] advanced(
            s,
            lane,
        )[i]).alive && advanced(s, lane)[i].in_range_after(lane, 0) by {
            if i < advanced(t, lane).len() {
                assert(advanced(s, lane)[i] == advanced(t, lane)[i]);
            }
        }
    }
}

/// An entry is in the pool after one round exactly if it is the moved form
/// of an entry that was alive and is still inside the travel range.
pub proof fn law_advanced_members(s: Seq<Entry>, lane: Travel, e: Entry)
    ensures
        advanced(s, lane).contains(e) <==> exists|i: int|
            0 <= i < s.len() && (#[trigger] s[i]).survives(lane) && e == s[i].shifted(lane, 1),
    decreases s.len(),
{
    let a = advanced(s, lane);
    if s.len() > 0 {
        let t = s.drop_last();
        law_advanced_members(t, lane, e);
        if a.contains(e) {
            let j = choose|j: int| 0 <= j < a.len() && a[j] == e;
            if s.last().survives(lane) && j == a.len() - 1 {
                assert(s[s.len() - 1].survives(lane) && e == s[s.len() - 1].shifted(lane, 1));
            } else {
                assert(advanced(t, lane)[j] == e);
                assert(advanced(t, lane).contains(e));
                let i = choose|i: int|
                    0 <= i < t.len() && (#[trigger] t[i]).survives(lane) && e == t[i].shifted(lane, 1);
                assert(s[i].survives(lane) && e == s[i].shifted(lane, 1));
            }
        }
        if exists|i: int|
            0 <= i < s.len() && (#[trigger] s[i]).survives(lane) && e == s[i].shifted(lane, 1) {
            let i = choose|i: int|
                0 <= i < s.len() && (#[trigger] s[i]).survives(lane) && e == s[i].shifted(lane, 1);
            if i == s.len() - 1 {
                assert(a.last() == e);
            } else {
                assert(t[i].survives(lane) && e == t[i].shifted(lane, 1));
                assert(advanced(t, lane).contains(e));
                let j = choose|j: int| 0 <= j < advanced(t, lane).len() && advanced(t, lane)[j] == e;
                assert(a[j] == e);
            }
        }
    }
}

/// One round of step and pruning keeps exactly the entries that last one
/// step.
proof fn lemma_first_round(s: Seq<Entry>, lane: Travel)
    ensures
        advanced(s, lane) == lasting(s, lane, 1),
    decreases s.len(),
{
    if s.len() > 0 {
        lemma_first_round(s.drop_last(), lane);
        let e = s.last();
        assert(e.lasts(lane, 1) <==> e.survives(lane)) by {
            if e.survives(lane) {
                assert forall|k: int| 1 <= k <= 1 implies #[trigger] e.in_range_after(lane, k) by {
                    assert(k == 1);
                }
            }
            if e.lasts(lane, 1) {
                assert(e.in_range_after(lane, 1));
            }
        }
    }
}

/// One more round, applied to the entries that lasted `steps` steps, keeps
/// exactly those that last `steps + 1`.
proof fn lemma_next_round(s: Seq<Entry>, lane: Travel, steps: int)
    requires
        all_wf(s),
        steps >= 1,
    ensures
        advanced(lasting(s, lane, steps), lane) == lasting(s, lane, steps + 1),
    decreases s.len(),
{
    if s.len() > 0 {
        let t = s.drop_last();
        let e = s.last();
        assert(all_wf(t)) by {
            assert forall|i: int| 0 <= i < t.len() implies (#[trigger] t[i]).wf() by {
                assert(t[i] == s[i]);
            }
        }
        assert(e.wf()) by {
            assert(e == s[s.len() - 1]);
        }
        lemma_next_round(t, lane, steps);
        let before = lasting(t, lane, steps);
        if e.lasts(lane, steps) {
            let m = e.shifted(lane, steps);
            assert(e.in_range_after(lane, steps));
            let y = e.rect.y + steps * lane.dy();
            assert(steps * lane.dy() == (match lane {
                Travel::Up => -2 * steps,
                Travel::Down { .. } => steps,
            })) by (nonlinear_arith)
                requires
                    lane.dy() == (match lane {
                        Travel::Up => -2int,
                        Travel::Down { .. } => 1int,
                    }),
            ;
            assert((steps + 1) * lane.dy() == steps * lane.dy() + lane.dy()) by (nonlinear_arith);
            assert(i32::MIN <= y <= i32::MAX);
            assert(m.rect.y == y);
            assert(m.shifted(lane, 1) == e.shifted(lane, steps + 1));
            assert(m.in_range_after(lane, 1) == e.in_range_after(lane, steps + 1));
            assert(m.survives(lane) <==> e.lasts(lane, steps + 1)) by {
                if m.survives(lane) {
                    assert forall|k: int| 1 <= k <= steps + 1 implies #[trigger] e.in_range_after(
                        lane,
                        k,
                    ) by {
                        if k <= steps {
                        }
                    }
                }
                if e.lasts(lane, steps + 1) {
                    assert(e.in_range_after(lane, steps + 1));
                }
            }
            let grown = before.push(m);
            assert(grown.drop_last() == before);
            assert(grown.last() == m);
        } else {
            assert(!e.lasts(lane, steps + 1)) by {
                if e.lasts(lane, steps + 1) {
                    assert forall|k: int| 1 <= k <= steps implies #[trigger] e.in_range_after(
                        lane,
                        k,
                    ) by {
                    }
                }
            }
        }
    }
}

/// Pruning is exact over any number of rounds: after `steps` rounds with
/// nothing spawned or killed in between, the pool holds exactly the entries
/// that were alive and stayed inside the travel range at every step up to
/// `steps`, each moved by `steps` steps and in its old order. An entry is
/// gone if and only if it was dead or left the range at or before that step.
pub proof fn law_pruning(s: Seq<Entry>, lane: Travel, steps: nat)
    requires
        all_wf(s),
        steps >= 1,
    ensures
        advanced_by(s, lane, steps) == lasting(s, lane, steps as int),
    decreases steps,
{
    if steps == 1 {
        assert(advanced_by(s, lane, 0) == s);
        lemma_first_round(s, lane);
    } else {
        law_pruning(s, lane, (steps - 1) as nat);
        lemma_next_round(s, lane, steps - 1);
    }
}

/// Motion only ever carries an entry toward the edge of its travel range,
/// so an entry that is inside at some step was inside at every step before.
pub proof fn law_range_is_left_once(e: Entry, lane: Travel, steps: int)
    requires
        steps >= 1,
    ensures
        e.lasts(lane, steps) <==> e.alive && e.in_range_after(lane, steps),
{
    if e.alive && e.in_range_after(lane, steps) {
        assert forall|k: int| 1 <= k <= steps implies #[trigger] e.in_range_after(lane, k) by {
            assert(k * lane.dy() == (match lane {
                Travel::Up => -2 * k,
                Travel::Down { .. } => k,
            })) by (nonlinear_arith)
                requires
                    lane.dy() == (match lane {
                        Travel::Up => -2int,
                        Travel::Down { .. } => 1int,
                    }),
            ;
            assert(steps * lane.dy() == (match lane {
                Travel::Up => -2 * steps,
                Travel::Down { .. } => steps,
            })) by (nonlinear_arith)
                requires
                    lane.dy() == (match lane {
                        Travel::Up => -2int,
                        Travel::Down { .. } => 1int,
                    }),
            ;
        }
    }
    if e.lasts(lane, steps) {
        assert(e.in_range_after(lane, steps));
    }
}

} // verus!
