//! Collision and scoring: one pass over every enemy and bullet pair, and
//! over every enemy against the craft.
//!
//! The test is corner-in-rectangle: a box touches another when its own
//! top-left corner lies inside the other, edges included. A bullet whose
//! corner lies left of or above an enemy does not hit it, even where the
//! two boxes overlap.

use vstd::prelude::*;
use crate::pool::{all_wf, Entry};
use crate::rect::Rect;

verus! {

impl Entry {
    /// Whether this entry, as a bullet, hits `target`: it is alive and its
    /// corner lies inside.
    pub open spec fn strikes(self, target: Rect) -> bool {
        self.alive && self.rect.corner_within(target)
    }

    /// The entry, dead.
    pub open spec fn fallen(self) -> Entry {
        Entry { rect: self.rect, alive: false }
    }
}

/// Index of the first bullet at or behind `from` that strikes `target`; the
/// number of bullets if there is none.
pub open spec fn first_hit(bullets: Seq<Entry>, target: Rect, from: int) -> int
    decreases bullets.len() - from,
{
    if from < 0 || from >= bullets.len() {
        bullets.len() as int
    } else if bullets[from].strikes(target) {
        from
    } else {
        first_hit(bullets, target, from + 1)
    }
}

/// How many entries of `s` are alive.
pub open spec fn live(s: Seq<Entry>) -> nat
    decreases s.len(),
{
    if s.len() == 0 {
        0
    } else {
        live(s.drop_last()) + if s.last().alive {
            1nat
        } else {
            0nat
        }
    }
}

/// The result of a pass: both pools with their new flags, the number of
/// enemies shot down, how many enemies the pass looked at before it ended,
/// and whether it ended because an enemy reached the craft.
pub struct Scan {
    pub enemies: Seq<Entry>,
    pub bullets: Seq<Entry>,
    pub kills: nat,
    pub examined: int,
    pub fatal: bool,
}

/// The pass from enemy `i` on. Enemies are taken in pool order. A live
/// enemy is shot down by the first live bullet, in pool order, that strikes
/// it: both die and the kill counts. A live enemy that no bullet struck and
/// whose corner lies inside the craft ends the pass at once.
pub open spec fn scan_from(craft: Rect, enemies: Seq<Entry>, bullets: Seq<Entry>, i: int) -> Scan
    decreases enemies.len() - i,
{
    if i < 0 || i >= enemies.len() {
        Scan { enemies, bullets, kills: 0, examined: enemies.len() as int, fatal: false }
    } else if !enemies[i].alive {
        scan_from(craft, enemies, bullets, i + 1)
    } else {
        let j = first_hit(bullets, enemies[i].rect, 0);
        if j < bullets.len() {
            let rest = scan_from(
                craft,
                enemies.update(i, enemies[i].fallen()),
                bullets.update(j, bullets[j].fallen()),
                i + 1,
            );
            Scan {
                enemies: rest.enemies,
                bullets: rest.bullets,
                kills: rest.kills + 1,
                examined: rest.examined,
                fatal: rest.fatal,
            }
        } else if enemies[i].rect.corner_within(craft) {
            Scan { enemies, bullets, kills: 0, examined: i + 1, fatal: true }
        } else {
            scan_from(craft, enemies, bullets, i + 1)
        }
    }
}

/// The whole pass.
pub open spec fn scan(craft: Rect, enemies: Seq<Entry>, bullets: Seq<Entry>) -> Scan {
    scan_from(craft, enemies, bullets, 0)
}

/// What a pass reports: the enemies shot down, and whether an enemy
/// reached the craft.
#[derive(Clone, Copy, Debug, PartialEq, Eq, Structural)]
pub struct Outcome {
    pub kills: usize,
    pub fatal: bool,
}

/// Finds the first bullet that strikes `target`.
pub fn find_hit(bullets: &Vec<Entry>, target: &Rect) -> (j: usize)
    ensures
        j == first_hit(bullets@, *target, 0),
        j <= bullets@.len(),
        j < bullets@.len() ==> bullets@[j as int].strikes(*target),
        forall|k: int| 0 <= k < j ==> !(#[trigger] bullets@[k]).strikes(*target),
{
    let n: usize = bullets.len();
    let mut j: usize = 0;
    while j < n
        invariant
            j <= n,
            n == bullets@.len(),
            first_hit(bullets@, *target, 0) == first_hit(bullets@, *target, j as int),
            forall|k: int| 0 <= k < j ==> !(#[trigger] bullets@[k]).strikes(*target),
        decreases n - j,
    {
        let b: Entry = bullets[j];
        if b.alive && b.rect.corner_in(target) {
            return j;
        }
        j += 1;
    }
    j
}

/// Runs the pass on the two pools and writes the new flags into them.
/// Rectangles, order and pool sizes stay; the dead are left for the next
/// pruning pass.
pub fn resolve(craft: &Rect, enemies: &mut Vec<Entry>, bullets: &mut Vec<Entry>) -> (out: Outcome)
    ensures
        final(enemies)@ == scan(*craft, old(enemies)@, old(bullets)@).enemies,
        final(bullets)@ == scan(*craft, old(enemies)@, old(bullets)@).bullets,
        out.kills == scan(*craft, old(enemies)@, old(bullets)@).kills,
        out.fatal == scan(*craft, old(enemies)@, old(bullets)@).fatal,
{
    let ghost goal = scan(*craft, enemies@, bullets@);
    let n: usize = enemies.len();
    let mut kills: usize = 0;
    let mut fatal: bool = false;
    let mut i: usize = 0;
    while i < n && !fatal
        invariant
            i <= n,
            n == enemies@.len(),
            kills <= i,
            fatal ==> goal.enemies == enemies@ && goal.bullets == bullets@ && goal.kills == kills
                && goal.fatal,
            !fatal ==> ({
                let rest = scan_from(*craft, enemies@, bullets@, i as int);
                &&& goal.enemies == rest.enemies
                &&& goal.bullets == rest.bullets
                &&& goal.kills == rest.kills + kills
                &&& goal.fatal == rest.fatal
            }),
        decreases n - i + if fatal { 0int } else { 1int },
    {
        let e: Entry = enemies[i];
        if e.alive {
            let j: usize = find_hit(bullets, &e.rect);
            if j < bullets.len() {
                let b: Entry = bullets[j];
                enemies.set(i, Entry { rect: e.rect, alive: false });
                bullets.set(j, Entry { rect: b.rect, alive: false });
                kills += 1;
                i += 1;
            } else if e.rect.corner_in(craft) {
                fatal = true;
            } else {
                i += 1;
            }
        } else {
            i += 1;
        }
    }
    Outcome { kills, fatal }
}

/// Killing one live entry lowers the count of the living by one.
proof fn lemma_live_after_fall(s: Seq<Entry>, i: int)
    requires
        0 <= i < s.len(),
        s[i].alive,
    ensures
        live(s.update(i, s[i].fallen())) + 1 == live(s),
    decreases s.len(),
{
    let u = s.update(i, s[i].fallen());
    if i == s.len() - 1 {
        assert(u.drop_last() == s.drop_last());
    } else {
        lemma_live_after_fall(s.drop_last(), i);
        assert(u.drop_last() == s.drop_last().update(i, s[i].fallen()));
    }
}

/// What holds of the pass from enemy `i` on.
proof fn lemma_scan_from(craft: Rect, enemies: Seq<Entry>, bullets: Seq<Entry>, i: int)
    requires
        0 <= i <= enemies.len(),
    ensures
        ({
            let s = scan_from(craft, enemies, bullets, i);
            &&& s.enemies.len() == enemies.len()
            &&& s.bullets.len() == bullets.len()
            &&& i <= s.examined <= enemies.len()
            &&& !s.fatal ==> s.examined == enemies.len()
            &&& s.fatal ==> i < s.examined && s.enemies[s.examined - 1].alive
                && s.enemies[s.examined - 1].rect.corner_within(craft)
            &&& forall|k: int|
                0 <= k < enemies.len() ==> (#[trigger] s.enemies[k]).rect == enemies[k].rect && (
                s.enemies[k].alive ==> enemies[k].alive)
            &&& forall|k: int|
                0 <= k < bullets.len() ==> (#[trigger] s.bullets[k]).rect == bullets[k].rect && (
                s.bullets[k].alive ==> bullets[k].alive)
            &&& forall|k: int|
                0 <= k < enemies.len() && !(i <= k < s.examined) ==> #[trigger] s.enemies[k]
                    == enemies[k]
            &&& forall|k: int, j: int|
                i <= k < s.examined && 0 <= j < bullets.len() ==> !((#[trigger] s.enemies[k]).alive
                    && (#[trigger] s.bullets[j]).strikes(s.enemies[k].rect))
            &&& live(s.enemies) + s.kills == live(enemies)
            &&& live(s.bullets) + s.kills == live(bullets)
        }),
    decreases enemies.len() - i,
{
    let s = scan_from(craft, enemies, bullets, i);
    if i >= enemies.len() {
    } else if !enemies[i].alive {
        lemma_scan_from(craft, enemies, bullets, i + 1);
        assert(s.enemies[i] == enemies[i]);
    } else {
        let j = first_hit(bullets, enemies[i].rect, 0);
        lemma_first_hit(bullets, enemies[i].rect, 0);
        if j < bullets.len() {
            let e2 = enemies.update(i, enemies[i].fallen());
            let b2 = bullets.update(j, bullets[j].fallen());
            lemma_scan_from(craft, e2, b2, i + 1);
            lemma_live_after_fall(enemies, i);
            lemma_live_after_fall(bullets, j);
            assert(s.enemies[i] == e2[i]);
            assert forall|k: int| 0 <= k < enemies.len() implies (#[trigger] s.enemies[k]).rect
                == enemies[k].rect && (s.enemies[k].alive ==> enemies[k].alive) by {
                assert(s.enemies[k].rect == e2[k].rect);
            }
            assert forall|k: int| 0 <= k < bullets.len() implies (#[trigger] s.bullets[k]).rect
                == bullets[k].rect && (s.bullets[k].alive ==> bullets[k].alive) by {
                assert(s.bullets[k].rect == b2[k].rect);
            }
            assert forall|k: int|
                0 <= k < enemies.len() && !(i <= k < s.examined) implies #[trigger] s.enemies[k]
                == enemies[k] by {
                assert(s.enemies[k] == e2[k]);
            }
        } else if enemies[i].rect.corner_within(craft) {
            assert forall|k: int, j: int|
                i <= k < s.examined && 0 <= j < bullets.len() implies !((
                #[trigger] s.enemies[k]).alive && (#[trigger] s.bullets[j]).strikes(
                s.enemies[k].rect,
            )) by {
                assert(!bullets[j].strikes(enemies[i].rect));
            }
        } else {
            lemma_scan_from(craft, enemies, bullets, i + 1);
            assert(s.enemies[i] == enemies[i]);
            assert forall|k: int, j: int|
                i <= k < s.examined && 0 <= j < bullets.len() implies !((
                #[trigger] s.enemies[k]).alive && (#[trigger] s.bullets[j]).strikes(
                s.enemies[k].rect,
            )) by {
                if k == i {
                    assert(!bullets[j].strikes(enemies[i].rect));
                    assert(s.bullets[j].rect == bullets[j].rect);
                }
            }
        }
    }
}

/// [`first_hit`] finds the least index at or behind `from` whose bullet
/// strikes, and the number of bullets if none does.
pub proof fn lemma_first_hit(bullets: Seq<Entry>, target: Rect, from: int)
    requires
        0 <= from <= bullets.len(),
    ensures
        from <= first_hit(bullets, target, from) <= bullets.len(),
        first_hit(bullets, target, from) < bullets.len() ==> bullets[first_hit(
            bullets,
            target,
            from,
        )].strikes(target),
        forall|k: int|
            from <= k < first_hit(bullets, target, from) ==> !(#[trigger] bullets[k]).strikes(
                target,
            ),
    decreases bullets.len() - from,
{
    if from < bullets.len() && !bullets[from].strikes(target) {
        lemma_first_hit(bullets, target, from + 1);
    }
}

/// A pass changes nothing but flags, and flags only from alive to dead:
/// pool sizes, order and rectangles stay, and nothing comes back to life.
pub proof fn law_scan_only_kills(craft: Rect, enemies: Seq<Entry>, bullets: Seq<Entry>)
    ensures
        ({
            let s = scan(craft, enemies, bullets);
            &&& s.enemies.len() == enemies.len()
            &&& s.bullets.len() == bullets.len()
            &&& forall|k: int|
                0 <= k < enemies.len() ==> (#[trigger] s.enemies[k]).rect == enemies[k].rect && (
                s.enemies[k].alive ==> enemies[k].alive)
            &&& forall|k: int|
                0 <= k < bullets.len() ==> (#[trigger] s.bullets[k]).rect == bullets[k].rect && (
                s.bullets[k].alive ==> bullets[k].alive)
        }),
{
    lemma_scan_from(craft, enemies, bullets, 0);
}

/// Deaths come in pairs and each pair scores once: the kills that a pass
/// reports are exactly the enemies that it killed, and exactly the bullets
/// that it killed.
pub proof fn law_scan_pairs_deaths(craft: Rect, enemies: Seq<Entry>, bullets: Seq<Entry>)
    ensures
        ({
            let s = scan(craft, enemies, bullets);
            &&& s.kills == live(enemies) - live(s.enemies)
            &&& s.kills == live(bullets) - live(s.bullets)
        }),
{
    lemma_scan_from(craft, enemies, bullets, 0);
}

/// A pass leaves no hit unresolved: among the enemies that it looked at,
/// none is left alive with a live bullet's corner inside it. A pass that
/// did not end at the craft looked at every enemy.
pub proof fn law_scan_resolves_hits(craft: Rect, enemies: Seq<Entry>, bullets: Seq<Entry>)
    ensures
        ({
            let s = scan(craft, enemies, bullets);
            &&& 0 <= s.examined <= enemies.len()
            &&& !s.fatal ==> s.examined == enemies.len()
            &&& forall|k: int, j: int|
                0 <= k < s.examined && 0 <= j < bullets.len() ==> !((#[trigger] s.enemies[k]).alive
                    && (#[trigger] s.bullets[j]).strikes(s.enemies[k].rect))
        }),
{
    lemma_scan_from(craft, enemies, bullets, 0);
}

/// A pass ends at the craft exactly when it meets a live enemy that no
/// bullet struck and whose corner lies inside the craft; that enemy is the
/// last one it looked at, and the enemies behind it are untouched.
pub proof fn law_scan_fatal(craft: Rect, enemies: Seq<Entry>, bullets: Seq<Entry>)
    ensures
        ({
            let s = scan(craft, enemies, bullets);
            &&& s.fatal ==> 0 < s.examined <= enemies.len() && s.enemies[s.examined - 1].alive
                && s.enemies[s.examined - 1].rect.corner_within(craft)
            &&& forall|k: int|
                s.examined <= k < enemies.len() ==> #[trigger] s.enemies[k] == enemies[k]
            &&& !s.fatal ==> forall|k: int|
                0 <= k < enemies.len() ==> !((#[trigger] s.enemies[k]).alive
                    && s.enemies[k].rect.corner_within(craft))
        }),
{
    lemma_scan_from(craft, enemies, bullets, 0);
    lemma_scan_spares_craft(craft, enemies, bullets, 0);
}

/// A pass that does not end at the craft leaves no live enemy with its
/// corner inside the craft, from enemy `i` on.
proof fn lemma_scan_spares_craft(craft: Rect, enemies: Seq<Entry>, bullets: Seq<Entry>, i: int)
    requires
        0 <= i <= enemies.len(),
    ensures
        ({
            let s = scan_from(craft, enemies, bullets, i);
            !s.fatal ==> forall|k: int|
                i <= k < enemies.len() ==> !((#[trigger] s.enemies[k]).alive
                    && s.enemies[k].rect.corner_within(craft))
        }),
    decreases enemies.len() - i,
{
    let s = scan_from(craft, enemies, bullets, i);
    if i >= enemies.len() {
    } else if !enemies[i].alive {
        lemma_scan_spares_craft(craft, enemies, bullets, i + 1);
        lemma_scan_from(craft, enemies, bullets, i + 1);
        assert(s.enemies[i] == enemies[i]);
    } else {
        let j = first_hit(bullets, enemies[i].rect, 0);
        lemma_first_hit(bullets, enemies[i].rect, 0);
        if j < bullets.len() {
            let e2 = enemies.update(i, enemies[i].fallen());
            let b2 = bullets.update(j, bullets[j].fallen());
            lemma_scan_spares_craft(craft, e2, b2, i + 1);
            lemma_scan_from(craft, e2, b2, i + 1);
            assert(s.enemies[i] == e2[i]);
        } else if enemies[i].rect.corner_within(craft) {
        } else {
            lemma_scan_spares_craft(craft, enemies, bullets, i + 1);
            lemma_scan_from(craft, enemies, bullets, i + 1);
            assert(s.enemies[i] == enemies[i]);
        }
    }
}

/// No more entries are alive than there are.
pub proof fn lemma_live_len(s: Seq<Entry>)
    ensures
        live(s) <= s.len(),
    decreases s.len(),
{
    if s.len() > 0 {
        lemma_live_len(s.drop_last());
    }
}

/// A pass kills no more enemies than there are, keeps what it is given
/// well formed, and keeps the pool sizes.
pub proof fn lemma_scan_bounds(craft: Rect, enemies: Seq<Entry>, bullets: Seq<Entry>)
    ensures
        scan(craft, enemies, bullets).kills <= enemies.len(),
        scan(craft, enemies, bullets).enemies.len() == enemies.len(),
        scan(craft, enemies, bullets).bullets.len() == bullets.len(),
        all_wf(enemies) ==> all_wf(scan(craft, enemies, bullets).enemies),
        all_wf(bullets) ==> all_wf(scan(craft, enemies, bullets).bullets),
{
    law_scan_only_kills(craft, enemies, bullets);
    law_scan_pairs_deaths(craft, enemies, bullets);
    lemma_live_len(enemies);
}

} // verus!
