//! The game: craft, both pools, score, and the phase that decides what a
//! frame does.

use vstd::prelude::*;
use crate::bullet::{Bullet, BulletModel};
use crate::collide::{law_scan_resolves_hits, lemma_scan_bounds, resolve, scan, Outcome, Scan};
use crate::enemy::{span, Enemy, EnemyModel};
use crate::player::Player;
use crate::pool::{all_wf, lemma_advanced_wf, Entry, Travel};
use crate::rect::Rect;

verus! {

/// Which part of a session the game is in.
#[derive(Clone, Copy, Debug, PartialEq, Eq, Structural)]
pub enum Phase {
    /// Before the first session: the start screen.
    Start,
    /// A session is running.
    Playing,
    /// The craft was hit: the game-over screen.
    Over,
}

/// What the input layer reports.
#[derive(Clone, Copy, Debug, PartialEq, Eq, Structural)]
pub enum Input {
    /// The user asked to leave.
    Quit,
    /// The user pressed the key that starts a session.
    Confirm,
    /// The pointer is at `(x, y)`.
    Pointer { x: i32, y: i32 },
}

/// The sounds that one frame asks for.
#[derive(Clone, Copy, Debug, PartialEq, Eq, Structural)]
pub struct Cues {
    /// A bullet was fired.
    pub bullet_fired: bool,
    /// How many enemies were shot down; one sound each.
    pub enemies_destroyed: usize,
    /// The craft was hit.
    pub player_destroyed: bool,
}

/// The pictures that sprites are drawn with.
#[derive(Clone, Copy, Debug, PartialEq, Eq, Structural)]
pub enum Image {
    Enemy,
    Player,
    Bullet,
}

/// One entry of a frame's draw list.
#[derive(Clone, Copy, Debug, PartialEq, Eq, Structural)]
pub enum Draw {
    /// The full-canvas picture of a phase.
    Background(Phase),
    /// A picture at a rectangle.
    Sprite(Image, Rect),
    /// The score overlay.
    Score(usize),
}

/// The game state.
#[derive(Debug)]
pub struct Game {
    pub phase: Phase,
    pub score: usize,
    pub player: Player,
    pub enemy: Enemy,
    pub bullet: Bullet,
}

/// What a [`Game`] holds, as mathematics. The score is an unbounded
/// natural number here.
pub struct GameModel {
    pub phase: Phase,
    pub score: nat,
    pub player: Player,
    pub enemy: EnemyModel,
    pub bullet: BulletModel,
}

impl View for Game {
    type V = GameModel;

    open spec fn view(&self) -> GameModel {
        GameModel {
            phase: self.phase,
            score: self.score as nat,
            player: self.player,
            enemy: self.enemy@,
            bullet: self.bullet@,
        }
    }
}

/// The sprites of the live entries of `s`, in pool order.
pub open spec fn sprites(s: Seq<Entry>, image: Image) -> Seq<Draw>
    decreases s.len(),
{
    if s.len() == 0 {
        Seq::empty()
    } else if s.last().alive {
        sprites(s.drop_last(), image).push(Draw::Sprite(image, s.last().rect))
    } else {
        sprites(s.drop_last(), image)
    }
}

impl GameModel {
    /// A game is well formed when both pools are, and the pools are empty
    /// whenever no session is running.
    pub open spec fn wf(self) -> bool {
        &&& self.enemy.wf()
        &&& self.bullet.wf()
        &&& self.phase != Phase::Playing ==> self.enemy.entries.len() == 0
            && self.bullet.entries.len() == 0
    }

    /// The game that [`Game::new`] builds.
    pub open spec fn fresh(
        can_w: i32,
        can_h: i32,
        player_size: (i32, i32),
        enemy_size: (i32, i32),
        bullet_size: (i32, i32),
        now: u64,
    ) -> GameModel {
        GameModel {
            phase: Phase::Start,
            score: 0,
            player: Player { x: 0, y: 0, w: player_size.0, h: player_size.1 },
            enemy: EnemyModel::fresh(can_w, can_h, enemy_size.0, enemy_size.1, now),
            bullet: BulletModel::fresh(bullet_size.0, bullet_size.1, now),
        }
    }

    /// The game after a confirm: a new session with the score at zero,
    /// unless a session is running, which a confirm does not disturb.
    pub open spec fn confirm(self) -> GameModel {
        if self.phase == Phase::Playing {
            self
        } else {
            GameModel { phase: Phase::Playing, score: 0, ..self }
        }
    }

    /// The game after the pointer moved to `(x, y)`.
    pub open spec fn point(self, x: i32, y: i32) -> GameModel {
        GameModel { player: self.player.moved(x, y), ..self }
    }

    /// The game after one input.
    pub open spec fn handle(self, input: Input) -> GameModel {
        match input {
            Input::Quit => self,
            Input::Confirm => self.confirm(),
            Input::Pointer { x, y } => self.point(x, y),
        }
    }

    /// The bullet pool of a running session after its own frame at `now`.
    pub open spec fn bullets_flown(self, now: u64) -> BulletModel {
        self.bullet.produce(now, self.player.bounds())
    }

    /// The enemy pool of a running session after its own frame at `now`.
    pub open spec fn enemies_flown(self, now: u64, draw: u32) -> EnemyModel {
        self.enemy.produce(now, draw)
    }

    /// The collision pass of a running session's frame: over both pools
    /// once they have spawned, moved and been pruned.
    pub open spec fn pass(self, now: u64, draw: u32) -> Scan {
        scan(
            self.player.bounds(),
            self.enemies_flown(now, draw).entries,
            self.bullets_flown(now).entries,
        )
    }

    /// The game after one frame at `now`. Outside a session nothing moves.
    /// In a session the bullet pool and the enemy pool each run their
    /// frame, then the collision pass runs and its kills are added to the
    /// score. If the pass ended at the craft, the phase turns to over and
    /// both pools are emptied.
    pub open spec fn tick(self, now: u64, draw: u32) -> GameModel {
        if self.phase != Phase::Playing {
            self
        } else {
            let pass = self.pass(now, draw);
            GameModel {
                phase: if pass.fatal {
                    Phase::Over
                } else {
                    Phase::Playing
                },
                score: self.score + pass.kills,
                player: self.player,
                enemy: EnemyModel {
                    entries: if pass.fatal {
                        Seq::empty()
                    } else {
                        pass.enemies
                    },
                    ..self.enemies_flown(now, draw)
                },
                bullet: BulletModel {
                    entries: if pass.fatal {
                        Seq::empty()
                    } else {
                        pass.bullets
                    },
                    ..self.bullets_flown(now)
                },
            }
        }
    }

    /// The sounds of the frame at `now`.
    pub open spec fn cues(self, now: u64, draw: u32) -> Cues {
        if self.phase != Phase::Playing {
            Cues { bullet_fired: false, enemies_destroyed: 0, player_destroyed: false }
        } else {
            Cues {
                bullet_fired: self.bullet.throttle.due(now),
                enemies_destroyed: self.pass(now, draw).kills as usize,
                player_destroyed: self.pass(now, draw).fatal,
            }
        }
    }

    /// Whether the score has room for every kill that the next frame can
    /// bring: one per enemy in the pool, and one for an enemy that appears.
    pub open spec fn has_headroom(self) -> bool {
        self.phase == Phase::Playing ==> self.score + self.enemy.entries.len() < usize::MAX
    }

    /// The draw list of the current state: the background of the phase;
    /// in a session, every live enemy, the craft and every live bullet;
    /// then the score.
    pub open spec fn draw_list(self) -> Seq<Draw> {
        let field = if self.phase == Phase::Playing {
            sprites(self.enemy.entries, Image::Enemy).push(
                Draw::Sprite(Image::Player, self.player.bounds()),
            ) + sprites(self.bullet.entries, Image::Bullet)
        } else {
            Seq::empty()
        };
        seq![Draw::Background(self.phase)] + field + seq![Draw::Score(self.score as usize)]
    }
}

/// Appends the sprites of the live entries to a draw list.
fn push_sprites(list: &mut Vec<Draw>, entries: &Vec<Entry>, image: Image)
    ensures
        final(list)@ == old(list)@ + sprites(entries@, image),
{
    let n: usize = entries.len();
    let mut i: usize = 0;
    while i < n
        invariant
            i <= n,
            n == entries@.len(),
            list@ == old(list)@ + sprites(entries@.take(i as int), image),
        decreases n - i,
    {
        let e: Entry = entries[i];
        proof {
            assert(entries@.take(i + 1).drop_last() == entries@.take(i as int));
            assert(entries@.take(i + 1).last() == e);
        }
        if e.alive {
            list.push(Draw::Sprite(image, e.rect));
        }
        i += 1;
    }
    proof {
        assert(entries@.take(n as int) == entries@);
    }
}

impl Game {
    /// A game on the start screen, with the score at zero, the craft at the
    /// origin and both pools empty. `can_w` by `can_h` is the canvas; the
    /// other pairs are the sizes of the craft, of an enemy and of a bullet.
    /// Both throttles count from `now`. The canvas has to be wider than an
    /// enemy.
    pub fn new(
        can_w: i32,
        can_h: i32,
        player_size: (i32, i32),
        enemy_size: (i32, i32),
        bullet_size: (i32, i32),
        now: u64,
    ) -> (game: Game)
        requires
            span(can_w as int, enemy_size.0 as int) > 0,
        ensures
            game@ == GameModel::fresh(can_w, can_h, player_size, enemy_size, bullet_size, now),
            game@.wf(),
    {
        Game {
            phase: Phase::Start,
            score: 0,
            player: Player::new(player_size.0, player_size.1),
            enemy: Enemy::new(can_w, can_h, enemy_size.0, enemy_size.1, now),
            bullet: Bullet::new(bullet_size.0, bullet_size.1, now),
        }
    }

    /// Starts a session: from the start screen or the game-over screen the
    /// phase turns to playing and the score to zero. In a running session
    /// a confirm changes nothing.
    pub fn confirm(&mut self)
        requires
            old(self)@.wf(),
        ensures
            final(self)@ == old(self)@.confirm(),
            final(self)@.wf(),
    {
        match self.phase {
            Phase::Playing => {},
            _ => {
                self.phase = Phase::Playing;
                self.score = 0;
            },
        }
    }

    /// Centres the craft on the pointer, in every phase.
    pub fn pointer_moved(&mut self, x: i32, y: i32)
        requires
            old(self)@.wf(),
            old(self).player.reaches(x, y),
        ensures
            final(self)@ == old(self)@.point(x, y),
            final(self)@.wf(),
    {
        self.player.move_to(x, y);
    }

    /// Applies one input and says whether the loop goes on: a quit request
    /// leaves the game as it is and returns `false`; a confirm and a
    /// pointer move are applied and return `true`.
    pub fn handle(&mut self, input: Input) -> (running: bool)
        requires
            old(self)@.wf(),
            input matches Input::Pointer { x, y } ==> old(self).player.reaches(x, y),
        ensures
            running == !(input is Quit),
            final(self)@ == old(self)@.handle(input),
            final(self)@.wf(),
    {
        match input {
            Input::Quit => false,
            Input::Confirm => {
                self.confirm();
                true
            },
            Input::Pointer { x, y } => {
                self.pointer_moved(x, y);
                true
            },
        }
    }

    /// Whether the next frame reads its random draw: a session is running
    /// and an enemy is due at `now`.
    pub fn wants_draw(&self, now: u64) -> (wanted: bool)
        ensures
            wanted == (self.phase == Phase::Playing && self.enemy.throttle.due(now)),
    {
        match self.phase {
            Phase::Playing => self.enemy.throttle.is_due(now),
            _ => false,
        }
    }

    /// Whether the score has room for the kills of the next frame, as
    /// [`Game::tick`] asks.
    pub fn has_headroom(&self) -> (ok: bool)
        ensures
            ok == self@.has_headroom(),
    {
        match self.phase {
            Phase::Playing => {
                let n: usize = self.enemy.entries.len();
                n < usize::MAX && self.score < usize::MAX - n
            },
            _ => true,
        }
    }

    /// One frame at time `now`. On the start screen and the game-over
    /// screen nothing happens. In a session the bullet pool runs its frame
    /// from the craft's rectangle, the enemy pool runs its frame with
    /// `draw`, and the collision pass runs on what is left: each kill adds
    /// one to the score, and an enemy that reaches the craft ends the
    /// session, which turns the phase to over and empties both pools.
    /// Returns the sounds to play.
    pub fn tick(&mut self, now: u64, draw: u32) -> (cues: Cues)
        requires
            old(self)@.wf(),
            old(self)@.has_headroom(),
        ensures
            final(self)@ == old(self)@.tick(now, draw),
            cues == old(self)@.cues(now, draw),
            final(self)@.wf(),
    {
        match self.phase {
            Phase::Playing => {},
            _ => {
                return Cues { bullet_fired: false, enemies_destroyed: 0, player_destroyed: false };
            },
        }
        let craft: Rect = self.player.rect();
        let fired: bool = self.bullet.produce(now, craft);
        let _ = self.enemy.produce(now, draw);
        proof {
            lemma_scan_bounds(craft, self.enemy.entries@, self.bullet.entries@);
        }
        let out: Outcome = resolve(&craft, &mut self.enemy.entries, &mut self.bullet.entries);
        self.score = self.score + out.kills;
        if out.fatal {
            self.phase = Phase::Over;
            self.enemy.entries.clear();
            self.bullet.entries.clear();
        }
        Cues { bullet_fired: fired, enemies_destroyed: out.kills, player_destroyed: out.fatal }
    }

    /// The draw list of the current state, in drawing order.
    pub fn draw_list(&self) -> (list: Vec<Draw>)
        ensures
            list@ == self@.draw_list(),
    {
        let mut list: Vec<Draw> = Vec::new();
        list.push(Draw::Background(self.phase));
        match self.phase {
            Phase::Playing => {
                push_sprites(&mut list, &self.enemy.entries, Image::Enemy);
                list.push(Draw::Sprite(Image::Player, self.player.rect()));
                push_sprites(&mut list, &self.bullet.entries, Image::Bullet);
            },
            _ => {},
        }
        list.push(Draw::Score(self.score));
        list
    }
}

/// One thing that happens to a game: an input arrives, or a frame runs.
pub enum Step {
    Input(Input),
    Frame { now: u64, draw: u32 },
}

impl GameModel {
    /// The game after one step.
    pub open spec fn step(self, step: Step) -> GameModel {
        match step {
            Step::Input(input) => self.handle(input),
            Step::Frame { now, draw } => self.tick(now, draw),
        }
    }

    /// The game after a sequence of steps, first to last.
    pub open spec fn run(self, steps: Seq<Step>) -> GameModel
        decreases steps.len(),
    {
        if steps.len() == 0 {
            self
        } else {
            self.run(steps.drop_last()).step(steps.last())
        }
    }
}

/// Every step keeps a well-formed game well formed; in particular the
/// pools are empty whenever the game is not in a session.
pub proof fn law_steps_keep_wf(g: GameModel, step: Step)
    requires
        g.wf(),
    ensures
        g.step(step).wf(),
{
    match step {
        Step::Input(_) => {},
        Step::Frame { now, draw } => {
            if g.phase == Phase::Playing {
                let b = g.bullet.loaded(now, g.player.bounds());
                let e = g.enemy.loaded(now, draw);
                assert(all_wf(b)) by {
                    assert forall|i: int| 0 <= i < b.len() implies (#[trigger] b[i]).wf() by {
                        if i < g.bullet.entries.len() {
                            assert(b[i] == g.bullet.entries[i]);
                        }
                    }
                }
                assert(all_wf(e)) by {
                    assert forall|i: int| 0 <= i < e.len() implies (#[trigger] e[i]).wf() by {
                        if i < g.enemy.entries.len() {
                            assert(e[i] == g.enemy.entries[i]);
                        }
                    }
                }
                lemma_advanced_wf(b, Travel::Up);
                lemma_advanced_wf(e, g.enemy.lane());
                lemma_scan_bounds(
                    g.player.bounds(),
                    g.enemies_flown(now, draw).entries,
                    g.bullets_flown(now).entries,
                );
            }
        },
    }
}

/// Outside a session a frame does nothing: no pool moves, no collision is
/// looked for, the score stays and no sound is asked for.
pub proof fn law_frames_idle_outside_session(g: GameModel, now: u64, draw: u32)
    requires
        g.phase != Phase::Playing,
    ensures
        g.tick(now, draw) == g,
        g.cues(now, draw) == (Cues {
            bullet_fired: false,
            enemies_destroyed: 0,
            player_destroyed: false,
        }),
{
}

/// The phase changes in two ways only. A confirm outside a session starts
/// one, with the score at zero. A frame whose collision pass ends at the
/// craft ends the session, empties both pools and asks for the sound of
/// the craft's destruction. Nothing else changes the phase.
pub proof fn law_phase_transitions(g: GameModel, step: Step)
    ensures
        g.step(step).phase != g.phase ==> {
            ||| step == Step::Input(Input::Confirm) && g.phase != Phase::Playing && g.step(
                step,
            ).phase == Phase::Playing && g.step(step).score == 0
            ||| step matches Step::Frame { now, draw } && g.phase == Phase::Playing && g.pass(
                now,
                draw,
            ).fatal && g.cues(now, draw).player_destroyed && g.step(step).phase == Phase::Over
                && g.step(step).enemy.entries.len() == 0 && g.step(step).bullet.entries.len() == 0
        },
        step == Step::Input(Input::Confirm) && g.phase != Phase::Playing ==> g.step(step).phase
            == Phase::Playing,
        step matches Step::Frame { now, draw } && g.phase == Phase::Playing && g.pass(
            now,
            draw,
        ).fatal ==> g.step(step).phase == Phase::Over,
{
}

/// The score changes in two ways only: a frame adds its kills, and a
/// confirm outside a session sets it to zero. Inside a session a confirm
/// leaves it, and a pointer move or a quit request always does.
pub proof fn law_score_changes(g: GameModel, step: Step)
    ensures
        match step {
            Step::Frame { now, draw } => g.step(step).score == g.score + (if g.phase
                == Phase::Playing {
                g.pass(now, draw).kills
            } else {
                0
            }),
            Step::Input(Input::Confirm) => g.step(step).score == (if g.phase == Phase::Playing {
                g.score
            } else {
                0
            }),
            Step::Input(_) => g.step(step).score == g.score,
        },
{
}

/// Whether a step starts a session when applied to `g`.
pub open spec fn starts_session(g: GameModel, step: Step) -> bool {
    step == Step::Input(Input::Confirm) && g.phase != Phase::Playing
}

/// Whether some step of `steps`, applied in turn from `g`, starts a
/// session.
pub open spec fn session_starts_within(g: GameModel, steps: Seq<Step>) -> bool {
    exists|i: int| 0 <= i < steps.len() && starts_session(g.run(steps.take(i)), #[trigger] steps[i])
}

/// The score never falls except where a session starts: over any sequence
/// of frames and inputs in which no confirm starts a session, the score at
/// the end is at least the score at the beginning.
pub proof fn law_score_never_falls(g: GameModel, steps: Seq<Step>)
    requires
        !session_starts_within(g, steps),
    ensures
        g.run(steps).score >= g.score,
    decreases steps.len(),
{
    if steps.len() > 0 {
        let head = steps.drop_last();
        assert(!session_starts_within(g, head)) by {
            if session_starts_within(g, head) {
                let i = choose|i: int|
                    0 <= i < head.len() && starts_session(g.run(head.take(i)), #[trigger] head[i]);
                assert(head.take(i) == steps.take(i));
                assert(starts_session(g.run(steps.take(i)), steps[i]));
            }
        }
        law_score_never_falls(g, head);
        let last = steps.len() - 1;
        assert(steps.take(last) == head);
        assert(!starts_session(g.run(head), steps[last]));
        law_score_changes(g.run(head), steps.last());
    }
}

/// No hit outlives the frame that could see it: after a frame, no live
/// enemy is left with a live bullet's corner inside it.
pub proof fn law_frames_resolve_hits(g: GameModel, now: u64, draw: u32)
    requires
        g.wf(),
    ensures
        forall|k: int, j: int|
            0 <= k < g.tick(now, draw).enemy.entries.len() && 0 <= j < g.tick(
                now,
                draw,
            ).bullet.entries.len() ==> !((#[trigger] g.tick(now, draw).enemy.entries[k]).alive && (
            #[trigger] g.tick(now, draw).bullet.entries[j]).strikes(
                g.tick(now, draw).enemy.entries[k].rect,
            )),
{
    if g.phase == Phase::Playing {
        law_scan_resolves_hits(
            g.player.bounds(),
            g.enemies_flown(now, draw).entries,
            g.bullets_flown(now).entries,
        );
        lemma_scan_bounds(
            g.player.bounds(),
            g.enemies_flown(now, draw).entries,
            g.bullets_flown(now).entries,
        );
    }
}

} // verus!
