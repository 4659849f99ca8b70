//! Simulation core of a small arcade shooter.
//!
//! A player-controlled craft fires bullets at enemies that descend from the
//! top of the canvas. This crate holds the per-frame rules: throttled
//! spawning, linear motion, pruning, corner-in-rectangle collision, scoring
//! and the start / playing / over state machine. Windowing, assets, audio,
//! the clock and the random source belong to the host program, which hands
//! timestamps and random draws in as plain integers.

pub mod rect;
pub mod throttle;
pub mod player;
pub mod pool;
pub mod bullet;
pub mod enemy;
pub mod collide;
pub mod label;
pub mod game;

pub use rect::{Rect, MAX_COORD, MAX_EXTENT, MIN_COORD};
pub use throttle::Throttle;
pub use player::Player;
pub use pool::{advance, Entry, Travel};
pub use bullet::{Bullet, BULLET_INTERVAL_MS};
pub use enemy::{Enemy, ENEMY_INTERVAL_MS};
pub use collide::{find_hit, resolve, Outcome};
pub use label::score_label;
pub use game::{Cues, Draw, Game, Image, Input, Phase};
