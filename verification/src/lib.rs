//! Gameplay and rendering core of a one-dimensional LED-strip arcade game.
//!
//! A player token moves and attacks along a line of pixels, fighting enemies,
//! avoiding lava and conveyors, progressing through hand-authored levels and a
//! multi-phase boss.  The crate holds the deterministic per-tick simulation
//! (entities in fixed-capacity pools), the collision rules, the perceptual
//! color model used for all effects, and the top-level game state machine.
//! The host supplies a millisecond clock and two input signals once per tick
//! and reads back a finished pixel buffer.

pub mod attract;
pub mod boss;
pub mod color;
pub mod conveyor;
pub mod enemy;
pub mod game;
pub mod lava;
pub mod led_string;
pub mod particle;
pub mod player;
pub mod rand;
pub mod screensaver;
pub mod spawner;
pub mod utils;
pub mod world;
