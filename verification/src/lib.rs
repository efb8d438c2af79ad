//! A verified core for a two-player paddle-and-ball game.
//!
//! The playfield, the ball and the paddles live in integer subpixel
//! coordinates (1000 subpixels per pixel); velocities are subpixels per
//! second, angles milliradians, times milliseconds. The per-frame physics
//! (swept collision resolution, bounce angles, scoring), the computer
//! player's tracking, the score and win rules and the slow-motion and
//! speed-ramp state machines are all verified here; rendering, audio and
//! input stay with the caller, which hands the core plain events and
//! timestamps and reads back draw and sound queues.

pub mod arith;
pub mod ball;
pub mod game;
pub mod laws;
pub mod net;
pub mod paddle;
pub mod rng;
pub mod score_card;

use vstd::prelude::*;

verus! {

/// Largest playfield dimension, in subpixels (about 1048 pixels).
pub const MAX_COORD: i64 = 1_048_576;

/// Largest base speed, in subpixels per second.
pub const MAX_SPEED: i64 = 1_048_576;

/// Largest angle the game uses: a right angle, in milliradians.
pub const MAX_ANGLE_MRAD: i64 = 1571;

/// Longest frame the physics step accepts, in milliseconds.
pub const MAX_DT_MS: u64 = 65_535;

/// Speed multipliers are stored in tenths; a fresh ball or paddle is at 10.
pub const MULT_MIN_TENTHS: i64 = 10;

/// The speed ramp stops once the multiplier reaches 15 tenths.
pub const MULT_MAX_TENTHS: i64 = 15;

/// First player to reach this many points wins the round.
pub const WIN_THRESHOLD: i32 = 5;

/// Slow-motion activations available at the start of each round.
pub const SLOW_MOTION_CHARGES: u32 = 3;

/// How long one slow-motion activation lasts, in milliseconds.
pub const SLOW_MOTION_DURATION_MS: u64 = 5_000;

/// The ball may speed up at most once per this interval, in milliseconds.
pub const SPEEDUP_INTERVAL_MS: u64 = 15_000;

/// Types that can be set back to their initial state when a new round
/// begins.
pub trait Resettable {
    /// When a value is fit to be reset; resets demand no more than this.
    spec fn reset_ready(&self) -> bool;

    fn reset(&mut self)
        requires
            old(self).reset_ready(),
    ;
}

/// A color, as red, green and blue channels.
#[derive(Clone, Copy, PartialEq, Eq, Structural, Debug)]
pub struct Rgb {
    pub r: u8,
    pub g: u8,
    pub b: u8,
}

impl Rgb {
    pub fn new(r: u8, g: u8, b: u8) -> (c: Rgb)
        ensures
            c == (Rgb { r, g, b }),
    {
        Rgb { r, g, b }
    }
}

} // verus!
