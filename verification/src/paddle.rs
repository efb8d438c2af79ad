//! A paddle: a rectangle pinned to one side of the playfield, moved by
//! the human player or by the computer player's tracking.

use vstd::prelude::*;

verus! {

use crate::Resettable;
use crate::Rgb;
use crate::MAX_COORD;
use crate::MAX_SPEED;
use crate::MULT_MIN_TENTHS;
use crate::MULT_MAX_TENTHS;

pub struct Paddle {
    pub color: Rgb,
    /// The initial x location. Stored so that the paddle can be reset.
    pub initial_x: i64,
    /// The initial y location. Stored so that the paddle can be reset.
    pub initial_y: i64,
    /// x subpixel coordinate of the top left corner.
    pub x: i64,
    /// y subpixel coordinate of the top left corner.
    pub y: i64,
    pub width: i64,
    pub height: i64,
    /// Speed in subpixels per second. Never changes.
    pub speed: i64,
    /// Adjusts the speed, in tenths; grows with the speed ramp.
    pub speed_multiplier_tenths: i64,
}

impl Paddle {
    pub open spec fn wf(self) -> bool {
        &&& 1 <= self.width <= MAX_COORD
        &&& 2 <= self.height <= MAX_COORD
        &&& 0 <= self.speed <= MAX_SPEED
        &&& MULT_MIN_TENTHS <= self.speed_multiplier_tenths <= MULT_MAX_TENTHS
        &&& 0 <= self.x <= MAX_COORD
        &&& 0 <= self.y <= MAX_COORD
        &&& 0 <= self.initial_x <= MAX_COORD
        &&& 0 <= self.initial_y <= MAX_COORD
    }

    /// Everything but position and multiplier is fixed for the paddle's
    /// lifetime.
    pub open spec fn same_constants(self, other: Paddle) -> bool {
        &&& self.color == other.color
        &&& self.initial_x == other.initial_x
        &&& self.initial_y == other.initial_y
        &&& self.width == other.width
        &&& self.height == other.height
        &&& self.speed == other.speed
    }

    pub fn new(color: Rgb, x: i64, y: i64, width: i64, height: i64, speed: i64) -> (paddle:
        Paddle)
        requires
            0 <= x <= MAX_COORD,
            0 <= y <= MAX_COORD,
            1 <= width <= MAX_COORD,
            2 <= height <= MAX_COORD,
            0 <= speed <= MAX_SPEED,
        ensures
            paddle.wf(),
            paddle.color == color,
            paddle.initial_x == x,
            paddle.initial_y == y,
            paddle.x == x,
            paddle.y == y,
            paddle.width == width,
            paddle.height == height,
            paddle.speed == speed,
            paddle.speed_multiplier_tenths == MULT_MIN_TENTHS,
    {
        let mut paddle = Paddle {
            color,
            initial_x: x,
            initial_y: y,
            x,
            y,
            width,
            height,
            speed,
            speed_multiplier_tenths: MULT_MIN_TENTHS,
        };
        paddle.reset();
        paddle
    }

    /// Restore the starting position and base speed.
    pub fn reset(&mut self)
        ensures
            final(self).same_constants(*old(self)),
            final(self).x == old(self).initial_x,
            final(self).y == old(self).initial_y,
            final(self).speed_multiplier_tenths == MULT_MIN_TENTHS,
    {
        self.x = self.initial_x;
        self.y = self.initial_y;
        self.speed_multiplier_tenths = MULT_MIN_TENTHS;
    }
}

impl Resettable for Paddle {
    open spec fn reset_ready(&self) -> bool {
        true
    }

    fn reset(&mut self) {
        self.reset();
    }
}

} // verus!
