//! The ball: a square collision box rendered as a circle, with a base
//! speed whose magnitude the bounces conserve.

use vstd::prelude::*;

verus! {

use crate::arith::lemma_mul_div_le;
use crate::arith::lemma_mul_nonneg_div_nonneg;
use crate::arith::lemma_sin_milli_range;
use crate::arith::lemma_sqrt_floor_bounds;
use crate::arith::scale_ratio;
use crate::arith::sin_milli;
use crate::arith::sin_milli_spec;
use crate::arith::sqrt_floor;
use crate::arith::isqrt;
use crate::rng::random_in_range;
use crate::Resettable;
use crate::Rgb;
use crate::MAX_ANGLE_MRAD;
use crate::MAX_COORD;
use crate::MAX_SPEED;
use crate::MULT_MIN_TENTHS;
use crate::MULT_MAX_TENTHS;
use vstd::math::abs;

/// The vertical component of a velocity built from a base speed and an
/// angle from horizontal: the base speed scaled by the sine of the
/// angle. Launches and paddle bounces both build velocities this way.
pub open spec fn vy_component(speed: int, angle: int) -> int {
    (speed * sin_milli_spec(angle)) / 1000
}

/// The matching horizontal component: what remains of the base speed
/// once the vertical component is set, by Pythagoras.
pub open spec fn vx_component(speed: int, angle: int) -> int {
    sqrt_floor(speed * speed - vy_component(speed, angle) * vy_component(speed, angle))
}

pub struct Ball {
    pub color: Rgb,
    /// The initial x location. Stored so that the ball can be reset.
    pub initial_x: i64,
    /// The initial y location. Stored so that the ball can be reset.
    pub initial_y: i64,
    /// x subpixel coordinate of the top left corner.
    pub x: i64,
    /// y subpixel coordinate of the top left corner.
    pub y: i64,
    pub diameter: i64,
    /// Base speed in subpixels per second. Never changes.
    pub speed: i64,
    /// Adjusts the speed, in tenths; grows with the speed ramp.
    pub speed_multiplier_tenths: i64,
    /// Horizontal velocity in subpixels per second.
    pub vx: i64,
    /// Vertical velocity in subpixels per second.
    pub vy: i64,
    /// Largest angle (from horizontal) at which the ball will launch.
    pub max_launch_angle_mrad: i64,
    /// Largest angle at which the ball will bounce off a paddle.
    pub max_bounce_angle_mrad: i64,
}

impl Ball {
    /// The bounces conserve the base speed: the velocity's squared
    /// magnitude never exceeds the squared base speed, and falls short of
    /// it by at most twice the base speed (the integer square root's
    /// rounding).
    pub open spec fn speed_conserved(self) -> bool {
        &&& self.vx * self.vx + self.vy * self.vy <= self.speed * self.speed
        &&& self.speed * self.speed - (self.vx * self.vx + self.vy * self.vy) <= 2 * self.speed
    }

    pub open spec fn wf(self) -> bool {
        &&& 0 < self.diameter <= MAX_COORD
        &&& 0 < self.speed <= MAX_SPEED
        &&& MULT_MIN_TENTHS <= self.speed_multiplier_tenths <= MULT_MAX_TENTHS
        &&& 0 <= self.max_launch_angle_mrad <= MAX_ANGLE_MRAD
        &&& 0 < self.max_bounce_angle_mrad <= MAX_ANGLE_MRAD
        &&& 0 <= self.initial_x <= MAX_COORD
        &&& 0 <= self.initial_y <= MAX_COORD
        &&& abs(self.vx as int) <= self.speed
        &&& abs(self.vy as int) <= self.speed
        &&& self.speed_conserved()
    }

    /// The velocity was built from some launch angle within the
    /// configured maximum: what every fresh launch guarantees, whichever
    /// angle and directions were drawn.
    pub open spec fn launched_within(self) -> bool {
        exists|a: int|
            0 <= a <= self.max_launch_angle_mrad && abs(self.vy as int) == vy_component(
                self.speed as int,
                a,
            ) && abs(self.vx as int) == vx_component(self.speed as int, a)
    }

    /// Everything but position, velocity and multiplier is fixed for the
    /// ball's lifetime; resets and bounces keep these fields.
    pub open spec fn same_constants(self, other: Ball) -> bool {
        &&& self.color == other.color
        &&& self.initial_x == other.initial_x
        &&& self.initial_y == other.initial_y
        &&& self.diameter == other.diameter
        &&& self.speed == other.speed
        &&& self.max_launch_angle_mrad == other.max_launch_angle_mrad
        &&& self.max_bounce_angle_mrad == other.max_bounce_angle_mrad
    }

    pub fn new(
        color: Rgb,
        x: i64,
        y: i64,
        diameter: i64,
        speed: i64,
        max_launch_angle_mrad: i64,
        max_bounce_angle_mrad: i64,
    ) -> (ball: Ball)
        requires
            0 <= x <= MAX_COORD,
            0 <= y <= MAX_COORD,
            0 < diameter <= MAX_COORD,
            0 < speed <= MAX_SPEED,
            0 <= max_launch_angle_mrad <= MAX_ANGLE_MRAD,
            0 < max_bounce_angle_mrad <= MAX_ANGLE_MRAD,
        ensures
            ball.wf(),
            ball.color == color,
            ball.initial_x == x,
            ball.initial_y == y,
            ball.x == x,
            ball.y == y,
            ball.diameter == diameter,
            ball.speed == speed,
            ball.speed_multiplier_tenths == MULT_MIN_TENTHS,
            ball.max_launch_angle_mrad == max_launch_angle_mrad,
            ball.max_bounce_angle_mrad == max_bounce_angle_mrad,
            abs(ball.vx as int) <= ball.speed,
            abs(ball.vy as int) <= ball.speed,
            ball.speed_conserved(),
            ball.launched_within(),
    {
        let mut ball = Ball {
            color,
            initial_x: x,
            initial_y: y,
            x,
            y,
            diameter,
            speed,
            speed_multiplier_tenths: MULT_MIN_TENTHS,
            vx: 0,
            vy: 0,
            max_launch_angle_mrad,
            max_bounce_angle_mrad,
        };
        ball.reset();
        ball
    }

    /// Place the ball at its starting point and give it a fresh velocity
    /// at the given angle, `aim_down`/`aim_right` choosing the signs.
    pub fn relaunch(&mut self, launch_angle_mrad: i64, aim_down: bool, aim_right: bool)
        requires
            0 < old(self).speed <= MAX_SPEED,
            0 <= launch_angle_mrad <= MAX_ANGLE_MRAD,
            0 <= old(self).initial_x <= MAX_COORD,
            0 <= old(self).initial_y <= MAX_COORD,
        ensures
            final(self).same_constants(*old(self)),
            final(self).x == old(self).initial_x,
            final(self).y == old(self).initial_y,
            final(self).speed_multiplier_tenths == MULT_MIN_TENTHS,
            final(self).vy == if aim_down {
                vy_component(old(self).speed as int, launch_angle_mrad as int)
            } else {
                -vy_component(old(self).speed as int, launch_angle_mrad as int)
            },
            final(self).vx == if aim_right {
                vx_component(old(self).speed as int, launch_angle_mrad as int)
            } else {
                -vx_component(old(self).speed as int, launch_angle_mrad as int)
            },
            abs(final(self).vx as int) <= final(self).speed,
            abs(final(self).vy as int) <= final(self).speed,
            final(self).speed_conserved(),
    {
        self.x = self.initial_x;
        self.y = self.initial_y;
        self.speed_multiplier_tenths = MULT_MIN_TENTHS;
        let s = sin_milli(launch_angle_mrad);
        proof {
            assert(self.speed * s <= MAX_SPEED * 1000) by (nonlinear_arith)
                requires
                    0 < self.speed <= MAX_SPEED,
                    0 <= s <= 1000,
            ;
        }
        let vy_mag = scale_ratio(self.speed, s, 1000);
        proof {
            lemma_velocity_components(self.speed as int, launch_angle_mrad as int);
            assert(self.speed * self.speed <= MAX_SPEED * MAX_SPEED && vy_mag * vy_mag
                <= self.speed * self.speed) by (nonlinear_arith)
                requires
                    0 < self.speed <= MAX_SPEED,
                    0 <= vy_mag <= self.speed,
            ;
        }
        let n = self.speed * self.speed - vy_mag * vy_mag;
        let vx_mag = isqrt(n);
        self.vy = if aim_down {
            vy_mag
        } else {
            -vy_mag
        };
        self.vx = if aim_right {
            vx_mag
        } else {
            -vx_mag
        };
        proof {
            assert((-vx_mag) * (-vx_mag) == vx_mag * vx_mag) by (nonlinear_arith);
            assert((-vy_mag) * (-vy_mag) == vy_mag * vy_mag) by (nonlinear_arith);
        }
    }

    /// Restore the starting position and base speed, and launch at a
    /// fresh random angle within the configured maximum, in a random
    /// vertical and horizontal direction.
    pub fn reset(&mut self)
        requires
            0 < old(self).speed <= MAX_SPEED,
            0 <= old(self).max_launch_angle_mrad <= MAX_ANGLE_MRAD,
            0 <= old(self).initial_x <= MAX_COORD,
            0 <= old(self).initial_y <= MAX_COORD,
        ensures
            final(self).same_constants(*old(self)),
            final(self).x == old(self).initial_x,
            final(self).y == old(self).initial_y,
            final(self).speed_multiplier_tenths == MULT_MIN_TENTHS,
            abs(final(self).vx as int) <= final(self).speed,
            abs(final(self).vy as int) <= final(self).speed,
            final(self).speed_conserved(),
            final(self).launched_within(),
    {
        let angle = random_in_range(0, self.max_launch_angle_mrad as u64) as i64;
        let aim_down = random_in_range(0, 1) == 1;
        let aim_right = random_in_range(0, 1) == 1;
        self.relaunch(angle, aim_down, aim_right);
        proof {
            lemma_velocity_components(self.speed as int, angle as int);
            assert(0 <= angle <= old(self).max_launch_angle_mrad && abs(self.vy as int)
                == vy_component(self.speed as int, angle as int) && abs(self.vx as int)
                == vx_component(self.speed as int, angle as int));
        }
    }
}

/// A velocity built from a base speed and an angle keeps both
/// components within the base speed and conserves its magnitude up to
/// the square root's rounding.
pub proof fn lemma_velocity_components(speed: int, angle: int)
    requires
        0 < speed <= MAX_SPEED,
        0 <= angle <= MAX_ANGLE_MRAD,
    ensures
        0 <= vy_component(speed, angle) <= speed,
        0 <= vx_component(speed, angle) <= speed,
        vx_component(speed, angle) * vx_component(speed, angle) + vy_component(speed, angle)
            * vy_component(speed, angle) <= speed * speed,
        speed * speed - (vx_component(speed, angle) * vx_component(speed, angle)
            + vy_component(speed, angle) * vy_component(speed, angle)) <= 2 * speed,
{
    lemma_sin_milli_range(angle);
    let s = sin_milli_spec(angle);
    let vy = vy_component(speed, angle);
    lemma_mul_nonneg_div_nonneg(speed, s, 1000);
    lemma_mul_div_le(speed, s, 1000);
    assert(vy * vy <= speed * speed) by (nonlinear_arith)
        requires
            0 <= vy <= speed,
    ;
    let n = speed * speed - vy * vy;
    lemma_sqrt_floor_bounds(n);
    let vx = vx_component(speed, angle);
    assert(vx * vx <= n);
    assert(n < (vx + 1) * (vx + 1));
    assert(vx <= speed && n - vx * vx <= 2 * vx) by (nonlinear_arith)
        requires
            0 <= vx,
            0 < speed,
            vx * vx <= n,
            n < (vx + 1) * (vx + 1),
            n <= speed * speed,
    ;
}

impl Resettable for Ball {
    open spec fn reset_ready(&self) -> bool {
        &&& 0 < self.speed <= MAX_SPEED
        &&& 0 <= self.max_launch_angle_mrad <= MAX_ANGLE_MRAD
        &&& 0 <= self.initial_x <= MAX_COORD
        &&& 0 <= self.initial_y <= MAX_COORD
    }

    fn reset(&mut self) {
        self.reset();
    }
}

} // verus!
