//! The game state and the per-frame rules: ball movement with swept
//! collision resolution, the computer player's paddle tracking, scoring,
//! the win check, the speed ramp and the slow-motion power-up.
//!
//! Each frame the caller builds a [`GameLoopContext`] from the elapsed
//! and current time, passes the one polled input event, and afterwards
//! renders the entities named in the draw queues and plays the sounds in
//! the audio queue.

use vstd::prelude::*;

verus! {

use crate::arith::lemma_mul_div_le;
use crate::arith::lemma_mul_div_mono;
use crate::arith::lemma_mul_div_denominator_le;
use crate::arith::lemma_mul_nonneg_div_nonneg;
use crate::arith::lemma_scale_trunc_abs;
use crate::arith::scale_ratio;
use crate::arith::scale_trunc;
use crate::arith::sin_milli;
use crate::arith::isqrt;
use crate::ball::lemma_velocity_components;
use crate::ball::vx_component;
use crate::ball::vy_component;
use crate::ball::Ball;
use crate::net::Net;
use crate::paddle::Paddle;
use crate::score_card::ScoreCard;
use crate::Resettable;
use crate::Rgb;
use crate::MAX_ANGLE_MRAD;
use crate::MAX_COORD;
use crate::MAX_DT_MS;
use crate::MAX_SPEED;
use crate::MULT_MAX_TENTHS;
use crate::MULT_MIN_TENTHS;
use crate::SLOW_MOTION_CHARGES;
use crate::SLOW_MOTION_DURATION_MS;
use crate::SPEEDUP_INTERVAL_MS;
use crate::WIN_THRESHOLD;
use vstd::assert_seqs_equal;
use vstd::math::abs;

/// A discrete input event, as the core consumes it: the caller polls at
/// most one per frame and translates it to one of these.
#[derive(Clone, Copy, PartialEq, Eq, Structural, Debug)]
pub enum GameEvent {
    /// The player asked to leave the round.
    Quit,
    /// A click: try to start a slow-motion turn.
    SlowMotionClick,
    /// The mouse moved; the left paddle follows this y subpixel
    /// coordinate.
    MouseMoved { y: i64 },
}

/// A sound cue the caller should play after the frame.
#[derive(Clone, Copy, PartialEq, Eq, Structural, Debug)]
pub enum Sound {
    /// A wall bounce or a score.
    Ping,
    /// A paddle bounce.
    Pong,
}

/// An entity to draw, in queue order; higher layers draw over lower ones.
#[derive(Clone, Copy, PartialEq, Eq, Structural, Debug)]
pub enum EntityTag {
    Net,
    LeftScoreCard,
    RightScoreCard,
    Ball,
    LeftPaddle,
    RightPaddle,
}

/// State that lasts for a single iteration of the game loop.
pub struct GameLoopContext {
    /// Milliseconds since the last game loop iteration.
    pub dt_ms: u64,
    /// The current time, on the caller's millisecond clock.
    pub now_ms: u64,
    /// Entities to draw first (the lower layer).
    pub background_draw_queue: Vec<EntityTag>,
    /// Entities to draw on top of the lower layer.
    pub foreground_draw_queue: Vec<EntityTag>,
    /// Sounds that need to play after the frame.
    pub audible_queue: Vec<Sound>,
}

impl GameLoopContext {
    pub fn new(dt_ms: u64, now_ms: u64) -> (ctx: GameLoopContext)
        ensures
            ctx.dt_ms == dt_ms,
            ctx.now_ms == now_ms,
            ctx.background_draw_queue@ == Seq::<EntityTag>::empty(),
            ctx.foreground_draw_queue@ == Seq::<EntityTag>::empty(),
            ctx.audible_queue@ == Seq::<Sound>::empty(),
    {
        GameLoopContext {
            dt_ms,
            now_ms,
            background_draw_queue: Vec::new(),
            foreground_draw_queue: Vec::new(),
            audible_queue: Vec::new(),
        }
    }
}

/// The side that won a round.
#[derive(Clone, Copy, PartialEq, Eq, Structural, Debug)]
pub enum Winner {
    /// The human, at the left paddle.
    Human,
    /// The computer, at the right paddle.
    Computer,
}

pub struct Game {
    pub background_color: Rgb,
    /// Playfield width, in subpixels.
    pub width: i64,
    /// Playfield height, in subpixels.
    pub height: i64,
    /// Target frame rate; the caller paces the loop with it.
    pub fps: u32,
    pub net: Net,
    pub ball: Ball,
    /// The human player's paddle, on the left.
    pub lpaddle: Paddle,
    /// The computer player's paddle, on the right.
    pub rpaddle: Paddle,
    pub lscore_card: ScoreCard,
    pub rscore_card: ScoreCard,
    /// When the ball last sped up, if it ever has.
    pub time_ball_last_speedup_ms: Option<u64>,
    /// Slow-motion activations left this round.
    pub slow_motions_remaining: u32,
    /// When the running slow-motion turn started, if one is active.
    pub time_slow_motion_started_ms: Option<u64>,
    /// Whether the round is still being played.
    pub running: bool,
}

impl Game {
    pub open spec fn wf(self) -> bool {
        &&& 0 < self.width <= MAX_COORD
        &&& 0 < self.height <= MAX_COORD
        &&& 1 <= self.fps
        &&& self.net.wf()
        &&& self.ball.wf()
        &&& self.lpaddle.wf()
        &&& self.rpaddle.wf()
        &&& self.lscore_card.wf()
        &&& self.rscore_card.wf()
        &&& self.ball.diameter <= self.width
        &&& self.ball.diameter <= self.height
        &&& self.lpaddle.height <= self.height
        &&& self.rpaddle.height <= self.height
        &&& 0 <= self.lpaddle.y <= self.height - self.lpaddle.height
        &&& 0 <= self.rpaddle.y <= self.height - self.rpaddle.height
        &&& self.lpaddle.x + self.lpaddle.width + self.ball.diameter <= self.width
        &&& self.ball.diameter <= self.rpaddle.x
        &&& self.rpaddle.x + self.rpaddle.width <= self.width
        &&& -MAX_COORD <= self.ball.x <= self.width - self.ball.diameter + MAX_COORD
        &&& -MAX_COORD <= self.ball.y <= self.height - self.ball.diameter + MAX_COORD
        &&& 0 <= self.lpaddle.initial_y <= self.height - self.lpaddle.height
        &&& 0 <= self.rpaddle.initial_y <= self.height - self.rpaddle.height
        &&& self.lpaddle.initial_x + self.lpaddle.width + self.ball.diameter <= self.width
        &&& self.ball.diameter <= self.rpaddle.initial_x
        &&& self.rpaddle.initial_x + self.rpaddle.width <= self.width
        &&& 0 <= self.ball.initial_x <= self.width - self.ball.diameter
        &&& 0 <= self.ball.initial_y <= self.height - self.ball.diameter
        &&& self.rpaddle.speed_multiplier_tenths == self.ball.speed_multiplier_tenths
        &&& self.slow_motions_remaining <= SLOW_MOTION_CHARGES
    }
}

/// Whether a slow-motion turn is in progress.
pub open spec fn slow_motion_active(g: Game) -> bool {
    g.time_slow_motion_started_ms is Some
}

/// A speed adjusted by the multiplier (in tenths), halved again while
/// slow motion is active.
pub open spec fn mod_speed_spec(v: int, mult_tenths: int, slow: bool) -> int {
    scale_trunc(
        v,
        mult_tenths,
        if slow {
            20int
        } else {
            10int
        },
    )
}

/// How far a velocity carries the ball in `dt` milliseconds.
pub open spec fn disp_spec(v: int, mult_tenths: int, slow: bool, dt: int) -> int {
    scale_trunc(mod_speed_spec(v, mult_tenths, slow), dt, 1000)
}

/// The farthest either coordinate can travel in one frame: the base
/// speed at the largest multiplier, over `dt`.
pub open spec fn max_travel_amount(speed: int, dt: int) -> int {
    (((speed * MULT_MAX_TENTHS) / 10) * dt) / 1000
}

/// The frame travel cap for this game's ball.
pub open spec fn max_frame_travel(g: Game, dt: int) -> int {
    max_travel_amount(g.ball.speed as int, dt)
}

/// The ball's tentative x after `dt`, before collisions are resolved.
pub open spec fn ball_tent_x(g: Game, dt: int) -> int {
    g.ball.x + disp_spec(
        g.ball.vx as int,
        g.ball.speed_multiplier_tenths as int,
        slow_motion_active(g),
        dt,
    )
}

/// The ball's tentative y after `dt`, before collisions are resolved.
pub open spec fn ball_tent_y(g: Game, dt: int) -> int {
    g.ball.y + disp_spec(
        g.ball.vy as int,
        g.ball.speed_multiplier_tenths as int,
        slow_motion_active(g),
        dt,
    )
}

pub open spec fn hits_top_wall(g: Game, dt: int) -> bool {
    ball_tent_y(g, dt) < 0
}

pub open spec fn hits_bottom_wall(g: Game, dt: int) -> bool {
    &&& !hits_top_wall(g, dt)
    &&& ball_tent_y(g, dt) + g.ball.diameter >= g.height
}

/// The ball's y after the top and bottom walls reflect the overshoot.
pub open spec fn y_after_walls(g: Game, dt: int) -> int {
    if hits_top_wall(g, dt) {
        -ball_tent_y(g, dt)
    } else if hits_bottom_wall(g, dt) {
        g.height - (ball_tent_y(g, dt) + g.ball.diameter - g.height) - g.ball.diameter
    } else {
        ball_tent_y(g, dt)
    }
}

pub open spec fn vy_after_walls(g: Game, dt: int) -> int {
    if hits_top_wall(g, dt) || hits_bottom_wall(g, dt) {
        -g.ball.vy as int
    } else {
        g.ball.vy as int
    }
}

/// The left paddle's face: the vertical edge the ball can bounce off.
pub open spec fn left_face(g: Game) -> int {
    g.lpaddle.x + g.lpaddle.width
}

/// Where the ball's left edge sits when it meets the right paddle: the
/// paddle's face less the ball's diameter.
pub open spec fn right_bounce_x(g: Game) -> int {
    g.rpaddle.x - g.ball.diameter
}

/// The swept test against the left paddle: the ball's leading edge was
/// at or right of the face and would end beyond it.
pub open spec fn crosses_left_face(g: Game, dt: int) -> bool {
    &&& ball_tent_x(g, dt) < left_face(g)
    &&& g.ball.x >= left_face(g)
}

/// The swept test against the right paddle.
pub open spec fn crosses_right_face(g: Game, dt: int) -> bool {
    &&& ball_tent_x(g, dt) + g.ball.diameter > g.rpaddle.x
    &&& g.ball.x + g.ball.diameter <= g.rpaddle.x
}

/// The y coordinate at which the ball's path crosses the left paddle's
/// face, by linear interpolation along the frame's motion.
pub open spec fn left_bounce_y(g: Game, dt: int) -> int {
    g.ball.y + scale_trunc(
        y_after_walls(g, dt) - g.ball.y,
        g.ball.x - left_face(g),
        g.ball.x - ball_tent_x(g, dt),
    )
}

/// The crossing y at the right paddle's face.
pub open spec fn right_bounce_y(g: Game, dt: int) -> int {
    g.ball.y + scale_trunc(
        y_after_walls(g, dt) - g.ball.y,
        right_bounce_x(g) - g.ball.x,
        ball_tent_x(g, dt) - g.ball.x,
    )
}

/// Whether a ball crossing at `bounce_y` overlaps the paddle's vertical
/// extent.
pub open spec fn paddle_overlap(p: Paddle, diameter: int, bounce_y: int) -> bool {
    &&& bounce_y + diameter >= p.y
    &&& bounce_y <= p.y + p.height
}

pub open spec fn hits_left_paddle(g: Game, dt: int) -> bool {
    &&& crosses_left_face(g, dt)
    &&& paddle_overlap(g.lpaddle, g.ball.diameter as int, left_bounce_y(g, dt))
}

pub open spec fn hits_right_paddle(g: Game, dt: int) -> bool {
    &&& !crosses_left_face(g, dt)
    &&& crosses_right_face(g, dt)
    &&& paddle_overlap(g.rpaddle, g.ball.diameter as int, right_bounce_y(g, dt))
}

pub open spec fn hits_paddle(g: Game, dt: int) -> bool {
    hits_left_paddle(g, dt) || hits_right_paddle(g, dt)
}

/// The bounce angle: how far from the paddle's center the ball's center
/// hit, as a fraction of half the paddle, times the maximum bounce
/// angle; a hit at the very edge caps at the maximum.
pub open spec fn paddle_bounce_angle(p: Paddle, diameter: int, max_angle: int, bounce_y: int) -> int {
    let rel = (p.y + p.height / 2) - (bounce_y + diameter / 2);
    let raw = (abs(rel) * max_angle) / (p.height / 2);
    if raw <= max_angle {
        raw
    } else {
        max_angle
    }
}

pub open spec fn left_bounce_angle(g: Game, dt: int) -> int {
    paddle_bounce_angle(
        g.lpaddle,
        g.ball.diameter as int,
        g.ball.max_bounce_angle_mrad as int,
        left_bounce_y(g, dt),
    )
}

pub open spec fn right_bounce_angle(g: Game, dt: int) -> int {
    paddle_bounce_angle(
        g.rpaddle,
        g.ball.diameter as int,
        g.ball.max_bounce_angle_mrad as int,
        right_bounce_y(g, dt),
    )
}

/// The ball's vertical velocity after the paddle stage: on a hit, the
/// base speed's component at the bounce angle, keeping the vertical
/// direction of approach.
pub open spec fn vy_after_paddles(g: Game, dt: int) -> int {
    if hits_left_paddle(g, dt) {
        let m = vy_component(g.ball.speed as int, left_bounce_angle(g, dt));
        if vy_after_walls(g, dt) < 0 {
            -m
        } else {
            m
        }
    } else if hits_right_paddle(g, dt) {
        let m = vy_component(g.ball.speed as int, right_bounce_angle(g, dt));
        if vy_after_walls(g, dt) < 0 {
            -m
        } else {
            m
        }
    } else {
        vy_after_walls(g, dt)
    }
}

/// The ball's horizontal velocity after the paddle stage: on a hit, the
/// rest of the base speed, directed away from the paddle that was hit.
pub open spec fn vx_after_paddles(g: Game, dt: int) -> int {
    if hits_left_paddle(g, dt) {
        vx_component(g.ball.speed as int, left_bounce_angle(g, dt))
    } else if hits_right_paddle(g, dt) {
        -vx_component(g.ball.speed as int, right_bounce_angle(g, dt))
    } else {
        g.ball.vx as int
    }
}

/// The share of the frame spent after the bounce, from the ratio of the
/// horizontal distances beyond and short of the face. Along the
/// straight pre-bounce path this equals the ratio of the vertical
/// distances, but unlike that ratio it is well-defined for a purely
/// horizontal path too: the swept test guarantees horizontal progress.
pub open spec fn bounce_dt(g: Game, dt: int) -> int {
    if hits_left_paddle(g, dt) {
        (dt * (left_face(g) - ball_tent_x(g, dt))) / (g.ball.x - ball_tent_x(g, dt))
    } else {
        (dt * (ball_tent_x(g, dt) - right_bounce_x(g))) / (ball_tent_x(g, dt) - g.ball.x)
    }
}

/// The ball's x after the paddle stage: on a hit, the remaining share of
/// the frame travelled away from the face at the new velocity.
pub open spec fn x_after_paddles(g: Game, dt: int) -> int {
    if hits_left_paddle(g, dt) {
        left_face(g) + scale_trunc(vx_after_paddles(g, dt), bounce_dt(g, dt), 1000)
    } else if hits_right_paddle(g, dt) {
        right_bounce_x(g) + scale_trunc(vx_after_paddles(g, dt), bounce_dt(g, dt), 1000)
    } else {
        ball_tent_x(g, dt)
    }
}

/// The ball's y after the paddle stage.
pub open spec fn y_after_paddles(g: Game, dt: int) -> int {
    if hits_left_paddle(g, dt) {
        left_bounce_y(g, dt) + scale_trunc(vy_after_paddles(g, dt), bounce_dt(g, dt), 1000)
    } else if hits_right_paddle(g, dt) {
        right_bounce_y(g, dt) + scale_trunc(vy_after_paddles(g, dt), bounce_dt(g, dt), 1000)
    } else {
        y_after_walls(g, dt)
    }
}

/// The ball went past the left paddle: the right player scores.
pub open spec fn crosses_left_wall(g: Game, dt: int) -> bool {
    x_after_paddles(g, dt) < 0
}

/// The ball went past the right paddle: the left player scores.
pub open spec fn crosses_right_wall(g: Game, dt: int) -> bool {
    &&& !crosses_left_wall(g, dt)
    &&& x_after_paddles(g, dt) + g.ball.diameter > g.width
}

/// The ball's x once the scoring walls reflect the overshoot.
pub open spec fn final_ball_x(g: Game, dt: int) -> int {
    if crosses_left_wall(g, dt) {
        -x_after_paddles(g, dt)
    } else if crosses_right_wall(g, dt) {
        g.width - (x_after_paddles(g, dt) + g.ball.diameter - g.width) - g.ball.diameter
    } else {
        x_after_paddles(g, dt)
    }
}

pub open spec fn final_ball_y(g: Game, dt: int) -> int {
    y_after_paddles(g, dt)
}

pub open spec fn final_ball_vx(g: Game, dt: int) -> int {
    if crosses_left_wall(g, dt) || crosses_right_wall(g, dt) {
        -vx_after_paddles(g, dt)
    } else {
        vx_after_paddles(g, dt)
    }
}

pub open spec fn final_ball_vy(g: Game, dt: int) -> int {
    vy_after_paddles(g, dt)
}

/// A bounce that may trigger the speed ramp: a paddle hit or a score.
pub open spec fn scorable_bounce(g: Game, dt: int) -> bool {
    hits_paddle(g, dt) || crosses_left_wall(g, dt) || crosses_right_wall(g, dt)
}

/// Whether this frame's ball movement triggers the periodic speedup.
pub open spec fn speedup_fires(g: Game, dt: int, now: int) -> bool {
    match g.time_ball_last_speedup_ms {
        Option::None => false,
        Option::Some(t) => {
            &&& now - t > SPEEDUP_INTERVAL_MS
            &&& scorable_bounce(g, dt)
            &&& g.ball.speed_multiplier_tenths < MULT_MAX_TENTHS
            &&& !slow_motion_active(g)
        },
    }
}

/// The sound cues the frame queues, in the order the stages run: a ping
/// for a top or bottom wall bounce, a pong for a paddle bounce, a ping
/// for a score.
pub open spec fn frame_sounds(g: Game, dt: int) -> Seq<Sound> {
    let walls = if hits_top_wall(g, dt) || hits_bottom_wall(g, dt) {
        seq![Sound::Ping]
    } else {
        Seq::<Sound>::empty()
    };
    let pads = if hits_paddle(g, dt) {
        seq![Sound::Pong]
    } else {
        Seq::<Sound>::empty()
    };
    let score = if crosses_left_wall(g, dt) || crosses_right_wall(g, dt) {
        seq![Sound::Ping]
    } else {
        Seq::<Sound>::empty()
    };
    walls + pads + score
}

/// Everything the ball movement leaves alone.
pub open spec fn frame_keeps_rest(pre: Game, post: Game) -> bool {
    &&& post.background_color == pre.background_color
    &&& post.width == pre.width
    &&& post.height == pre.height
    &&& post.fps == pre.fps
    &&& post.net == pre.net
    &&& post.lpaddle == pre.lpaddle
    &&& post.rpaddle.same_constants(pre.rpaddle)
    &&& post.rpaddle.x == pre.rpaddle.x
    &&& post.rpaddle.y == pre.rpaddle.y
    &&& post.ball.same_constants(pre.ball)
    &&& post.lscore_card == (ScoreCard { score: post.lscore_card.score, ..pre.lscore_card })
    &&& post.rscore_card == (ScoreCard { score: post.rscore_card.score, ..pre.rscore_card })
    &&& post.running == pre.running
    &&& post.slow_motions_remaining == pre.slow_motions_remaining
    &&& post.time_slow_motion_started_ms == pre.time_slow_motion_started_ms
}

/// The adjusted speed stays within the largest-multiplier bound, and so
/// does the distance it covers in a frame.
pub proof fn lemma_disp_bound(v: int, speed: int, m: int, slow: bool, dt: int)
    requires
        abs(v) <= speed,
        0 <= speed,
        MULT_MIN_TENTHS <= m <= MULT_MAX_TENTHS,
        0 <= dt,
    ensures
        abs(mod_speed_spec(v, m, slow)) <= (speed * MULT_MAX_TENTHS) / 10,
        abs(disp_spec(v, m, slow, dt)) <= max_travel_amount(speed, dt),
        0 <= (speed * MULT_MAX_TENTHS) / 10,
        0 <= max_travel_amount(speed, dt),
{
    let den: int = if slow {
        20
    } else {
        10
    };
    lemma_scale_trunc_abs(v, m, den);
    lemma_mul_div_mono(abs(v) as int, speed, m, den);
    assert(speed * m <= speed * MULT_MAX_TENTHS) by (nonlinear_arith)
        requires
            0 <= speed,
            m <= MULT_MAX_TENTHS,
    ;
    vstd::arithmetic::div_mod::lemma_div_is_ordered(speed * m, speed * MULT_MAX_TENTHS, den);
    vstd::arithmetic::mul::lemma_mul_nonnegative(speed, MULT_MAX_TENTHS as int);
    lemma_mul_div_denominator_le(speed * MULT_MAX_TENTHS, 10, den);
    lemma_mul_nonneg_div_nonneg(speed, MULT_MAX_TENTHS as int, 10);
    let ms = mod_speed_spec(v, m, slow);
    let cap = (speed * MULT_MAX_TENTHS) / 10;
    lemma_scale_trunc_abs(ms, dt, 1000);
    lemma_mul_div_mono(abs(ms) as int, cap, dt, 1000);
    lemma_mul_nonneg_div_nonneg(cap, dt, 1000);
}

/// On a paddle hit the new velocity keeps both components within the
/// base speed and conserves its magnitude up to the square root's
/// rounding; wall reflections only negate components. So every frame's
/// final velocity satisfies the ball's conservation invariant.
pub proof fn lemma_frame_velocity_ok(g: Game, dt: int)
    requires
        g.wf(),
    ensures
        abs(final_ball_vx(g, dt)) <= g.ball.speed,
        abs(final_ball_vy(g, dt)) <= g.ball.speed,
        final_ball_vx(g, dt) * final_ball_vx(g, dt) + final_ball_vy(g, dt) * final_ball_vy(g, dt)
            <= g.ball.speed * g.ball.speed,
        g.ball.speed * g.ball.speed - (final_ball_vx(g, dt) * final_ball_vx(g, dt) + final_ball_vy(
            g,
            dt,
        ) * final_ball_vy(g, dt)) <= 2 * g.ball.speed,
{
    let speed = g.ball.speed as int;
    let vxp = vx_after_paddles(g, dt);
    let vyp = vy_after_paddles(g, dt);
    if hits_left_paddle(g, dt) || hits_right_paddle(g, dt) {
        let angle = if hits_left_paddle(g, dt) {
            left_bounce_angle(g, dt)
        } else {
            right_bounce_angle(g, dt)
        };
        let p = if hits_left_paddle(g, dt) {
            g.lpaddle
        } else {
            g.rpaddle
        };
        let by = if hits_left_paddle(g, dt) {
            left_bounce_y(g, dt)
        } else {
            right_bounce_y(g, dt)
        };
        let rel = (p.y + p.height / 2) - (by + g.ball.diameter / 2);
        lemma_mul_nonneg_div_nonneg(abs(rel) as int, g.ball.max_bounce_angle_mrad as int, p.height
            as int / 2);
        assert(0 <= angle <= MAX_ANGLE_MRAD);
        lemma_velocity_components(speed, angle);
        crate::arith::lemma_neg_square(vy_component(speed, angle));
        crate::arith::lemma_neg_square(vx_component(speed, angle));
        assert(vxp * vxp + vyp * vyp == vx_component(speed, angle) * vx_component(speed, angle)
            + vy_component(speed, angle) * vy_component(speed, angle));
    } else {
        assert(vxp == g.ball.vx && vyp == vy_after_walls(g, dt));
        crate::arith::lemma_neg_square(g.ball.vy as int);
    }
    crate::arith::lemma_neg_square(vxp);
}

impl Game {
    /// Modify a speed by applying the indicated multiplier; if a
    /// slow-motion turn is active, additionally halve the result.
    pub fn mod_speed(&self, speed: i64, speed_multiplier_tenths: i64) -> (r: i64)
        requires
            -MAX_SPEED <= speed <= MAX_SPEED,
            MULT_MIN_TENTHS <= speed_multiplier_tenths <= MULT_MAX_TENTHS,
        ensures
            r == mod_speed_spec(
                speed as int,
                speed_multiplier_tenths as int,
                slow_motion_active(*self),
            ),
    {
        let den: i64 = if self.time_slow_motion_started_ms.is_some() {
            20
        } else {
            10
        };
        proof {
            assert(-(i64::MAX as int) <= speed * speed_multiplier_tenths <= i64::MAX)
                by (nonlinear_arith)
                requires
                    -MAX_SPEED <= speed <= MAX_SPEED,
                    0 <= speed_multiplier_tenths <= MULT_MAX_TENTHS,
            ;
        }
        scale_ratio(speed, speed_multiplier_tenths, den)
    }

    /// The velocity magnitudes after a bounce off the given paddle at the
    /// interpolated crossing `bounce_y`: the base speed's components at
    /// the bounce angle.
    fn bounce_velocity(&self, bounce_y: i64, left: bool) -> (v: (i64, i64))
        requires
            2 <= (if left {
                self.lpaddle.height
            } else {
                self.rpaddle.height
            }) <= MAX_COORD,
            0 <= (if left {
                self.lpaddle.y
            } else {
                self.rpaddle.y
            }) <= MAX_COORD,
            0 < self.ball.diameter <= MAX_COORD,
            0 < self.ball.speed <= MAX_SPEED,
            0 < self.ball.max_bounce_angle_mrad <= MAX_ANGLE_MRAD,
            -4 * MAX_COORD <= bounce_y <= 4 * MAX_COORD,
        ensures
            ({
                let p = if left {
                    self.lpaddle
                } else {
                    self.rpaddle
                };
                let angle = paddle_bounce_angle(
                    p,
                    self.ball.diameter as int,
                    self.ball.max_bounce_angle_mrad as int,
                    bounce_y as int,
                );
                &&& v.0 == vx_component(self.ball.speed as int, angle)
                &&& v.1 == vy_component(self.ball.speed as int, angle)
                &&& 0 <= v.0 <= self.ball.speed
                &&& 0 <= v.1 <= self.ball.speed
            }),
    {
        let p = if left {
            &self.lpaddle
        } else {
            &self.rpaddle
        };
        // Where the center of the ball hit, relative to the center of the
        // paddle, as a fraction of half the paddle's height; that fraction
        // of the maximum bounce angle is the return angle.
        let half_h = ((p.height as u64) / 2) as i64;
        let half_d = ((self.ball.diameter as u64) / 2) as i64;
        let rel = (p.y + half_h) - (bounce_y + half_d);
        let rel_abs = if rel < 0 {
            -rel
        } else {
            rel
        };
        proof {
            assert(0 <= rel_abs * self.ball.max_bounce_angle_mrad <= i64::MAX) by (nonlinear_arith)
                requires
                    0 <= rel_abs <= 6 * MAX_COORD,
                    0 <= self.ball.max_bounce_angle_mrad <= MAX_ANGLE_MRAD,
            ;
        }
        let raw = scale_ratio(rel_abs, self.ball.max_bounce_angle_mrad, half_h);
        let angle = if raw <= self.ball.max_bounce_angle_mrad {
            raw
        } else {
            self.ball.max_bounce_angle_mrad
        };
        proof {
            lemma_mul_nonneg_div_nonneg(
                rel_abs as int,
                self.ball.max_bounce_angle_mrad as int,
                half_h as int,
            );
            lemma_velocity_components(self.ball.speed as int, angle as int);
        }
        let s = sin_milli(angle);
        proof {
            assert(self.ball.speed * s <= MAX_SPEED * 1000) by (nonlinear_arith)
                requires
                    0 < self.ball.speed <= MAX_SPEED,
                    0 <= s <= 1000,
            ;
        }
        let vy_mag = scale_ratio(self.ball.speed, s, 1000);
        proof {
            assert(self.ball.speed * self.ball.speed <= MAX_SPEED * MAX_SPEED && vy_mag * vy_mag
                <= self.ball.speed * self.ball.speed) by (nonlinear_arith)
                requires
                    0 < self.ball.speed <= MAX_SPEED,
                    0 <= vy_mag <= self.ball.speed,
            ;
        }
        let n = self.ball.speed * self.ball.speed - vy_mag * vy_mag;
        let vx_mag = isqrt(n);
        (vx_mag, vy_mag)
    }

    /// The paddle stage of the frame: the swept test against each face,
    /// the interpolated crossing, and on a genuine hit the new velocity
    /// and the repositioning for the rest of the frame. Takes the frame's
    /// pre-state `g` as a ghost value (the vertical stage has already run
    /// on `self`); returns the stage's (x, y) and whether a paddle was
    /// hit. A purely vertical frame cannot cross a face (the swept test
    /// needs strict horizontal progress), so the interpolation never
    /// divides by zero.
    #[verifier::rlimit(100)]
    fn resolve_paddles(
        &mut self,
        ctx: &mut GameLoopContext,
        new_x: i64,
        new_y: i64,
        Ghost(g): Ghost<Game>,
    ) -> (r: ((i64, i64), bool))
        requires
            g.wf(),
            old(ctx).dt_ms <= MAX_DT_MS,
            max_frame_travel(g, old(ctx).dt_ms as int) <= g.width - g.ball.diameter,
            max_frame_travel(g, old(ctx).dt_ms as int) <= g.height - g.ball.diameter,
            *old(self) == (Game { ball: old(self).ball, ..g }),
            old(self).ball == (Ball { vy: old(self).ball.vy, ..g.ball }),
            old(self).ball.vy == vy_after_walls(g, old(ctx).dt_ms as int),
            new_x == ball_tent_x(g, old(ctx).dt_ms as int),
            new_y == y_after_walls(g, old(ctx).dt_ms as int),
            -MAX_COORD <= new_y <= g.height - g.ball.diameter + MAX_COORD,
        ensures
            *final(self) == (Game { ball: final(self).ball, ..*old(self) }),
            final(self).ball == (Ball {
                vx: final(self).ball.vx,
                vy: final(self).ball.vy,
                ..old(self).ball
            }),
            final(self).ball.vx == vx_after_paddles(g, old(ctx).dt_ms as int),
            final(self).ball.vy == vy_after_paddles(g, old(ctx).dt_ms as int),
            r.0.0 == x_after_paddles(g, old(ctx).dt_ms as int),
            r.0.1 == y_after_paddles(g, old(ctx).dt_ms as int),
            r.1 == hits_paddle(g, old(ctx).dt_ms as int),
            r.1 ==> -max_frame_travel(g, old(ctx).dt_ms as int) <= r.0.0 && r.0.0 <= g.width
                - g.ball.diameter + max_frame_travel(g, old(ctx).dt_ms as int),
            abs(final(self).ball.vx as int) <= g.ball.speed,
            abs(final(self).ball.vy as int) <= g.ball.speed,
            -MAX_COORD <= r.0.1 <= g.height - g.ball.diameter + MAX_COORD,
            *final(ctx) == (GameLoopContext { audible_queue: final(ctx).audible_queue, ..*old(ctx) }),
            final(ctx).audible_queue@ == old(ctx).audible_queue@ + if hits_paddle(
                g,
                old(ctx).dt_ms as int,
            ) {
                seq![Sound::Pong]
            } else {
                Seq::<Sound>::empty()
            },
    {
        let ghost dt = old(ctx).dt_ms as int;
        let dt_ms: u64 = ctx.dt_ms;
        proof {
            lemma_disp_bound(
                g.ball.vx as int,
                g.ball.speed as int,
                g.ball.speed_multiplier_tenths as int,
                slow_motion_active(g),
                dt,
            );
            assert(-2 * MAX_COORD <= new_x <= g.width - g.ball.diameter + 2 * MAX_COORD);
        }
        let mut out_x = new_x;
        let mut out_y = new_y;
        let mut hit = false;

        let lface = self.lpaddle.x + self.lpaddle.width;
        if new_x < lface && self.ball.x >= lface {
            let run = self.ball.x - new_x;
            let cross = self.ball.x - lface;
            let dy_total = new_y - self.ball.y;
            proof {
                assert(0 < run && 0 <= cross && cross <= run);
                assert(-(i64::MAX as int) <= dy_total * cross <= i64::MAX) by (nonlinear_arith)
                    requires
                        -4 * MAX_COORD <= dy_total <= 4 * MAX_COORD,
                        0 <= cross <= 4 * MAX_COORD,
                ;
            }
            let step = scale_ratio(dy_total, cross, run);
            proof {
                lemma_scale_trunc_abs(dy_total as int, cross as int, run as int);
                lemma_mul_div_le(abs(dy_total as int) as int, cross as int, run as int);
                assert(abs(step as int) <= abs(dy_total as int));
            }
            let bounce_y = self.ball.y + step;
            proof {
                assert(bounce_y == left_bounce_y(g, dt));
            }
            if bounce_y + self.ball.diameter >= self.lpaddle.y && bounce_y <= self.lpaddle.y
                + self.lpaddle.height {
                proof {
                    assert(hits_left_paddle(g, dt));
                }
                let (vx_mag, vy_mag) = self.bounce_velocity(bounce_y, true);
                let vy_was_neg = self.ball.vy < 0;
                self.ball.vx = vx_mag;
                self.ball.vy = if vy_was_neg {
                    -vy_mag
                } else {
                    vy_mag
                };
                let rem = lface - new_x;
                proof {
                    assert(0 <= (dt_ms as i64) * rem <= i64::MAX) by (nonlinear_arith)
                        requires
                            0 <= dt_ms <= MAX_DT_MS,
                            0 <= rem <= 4 * MAX_COORD,
                    ;
                }
                let bdt = scale_ratio(dt_ms as i64, rem, run);
                proof {
                    lemma_mul_nonneg_div_nonneg(dt, rem as int, run as int);
                    lemma_mul_div_le(dt, rem as int, run as int);
                    assert(bdt == bounce_dt(g, dt));
                    lemma_base_travel_bound(
                        self.ball.vx as int,
                        g.ball.speed as int,
                        bdt as int,
                        dt,
                    );
                    lemma_base_travel_bound(
                        self.ball.vy as int,
                        g.ball.speed as int,
                        bdt as int,
                        dt,
                    );
                    assert(-(i64::MAX as int) <= self.ball.vx * bdt <= i64::MAX && -(
                    i64::MAX as int) <= self.ball.vy * bdt <= i64::MAX) by (nonlinear_arith)
                        requires
                            -MAX_SPEED <= self.ball.vx <= MAX_SPEED,
                            -MAX_SPEED <= self.ball.vy <= MAX_SPEED,
                            0 <= bdt <= MAX_DT_MS,
                    ;
                }
                out_x = lface + scale_ratio(self.ball.vx, bdt, 1000);
                out_y = bounce_y + scale_ratio(self.ball.vy, bdt, 1000);
                ctx.audible_queue.push(Sound::Pong);
                hit = true;
                proof {
                    assert(out_x == x_after_paddles(g, dt));
                    assert(out_y == y_after_paddles(g, dt));
                }
            }
        } else if new_x + self.ball.diameter > self.rpaddle.x && self.ball.x + self.ball.diameter
            <= self.rpaddle.x {
            let bounce_x = self.rpaddle.x - self.ball.diameter;
            let run = new_x - self.ball.x;
            let cross = bounce_x - self.ball.x;
            let dy_total = new_y - self.ball.y;
            proof {
                assert(0 < run && 0 <= cross && cross <= run);
                assert(-(i64::MAX as int) <= dy_total * cross <= i64::MAX) by (nonlinear_arith)
                    requires
                        -4 * MAX_COORD <= dy_total <= 4 * MAX_COORD,
                        0 <= cross <= 4 * MAX_COORD,
                ;
            }
            let step = scale_ratio(dy_total, cross, run);
            proof {
                lemma_scale_trunc_abs(dy_total as int, cross as int, run as int);
                lemma_mul_div_le(abs(dy_total as int) as int, cross as int, run as int);
                assert(abs(step as int) <= abs(dy_total as int));
            }
            let bounce_y = self.ball.y + step;
            proof {
                assert(bounce_y == right_bounce_y(g, dt));
            }
            if bounce_y + self.ball.diameter >= self.rpaddle.y && bounce_y <= self.rpaddle.y
                + self.rpaddle.height {
                proof {
                    assert(hits_right_paddle(g, dt));
                }
                let (vx_mag, vy_mag) = self.bounce_velocity(bounce_y, false);
                let vy_was_neg = self.ball.vy < 0;
                self.ball.vx = -vx_mag;
                self.ball.vy = if vy_was_neg {
                    -vy_mag
                } else {
                    vy_mag
                };
                let rem = new_x - bounce_x;
                proof {
                    assert(0 <= (dt_ms as i64) * rem <= i64::MAX) by (nonlinear_arith)
                        requires
                            0 <= dt_ms <= MAX_DT_MS,
                            0 <= rem <= 4 * MAX_COORD,
                    ;
                }
                let bdt = scale_ratio(dt_ms as i64, rem, run);
                proof {
                    lemma_mul_nonneg_div_nonneg(dt, rem as int, run as int);
                    lemma_mul_div_le(dt, rem as int, run as int);
                    assert(bdt == bounce_dt(g, dt));
                    lemma_base_travel_bound(
                        self.ball.vx as int,
                        g.ball.speed as int,
                        bdt as int,
                        dt,
                    );
                    lemma_base_travel_bound(
                        self.ball.vy as int,
                        g.ball.speed as int,
                        bdt as int,
                        dt,
                    );
                    assert(-(i64::MAX as int) <= self.ball.vx * bdt <= i64::MAX && -(
                    i64::MAX as int) <= self.ball.vy * bdt <= i64::MAX) by (nonlinear_arith)
                        requires
                            -MAX_SPEED <= self.ball.vx <= MAX_SPEED,
                            -MAX_SPEED <= self.ball.vy <= MAX_SPEED,
                            0 <= bdt <= MAX_DT_MS,
                    ;
                }
                out_x = bounce_x + scale_ratio(self.ball.vx, bdt, 1000);
                out_y = bounce_y + scale_ratio(self.ball.vy, bdt, 1000);
                ctx.audible_queue.push(Sound::Pong);
                hit = true;
                proof {
                    assert(out_x == x_after_paddles(g, dt));
                    assert(out_y == y_after_paddles(g, dt));
                }
            }
        }
        proof {
            if !hit {
                assert(!hits_paddle(g, dt));
                assert(out_x == x_after_paddles(g, dt));
                assert(out_y == y_after_paddles(g, dt));
                assert(self.ball.vx == vx_after_paddles(g, dt));
                assert(self.ball.vy == vy_after_paddles(g, dt));
            }
            if hit {
                assert(final(ctx).audible_queue@ == old(ctx).audible_queue@ + seq![Sound::Pong])
                    by {
                    assert_seqs_equal!(
                        ctx.audible_queue@ == old(ctx).audible_queue@ + seq![Sound::Pong]
                    );
                };
            } else {
                assert_seqs_equal!(
                    ctx.audible_queue@ == old(ctx).audible_queue@ + Seq::<Sound>::empty()
                );
            }
        }
        ((out_x, out_y), hit)
    }

    /// Move the ball along its frame's travel and resolve collisions, in
    /// the fixed order: top/bottom walls (reflecting the overshoot), then
    /// the paddles (a swept test with the crossing point interpolated
    /// along the motion, so a fast ball cannot pass through a paddle),
    /// then the scoring walls; finally the periodic speed ramp.
    #[verifier::rlimit(100)]
    pub fn move_ball(&mut self, ctx: &mut GameLoopContext)
        requires
            old(self).wf(),
            old(ctx).dt_ms <= MAX_DT_MS,
            max_frame_travel(*old(self), old(ctx).dt_ms as int) <= old(self).width - old(
                self,
            ).ball.diameter,
            max_frame_travel(*old(self), old(ctx).dt_ms as int) <= old(self).height - old(
                self,
            ).ball.diameter,
            old(self).lscore_card.score < i32::MAX,
            old(self).rscore_card.score < i32::MAX,
        ensures
            final(self).wf(),
            frame_keeps_rest(*old(self), *final(self)),
            final(self).ball.x == final_ball_x(*old(self), old(ctx).dt_ms as int),
            final(self).ball.y == final_ball_y(*old(self), old(ctx).dt_ms as int),
            final(self).ball.vx == final_ball_vx(*old(self), old(ctx).dt_ms as int),
            final(self).ball.vy == final_ball_vy(*old(self), old(ctx).dt_ms as int),
            final(self).lscore_card.score == old(self).lscore_card.score + if crosses_right_wall(
                *old(self),
                old(ctx).dt_ms as int,
            ) {
                1int
            } else {
                0int
            },
            final(self).rscore_card.score == old(self).rscore_card.score + if crosses_left_wall(
                *old(self),
                old(ctx).dt_ms as int,
            ) {
                1int
            } else {
                0int
            },
            final(self).ball.speed_multiplier_tenths == if speedup_fires(
                *old(self),
                old(ctx).dt_ms as int,
                old(ctx).now_ms as int,
            ) {
                old(self).ball.speed_multiplier_tenths + 1
            } else {
                old(self).ball.speed_multiplier_tenths as int
            },
            final(self).rpaddle.speed_multiplier_tenths
                == final(self).ball.speed_multiplier_tenths,
            final(self).time_ball_last_speedup_ms == if old(self).time_ball_last_speedup_ms
                is None || speedup_fires(
                *old(self),
                old(ctx).dt_ms as int,
                old(ctx).now_ms as int,
            ) {
                Some(old(ctx).now_ms)
            } else {
                old(self).time_ball_last_speedup_ms
            },
            final(ctx).dt_ms == old(ctx).dt_ms,
            final(ctx).now_ms == old(ctx).now_ms,
            final(ctx).background_draw_queue@ == old(ctx).background_draw_queue@,
            final(ctx).foreground_draw_queue@ == old(ctx).foreground_draw_queue@.push(
                EntityTag::Ball,
            ),
            final(ctx).audible_queue@ == old(ctx).audible_queue@ + frame_sounds(
                *old(self),
                old(ctx).dt_ms as int,
            ),
    {
        let ghost g = *old(self);
        let ghost dt = old(ctx).dt_ms as int;
        let dt_ms: u64 = ctx.dt_ms;
        let now_ms: u64 = ctx.now_ms;

        // Tentative new coordinates from the elapsed time and the current
        // velocity; collisions still need to be accounted for.
        proof {
            lemma_disp_bound(
                g.ball.vx as int,
                g.ball.speed as int,
                g.ball.speed_multiplier_tenths as int,
                slow_motion_active(g),
                dt,
            );
            lemma_disp_bound(
                g.ball.vy as int,
                g.ball.speed as int,
                g.ball.speed_multiplier_tenths as int,
                slow_motion_active(g),
                dt,
            );
            lemma_mul_div_mono(g.ball.speed as int, MAX_SPEED as int, MULT_MAX_TENTHS as int, 10);
        }
        let msx = self.mod_speed(self.ball.vx, self.ball.speed_multiplier_tenths);
        let msy = self.mod_speed(self.ball.vy, self.ball.speed_multiplier_tenths);
        proof {
            assert(-1_572_864 <= msx <= 1_572_864);
            assert(-1_572_864 <= msy <= 1_572_864);
            assert(-(i64::MAX as int) <= msx * dt_ms <= i64::MAX && -(i64::MAX as int) <= msy
                * dt_ms <= i64::MAX) by (nonlinear_arith)
                requires
                    -1_572_864 <= msx <= 1_572_864,
                    -1_572_864 <= msy <= 1_572_864,
                    0 <= dt_ms <= MAX_DT_MS,
            ;
        }
        let dx = scale_ratio(msx, dt_ms as i64, 1000);
        let dy = scale_ratio(msy, dt_ms as i64, 1000);
        proof {
            assert(abs(dx as int) <= max_frame_travel(g, dt));
            assert(abs(dy as int) <= max_frame_travel(g, dt));
            assert(-MAX_COORD <= dx <= MAX_COORD);
            assert(-MAX_COORD <= dy <= MAX_COORD);
        }
        let mut new_x = self.ball.x + dx;
        let mut new_y = self.ball.y + dy;
        proof {
            assert(new_x == ball_tent_x(g, dt));
            assert(new_y == ball_tent_y(g, dt));
        }

        // Top or bottom wall: reflect the distance travelled beyond the
        // bound and reverse the vertical velocity.
        if new_y < 0 {
            new_y = -new_y;
            self.ball.vy = -self.ball.vy;
            ctx.audible_queue.push(Sound::Ping);
        } else if new_y + self.ball.diameter >= self.height {
            new_y = self.height - (new_y + self.ball.diameter - self.height) - self.ball.diameter;
            self.ball.vy = -self.ball.vy;
            ctx.audible_queue.push(Sound::Ping);
        }
        proof {
            assert(new_y == y_after_walls(g, dt));
            assert(self.ball.vy == vy_after_walls(g, dt));
            assert(-MAX_COORD <= new_y <= g.height - g.ball.diameter + MAX_COORD);
        }

        // The paddles, left then right: a swept test on the x coordinates,
        // then the interpolated crossing y against the paddle's extent.
        let (pos, mut bounce_allows_speedup) = self.resolve_paddles(ctx, new_x, new_y, Ghost(g));
        let mut new_x = pos.0;
        let mut new_y = pos.1;

        // Left or right wall: reflect, and the player on the far side
        // scores.
        if new_x < 0 {
            new_x = -new_x;
            self.ball.vx = -self.ball.vx;
            self.rscore_card.score = self.rscore_card.score + 1;
            ctx.audible_queue.push(Sound::Ping);
            bounce_allows_speedup = true;
        } else if new_x + self.ball.diameter > self.width {
            new_x = self.width - (new_x + self.ball.diameter - self.width) - self.ball.diameter;
            self.ball.vx = -self.ball.vx;
            self.lscore_card.score = self.lscore_card.score + 1;
            ctx.audible_queue.push(Sound::Ping);
            bounce_allows_speedup = true;
        }
        proof {
            assert(new_x == final_ball_x(g, dt));
            assert(self.ball.vx == final_ball_vx(g, dt));
            assert(bounce_allows_speedup == scorable_bounce(g, dt));
            assert(-MAX_COORD <= new_x <= g.width - g.ball.diameter + MAX_COORD);
        }

        self.ball.x = new_x;
        self.ball.y = new_y;
        ctx.foreground_draw_queue.push(EntityTag::Ball);

        // Speed up the ball periodically until the cap, while a scorable
        // bounce happened this frame and slow motion is off.
        match self.time_ball_last_speedup_ms {
            Option::None => {
                self.time_ball_last_speedup_ms = Some(now_ms);
            },
            Option::Some(t) => {
                if now_ms > t && now_ms - t > SPEEDUP_INTERVAL_MS && bounce_allows_speedup
                    && self.ball.speed_multiplier_tenths < MULT_MAX_TENTHS
                    && self.time_slow_motion_started_ms.is_none() {
                    self.ball.speed_multiplier_tenths = self.ball.speed_multiplier_tenths + 1;
                    self.rpaddle.speed_multiplier_tenths = self.rpaddle.speed_multiplier_tenths
                        + 1;
                    self.time_ball_last_speedup_ms = Some(now_ms);
                }
            },
        }
        proof {
            lemma_frame_velocity_ok(g, dt);
            assert_seqs_equal!(
                ctx.audible_queue@ == old(ctx).audible_queue@ + frame_sounds(g, dt)
            );
        }
    }
}


/// Travel at the base speed for at most the frame's duration also stays
/// within the frame's travel cap.
pub proof fn lemma_base_travel_bound(vc: int, speed: int, bdt: int, dt: int)
    requires
        abs(vc) <= speed,
        0 <= speed,
        0 <= bdt <= dt,
    ensures
        abs(scale_trunc(vc, bdt, 1000)) <= max_travel_amount(speed, dt),
{
    lemma_scale_trunc_abs(vc, bdt, 1000);
    lemma_mul_div_mono(abs(vc) as int, speed, bdt, 1000);
    assert(speed * bdt <= speed * dt) by (nonlinear_arith)
        requires
            0 <= speed,
            bdt <= dt,
    ;
    vstd::arithmetic::div_mod::lemma_div_is_ordered(speed * bdt, speed * dt, 1000);
    assert(speed * 10 <= speed * MULT_MAX_TENTHS) by (nonlinear_arith)
        requires
            0 <= speed,
    ;
    assert((speed * 10) / 10 == speed) by {
        vstd::arithmetic::mul::lemma_mul_is_commutative(speed, 10);
        vstd::arithmetic::div_mod::lemma_div_multiples_vanish(speed, 10);
    };
    vstd::arithmetic::div_mod::lemma_div_is_ordered(speed * 10, speed * MULT_MAX_TENTHS, 10);
    lemma_mul_div_mono(speed, (speed * MULT_MAX_TENTHS) / 10, dt, 1000);
}

/// The y the computer player steers toward: the ball's vertical center
/// while the ball approaches, the playfield's center otherwise.
pub open spec fn ai_tracking_y(g: Game) -> int {
    if g.ball.vx > 0 {
        g.ball.y + g.ball.diameter / 2
    } else {
        g.height / 2
    }
}

/// How far the computer player's paddle can move this frame.
pub open spec fn ai_step(g: Game, dt: int) -> int {
    scale_trunc(
        mod_speed_spec(
            g.rpaddle.speed as int,
            g.rpaddle.speed_multiplier_tenths as int,
            slow_motion_active(g),
        ),
        dt,
        1000,
    )
}

/// The computer player's paddle y after tracking, before clamping: it
/// moves only when the target leaves the middle half of the paddle (a
/// hysteresis band against jitter), and snaps its center onto the target
/// rather than overshooting it.
pub open spec fn ai_moved_y(g: Game, dt: int) -> int {
    let t = ai_tracking_y(g);
    let y = g.rpaddle.y as int;
    let h = g.rpaddle.height as int;
    if t > y + (h * 3) / 4 {
        let y2 = y + ai_step(g, dt);
        if y2 > t {
            t - h / 2
        } else {
            y2
        }
    } else if t < y + h / 4 {
        let y2 = y - ai_step(g, dt);
        if y2 + h < t {
            t - h / 2
        } else {
            y2
        }
    } else {
        y
    }
}

/// The computer player's paddle y after clamping to the playfield.
pub open spec fn ai_final_y(g: Game, dt: int) -> int {
    let m = ai_moved_y(g, dt);
    if m < 0 {
        0
    } else if m + g.rpaddle.height > g.height {
        g.height - g.rpaddle.height
    } else {
        m
    }
}

/// Who has won, if anyone: the left player is checked first.
pub open spec fn round_winner(lscore: int, rscore: int) -> Option<Winner> {
    if lscore >= WIN_THRESHOLD {
        Some(Winner::Human)
    } else if rscore >= WIN_THRESHOLD {
        Some(Winner::Computer)
    } else {
        None
    }
}

/// A click starts a slow-motion turn only while charges remain and no
/// turn is already running.
pub open spec fn slow_click_applies(g: Game, event: Option<GameEvent>) -> bool {
    &&& event == Some(GameEvent::SlowMotionClick)
    &&& g.slow_motions_remaining > 0
    &&& !slow_motion_active(g)
}

/// The slow-motion start time once the frame's event is handled.
pub open spec fn slow_started_after_click(g: Game, event: Option<GameEvent>, now: int) -> Option<
    u64,
> {
    if slow_click_applies(g, event) {
        Some(now as u64)
    } else {
        g.time_slow_motion_started_ms
    }
}

/// The slow-motion start time at the end of the frame: a turn that has
/// run its duration expires.
pub open spec fn slow_started_after_step(g: Game, event: Option<GameEvent>, now: int) -> Option<
    u64,
> {
    match slow_started_after_click(g, event, now) {
        Option::Some(t0) => {
            if now >= t0 && now - t0 >= SLOW_MOTION_DURATION_MS {
                Option::None
            } else {
                Option::Some(t0)
            }
        },
        Option::None => Option::None,
    }
}

/// The human paddle's y once the frame's event is handled: it follows
/// the mouse, clamped to the playfield.
pub open spec fn lpaddle_y_after_event(g: Game, event: Option<GameEvent>) -> int {
    match event {
        Option::Some(GameEvent::MouseMoved { y }) => {
            if y < 0 {
                0
            } else if y + g.lpaddle.height > g.height {
                g.height - g.lpaddle.height
            } else {
                y as int
            }
        },
        _ => g.lpaddle.y as int,
    }
}

/// The state the computer player reads when it moves: the ball has been
/// moved and the speed ramp applied, the frame's event has been handled,
/// but a slow-motion turn has not yet expired.
pub open spec fn state_seen_by_ai(g: Game, dt: int, now: int, event: Option<GameEvent>) -> Game {
    Game {
        ball: Ball {
            x: final_ball_x(g, dt) as i64,
            y: final_ball_y(g, dt) as i64,
            vx: final_ball_vx(g, dt) as i64,
            vy: final_ball_vy(g, dt) as i64,
            speed_multiplier_tenths: (if speedup_fires(g, dt, now) {
                g.ball.speed_multiplier_tenths + 1
            } else {
                g.ball.speed_multiplier_tenths as int
            }) as i64,
            ..g.ball
        },
        lpaddle: Paddle { y: lpaddle_y_after_event(g, event) as i64, ..g.lpaddle },
        rpaddle: Paddle {
            speed_multiplier_tenths: (if speedup_fires(g, dt, now) {
                g.rpaddle.speed_multiplier_tenths + 1
            } else {
                g.rpaddle.speed_multiplier_tenths as int
            }) as i64,
            ..g.rpaddle
        },
        lscore_card: ScoreCard {
            score: (g.lscore_card.score + if crosses_right_wall(g, dt) {
                1int
            } else {
                0int
            }) as i32,
            ..g.lscore_card
        },
        rscore_card: ScoreCard {
            score: (g.rscore_card.score + if crosses_left_wall(g, dt) {
                1int
            } else {
                0int
            }) as i32,
            ..g.rscore_card
        },
        time_ball_last_speedup_ms: if g.time_ball_last_speedup_ms is None || speedup_fires(
            g,
            dt,
            now,
        ) {
            Some(now as u64)
        } else {
            g.time_ball_last_speedup_ms
        },
        slow_motions_remaining: (if slow_click_applies(g, event) {
            g.slow_motions_remaining - 1
        } else {
            g.slow_motions_remaining as int
        }) as u32,
        time_slow_motion_started_ms: slow_started_after_click(g, event, now),
        running: if event == Some(GameEvent::Quit) {
            false
        } else {
            g.running
        },
        ..g
    }
}

impl Game {
    /// Handle the frame's one input event: quitting ends the round, a
    /// click tries to start a slow-motion turn, and the mouse drives the
    /// left paddle, clamped to the playfield.
    pub fn move_left_paddle(
        &mut self,
        ctx: &mut GameLoopContext,
        event: Option<GameEvent>,
    )
        requires
            old(self).wf(),
            event matches Some(GameEvent::MouseMoved { y }) ==> -MAX_COORD <= y <= MAX_COORD,
        ensures
            final(self).wf(),
            *final(self) == (Game {
                lpaddle: Paddle {
                    y: lpaddle_y_after_event(*old(self), event) as i64,
                    ..old(self).lpaddle
                },
                slow_motions_remaining: (if slow_click_applies(*old(self), event) {
                    old(self).slow_motions_remaining - 1
                } else {
                    old(self).slow_motions_remaining as int
                }) as u32,
                time_slow_motion_started_ms: slow_started_after_click(
                    *old(self),
                    event,
                    old(ctx).now_ms as int,
                ),
                running: if event == Some(GameEvent::Quit) {
                    false
                } else {
                    old(self).running
                },
                ..*old(self)
            }),
            0 <= final(self).lpaddle.y <= final(self).height - final(self).lpaddle.height,
            *final(ctx) == (GameLoopContext {
                foreground_draw_queue: final(ctx).foreground_draw_queue,
                ..*old(ctx)
            }),
            final(ctx).foreground_draw_queue@ == old(ctx).foreground_draw_queue@.push(
                EntityTag::LeftPaddle,
            ),
    {
        match event {
            Option::Some(GameEvent::Quit) => {
                // Quit the round and return to the caller's menu.
                self.running = false;
            },
            Option::Some(GameEvent::SlowMotionClick) => {
                // Enter slow motion, spending one charge.
                if self.slow_motions_remaining > 0 && self.time_slow_motion_started_ms.is_none() {
                    self.slow_motions_remaining = self.slow_motions_remaining - 1;
                    self.time_slow_motion_started_ms = Some(ctx.now_ms);
                }
            },
            Option::Some(GameEvent::MouseMoved { y }) => {
                // Move the left paddle with the mouse, guarding against
                // moving beyond the screen bounds.
                self.lpaddle.y = y;
                if self.lpaddle.y < 0 {
                    self.lpaddle.y = 0;
                } else if self.lpaddle.y + self.lpaddle.height > self.height {
                    self.lpaddle.y = self.height - self.lpaddle.height;
                }
            },
            Option::None => {},
        }
        ctx.foreground_draw_queue.push(EntityTag::LeftPaddle);
    }

    /// The computer player moves the right paddle: it tracks the ball
    /// (or returns toward the center when the ball moves away) at its
    /// adjusted speed, with a hysteresis band and an overshoot snap, and
    /// is clamped to the playfield.
    pub fn move_right_paddle(&mut self, ctx: &mut GameLoopContext)
        requires
            old(self).wf(),
            old(ctx).dt_ms <= MAX_DT_MS,
        ensures
            final(self).wf(),
            *final(self) == (Game {
                rpaddle: Paddle {
                    y: ai_final_y(*old(self), old(ctx).dt_ms as int) as i64,
                    ..old(self).rpaddle
                },
                ..*old(self)
            }),
            0 <= final(self).rpaddle.y <= final(self).height - final(self).rpaddle.height,
            *final(ctx) == (GameLoopContext {
                foreground_draw_queue: final(ctx).foreground_draw_queue,
                ..*old(ctx)
            }),
            final(ctx).foreground_draw_queue@ == old(ctx).foreground_draw_queue@.push(
                EntityTag::RightPaddle,
            ),
    {
        let ghost g = *old(self);
        let ghost dt = old(ctx).dt_ms as int;
        let dt_ms: u64 = ctx.dt_ms;

        // If the ball is moving toward the paddle, track its center; if
        // it is moving away, return toward the home position.
        let half_d = ((self.ball.diameter as u64) / 2) as i64;
        let tracking_y = if self.ball.vx > 0 {
            self.ball.y + half_d
        } else {
            ((self.height as u64) / 2) as i64
        };
        proof {
            assert(tracking_y == ai_tracking_y(g));
            lemma_disp_bound(
                g.rpaddle.speed as int,
                g.rpaddle.speed as int,
                g.rpaddle.speed_multiplier_tenths as int,
                slow_motion_active(g),
                dt,
            );
            lemma_mul_div_mono(
                g.rpaddle.speed as int,
                MAX_SPEED as int,
                MULT_MAX_TENTHS as int,
                10,
            );
        }
        let ms = self.mod_speed(self.rpaddle.speed, self.rpaddle.speed_multiplier_tenths);
        proof {
            assert(0 <= ms <= 1_572_864);
            assert(0 <= ms * dt_ms <= 103_077_642_240) by (nonlinear_arith)
                requires
                    0 <= ms <= 1_572_864,
                    0 <= dt_ms <= MAX_DT_MS,
            ;
        }
        let step = scale_ratio(ms, dt_ms as i64, 1000);
        proof {
            vstd::arithmetic::div_mod::lemma_div_nonincreasing(ms * dt, 1000);
            lemma_mul_nonneg_div_nonneg(ms as int, dt, 1000);
            assert(step == ai_step(g, dt));
            assert(0 <= step <= 103_077_642_240);
        }

        // Use non-overlapping segments of the paddle (the bottom 3/4 and
        // the top 1/4 lines) when deciding whether to move: comparing
        // centers exactly would overshoot every frame and jitter.
        let half_h = ((self.rpaddle.height as u64) / 2) as i64;
        let three_quarters = (((self.rpaddle.height as u64) * 3) / 4) as i64;
        let quarter = ((self.rpaddle.height as u64) / 4) as i64;
        if tracking_y > self.rpaddle.y + three_quarters {
            self.rpaddle.y = self.rpaddle.y + step;
            // Guard against overshooting the ball.
            if self.rpaddle.y > tracking_y {
                self.rpaddle.y = tracking_y - half_h;
            }
        } else if tracking_y < self.rpaddle.y + quarter {
            self.rpaddle.y = self.rpaddle.y - step;
            // Guard against overshooting the ball.
            if self.rpaddle.y + self.rpaddle.height < tracking_y {
                self.rpaddle.y = tracking_y - half_h;
            }
        }
        proof {
            assert(self.rpaddle.y == ai_moved_y(g, dt));
        }

        // Guard against moving up or down beyond the screen bounds.
        if self.rpaddle.y < 0 {
            self.rpaddle.y = 0;
        } else if self.rpaddle.y + self.rpaddle.height > self.height {
            self.rpaddle.y = self.height - self.rpaddle.height;
        }
        proof {
            assert(self.rpaddle.y == ai_final_y(g, dt));
        }
        ctx.foreground_draw_queue.push(EntityTag::RightPaddle);
    }

    /// Queue the background entities for this frame: the net and both
    /// score cards; the ball and the paddles were queued on the layer
    /// above as they moved. The caller renders the queues in order.
    pub fn draw(&self, ctx: &mut GameLoopContext)
        ensures
            *final(ctx) == (GameLoopContext {
                background_draw_queue: final(ctx).background_draw_queue,
                ..*old(ctx)
            }),
            final(ctx).background_draw_queue@ == old(ctx).background_draw_queue@ + seq![
                EntityTag::Net,
                EntityTag::LeftScoreCard,
                EntityTag::RightScoreCard,
            ],
    {
        ctx.background_draw_queue.push(EntityTag::Net);
        ctx.background_draw_queue.push(EntityTag::LeftScoreCard);
        ctx.background_draw_queue.push(EntityTag::RightScoreCard);
        proof {
            assert_seqs_equal!(
                ctx.background_draw_queue@ == old(ctx).background_draw_queue@ + seq![
                    EntityTag::Net,
                    EntityTag::LeftScoreCard,
                    EntityTag::RightScoreCard,
                ]
            );
        }
    }

    /// See whether either player has reached the winning score; on a win
    /// the round stops. The left player is checked first.
    pub fn check_for_win(&mut self) -> (winner: Option<Winner>)
        requires
            old(self).wf(),
        ensures
            final(self).wf(),
            winner == round_winner(
                old(self).lscore_card.score as int,
                old(self).rscore_card.score as int,
            ),
            *final(self) == (Game {
                running: if winner is Some {
                    false
                } else {
                    old(self).running
                },
                ..*old(self)
            }),
    {
        let mut winner: Option<Winner> = None;
        if self.lscore_card.score >= WIN_THRESHOLD {
            winner = Some(Winner::Human);
        } else if self.rscore_card.score >= WIN_THRESHOLD {
            winner = Some(Winner::Computer);
        }
        if winner.is_some() {
            self.running = false;
        }
        winner
    }

    /// One iteration of the game loop: move the ball (resolving its
    /// collisions and any score), handle the frame's input event, move
    /// the computer player's paddle, queue the background, expire a
    /// finished slow-motion turn, and check for a win.
    pub fn execute_game_loop_iteration_per_frame(
        &mut self,
        ctx: &mut GameLoopContext,
        event: Option<GameEvent>,
    ) -> (winner: Option<Winner>)
        requires
            old(self).wf(),
            old(ctx).dt_ms <= MAX_DT_MS,
            max_frame_travel(*old(self), old(ctx).dt_ms as int) <= old(self).width - old(
                self,
            ).ball.diameter,
            max_frame_travel(*old(self), old(ctx).dt_ms as int) <= old(self).height - old(
                self,
            ).ball.diameter,
            old(self).lscore_card.score < i32::MAX,
            old(self).rscore_card.score < i32::MAX,
            event matches Some(GameEvent::MouseMoved { y }) ==> -MAX_COORD <= y <= MAX_COORD,
        ensures
            final(self).wf(),
            final(self).ball.x == final_ball_x(*old(self), old(ctx).dt_ms as int),
            final(self).ball.y == final_ball_y(*old(self), old(ctx).dt_ms as int),
            final(self).ball.vx == final_ball_vx(*old(self), old(ctx).dt_ms as int),
            final(self).ball.vy == final_ball_vy(*old(self), old(ctx).dt_ms as int),
            final(self).lscore_card.score == old(self).lscore_card.score + if crosses_right_wall(
                *old(self),
                old(ctx).dt_ms as int,
            ) {
                1int
            } else {
                0int
            },
            final(self).rscore_card.score == old(self).rscore_card.score + if crosses_left_wall(
                *old(self),
                old(ctx).dt_ms as int,
            ) {
                1int
            } else {
                0int
            },
            final(self).lpaddle.y == lpaddle_y_after_event(*old(self), event),
            final(self).rpaddle.y == ai_final_y(
                state_seen_by_ai(*old(self), old(ctx).dt_ms as int, old(ctx).now_ms as int, event),
                old(ctx).dt_ms as int,
            ),
            final(self).slow_motions_remaining == (if slow_click_applies(*old(self), event) {
                old(self).slow_motions_remaining - 1
            } else {
                old(self).slow_motions_remaining as int
            }),
            final(self).time_slow_motion_started_ms == slow_started_after_step(
                *old(self),
                event,
                old(ctx).now_ms as int,
            ),
            winner == round_winner(
                old(self).lscore_card.score + if crosses_right_wall(
                    *old(self),
                    old(ctx).dt_ms as int,
                ) {
                    1int
                } else {
                    0int
                },
                old(self).rscore_card.score + if crosses_left_wall(
                    *old(self),
                    old(ctx).dt_ms as int,
                ) {
                    1int
                } else {
                    0int
                },
            ),
            final(self).running == (if winner is Some {
                false
            } else if event == Some(GameEvent::Quit) {
                false
            } else {
                old(self).running
            }),
            final(ctx).dt_ms == old(ctx).dt_ms,
            final(ctx).now_ms == old(ctx).now_ms,
            final(ctx).background_draw_queue@ == old(ctx).background_draw_queue@ + seq![
                EntityTag::Net,
                EntityTag::LeftScoreCard,
                EntityTag::RightScoreCard,
            ],
            final(ctx).foreground_draw_queue@ == old(ctx).foreground_draw_queue@ + seq![
                EntityTag::Ball,
                EntityTag::LeftPaddle,
                EntityTag::RightPaddle,
            ],
            final(ctx).audible_queue@ == old(ctx).audible_queue@ + frame_sounds(
                *old(self),
                old(ctx).dt_ms as int,
            ),
    {
        let ghost g = *old(self);
        let ghost dt = old(ctx).dt_ms as int;
        let ghost now = old(ctx).now_ms as int;

        // Move objects. The left paddle is moved based on the event the
        // caller polled this frame.
        self.move_ball(ctx);
        self.move_left_paddle(ctx, event);
        proof {
            assert(*self == state_seen_by_ai(g, dt, now, event));
        }
        self.move_right_paddle(ctx);

        // Queue the background; the caller draws and plays audio from the
        // context once this iteration returns.
        self.draw(ctx);

        // End slow motion mode if its duration has elapsed.
        match self.time_slow_motion_started_ms {
            Option::Some(t0) => {
                if ctx.now_ms >= t0 && ctx.now_ms - t0 >= SLOW_MOTION_DURATION_MS {
                    self.time_slow_motion_started_ms = None;
                }
            },
            Option::None => {},
        }

        // Check whether the human (left paddle) or the computer (right
        // paddle) has won.
        let winner = self.check_for_win();
        proof {
            assert_seqs_equal!(
                ctx.foreground_draw_queue@ == old(ctx).foreground_draw_queue@ + seq![
                    EntityTag::Ball,
                    EntityTag::LeftPaddle,
                    EntityTag::RightPaddle,
                ]
            );
        }
        winner
    }

    /// Set the whole game back to a fresh round: full slow-motion
    /// charges, no speedup yet, every entity at its initial state and a
    /// fresh ball launch.
    pub fn reset(&mut self)
        requires
            old(self).wf(),
        ensures
            final(self).wf(),
            final(self).time_ball_last_speedup_ms is None,
            final(self).slow_motions_remaining == SLOW_MOTION_CHARGES,
            final(self).time_slow_motion_started_ms is None,
            final(self).ball.x == old(self).ball.initial_x,
            final(self).ball.y == old(self).ball.initial_y,
            final(self).ball.speed_multiplier_tenths == MULT_MIN_TENTHS,
            final(self).ball.same_constants(old(self).ball),
            final(self).ball.launched_within(),
            final(self).lpaddle == (Paddle {
                x: old(self).lpaddle.initial_x,
                y: old(self).lpaddle.initial_y,
                speed_multiplier_tenths: MULT_MIN_TENTHS as i64,
                ..old(self).lpaddle
            }),
            final(self).rpaddle == (Paddle {
                x: old(self).rpaddle.initial_x,
                y: old(self).rpaddle.initial_y,
                speed_multiplier_tenths: MULT_MIN_TENTHS as i64,
                ..old(self).rpaddle
            }),
            final(self).lscore_card == (ScoreCard { score: 0, ..old(self).lscore_card }),
            final(self).rscore_card == (ScoreCard { score: 0, ..old(self).rscore_card }),
            final(self).background_color == old(self).background_color,
            final(self).width == old(self).width,
            final(self).height == old(self).height,
            final(self).fps == old(self).fps,
            final(self).net == old(self).net,
            final(self).running == old(self).running,
    {
        // Reset the speedup and slow-motion state machines.
        self.time_ball_last_speedup_ms = None;
        self.slow_motions_remaining = SLOW_MOTION_CHARGES;
        self.time_slow_motion_started_ms = None;

        // Reset every entity.
        self.ball.reset();
        self.lpaddle.reset();
        self.rpaddle.reset();
        self.lscore_card.reset();
        self.rscore_card.reset();
    }

    /// Assemble a game from its parts and bring it to a fresh round.
    pub fn new(
        background_color: Rgb,
        width: i64,
        height: i64,
        fps: u32,
        net: Net,
        ball: Ball,
        lpaddle: Paddle,
        rpaddle: Paddle,
        lscore_card: ScoreCard,
        rscore_card: ScoreCard,
    ) -> (game: Game)
        requires
            0 < width <= MAX_COORD,
            0 < height <= MAX_COORD,
            1 <= fps,
            net.wf(),
            ball.wf(),
            lpaddle.wf(),
            rpaddle.wf(),
            lscore_card.wf(),
            rscore_card.wf(),
            ball.diameter <= width,
            ball.diameter <= height,
            lpaddle.height <= height,
            rpaddle.height <= height,
            0 <= lpaddle.y <= height - lpaddle.height,
            0 <= rpaddle.y <= height - rpaddle.height,
            0 <= lpaddle.initial_y <= height - lpaddle.height,
            0 <= rpaddle.initial_y <= height - rpaddle.height,
            lpaddle.x + lpaddle.width + ball.diameter <= width,
            ball.diameter <= rpaddle.x,
            rpaddle.x + rpaddle.width <= width,
            lpaddle.initial_x + lpaddle.width + ball.diameter <= width,
            ball.diameter <= rpaddle.initial_x,
            rpaddle.initial_x + rpaddle.width <= width,
            0 <= ball.initial_x <= width - ball.diameter,
            0 <= ball.initial_y <= height - ball.diameter,
            -MAX_COORD <= ball.x <= width - ball.diameter + MAX_COORD,
            -MAX_COORD <= ball.y <= height - ball.diameter + MAX_COORD,
            rpaddle.speed_multiplier_tenths == ball.speed_multiplier_tenths,
        ensures
            game.wf(),
            game.background_color == background_color,
            game.width == width,
            game.height == height,
            game.fps == fps,
            game.net == net,
            game.ball.same_constants(ball),
            game.ball.x == ball.initial_x,
            game.ball.y == ball.initial_y,
            game.ball.speed_multiplier_tenths == MULT_MIN_TENTHS,
            game.ball.launched_within(),
            game.lpaddle == (Paddle {
                x: lpaddle.initial_x,
                y: lpaddle.initial_y,
                speed_multiplier_tenths: MULT_MIN_TENTHS as i64,
                ..lpaddle
            }),
            game.rpaddle == (Paddle {
                x: rpaddle.initial_x,
                y: rpaddle.initial_y,
                speed_multiplier_tenths: MULT_MIN_TENTHS as i64,
                ..rpaddle
            }),
            game.lscore_card == (ScoreCard { score: 0, ..lscore_card }),
            game.rscore_card == (ScoreCard { score: 0, ..rscore_card }),
            game.time_ball_last_speedup_ms is None,
            game.slow_motions_remaining == SLOW_MOTION_CHARGES,
            game.time_slow_motion_started_ms is None,
            !game.running,
    {
        let mut game = Game {
            background_color,
            width,
            height,
            fps,
            net,
            ball,
            lpaddle,
            rpaddle,
            lscore_card,
            rscore_card,
            time_ball_last_speedup_ms: None,
            slow_motions_remaining: SLOW_MOTION_CHARGES,
            time_slow_motion_started_ms: None,
            running: false,
        };
        proof {
            assert(game.wf());
        }
        game.reset();
        game
    }
}

impl Resettable for Game {
    open spec fn reset_ready(&self) -> bool {
        self.wf()
    }

    fn reset(&mut self) {
        self.reset();
    }
}

} // verus!
