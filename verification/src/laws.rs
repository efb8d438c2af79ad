//! The game's laws, proved over the per-frame model: speed conservation
//! across bounces, the bounds the ball and the resolver keep, the bounce
//! angle law, the swept test's immunity to tunneling, single-sided
//! scoring, and the slow-motion charge rules.

use vstd::prelude::*;

verus! {

use crate::arith::lemma_neg_square;
use crate::arith::lemma_mul_div_le;
use crate::arith::lemma_mul_div_mono;
use crate::arith::lemma_mul_nonneg_div_nonneg;
use crate::arith::sqrt_floor;
use crate::ball::lemma_velocity_components;
use crate::ball::vx_component;
use crate::ball::vy_component;
use crate::game::ball_tent_x;
use crate::game::bounce_dt;
use crate::game::crosses_left_wall;
use crate::game::crosses_right_wall;
use crate::game::final_ball_vx;
use crate::game::final_ball_vy;
use crate::game::final_ball_x;
use crate::game::final_ball_y;
use crate::game::hits_left_paddle;
use crate::game::hits_paddle;
use crate::game::hits_right_paddle;
use crate::game::left_bounce_angle;
use crate::game::left_bounce_y;
use crate::game::left_face;
use crate::game::lemma_base_travel_bound;
use crate::game::lemma_disp_bound;
use crate::game::lemma_frame_velocity_ok;
use crate::game::max_frame_travel;
use crate::game::paddle_overlap;
use crate::game::right_bounce_angle;
use crate::game::right_bounce_x;
use crate::game::right_bounce_y;
use crate::game::slow_click_applies;
use crate::game::slow_motion_active;
use crate::game::slow_started_after_click;
use crate::game::vx_after_paddles;
use crate::game::vy_after_paddles;
use crate::game::Game;
use crate::game::GameEvent;
use crate::paddle::Paddle;
use crate::MAX_DT_MS;
use vstd::math::abs;

/// The paddle the frame's hit was against.
pub open spec fn hit_paddle_of(g: Game, dt: int) -> Paddle {
    if hits_left_paddle(g, dt) {
        g.lpaddle
    } else {
        g.rpaddle
    }
}

/// The crossing y of the frame's paddle hit.
pub open spec fn hit_bounce_y(g: Game, dt: int) -> int {
    if hits_left_paddle(g, dt) {
        left_bounce_y(g, dt)
    } else {
        right_bounce_y(g, dt)
    }
}

/// How far from the hit paddle's center the ball's center struck:
/// positive above the center, negative below.
pub open spec fn hit_relative_y(g: Game, dt: int) -> int {
    (hit_paddle_of(g, dt).y + hit_paddle_of(g, dt).height / 2) - (hit_bounce_y(g, dt)
        + g.ball.diameter / 2)
}

/// The bounce angle of the frame's paddle hit.
pub open spec fn hit_angle(g: Game, dt: int) -> int {
    if hits_left_paddle(g, dt) {
        left_bounce_angle(g, dt)
    } else {
        right_bounce_angle(g, dt)
    }
}

/// Speed conservation at the walls: a frame without a paddle hit leaves
/// the squared magnitude of the ball's velocity exactly unchanged — the
/// walls only reverse components.
pub proof fn lemma_wall_bounce_conserves_speed(g: Game, dt: int)
    requires
        g.wf(),
        !hits_paddle(g, dt),
    ensures
        final_ball_vx(g, dt) * final_ball_vx(g, dt) + final_ball_vy(g, dt) * final_ball_vy(g, dt)
            == g.ball.vx * g.ball.vx + g.ball.vy * g.ball.vy,
{
    lemma_neg_square(g.ball.vx as int);
    lemma_neg_square(g.ball.vy as int);
}

/// Speed conservation at a paddle: the bounce rebuilds the velocity from
/// the base speed, so the squared magnitude returns to the squared base
/// speed, short of it by at most twice the base speed (the integer
/// square root's rounding).
pub proof fn lemma_paddle_bounce_conserves_speed(g: Game, dt: int)
    requires
        g.wf(),
        hits_paddle(g, dt),
    ensures
        final_ball_vx(g, dt) * final_ball_vx(g, dt) + final_ball_vy(g, dt) * final_ball_vy(g, dt)
            <= g.ball.speed * g.ball.speed,
        g.ball.speed * g.ball.speed - (final_ball_vx(g, dt) * final_ball_vx(g, dt) + final_ball_vy(
            g,
            dt,
        ) * final_ball_vy(g, dt)) <= 2 * g.ball.speed,
{
    lemma_frame_velocity_ok(g, dt);
}

/// Bounds invariant for the ball: a frame that starts inside the
/// playfield ends with its x inside the playfield — each reflection
/// lands within bounds because the frame's travel is capped by the
/// playfield's size, and a bounce returns the ball from a face that
/// lies within it. The same holds for y on frames without a paddle hit;
/// on a paddle hit the repositioning can leave y slightly past the top
/// or bottom wall, which the next frame's wall stage resolves.
pub proof fn lemma_ball_stays_in_bounds(g: Game, dt: int)
    requires
        g.wf(),
        0 <= dt <= MAX_DT_MS,
        max_frame_travel(g, dt) <= g.width - g.ball.diameter,
        max_frame_travel(g, dt) <= g.height - g.ball.diameter,
        0 <= g.ball.x <= g.width - g.ball.diameter,
        0 <= g.ball.y <= g.height - g.ball.diameter,
    ensures
        0 <= final_ball_x(g, dt) <= g.width - g.ball.diameter,
        !hits_paddle(g, dt) ==> 0 <= final_ball_y(g, dt) <= g.height - g.ball.diameter,
{
    lemma_disp_bound(
        g.ball.vx as int,
        g.ball.speed as int,
        g.ball.speed_multiplier_tenths as int,
        slow_motion_active(g),
        dt,
    );
    lemma_disp_bound(
        g.ball.vy as int,
        g.ball.speed as int,
        g.ball.speed_multiplier_tenths as int,
        slow_motion_active(g),
        dt,
    );
    if hits_paddle(g, dt) {
        let speed = g.ball.speed as int;
        let p = hit_paddle_of(g, dt);
        let rel = hit_relative_y(g, dt);
        lemma_mul_nonneg_div_nonneg(abs(rel) as int, g.ball.max_bounce_angle_mrad as int, p.height
            as int / 2);
        lemma_velocity_components(speed, hit_angle(g, dt));
        let tent = ball_tent_x(g, dt);
        if hits_left_paddle(g, dt) {
            lemma_mul_nonneg_div_nonneg(dt, left_face(g) - tent, g.ball.x - tent);
            lemma_mul_div_le(dt, left_face(g) - tent, g.ball.x - tent);
        } else {
            lemma_mul_nonneg_div_nonneg(dt, tent - right_bounce_x(g), tent - g.ball.x);
            lemma_mul_div_le(dt, tent - right_bounce_x(g), tent - g.ball.x);
        }
        lemma_base_travel_bound(vx_after_paddles(g, dt), speed, bounce_dt(g, dt), dt);
    }
}

/// The bounce angle law, dead center: a ball that strikes a paddle
/// exactly at its center returns horizontally, at the full base speed,
/// away from the paddle it hit.
pub proof fn lemma_dead_center_bounce(g: Game, dt: int)
    requires
        g.wf(),
        hits_paddle(g, dt),
        hit_relative_y(g, dt) == 0,
    ensures
        vy_after_paddles(g, dt) == 0,
        hits_left_paddle(g, dt) ==> vx_after_paddles(g, dt) == g.ball.speed,
        !hits_left_paddle(g, dt) ==> vx_after_paddles(g, dt) == -g.ball.speed as int,
{
    let speed = g.ball.speed as int;
    let p = hit_paddle_of(g, dt);
    let maxa = g.ball.max_bounce_angle_mrad as int;
    let a = abs(hit_relative_y(g, dt)) as int;
    assert(a == 0);
    assert(a * maxa == 0) by (nonlinear_arith)
        requires
            a == 0,
    ;
    vstd::arithmetic::div_mod::lemma_div_of0(p.height as int / 2);
    assert(hit_angle(g, dt) == 0);
    assert(vy_component(speed, 0) == 0) by {
        assert(crate::arith::sin_milli_spec(0) == 0);
        assert(speed * 0 == 0) by (nonlinear_arith);
        vstd::arithmetic::div_mod::lemma_div_of0(1000);
    };
    assert(vx_component(speed, 0) == sqrt_floor(speed * speed)) by {
        assert(speed * speed - 0 * 0 == speed * speed) by (nonlinear_arith);
    };
    assert(sqrt_floor(speed * speed) == speed) by {
        assert(speed * speed < (speed + 1) * (speed + 1)) by (nonlinear_arith)
            requires
                0 < speed,
        ;
        crate::arith::lemma_sqrt_floor_unique(speed * speed, speed);
    };
}

/// The bounce angle law, at the edge: a ball that strikes a paddle at
/// its very edge (or beyond, overlapping it) leaves at the maximum
/// bounce angle: the vertical speed is the base speed's component at
/// that angle.
pub proof fn lemma_edge_bounce(g: Game, dt: int)
    requires
        g.wf(),
        hits_paddle(g, dt),
        abs(hit_relative_y(g, dt)) >= hit_paddle_of(g, dt).height / 2,
    ensures
        hit_angle(g, dt) == g.ball.max_bounce_angle_mrad,
        abs(vy_after_paddles(g, dt)) == vy_component(
            g.ball.speed as int,
            g.ball.max_bounce_angle_mrad as int,
        ),
{
    let speed = g.ball.speed as int;
    let p = hit_paddle_of(g, dt);
    let half = p.height as int / 2;
    let rel = hit_relative_y(g, dt);
    let maxa = g.ball.max_bounce_angle_mrad as int;
    assert((half * maxa) / half == maxa) by {
        vstd::arithmetic::mul::lemma_mul_is_commutative(half, maxa);
        vstd::arithmetic::div_mod::lemma_div_multiples_vanish(maxa, half);
    };
    lemma_mul_div_mono(half, abs(rel) as int, maxa, half);
    assert(hit_angle(g, dt) == maxa);
    lemma_velocity_components(speed, maxa);
}

/// No tunneling at the left paddle: however far past the paddle's face
/// the tentative position lands, a ball whose swept path crosses the
/// face within the paddle's extent is a hit, and is sent back to the
/// right.
pub proof fn lemma_no_tunneling_left(g: Game, dt: int)
    requires
        g.wf(),
        g.ball.x >= left_face(g),
        ball_tent_x(g, dt) < left_face(g),
        paddle_overlap(g.lpaddle, g.ball.diameter as int, left_bounce_y(g, dt)),
    ensures
        hits_left_paddle(g, dt),
        vx_after_paddles(g, dt) >= 0,
{
    lemma_velocity_bounds_for_hit(g, dt);
}

/// No tunneling at the right paddle, the mirror image.
pub proof fn lemma_no_tunneling_right(g: Game, dt: int)
    requires
        g.wf(),
        g.ball.x + g.ball.diameter <= g.rpaddle.x,
        ball_tent_x(g, dt) + g.ball.diameter > g.rpaddle.x,
        !(g.ball.x >= left_face(g) && ball_tent_x(g, dt) < left_face(g)),
        paddle_overlap(g.rpaddle, g.ball.diameter as int, right_bounce_y(g, dt)),
    ensures
        hits_right_paddle(g, dt),
        vx_after_paddles(g, dt) <= 0,
{
    lemma_velocity_bounds_for_hit(g, dt);
}

/// On any paddle hit the rebuilt components are nonnegative magnitudes
/// within the base speed.
proof fn lemma_velocity_bounds_for_hit(g: Game, dt: int)
    requires
        g.wf(),
    ensures
        hits_left_paddle(g, dt) ==> vx_after_paddles(g, dt) >= 0,
        hits_right_paddle(g, dt) ==> vx_after_paddles(g, dt) <= 0,
{
    if hits_paddle(g, dt) {
        let p = hit_paddle_of(g, dt);
        let rel = hit_relative_y(g, dt);
        lemma_mul_nonneg_div_nonneg(abs(rel) as int, g.ball.max_bounce_angle_mrad as int, p.height
            as int / 2);
        lemma_velocity_components(g.ball.speed as int, hit_angle(g, dt));
    }
}

/// The left player's score once the frame's ball movement is resolved.
pub open spec fn lscore_after_frame(g: Game, dt: int) -> int {
    g.lscore_card.score + if crosses_right_wall(g, dt) {
        1int
    } else {
        0int
    }
}

/// The right player's score once the frame's ball movement is resolved.
pub open spec fn rscore_after_frame(g: Game, dt: int) -> int {
    g.rscore_card.score + if crosses_left_wall(g, dt) {
        1int
    } else {
        0int
    }
}

/// Score monotonicity: the two scoring walls cannot both fire in one
/// frame, so neither score ever decreases, and per frame at most one
/// side's score rises, by exactly one.
pub proof fn lemma_score_monotone_single_side(g: Game, dt: int)
    ensures
        !(crosses_left_wall(g, dt) && crosses_right_wall(g, dt)),
        lscore_after_frame(g, dt) >= g.lscore_card.score,
        rscore_after_frame(g, dt) >= g.rscore_card.score,
        (lscore_after_frame(g, dt) - g.lscore_card.score) + (rscore_after_frame(g, dt)
            - g.rscore_card.score) <= 1,
{
}

/// A slow-motion click is refused both when the charges are exhausted
/// and while a turn is already running: the state does not change, so a
/// fourth click in a round has no effect and a turn cannot be stacked or
/// extended.
pub proof fn lemma_slow_motion_click_blocked(g: Game, now: int)
    requires
        g.slow_motions_remaining == 0 || slow_motion_active(g),
    ensures
        !slow_click_applies(g, Some(GameEvent::SlowMotionClick)),
        slow_started_after_click(g, Some(GameEvent::SlowMotionClick), now)
            == g.time_slow_motion_started_ms,
{
}

/// Slow-motion charges never replenish within a round: handling an
/// event can only keep or lower the count.
pub proof fn lemma_slow_motion_charges_monotone(g: Game, event: Option<GameEvent>)
    ensures
        (if slow_click_applies(g, event) {
            g.slow_motions_remaining - 1
        } else {
            g.slow_motions_remaining as int
        }) <= g.slow_motions_remaining,
{
}

} // verus!
