//! Frame-level scenarios for the collision resolver, scoring and the
//! state machines. Coordinates are subpixels: 1000 per pixel, on an
//! 800 x 600 pixel playfield.

use pongo::ball::Ball;
use pongo::game::Game;
use pongo::game::GameEvent;
use pongo::game::GameLoopContext;
use pongo::game::Sound;
use pongo::game::Winner;
use pongo::net::Net;
use pongo::paddle::Paddle;
use pongo::score_card::ScoreCard;
use pongo::Rgb;

fn make_game(ball_speed: i64) -> Game {
    let white: Rgb = Rgb::new(0xff, 0xff, 0xff);
    let net: Net = Net::new(white, 395_000, 10_000, 15_000, 20);
    let ball: Ball = Ball::new(white, 395_000, 295_000, 10_000, ball_speed, 873, 785);
    let lpaddle: Paddle = Paddle::new(white, 4_000, 270_000, 5_000, 60_000, 0);
    let rpaddle: Paddle = Paddle::new(white, 791_000, 270_000, 5_000, 60_000, 300_000);
    let lcard: ScoreCard = ScoreCard::new(white, 300_000, 10_000, 80_000, 60_000);
    let rcard: ScoreCard = ScoreCard::new(white, 420_000, 10_000, 80_000, 60_000);
    Game::new(white, 800_000, 600_000, 40, net, ball, lpaddle, rpaddle, lcard, rcard)
}

#[test]
fn straight_flight_hits_nothing() {
    let mut g: Game = make_game(100_000);
    g.ball.x = 395_000;
    g.ball.y = 295_000;
    g.ball.vx = 100_000;
    g.ball.vy = 0;
    let mut ctx: GameLoopContext = GameLoopContext::new(1000, 50_000);
    g.move_ball(&mut ctx);
    assert_eq!(g.ball.x, 495_000);
    assert_eq!(g.ball.y, 295_000);
    assert_eq!(g.ball.vx, 100_000);
    assert_eq!(g.ball.vy, 0);
    assert_eq!(g.lscore_card.score, 0);
    assert_eq!(g.rscore_card.score, 0);
    assert!(ctx.audible_queue.is_empty());
}

#[test]
fn top_wall_reflects_overshoot() {
    let mut g: Game = make_game(10_000);
    g.ball.x = 395_000;
    g.ball.y = 5_000;
    g.ball.vx = 0;
    g.ball.vy = -10_000;
    let mut ctx: GameLoopContext = GameLoopContext::new(1000, 50_000);
    let vx0: i64 = g.ball.vx;
    let vy0: i64 = g.ball.vy;
    g.move_ball(&mut ctx);
    // Tentative y was -5 pixels: the wall mirrors it to 5 pixels and
    // reverses the vertical velocity.
    assert_eq!(g.ball.y, 5_000);
    assert_eq!(g.ball.vy, 10_000);
    assert_eq!(g.ball.x, 395_000);
    assert_eq!(ctx.audible_queue, vec![Sound::Ping]);
    // Speed conservation: a wall bounce keeps the squared magnitude.
    assert_eq!(
        g.ball.vx * g.ball.vx + g.ball.vy * g.ball.vy,
        vx0 * vx0 + vy0 * vy0
    );
}

#[test]
fn dead_center_left_paddle_returns_horizontally() {
    let mut g: Game = make_game(500_000);
    g.ball.x = 100_000;
    g.ball.y = 295_000;
    g.ball.vx = -500_000;
    g.ball.vy = 0;
    let mut ctx: GameLoopContext = GameLoopContext::new(700, 50_000);
    g.move_ball(&mut ctx);
    // The ball's center crossed the face exactly at the paddle's center:
    // a pure horizontal return at the full base speed.
    assert_eq!(g.ball.vy, 0);
    assert_eq!(g.ball.vx, 500_000);
    assert_eq!(g.ball.y, 295_000);
    // The remaining 518 ms of the frame are travelled away from the face.
    assert_eq!(g.ball.x, 9_000 + 500_000 * 518 / 1000);
    assert_eq!(ctx.audible_queue, vec![Sound::Pong]);
}

#[test]
fn edge_hit_leaves_at_max_bounce_angle() {
    let mut g: Game = make_game(500_000);
    g.ball.x = 100_000;
    g.ball.y = 265_000;
    g.ball.vx = -500_000;
    g.ball.vy = 0;
    let mut ctx: GameLoopContext = GameLoopContext::new(700, 50_000);
    g.move_ball(&mut ctx);
    // The hit was half a paddle above the center: the full 785 mrad
    // bounce angle. sin_milli(785) = 705, so vy = 500000 * 705 / 1000,
    // and vx is what remains of the base speed by Pythagoras.
    assert_eq!(g.ball.vy, 352_500);
    assert_eq!(g.ball.vx, 354_603);
    assert_eq!(ctx.audible_queue, vec![Sound::Pong]);
}

#[test]
fn fast_ball_cannot_tunnel_through_paddle() {
    let mut g: Game = make_game(300_000);
    g.ball.x = 350_000;
    g.ball.y = 295_000;
    g.ball.vx = -300_000;
    g.ball.vy = 0;
    // In 1300 ms the ball would travel 390 pixels, far beyond the
    // 5-pixel-thin paddle; the swept test still catches the crossing.
    let mut ctx: GameLoopContext = GameLoopContext::new(1300, 50_000);
    g.move_ball(&mut ctx);
    assert_eq!(g.ball.vx, 300_000);
    assert_eq!(g.ball.vy, 0);
    assert_eq!(ctx.audible_queue, vec![Sound::Pong]);
    assert_eq!(g.rscore_card.score, 0);
}

#[test]
fn right_wall_crossing_scores_for_left_player() {
    let mut g: Game = make_game(500_000);
    // Keep the right paddle away from the ball's path.
    g.rpaddle.y = 0;
    g.ball.x = 780_000;
    g.ball.y = 300_000;
    g.ball.vx = 500_000;
    g.ball.vy = 0;
    let mut ctx: GameLoopContext = GameLoopContext::new(100, 50_000);
    g.move_ball(&mut ctx);
    // The ball passed the right paddle: the left player scores, exactly
    // once, and the ball is reflected back into bounds.
    assert_eq!(g.lscore_card.score, 1);
    assert_eq!(g.rscore_card.score, 0);
    assert_eq!(g.ball.x, 750_000);
    assert_eq!(g.ball.vx, -500_000);
    assert_eq!(ctx.audible_queue, vec![Sound::Ping]);
}

#[test]
fn speedup_fires_only_on_scorable_bounce() {
    // A score 20 s after the last speedup raises both multipliers.
    let mut g: Game = make_game(500_000);
    g.rpaddle.y = 0;
    g.ball.x = 780_000;
    g.ball.y = 300_000;
    g.ball.vx = 500_000;
    g.ball.vy = 0;
    g.time_ball_last_speedup_ms = Some(0);
    let mut ctx: GameLoopContext = GameLoopContext::new(100, 20_000);
    g.move_ball(&mut ctx);
    assert_eq!(g.ball.speed_multiplier_tenths, 11);
    assert_eq!(g.rpaddle.speed_multiplier_tenths, 11);
    assert_eq!(g.time_ball_last_speedup_ms, Some(20_000));

    // A plain top-wall bounce is not scorable: no speedup.
    let mut g2: Game = make_game(10_000);
    g2.ball.x = 395_000;
    g2.ball.y = 5_000;
    g2.ball.vx = 0;
    g2.ball.vy = -10_000;
    g2.time_ball_last_speedup_ms = Some(0);
    let mut ctx2: GameLoopContext = GameLoopContext::new(1000, 20_000);
    g2.move_ball(&mut ctx2);
    assert_eq!(g2.ball.speed_multiplier_tenths, 10);
    assert_eq!(g2.time_ball_last_speedup_ms, Some(0));
}

#[test]
fn slow_motion_three_charges_and_no_fourth() {
    let mut g: Game = make_game(500_000);
    let mut ctx: GameLoopContext = GameLoopContext::new(25, 10_000);
    assert_eq!(g.slow_motions_remaining, 3);

    // First activation.
    g.move_left_paddle(&mut ctx, Some(GameEvent::SlowMotionClick));
    assert_eq!(g.slow_motions_remaining, 2);
    assert_eq!(g.time_slow_motion_started_ms, Some(10_000));

    // A click while a turn is running neither stacks nor extends it.
    g.move_left_paddle(&mut ctx, Some(GameEvent::SlowMotionClick));
    assert_eq!(g.slow_motions_remaining, 2);
    assert_eq!(g.time_slow_motion_started_ms, Some(10_000));

    // Second and third activations, after the earlier turns expired.
    g.time_slow_motion_started_ms = None;
    g.move_left_paddle(&mut ctx, Some(GameEvent::SlowMotionClick));
    assert_eq!(g.slow_motions_remaining, 1);
    g.time_slow_motion_started_ms = None;
    g.move_left_paddle(&mut ctx, Some(GameEvent::SlowMotionClick));
    assert_eq!(g.slow_motions_remaining, 0);

    // A fourth click has no effect: the charges are exhausted.
    g.time_slow_motion_started_ms = None;
    g.move_left_paddle(&mut ctx, Some(GameEvent::SlowMotionClick));
    assert_eq!(g.slow_motions_remaining, 0);
    assert_eq!(g.time_slow_motion_started_ms, None);
}

#[test]
fn slow_motion_halves_ball_travel() {
    let mut g: Game = make_game(100_000);
    g.ball.x = 395_000;
    g.ball.y = 295_000;
    g.ball.vx = 100_000;
    g.ball.vy = 0;
    g.time_slow_motion_started_ms = Some(9_000);
    let mut ctx: GameLoopContext = GameLoopContext::new(1000, 10_000);
    g.move_ball(&mut ctx);
    assert_eq!(g.ball.x, 395_000 + 50_000);
}

#[test]
fn mouse_moves_left_paddle_with_clamping() {
    let mut g: Game = make_game(500_000);
    let mut ctx: GameLoopContext = GameLoopContext::new(25, 10_000);
    g.move_left_paddle(&mut ctx, Some(GameEvent::MouseMoved { y: 123_000 }));
    assert_eq!(g.lpaddle.y, 123_000);
    // Below the playfield: clamped to the bottom.
    g.move_left_paddle(&mut ctx, Some(GameEvent::MouseMoved { y: 900_000 }));
    assert_eq!(g.lpaddle.y, 540_000);
    // Above the playfield: clamped to the top.
    g.move_left_paddle(&mut ctx, Some(GameEvent::MouseMoved { y: -50_000 }));
    assert_eq!(g.lpaddle.y, 0);
}

#[test]
fn ai_tracks_approaching_ball_and_snaps_on_overshoot() {
    // The ball approaches the right paddle well below it: the paddle
    // moves down by its frame's travel.
    let mut g: Game = make_game(500_000);
    g.ball.x = 400_000;
    g.ball.y = 495_000;
    g.ball.vx = 500_000;
    g.ball.vy = 0;
    let mut ctx: GameLoopContext = GameLoopContext::new(100, 10_000);
    g.move_right_paddle(&mut ctx);
    assert_eq!(g.rpaddle.y, 300_000);

    // A target just outside the band, with a large step: the paddle
    // would overshoot, so its center snaps onto the target.
    let mut g2: Game = make_game(500_000);
    g2.ball.x = 400_000;
    g2.ball.y = 311_000;
    g2.ball.vx = 500_000;
    g2.ball.vy = 0;
    let mut ctx2: GameLoopContext = GameLoopContext::new(1000, 10_000);
    g2.move_right_paddle(&mut ctx2);
    assert_eq!(g2.rpaddle.y, 286_000);

    // The ball moves away: the paddle returns toward the center, and
    // from the center band it does not move at all.
    let mut g3: Game = make_game(500_000);
    g3.ball.x = 400_000;
    g3.ball.y = 100_000;
    g3.ball.vx = -500_000;
    g3.ball.vy = 0;
    let mut ctx3: GameLoopContext = GameLoopContext::new(100, 10_000);
    g3.move_right_paddle(&mut ctx3);
    assert_eq!(g3.rpaddle.y, 270_000);
}

#[test]
fn ai_paddle_stays_within_playfield() {
    // Ball approaching at the very bottom; a huge frame: the paddle is
    // clamped at the bottom edge.
    let mut g: Game = make_game(500_000);
    g.ball.x = 400_000;
    g.ball.y = 585_000;
    g.ball.vx = 500_000;
    g.ball.vy = 0;
    let mut ctx: GameLoopContext = GameLoopContext::new(10_000, 10_000);
    g.move_right_paddle(&mut ctx);
    assert!(g.rpaddle.y >= 0);
    assert!(g.rpaddle.y <= 600_000 - g.rpaddle.height);
    assert_eq!(g.rpaddle.y, 540_000);
}

#[test]
fn win_check_declares_human_first() {
    let mut g: Game = make_game(500_000);
    g.running = true;
    g.lscore_card.score = 5;
    let w: Option<Winner> = g.check_for_win();
    assert_eq!(w, Some(Winner::Human));
    assert!(!g.running);

    let mut g2: Game = make_game(500_000);
    g2.running = true;
    g2.rscore_card.score = 7;
    assert_eq!(g2.check_for_win(), Some(Winner::Computer));

    let mut g3: Game = make_game(500_000);
    g3.running = true;
    g3.lscore_card.score = 4;
    g3.rscore_card.score = 4;
    assert_eq!(g3.check_for_win(), None);
    assert!(g3.running);
}

#[test]
fn full_iteration_moves_everything_and_queues_draws() {
    let mut g: Game = make_game(100_000);
    g.running = true;
    g.ball.x = 395_000;
    g.ball.y = 295_000;
    g.ball.vx = 100_000;
    g.ball.vy = 0;
    let mut ctx: GameLoopContext = GameLoopContext::new(100, 10_000);
    let w: Option<Winner> = g.execute_game_loop_iteration_per_frame(
        &mut ctx,
        Some(GameEvent::MouseMoved { y: 100_000 }),
    );
    assert_eq!(w, None);
    assert!(g.running);
    assert_eq!(g.ball.x, 405_000);
    assert_eq!(g.lpaddle.y, 100_000);
    assert_eq!(ctx.foreground_draw_queue.len(), 3);
    assert_eq!(ctx.background_draw_queue.len(), 3);
}

#[test]
fn quit_event_stops_the_round() {
    let mut g: Game = make_game(100_000);
    g.running = true;
    g.ball.vx = 100_000;
    g.ball.vy = 0;
    let mut ctx: GameLoopContext = GameLoopContext::new(25, 10_000);
    let w: Option<Winner> = g.execute_game_loop_iteration_per_frame(&mut ctx, Some(GameEvent::Quit));
    assert_eq!(w, None);
    assert!(!g.running);
}

#[test]
fn slow_motion_expires_after_duration() {
    let mut g: Game = make_game(100_000);
    g.running = true;
    g.ball.vx = 100_000;
    g.ball.vy = 0;
    g.time_slow_motion_started_ms = Some(1_000);
    let mut ctx: GameLoopContext = GameLoopContext::new(25, 6_000);
    g.execute_game_loop_iteration_per_frame(&mut ctx, None);
    assert_eq!(g.time_slow_motion_started_ms, None);

    let mut g2: Game = make_game(100_000);
    g2.running = true;
    g2.ball.vx = 100_000;
    g2.ball.vy = 0;
    g2.time_slow_motion_started_ms = Some(2_000);
    let mut ctx2: GameLoopContext = GameLoopContext::new(25, 6_000);
    g2.execute_game_loop_iteration_per_frame(&mut ctx2, None);
    assert_eq!(g2.time_slow_motion_started_ms, Some(2_000));
}

#[test]
fn reset_restores_a_fresh_round() {
    let mut g: Game = make_game(500_000);
    g.lscore_card.score = 3;
    g.rscore_card.score = 5;
    g.slow_motions_remaining = 0;
    g.time_slow_motion_started_ms = Some(7_000);
    g.time_ball_last_speedup_ms = Some(3_000);
    g.ball.speed_multiplier_tenths = 14;
    g.rpaddle.speed_multiplier_tenths = 14;
    g.rpaddle.y = 10_000;
    g.reset();
    assert_eq!(g.lscore_card.score, 0);
    assert_eq!(g.rscore_card.score, 0);
    assert_eq!(g.slow_motions_remaining, 3);
    assert_eq!(g.time_slow_motion_started_ms, None);
    assert_eq!(g.time_ball_last_speedup_ms, None);
    assert_eq!(g.ball.speed_multiplier_tenths, 10);
    assert_eq!(g.rpaddle.speed_multiplier_tenths, 10);
    assert_eq!(g.rpaddle.y, 270_000);
    assert_eq!(g.ball.x, 395_000);
    assert_eq!(g.ball.y, 295_000);
    // The fresh launch conserves the base speed up to the square root's
    // rounding, whatever angle was drawn.
    let sq: i64 = g.ball.vx * g.ball.vx + g.ball.vy * g.ball.vy;
    assert!(sq <= 500_000i64 * 500_000);
    assert!(500_000i64 * 500_000 - sq <= 2 * 500_000);
}
