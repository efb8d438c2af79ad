//! Exact values for the arithmetic helpers and the entity constructors.

use pongo::arith::isqrt;
use pongo::arith::scale_ratio;
use pongo::arith::sin_milli;
use pongo::ball::Ball;
use pongo::game::Game;
use pongo::game::GameLoopContext;
use pongo::net::Net;
use pongo::paddle::Paddle;
use pongo::score_card::ScoreCard;
use pongo::Resettable;
use pongo::Rgb;

#[test]
fn sin_milli_exact_values() {
    // sin_milli(x) = x - x^3 / 6_000_000, in thousandths.
    assert_eq!(sin_milli(0), 0);
    assert_eq!(sin_milli(524), 524 - 524i64 * 524 * 524 / 6_000_000);
    assert_eq!(sin_milli(524), 501);
    assert_eq!(sin_milli(785), 705);
    assert_eq!(sin_milli(1571), 925);
}

#[test]
fn isqrt_exact_values() {
    assert_eq!(isqrt(0), 0);
    assert_eq!(isqrt(1), 1);
    assert_eq!(isqrt(10), 3);
    assert_eq!(isqrt(16), 4);
    assert_eq!(isqrt(250_000_000_000), 500_000);
    assert_eq!(isqrt(250_000_000_001), 500_000);
    assert_eq!(isqrt(i64::MAX), 3_037_000_499);
}

#[test]
fn scale_ratio_truncates_toward_zero() {
    assert_eq!(scale_ratio(7, 3, 2), 10);
    assert_eq!(scale_ratio(-7, 3, 2), -10);
    assert_eq!(scale_ratio(0, 5, 9), 0);
    assert_eq!(scale_ratio(100_000, 0, 3), 0);
}

#[test]
fn mod_speed_applies_multiplier_and_slow_motion() {
    let white: Rgb = Rgb::new(0, 0, 0);
    let net: Net = Net::new(white, 395_000, 10_000, 15_000, 20);
    let ball: Ball = Ball::new(white, 395_000, 295_000, 10_000, 500_000, 873, 785);
    let lpaddle: Paddle = Paddle::new(white, 4_000, 270_000, 5_000, 60_000, 0);
    let rpaddle: Paddle = Paddle::new(white, 791_000, 270_000, 5_000, 60_000, 300_000);
    let lcard: ScoreCard = ScoreCard::new(white, 300_000, 10_000, 80_000, 60_000);
    let rcard: ScoreCard = ScoreCard::new(white, 420_000, 10_000, 80_000, 60_000);
    let mut g: Game = Game::new(
        white, 800_000, 600_000, 40, net, ball, lpaddle, rpaddle, lcard, rcard,
    );
    assert_eq!(g.mod_speed(100, 12), 120);
    assert_eq!(g.mod_speed(-100, 12), -120);
    assert_eq!(g.mod_speed(105, 10), 105);
    g.time_slow_motion_started_ms = Some(1);
    assert_eq!(g.mod_speed(100, 12), 60);
}

#[test]
fn net_dot_layout() {
    let net: Net = Net::new(Rgb::new(1, 2, 3), 395_000, 10_000, 15_000, 20);
    let dots: Vec<(i64, i64)> = net.dot_positions();
    assert_eq!(dots.len(), 20);
    assert_eq!(dots[0], (395_000, 0));
    assert_eq!(dots[1], (395_000, 30_000));
    assert_eq!(dots[19], (395_000, 19 * 30_000));
}

#[test]
fn ball_new_launches_within_limits() {
    let ball: Ball = Ball::new(Rgb::new(9, 9, 9), 395_000, 295_000, 11_000, 500_000, 873, 785);
    assert_eq!(ball.x, 395_000);
    assert_eq!(ball.y, 295_000);
    assert_eq!(ball.speed_multiplier_tenths, 10);
    assert!(ball.vx.abs() <= ball.speed);
    assert!(ball.vy.abs() <= ball.speed);
    let sq: i64 = ball.vx * ball.vx + ball.vy * ball.vy;
    assert!(sq <= ball.speed * ball.speed);
    assert!(ball.speed * ball.speed - sq <= 2 * ball.speed);
}

#[test]
fn ball_relaunch_is_deterministic() {
    let mut ball: Ball = Ball::new(Rgb::new(9, 9, 9), 100_000, 200_000, 10_000, 500_000, 873, 785);
    ball.x = 1;
    ball.y = 2;
    ball.relaunch(785, true, false);
    assert_eq!(ball.x, 100_000);
    assert_eq!(ball.y, 200_000);
    // vy = speed * sin_milli(785) / 1000, aimed down; vx is the rest of
    // the base speed, aimed left.
    assert_eq!(ball.vy, 352_500);
    assert_eq!(ball.vx, -354_603);

    ball.relaunch(0, false, true);
    assert_eq!(ball.vy, 0);
    assert_eq!(ball.vx, 500_000);
}

#[test]
fn paddle_reset_restores_initial_state() {
    let mut p: Paddle = Paddle::new(Rgb::new(1, 1, 1), 4_000, 270_000, 5_000, 60_000, 300_000);
    p.y = 10_000;
    p.speed_multiplier_tenths = 13;
    Resettable::reset(&mut p);
    assert_eq!(p.y, 270_000);
    assert_eq!(p.x, 4_000);
    assert_eq!(p.speed_multiplier_tenths, 10);
}

#[test]
fn score_card_reset_clears_score() {
    let mut c: ScoreCard = ScoreCard::new(Rgb::new(1, 1, 1), 300_000, 10_000, 80_000, 60_000);
    c.score = 4;
    Resettable::reset(&mut c);
    assert_eq!(c.score, 0);
}

#[test]
fn context_starts_empty() {
    let ctx: GameLoopContext = GameLoopContext::new(25, 1_000);
    assert_eq!(ctx.dt_ms, 25);
    assert_eq!(ctx.now_ms, 1_000);
    assert!(ctx.background_draw_queue.is_empty());
    assert!(ctx.foreground_draw_queue.is_empty());
    assert!(ctx.audible_queue.is_empty());
}
