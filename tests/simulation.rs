use pong_core::arena::{Arena, Handle};
use pong_core::geometry::{Aabb, Point};
use pong_core::motion::{Velocity, BALL_MAX_SPEED, BALL_START_SPEED, HALF_TURN, MAX_BOUNCE_ANGLE};
use pong_core::paddle::{step_paddle, PADDLE_LIMIT};
use pong_core::side::PlayerSide;
use pong_core::world::{Body, BodyKind, ScoreChange, TickInput, World};

fn idle(dt_ms: u32) -> TickInput {
    TickInput {
        left_up: false,
        left_down: false,
        right_up: false,
        right_down: false,
        dt_ms,
        ball_dx: 0,
        ball_dy: 0,
    }
}

fn moving(dt_ms: u32, ball_dx: i64, ball_dy: i64) -> TickInput {
    TickInput { ball_dx, ball_dy, ..idle(dt_ms) }
}

fn ball(w: &World) -> Body {
    w.arena.get(w.state.ball).unwrap()
}

fn place_ball(w: &mut World, x: i64, y: i64, v: Velocity) {
    let mut b = ball(w);
    b.shape.center = Point::new(x, y);
    b.velocity = v;
    assert!(w.arena.set(w.state.ball, b));
}

fn components(v: Velocity) -> (f64, f64) {
    let a = (v.heading as f64 / 1_000_000.0).to_radians();
    (v.speed as f64 * a.cos(), v.speed as f64 * a.sin())
}

fn heading_of(vx: f64, vy: f64) -> i32 {
    (vy.atan2(vx).to_degrees() * 1_000_000.0).round() as i32
}

fn paddle_y(w: &World, h: Handle) -> i64 {
    w.arena.get(h).unwrap().shape.center.y
}

fn count_balls(w: &World) -> usize {
    let mut n = 0;
    for h in w.arena.handles() {
        if w.arena.get(h).unwrap().kind == BodyKind::Ball {
            n += 1;
        }
    }
    n
}

#[test]
fn wall_bounce_flips_vertical_velocity() {
    let mut w = World::start_with(PlayerSide::Left, 0);
    let v = Velocity { speed: 412, heading: heading_of(100.0, 400.0) };
    let (vx, vy) = components(v);
    assert!((vx - 100.0).abs() < 1.0 && (vy - 400.0).abs() < 1.0);
    place_ball(&mut w, 0, 260_000, v);
    let report = w.tick_with(moving(16, 1_600, 6_400), 0);
    assert_eq!(report.contacts.len(), 1);
    assert_eq!(report.contacts[0].kind, BodyKind::Wall);
    assert_eq!(report.contacts[0].other, w.state.top_wall);
    assert!(!report.round_reset);
    let after = ball(&w);
    assert_eq!(after.shape.center, Point::new(1_600, 266_400));
    assert_eq!(after.velocity.speed, 412);
    assert_eq!(after.velocity.heading, -v.heading);
    let (ax, ay) = components(after.velocity);
    assert!((ax - 100.0).abs() < 1.0, "{}", ax);
    assert!((ay + 400.0).abs() < 1.0, "{}", ay);
}

#[test]
fn left_paddle_bounce_at_half_height() {
    let mut w = World::start_with(PlayerSide::Left, 0);
    place_ball(&mut w, -350_000, 25_000, Velocity { speed: 400, heading: HALF_TURN });
    let report = w.tick_with(moving(16, -6_400, 0), 0);
    assert_eq!(report.contacts.len(), 1);
    assert_eq!(report.contacts[0].kind, BodyKind::Paddle(PlayerSide::Left));
    let after = ball(&w);
    assert_eq!(after.velocity.speed, 420);
    assert_eq!(after.velocity.heading, 22_500_000);
    let (ax, ay) = components(after.velocity);
    let a = 22.5f64.to_radians();
    assert!((ax - 420.0 * a.cos()).abs() < 1e-6);
    assert!((ay - 420.0 * a.sin()).abs() < 1e-6);
}

#[test]
fn right_paddle_bounce_mirrors_the_angle() {
    let v = Velocity { speed: 400, heading: 0 };
    let r = v.off_paddle(25_000, PlayerSide::Right);
    assert_eq!(r.speed, 420);
    // (-1, 0) turned by -22.5 degrees points up and to the left.
    assert_eq!(r.heading, 157_500_000);
    let (x, y) = components(r);
    assert!(x < 0.0 && y > 0.0);
    let r = v.off_paddle(-25_000, PlayerSide::Right);
    assert_eq!(r.heading, -157_500_000);
}

#[test]
fn centre_hit_leaves_horizontally() {
    let v = Velocity { speed: 500, heading: 10_000_000 };
    assert_eq!(v.off_paddle(0, PlayerSide::Left).heading, 0);
    assert_eq!(v.off_paddle(0, PlayerSide::Right).heading, HALF_TURN);
}

#[test]
fn bounce_ratio_is_clamped() {
    let v = Velocity { speed: 500, heading: HALF_TURN };
    assert_eq!(v.off_paddle(80_000, PlayerSide::Left).heading, MAX_BOUNCE_ANGLE);
    assert_eq!(v.off_paddle(-80_000, PlayerSide::Left).heading, -MAX_BOUNCE_ANGLE);
    assert_eq!(v.off_paddle(50_000, PlayerSide::Left).heading, MAX_BOUNCE_ANGLE);
    assert_eq!(v.off_paddle(10_000, PlayerSide::Left).heading, 9_000_000);
}

#[test]
fn paddle_bounce_speed_ramps_to_the_cap() {
    let mut v = Velocity { speed: BALL_START_SPEED, heading: 0 };
    let mut prior = v.speed;
    for _ in 0..40 {
        v = v.off_paddle(0, PlayerSide::Right);
        assert_eq!(v.speed, (prior + 20).min(1000));
        assert!(v.speed >= prior);
        prior = v.speed;
    }
    assert_eq!(v.speed, BALL_MAX_SPEED);
    let v = Velocity { speed: 990, heading: 0 };
    assert_eq!(v.off_paddle(0, PlayerSide::Right).speed, 1000);
}

#[test]
fn wall_bounce_keeps_speed() {
    let v = Velocity { speed: 700, heading: 30_000_000 };
    let r = v.reflect_vertical();
    assert_eq!(r.speed, 700);
    assert_eq!(r.heading, -30_000_000);
    let level = Velocity { speed: 700, heading: HALF_TURN };
    assert_eq!(level.reflect_vertical().heading, HALF_TURN);
}

#[test]
fn paddles_stay_within_limits() {
    let mut w = World::start_with(PlayerSide::Right, 0);
    let up = TickInput { left_up: true, right_up: true, ..idle(16) };
    for _ in 0..200 {
        w.tick_with(up, 0);
        assert!(paddle_y(&w, w.state.left_paddle).abs() <= PADDLE_LIMIT);
    }
    assert_eq!(paddle_y(&w, w.state.left_paddle), PADDLE_LIMIT);
    assert_eq!(paddle_y(&w, w.state.right_paddle), PADDLE_LIMIT);
    let down = TickInput { left_down: true, right_down: true, ..idle(16) };
    for _ in 0..200 {
        w.tick_with(down, 0);
        assert!(paddle_y(&w, w.state.right_paddle).abs() <= PADDLE_LIMIT);
    }
    assert_eq!(paddle_y(&w, w.state.left_paddle), -PADDLE_LIMIT);
    assert_eq!(paddle_y(&w, w.state.right_paddle), -PADDLE_LIMIT);
}

#[test]
fn opposite_keys_cancel() {
    assert_eq!(step_paddle(12_000, true, true, 16), 12_000);
    assert_eq!(step_paddle(0, true, false, 16), 4_800);
    assert_eq!(step_paddle(0, false, true, 16), -4_800);
    assert_eq!(step_paddle(229_000, true, false, 16), PADDLE_LIMIT);
    assert_eq!(step_paddle(900_000, false, false, 0), PADDLE_LIMIT);
}

#[test]
fn long_ticks_are_shortened() {
    let mut w = World::start_with(PlayerSide::Right, 0);
    let up = TickInput { left_up: true, ..idle(1_000) };
    w.tick_with(up, 0);
    assert_eq!(paddle_y(&w, w.state.left_paddle), 6_000);
    assert_eq!(paddle_y(&w, w.state.right_paddle), 0);
}

#[test]
fn ball_displacement_is_bounded_by_speed() {
    let mut w = World::start_with(PlayerSide::Right, 0);
    place_ball(&mut w, 0, 0, Velocity { speed: 400, heading: 0 });
    w.tick_with(moving(10, 100_000, -100_000), 0);
    assert_eq!(ball(&w).shape.center, Point::new(4_000, -4_000));
}

#[test]
fn left_goal_scores_for_right() {
    let mut w = World::start_with(PlayerSide::Left, 0);
    let old_ball = w.state.ball;
    place_ball(&mut w, -400_000, 0, Velocity { speed: 400, heading: HALF_TURN });
    let report = w.tick_with(moving(16, -6_400, 0), 0);
    assert_eq!(report.contacts.len(), 1);
    assert_eq!(report.contacts[0].kind, BodyKind::Goal(PlayerSide::Left));
    assert!(report.round_reset);
    assert_eq!(report.scores, vec![ScoreChange { side: PlayerSide::Right, score: 1 }]);
    assert_eq!(w.state.right_score, 1);
    assert_eq!(w.state.left_score, 0);
    assert!(w.arena.get(old_ball).is_none());
}

#[test]
fn right_goal_scores_for_left() {
    let mut w = World::start_with(PlayerSide::Left, 0);
    place_ball(&mut w, 400_000, 0, Velocity { speed: 400, heading: 0 });
    let report = w.tick_with(moving(16, 6_400, 0), 0);
    assert_eq!(report.scores, vec![ScoreChange { side: PlayerSide::Left, score: 1 }]);
    assert_eq!(w.state.left_score, 1);
    assert_eq!(w.state.right_score, 0);
}

#[test]
fn goal_resets_round_with_one_centred_ball() {
    let mut w = World::start_with(PlayerSide::Left, 0);
    assert_eq!(w.state.next_serve, PlayerSide::Right);
    place_ball(&mut w, -400_000, 0, Velocity { speed: 400, heading: HALF_TURN });
    w.tick_with(moving(16, -6_400, 0), 30_000_000);
    assert_eq!(count_balls(&w), 1);
    let b = ball(&w);
    assert_eq!(b.shape.center, Point::new(0, 0));
    assert_eq!(b.velocity.speed, BALL_START_SPEED);
    assert_eq!(b.velocity.heading, 30_000_000);
    assert_eq!(w.state.next_serve, PlayerSide::Left);
    assert!(w.touching.is_empty());
}

#[test]
fn serve_side_alternates() {
    let mut w = World::start_with(PlayerSide::Right, 0);
    let mut expected = PlayerSide::Left;
    for round in 0..4 {
        assert_eq!(w.state.next_serve, expected);
        place_ball(&mut w, 400_000, 0, Velocity { speed: 400, heading: 0 });
        w.tick_with(moving(16, 6_400, 0), -10_000_000);
        let (vx, _) = components(ball(&w).velocity);
        if expected == PlayerSide::Left {
            assert!(vx < 0.0, "round {}", round);
        } else {
            assert!(vx > 0.0, "round {}", round);
        }
        expected = expected.next();
    }
    assert_eq!(w.state.left_score, 4);
}

#[test]
fn sustained_overlap_reports_once() {
    let mut w = World::start_with(PlayerSide::Left, 0);
    place_ball(&mut w, 0, 270_000, Velocity { speed: 400, heading: 90_000_000 });
    let first = w.tick_with(moving(16, 0, 0), 0);
    assert_eq!(first.contacts.len(), 1);
    assert_eq!(ball(&w).velocity.heading, -90_000_000);
    assert_eq!(w.touching, vec![w.state.top_wall]);
    let second = w.tick_with(moving(16, 0, 0), 0);
    assert!(second.contacts.is_empty());
    assert_eq!(ball(&w).velocity.heading, -90_000_000);
    place_ball(&mut w, 0, 0, Velocity { speed: 400, heading: 90_000_000 });
    w.tick_with(moving(16, 0, 0), 0);
    assert!(w.touching.is_empty());
}

#[test]
fn edge_contact_is_not_overlap() {
    let a = Aabb::new(Point::new(0, 0), 10, 10);
    let touching = Aabb::new(Point::new(20, 0), 10, 10);
    let inside = Aabb::new(Point::new(19, 19), 10, 10);
    let corner = Aabb::new(Point::new(20, 20), 10, 10);
    assert!(!a.overlaps(&touching));
    assert!(a.overlaps(&inside));
    assert!(!a.overlaps(&corner));
    assert!(inside.overlaps(&a));
}

#[test]
fn stale_handles_refer_to_nothing() {
    let mut arena: Arena<u32> = Arena::new();
    let a = arena.spawn(1);
    let b = arena.spawn(2);
    assert_ne!(a, b);
    let a2 = arena.respawn(a, 3);
    assert_eq!(a2.index, a.index);
    assert_ne!(a2, a);
    assert_eq!(arena.get(a), None);
    assert_eq!(arena.get(a2), Some(3));
    assert_eq!(arena.get(b), Some(2));
    assert!(!arena.set(a, 9));
    assert!(arena.set(b, 9));
    assert_eq!(arena.get(b), Some(9));
    assert_eq!(arena.handles(), vec![a2, b]);
}

#[test]
fn start_lays_out_the_field() {
    let w = World::start_with(PlayerSide::Right, -45_000_000);
    assert_eq!(w.arena.handles().len(), 7);
    assert_eq!(count_balls(&w), 1);
    assert_eq!(w.state.left_score, 0);
    assert_eq!(w.state.right_score, 0);
    assert_eq!(w.state.next_serve, PlayerSide::Left);
    assert_eq!(ball(&w).velocity.heading, -45_000_000);
    let top = w.arena.get(w.state.top_wall).unwrap();
    assert_eq!(top.shape.center, Point::new(0, 290_000));
    assert_eq!(top.shape.half_height, 10_000);
    let lp = w.arena.get(w.state.left_paddle).unwrap();
    assert_eq!(lp.shape.center, Point::new(-380_000, 0));
    let rg = w.arena.get(w.state.right_goal).unwrap();
    assert_eq!(rg.shape.center, Point::new(440_000, 0));
    assert!(lp.is_dynamic());
    assert!(!rg.is_dynamic());
    let w = World::start_with(PlayerSide::Left, 45_000_000);
    // (-1, 0) turned by 45 degrees points down and to the left.
    assert_eq!(ball(&w).velocity.heading, -135_000_000);
}

#[test]
fn sides() {
    assert_eq!(PlayerSide::Left.next(), PlayerSide::Right);
    assert_eq!(PlayerSide::Right.next(), PlayerSide::Left);
    assert_eq!(PlayerSide::Left.multiplier(), -1);
    assert_eq!(PlayerSide::Right.multiplier(), 1);
    assert_eq!(PlayerSide::from_index(0), PlayerSide::Left);
    assert_eq!(PlayerSide::from_index(1), PlayerSide::Right);
}

#[test]
fn random_side_takes_both_values() {
    let mut left = 0;
    let mut right = 0;
    for _ in 0..200 {
        match PlayerSide::random() {
            PlayerSide::Left => left += 1,
            PlayerSide::Right => right += 1,
        }
    }
    assert!(left > 0 && right > 0);
}

#[test]
fn random_serve_stays_within_the_angle() {
    let mut seen = Vec::new();
    for _ in 0..100 {
        let v = Velocity::random_serve(PlayerSide::Right);
        assert_eq!(v.speed, BALL_START_SPEED);
        assert!(v.heading >= -MAX_BOUNCE_ANGLE && v.heading <= MAX_BOUNCE_ANGLE);
        if !seen.contains(&v.heading) {
            seen.push(v.heading);
        }
        let l = Velocity::random_serve(PlayerSide::Left);
        assert!(l.heading >= HALF_TURN - MAX_BOUNCE_ANGLE || l.heading <= -HALF_TURN + MAX_BOUNCE_ANGLE);
    }
    assert!(seen.len() > 1);
}

#[test]
fn random_start_and_tick() {
    let mut w = World::start();
    assert_eq!(count_balls(&w), 1);
    assert_eq!(ball(&w).shape.center, Point::new(0, 0));
    place_ball(&mut w, -400_000, 0, Velocity { speed: 400, heading: HALF_TURN });
    let report = w.tick(moving(16, -6_400, 0));
    assert!(report.round_reset);
    let h = ball(&w).velocity.heading;
    assert!(h.abs() <= MAX_BOUNCE_ANGLE || h.abs() >= HALF_TURN - MAX_BOUNCE_ANGLE);
}
