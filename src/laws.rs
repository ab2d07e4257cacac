use vstd::prelude::*;

use crate::arena::Handle;
use crate::motion::{
    away_from, bounce_angle, turned_heading, Velocity, BALL_MAX_SPEED, BALL_SPEED_INCREMENT,
    BALL_START_SPEED, HALF_TURN, MAX_BOUNCE_ANGLE,
};
use crate::paddle::{PADDLE_HALF_HEIGHT, PADDLE_LIMIT};
use crate::geometry::{clamp, Point};
use crate::side::PlayerSide;
use crate::world::{
    lemma_tally_keeps_entities, tally, BodyKind, Contact, MatchState, TickInput, TickReport, World,
};

verus! {

/// However long the keys are held, after any tick each paddle stands within
/// `[-PADDLE_LIMIT, PADDLE_LIMIT]` of the mid-line.
pub proof fn lemma_paddles_stay_in_field(
    w: World,
    input: TickInput,
    serve_angle: int,
    next: World,
    report: TickReport,
)
    requires
        w.wf(),
        w.tick_relation(input, serve_angle, next, report),
    ensures
        next.state.left_paddle == w.state.left_paddle,
        next.state.right_paddle == w.state.right_paddle,
        next.arena@.contains_key(next.state.left_paddle),
        next.arena@.contains_key(next.state.right_paddle),
        -PADDLE_LIMIT <= next.arena@[next.state.left_paddle].shape.center.y <= PADDLE_LIMIT,
        -PADDLE_LIMIT <= next.arena@[next.state.right_paddle].shape.center.y <= PADDLE_LIMIT,
{
    let s = w.state;
    let m = w.arena@;
    assert(m[s.left_paddle].kind != m[s.ball].kind);
    assert(m[s.right_paddle].kind != m[s.ball].kind);
    assert(m[s.right_paddle].kind != m[s.left_paddle].kind);
    assert(s.left_paddle != s.ball && s.right_paddle != s.ball && s.left_paddle != s.right_paddle);
    lemma_tally_keeps_entities(s, report.contacts@);
}

/// A paddle bounce adds `BALL_SPEED_INCREMENT` to the ball's speed, up to
/// `BALL_MAX_SPEED`; the speed never drops.
pub proof fn lemma_paddle_bounce_speed(v: Velocity, offset: int, paddle: PlayerSide)
    requires
        v.wf(),
    ensures
        v.off_paddle_spec(offset, paddle).speed == (if v.speed + BALL_SPEED_INCREMENT
            <= BALL_MAX_SPEED {
            v.speed + BALL_SPEED_INCREMENT
        } else {
            BALL_MAX_SPEED as int
        }),
        v.off_paddle_spec(offset, paddle).speed >= v.speed,
        v.off_paddle_spec(offset, paddle).speed <= BALL_MAX_SPEED,
{
}

/// A ball leaves a paddle in the direction `(m, 0)` turned by the bounce
/// angle, where `m` is 1 off the left paddle and -1 off the right one, and the
/// angle is the maximum bounce angle times the clamped ratio of the offset to
/// half the paddle height, times `m`; a hit at the centre sends it straight
/// back horizontally.
pub proof fn lemma_paddle_bounce_angle(v: Velocity, offset: int, paddle: PlayerSide)
    requires
        v.wf(),
    ensures
        away_from(paddle) == (if paddle is Left { 1int } else { -1int }),
        v.off_paddle_spec(offset, paddle).heading == turned_heading(
            away_from(paddle),
            bounce_angle(offset, away_from(paddle)),
        ),
        bounce_angle(offset, away_from(paddle)) * PADDLE_HALF_HEIGHT == away_from(paddle)
            * MAX_BOUNCE_ANGLE * clamp(offset, -PADDLE_HALF_HEIGHT as int, PADDLE_HALF_HEIGHT as int),
        -MAX_BOUNCE_ANGLE <= bounce_angle(offset, away_from(paddle)) <= MAX_BOUNCE_ANGLE,
        offset == 0 ==> v.off_paddle_spec(offset, paddle).heading == (if paddle is Left {
            0
        } else {
            HALF_TURN as int
        }),
{
    let m = away_from(paddle);
    let c = clamp(offset, -PADDLE_HALF_HEIGHT as int, PADDLE_HALF_HEIGHT as int);
    assert(MAX_BOUNCE_ANGLE as int * c == PADDLE_HALF_HEIGHT as int * (c * 900)) by (nonlinear_arith);
    vstd::arithmetic::div_mod::lemma_div_multiples_vanish(c * 900, PADDLE_HALF_HEIGHT as int);
    assert(bounce_angle(offset, m) == m * (c * 900));
    assert(-50_000 <= c <= 50_000);
    assert(-45_000_000 <= c * 900 <= 45_000_000) by (nonlinear_arith)
        requires
            -50_000 <= c <= 50_000,
    ;
    assert(m * (c * 900) * PADDLE_HALF_HEIGHT == m * MAX_BOUNCE_ANGLE * c) by (nonlinear_arith);
}

/// A wall bounce negates the angle of the ball's direction, so that the
/// vertical component of its velocity changes sign and the horizontal one
/// stays; the speed stays.
pub proof fn lemma_wall_bounce(v: Velocity)
    requires
        v.wf(),
    ensures
        v.reflected_spec().speed == v.speed,
        (v.reflected_spec().heading + v.heading) % (2 * HALF_TURN as int) == 0,
        v.reflected_spec().wf(),
{
    let r = v.reflected_spec();
    if v.heading == HALF_TURN {
        assert(r.heading == HALF_TURN);
        assert((HALF_TURN + HALF_TURN) % (2 * HALF_TURN as int) == 0);
    } else {
        assert(r.heading == -v.heading);
        assert(0int % (2 * HALF_TURN as int) == 0);
    }
}

/// A ball entering the left goal gives the right player exactly one point
/// and leaves the left player's score; the other way round for the right goal.
pub proof fn lemma_goal_scores_for_opponent(s: MatchState)
    requires
        s.left_score < u64::MAX,
        s.right_score < u64::MAX,
    ensures
        s.record_goal_spec(PlayerSide::Left).right_score == s.right_score + 1,
        s.record_goal_spec(PlayerSide::Left).left_score == s.left_score,
        s.record_goal_spec(PlayerSide::Right).left_score == s.left_score + 1,
        s.record_goal_spec(PlayerSide::Right).right_score == s.right_score,
{
}

/// Counting contacts among which the only goal is that of `goal` records
/// that one goal.
proof fn lemma_tally_single_goal(s: MatchState, cs: Seq<Contact>, i: int, goal: PlayerSide)
    requires
        0 <= i < cs.len(),
        cs[i].kind == BodyKind::Goal(goal),
        forall|j: int| 0 <= j < cs.len() && j != i ==> !((#[trigger] cs[j]).kind is Goal),
    ensures
        tally(s, cs) == s.record_goal_spec(goal),
    decreases cs.len(),
{
    let last = cs.len() - 1;
    let init = cs.drop_last();
    if i == last {
        lemma_tally_no_goal(s, init);
    } else {
        assert(init[i] == cs[i]);
        assert forall|j: int| 0 <= j < init.len() && j != i implies !((#[trigger] init[j]).kind is Goal) by {
            assert(init[j] == cs[j]);
        }
        lemma_tally_single_goal(s, init, i, goal);
    }
}

/// Counting contacts without a goal changes nothing.
proof fn lemma_tally_no_goal(s: MatchState, cs: Seq<Contact>)
    requires
        forall|j: int| 0 <= j < cs.len() ==> !((#[trigger] cs[j]).kind is Goal),
    ensures
        tally(s, cs) == s,
    decreases cs.len(),
{
    if cs.len() > 0 {
        let init = cs.drop_last();
        assert forall|j: int| 0 <= j < init.len() implies !((#[trigger] init[j]).kind is Goal) by {
            assert(init[j] == cs[j]);
        }
        lemma_tally_no_goal(s, init);
    }
}

/// In a tick where the ball enters the left goal and no other, the right
/// player's score rises by exactly one and the left player's stays; the
/// other way round for the right goal.
pub proof fn lemma_tick_goal_scores_for_opponent(
    w: World,
    input: TickInput,
    serve_angle: int,
    next: World,
    report: TickReport,
    i: int,
    goal: PlayerSide,
)
    requires
        w.wf(),
        w.tick_relation(input, serve_angle, next, report),
        w.state.left_score < u64::MAX,
        w.state.right_score < u64::MAX,
        0 <= i < report.contacts@.len(),
        report.contacts@[i].kind == BodyKind::Goal(goal),
        forall|j: int|
            0 <= j < report.contacts@.len() && j != i ==> !((#[trigger] report.contacts@[j]).kind is Goal),
    ensures
        goal is Left ==> next.state.right_score == w.state.right_score + 1 && next.state.left_score
            == w.state.left_score,
        goal is Right ==> next.state.left_score == w.state.left_score + 1 && next.state.right_score
            == w.state.right_score,
        report.round_reset,
{
    lemma_tally_single_goal(w.state, report.contacts@, i, goal);
    assert(report.contacts@[i].kind is Goal);
}

/// After a tick in which a goal was scored there is exactly one ball; it
/// stands at the centre of the field and moves at the starting speed in the
/// direction pointing towards the side whose turn it was, turned by the serve
/// angle, and the turn passes to the other side.
pub proof fn lemma_goal_resets_round(
    w: World,
    input: TickInput,
    serve_angle: int,
    next: World,
    report: TickReport,
)
    requires
        w.wf(),
        -MAX_BOUNCE_ANGLE <= serve_angle <= MAX_BOUNCE_ANGLE,
        w.tick_relation(input, serve_angle, next, report),
        report.round_reset,
    ensures
        next.arena@.contains_key(next.state.ball),
        forall|h: Handle|
            next.arena@.contains_key(h) && (#[trigger] next.arena@[h]).kind == BodyKind::Ball
                ==> h == next.state.ball,
        next.arena@[next.state.ball].kind == BodyKind::Ball,
        next.arena@[next.state.ball].shape.center == (Point { x: 0, y: 0 }),
        next.arena@[next.state.ball].velocity.speed == BALL_START_SPEED,
        next.arena@[next.state.ball].velocity.heading == turned_heading(
            w.state.next_serve.multiplier_spec() as int,
            serve_angle,
        ),
        next.state.next_serve == w.state.next_serve.next_spec(),
        next.state.next_serve != w.state.next_serve,
{
    let s = w.state;
    let m = w.advanced(input);
    lemma_tally_keeps_entities(s, report.contacts@);
    assert(w.arena@[s.left_paddle].kind != w.arena@[s.ball].kind);
    assert(w.arena@[s.right_paddle].kind != w.arena@[s.ball].kind);
    assert forall|h: Handle|
        next.arena@.contains_key(h) && (#[trigger] next.arena@[h]).kind == BodyKind::Ball
            implies h == next.state.ball by {
        if h != next.state.ball {
            assert(m.contains_key(h) && h != s.ball);
            assert(m[h] == next.arena@[h]);
            if h != s.left_paddle && h != s.right_paddle {
                assert(m[h] == w.arena@[h]);
            }
        }
    }
}

/// The serve passes strictly back and forth between the two sides.
pub proof fn lemma_serve_alternates(side: PlayerSide)
    ensures
        side.next_spec() != side,
        side.next_spec().next_spec() == side,
{
}

} // verus!
