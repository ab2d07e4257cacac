use vstd::prelude::*;

use crate::arena::{Arena, Handle};
use crate::chance::random_between;
use crate::geometry::{clamp, clamp_i64, Aabb, Point, WORLD_LIMIT};
use crate::motion::{Velocity, MAX_BOUNCE_ANGLE};
use crate::paddle::{paddle_step, step_paddle, PADDLE_HALF_HEIGHT, PADDLE_HALF_WIDTH, PADDLE_LIMIT};
use crate::side::PlayerSide;

verus! {

/// Half the width of the window, in milli-pixels.
pub const FIELD_HALF_WIDTH: i64 = 400_000;

/// Half the height of the window, in milli-pixels.
pub const FIELD_HALF_HEIGHT: i64 = 300_000;

/// Half the thickness of the top and bottom walls, in milli-pixels.
pub const WALL_HALF_THICKNESS: i64 = 10_000;

/// Half the side of the square ball, in milli-pixels.
pub const BALL_HALF_SIZE: i64 = 15_000;

/// Half the width of a goal zone, in milli-pixels.
pub const GOAL_HALF_WIDTH: i64 = 20_000;

/// Gap between the window's edge and the inner edge of a goal zone, in milli-pixels.
pub const GOAL_DEPTH: i64 = 20_000;

/// Gap between the window's edge and a paddle, in milli-pixels.
pub const PADDLE_GOAL_SEPARATION: i64 = 10_000;

/// Longest tick, in milliseconds; longer ticks are shortened to it so that
/// the ball cannot pass through a wall in one step.
pub const MAX_STEP_MS: u32 = 20;

/// What an entity is.
#[derive(Clone, Copy, Debug, PartialEq, Eq, Structural)]
pub enum BodyKind {
    Ball,
    Wall,
    Paddle(PlayerSide),
    Goal(PlayerSide),
}

/// An entity of the play field: what it is, the box it occupies and how it moves.
#[derive(Clone, Copy, Debug, PartialEq, Eq, Structural)]
pub struct Body {
    pub kind: BodyKind,
    pub shape: Aabb,
    pub velocity: Velocity,
}

impl Body {
    pub open spec fn wf(self) -> bool {
        self.shape.wf() && self.velocity.wf()
    }

    /// Whether the body can move: balls and paddles can, walls and goals cannot.
    pub open spec fn is_dynamic_spec(&self) -> bool {
        self.kind is Ball || self.kind is Paddle
    }

    #[verifier::when_used_as_spec(is_dynamic_spec)]
    pub fn is_dynamic(&self) -> (r: bool)
        ensures
            r == self.is_dynamic_spec(),
    {
        match self.kind {
            BodyKind::Ball => true,
            BodyKind::Paddle(_) => true,
            _ => false,
        }
    }

    /// A ball at the centre of the field, served towards `side` at `angle`.
    pub open spec fn served_spec(side: PlayerSide, angle: int) -> Body {
        Body {
            kind: BodyKind::Ball,
            shape: Aabb {
                center: Point { x: 0, y: 0 },
                half_width: BALL_HALF_SIZE,
                half_height: BALL_HALF_SIZE,
            },
            velocity: Velocity::serve_spec(side, angle),
        }
    }

    /// The top wall, or the bottom one.
    pub open spec fn wall_spec(top: bool) -> Body {
        let y = FIELD_HALF_HEIGHT - WALL_HALF_THICKNESS;
        Body {
            kind: BodyKind::Wall,
            shape: Aabb {
                center: Point { x: 0, y: (if top { y } else { -y }) as i64 },
                half_width: FIELD_HALF_WIDTH,
                half_height: WALL_HALF_THICKNESS,
            },
            velocity: Velocity { speed: 0, heading: 0 },
        }
    }

    /// The goal zone behind the paddle of `side`.
    pub open spec fn goal_spec(side: PlayerSide) -> Body {
        let x = FIELD_HALF_WIDTH + GOAL_HALF_WIDTH + GOAL_DEPTH;
        Body {
            kind: BodyKind::Goal(side),
            shape: Aabb {
                center: Point { x: (if side is Left { -x } else { x }) as i64, y: 0 },
                half_width: GOAL_HALF_WIDTH,
                half_height: FIELD_HALF_HEIGHT,
            },
            velocity: Velocity { speed: 0, heading: 0 },
        }
    }

    /// The paddle of `side`, at mid-height.
    pub open spec fn paddle_spec(side: PlayerSide) -> Body {
        let x = FIELD_HALF_WIDTH - PADDLE_HALF_WIDTH - PADDLE_GOAL_SEPARATION;
        Body {
            kind: BodyKind::Paddle(side),
            shape: Aabb {
                center: Point { x: (if side is Left { -x } else { x }) as i64, y: 0 },
                half_width: PADDLE_HALF_WIDTH,
                half_height: PADDLE_HALF_HEIGHT,
            },
            velocity: Velocity { speed: 0, heading: 0 },
        }
    }

    pub fn served(side: PlayerSide, angle: i32) -> (r: Body)
        requires
            -MAX_BOUNCE_ANGLE <= angle <= MAX_BOUNCE_ANGLE,
        ensures
            r == Body::served_spec(side, angle as int),
            r.wf(),
    {
        Body {
            kind: BodyKind::Ball,
            shape: Aabb::new(Point::new(0, 0), BALL_HALF_SIZE, BALL_HALF_SIZE),
            velocity: Velocity::serve(side, angle),
        }
    }

    pub fn wall(top: bool) -> (r: Body)
        ensures
            r == Body::wall_spec(top),
            r.wf(),
    {
        let y = FIELD_HALF_HEIGHT - WALL_HALF_THICKNESS;
        Body {
            kind: BodyKind::Wall,
            shape: Aabb::new(
                Point::new(0, if top { y } else { -y }),
                FIELD_HALF_WIDTH,
                WALL_HALF_THICKNESS,
            ),
            velocity: Velocity::at_rest(),
        }
    }

    pub fn goal(side: PlayerSide) -> (r: Body)
        ensures
            r == Body::goal_spec(side),
            r.wf(),
    {
        let x = FIELD_HALF_WIDTH + GOAL_HALF_WIDTH + GOAL_DEPTH;
        let cx = match side {
            PlayerSide::Left => -x,
            PlayerSide::Right => x,
        };
        Body {
            kind: BodyKind::Goal(side),
            shape: Aabb::new(Point::new(cx, 0), GOAL_HALF_WIDTH, FIELD_HALF_HEIGHT),
            velocity: Velocity::at_rest(),
        }
    }

    pub fn paddle(side: PlayerSide) -> (r: Body)
        ensures
            r == Body::paddle_spec(side),
            r.wf(),
    {
        let x = FIELD_HALF_WIDTH - PADDLE_HALF_WIDTH - PADDLE_GOAL_SEPARATION;
        let cx = match side {
            PlayerSide::Left => -x,
            PlayerSide::Right => x,
        };
        Body {
            kind: BodyKind::Paddle(side),
            shape: Aabb::new(Point::new(cx, 0), PADDLE_HALF_WIDTH, PADDLE_HALF_HEIGHT),
            velocity: Velocity::at_rest(),
        }
    }
}

/// A point scored: by whom, and their score after it.
#[derive(Clone, Copy, Debug, PartialEq, Eq, Structural)]
pub struct ScoreChange {
    pub side: PlayerSide,
    pub score: u64,
}

/// The state of a match: the entities it refers to, whose turn it is to
/// receive the next serve, and the scores.
#[derive(Clone, Copy, Debug, PartialEq, Eq, Structural)]
pub struct MatchState {
    pub left_paddle: Handle,
    pub right_paddle: Handle,
    pub left_goal: Handle,
    pub right_goal: Handle,
    pub top_wall: Handle,
    pub bottom_wall: Handle,
    pub ball: Handle,
    pub next_serve: PlayerSide,
    pub left_score: u64,
    pub right_score: u64,
}

/// One more point, kept at the largest value once it is reached.
pub open spec fn bumped(score: u64) -> u64 {
    if score < u64::MAX {
        (score + 1) as u64
    } else {
        score
    }
}

impl MatchState {
    /// The state after the ball entered the goal of `goal`: the other player scores.
    pub open spec fn record_goal_spec(self, goal: PlayerSide) -> MatchState {
        match goal {
            PlayerSide::Left => MatchState { right_score: bumped(self.right_score), ..self },
            PlayerSide::Right => MatchState { left_score: bumped(self.left_score), ..self },
        }
    }

    /// Score of `side`.
    pub open spec fn score_of(self, side: PlayerSide) -> u64 {
        match side {
            PlayerSide::Left => self.left_score,
            PlayerSide::Right => self.right_score,
        }
    }

    /// Counts a ball entering the goal of `goal` as a point for the other
    /// player, and says who scored and their new score.
    pub fn record_goal(&mut self, goal: PlayerSide) -> (r: ScoreChange)
        ensures
            *final(self) == old(self).record_goal_spec(goal),
            r.side == goal.next_spec(),
            r.score == final(self).score_of(goal.next_spec()),
    {
        match goal {
            PlayerSide::Left => {
                if self.right_score < u64::MAX {
                    self.right_score = self.right_score + 1;
                }
                ScoreChange { side: PlayerSide::Right, score: self.right_score }
            },
            PlayerSide::Right => {
                if self.left_score < u64::MAX {
                    self.left_score = self.left_score + 1;
                }
                ScoreChange { side: PlayerSide::Left, score: self.left_score }
            },
        }
    }
}

/// The play field and the match played on it.
pub struct World {
    pub arena: Arena<Body>,
    pub state: MatchState,
    /// The entities that the ball overlapped at the end of the last tick.
    pub touching: Vec<Handle>,
}

impl World {
    /// Every entity is well formed, the match state refers to live entities
    /// of the right kinds, there is exactly one ball, and the paddles stand
    /// within their limits.
    pub open spec fn wf(self) -> bool {
        let m = self.arena@;
        let s = self.state;
        &&& forall|h: Handle| m.contains_key(h) ==> (#[trigger] m[h]).wf()
        &&& m.contains_key(s.ball) && m[s.ball].kind == BodyKind::Ball
        &&& forall|h: Handle| m.contains_key(h) && (#[trigger] m[h]).kind == BodyKind::Ball ==> h == s.ball
        &&& m.contains_key(s.left_paddle) && m[s.left_paddle].kind == BodyKind::Paddle(PlayerSide::Left)
        &&& m.contains_key(s.right_paddle) && m[s.right_paddle].kind == BodyKind::Paddle(PlayerSide::Right)
        &&& m.contains_key(s.left_goal) && m[s.left_goal].kind == BodyKind::Goal(PlayerSide::Left)
        &&& m.contains_key(s.right_goal) && m[s.right_goal].kind == BodyKind::Goal(PlayerSide::Right)
        &&& m.contains_key(s.top_wall) && m[s.top_wall].kind == BodyKind::Wall
        &&& m.contains_key(s.bottom_wall) && m[s.bottom_wall].kind == BodyKind::Wall
        &&& -PADDLE_LIMIT <= m[s.left_paddle].shape.center.y <= PADDLE_LIMIT
        &&& -PADDLE_LIMIT <= m[s.right_paddle].shape.center.y <= PADDLE_LIMIT
    }

    /// A match just started with the first serve going towards `initial_serve`
    /// at `angle`: the walls, the goals, the paddles at mid-height and the
    /// served ball, nothing else; the next serve goes to the other side and
    /// both scores are zero.
    pub open spec fn is_fresh_match(self, initial_serve: PlayerSide, angle: int) -> bool {
        let s = self.state;
        &&& s.next_serve == initial_serve.next_spec()
        &&& s.left_score == 0
        &&& s.right_score == 0
        &&& self.touching@.len() == 0
        &&& self.arena@ == Map::<Handle, Body>::empty().insert(s.ball, Body::served_spec(initial_serve, angle))
            .insert(s.top_wall, Body::wall_spec(true))
            .insert(s.bottom_wall, Body::wall_spec(false))
            .insert(s.left_goal, Body::goal_spec(PlayerSide::Left))
            .insert(s.right_goal, Body::goal_spec(PlayerSide::Right))
            .insert(s.left_paddle, Body::paddle_spec(PlayerSide::Left))
            .insert(s.right_paddle, Body::paddle_spec(PlayerSide::Right))
    }

    /// Starts a match with the first serve going towards `initial_serve` at `angle`.
    pub fn start_with(initial_serve: PlayerSide, angle: i32) -> (r: World)
        requires
            -MAX_BOUNCE_ANGLE <= angle <= MAX_BOUNCE_ANGLE,
        ensures
            r.wf(),
            r.is_fresh_match(initial_serve, angle as int),
    {
        let mut arena: Arena<Body> = Arena::new();
        let ball = arena.spawn(Body::served(initial_serve, angle));
        let top_wall = arena.spawn(Body::wall(true));
        let bottom_wall = arena.spawn(Body::wall(false));
        let left_goal = arena.spawn(Body::goal(PlayerSide::Left));
        let right_goal = arena.spawn(Body::goal(PlayerSide::Right));
        let left_paddle = arena.spawn(Body::paddle(PlayerSide::Left));
        let right_paddle = arena.spawn(Body::paddle(PlayerSide::Right));
        let state = MatchState {
            left_paddle,
            right_paddle,
            left_goal,
            right_goal,
            top_wall,
            bottom_wall,
            ball,
            next_serve: initial_serve.next(),
            left_score: 0,
            right_score: 0,
        };
        World { arena, state, touching: Vec::new() }
    }

    /// Starts a match with the first serve going to a side picked at random,
    /// at an angle drawn uniformly from `[-MAX_BOUNCE_ANGLE, MAX_BOUNCE_ANGLE]`.
    pub fn start() -> (r: World)
        ensures
            r.wf(),
            exists|side: PlayerSide, angle: int|
                -MAX_BOUNCE_ANGLE <= angle <= MAX_BOUNCE_ANGLE && r.is_fresh_match(side, angle),
    {
        let side = PlayerSide::random();
        let angle = random_between(-MAX_BOUNCE_ANGLE, MAX_BOUNCE_ANGLE);
        World::start_with(side, angle)
    }
}


/// What one tick is given: the keys held, the time elapsed, and how far the
/// ball travelled along each axis, in milli-pixels, at its speed and heading.
#[derive(Clone, Copy, Debug, PartialEq, Eq, Structural)]
pub struct TickInput {
    pub left_up: bool,
    pub left_down: bool,
    pub right_up: bool,
    pub right_down: bool,
    pub dt_ms: u32,
    pub ball_dx: i64,
    pub ball_dy: i64,
}

/// The ball began to overlap an entity.
#[derive(Clone, Copy, Debug, PartialEq, Eq, Structural)]
pub struct Contact {
    pub other: Handle,
    pub kind: BodyKind,
}

/// What a tick produced: the contacts that began, the points scored, and
/// whether the round was reset with a new serve.
pub struct TickReport {
    pub contacts: Vec<Contact>,
    pub scores: Vec<ScoreChange>,
    pub round_reset: bool,
}

/// Length of a tick after shortening it to at most `MAX_STEP_MS`.
pub open spec fn step_ms(dt_ms: u32) -> int {
    if dt_ms > MAX_STEP_MS {
        MAX_STEP_MS as int
    } else {
        dt_ms as int
    }
}

/// The ball after moving by the displacement of `input`: each component is
/// kept within the distance that the ball's speed covers in the tick, and the
/// centre within the world.
pub open spec fn moved_ball(b: Body, input: TickInput) -> Body {
    let reach = b.velocity.speed * step_ms(input.dt_ms);
    let limit = WORLD_LIMIT as int;
    let x = clamp(b.shape.center.x + clamp(input.ball_dx as int, -reach, reach), -limit, limit);
    let y = clamp(b.shape.center.y + clamp(input.ball_dy as int, -reach, reach), -limit, limit);
    Body { shape: Aabb { center: Point { x: x as i64, y: y as i64 }, ..b.shape }, ..b }
}

/// A paddle after one tick of `dt_ms` milliseconds with the given keys held.
pub open spec fn moved_paddle(b: Body, up: bool, down: bool, dt_ms: int) -> Body {
    let y = paddle_step(b.shape.center.y as int, up, down, dt_ms);
    Body { shape: Aabb { center: Point { y: y as i64, ..b.shape.center }, ..b.shape }, ..b }
}

/// The ball's velocity after contact `c` began, the ball's centre being at
/// height `ball_y`: a wall mirrors it, a paddle sends it back at an angle that
/// depends on where it struck, a goal leaves it as it was.
pub open spec fn respond(v: Velocity, ball_y: int, c: Contact, m: Map<Handle, Body>) -> Velocity {
    match c.kind {
        BodyKind::Wall => v.reflected_spec(),
        BodyKind::Paddle(side) => v.off_paddle_spec(ball_y - m[c.other].shape.center.y, side),
        _ => v,
    }
}

/// The ball's velocity after each of the contacts `cs` in turn.
pub open spec fn respond_all(v: Velocity, ball_y: int, cs: Seq<Contact>, m: Map<Handle, Body>) -> Velocity
    decreases cs.len(),
{
    if cs.len() == 0 {
        v
    } else {
        respond(respond_all(v, ball_y, cs.drop_last(), m), ball_y, cs.last(), m)
    }
}

/// The match state after every goal among the contacts `cs` has been counted.
pub open spec fn tally(s: MatchState, cs: Seq<Contact>) -> MatchState
    decreases cs.len(),
{
    if cs.len() == 0 {
        s
    } else {
        let t = tally(s, cs.drop_last());
        match cs.last().kind {
            BodyKind::Goal(g) => t.record_goal_spec(g),
            _ => t,
        }
    }
}

/// The points scored through the goals among the contacts `cs`, in order.
pub open spec fn score_log(s: MatchState, cs: Seq<Contact>) -> Seq<ScoreChange>
    decreases cs.len(),
{
    if cs.len() == 0 {
        Seq::empty()
    } else {
        let log = score_log(s, cs.drop_last());
        match cs.last().kind {
            BodyKind::Goal(g) => log.push(
                ScoreChange {
                    side: g.next_spec(),
                    score: tally(s, cs.drop_last()).record_goal_spec(g).score_of(g.next_spec()),
                },
            ),
            _ => log,
        }
    }
}

/// Some contact among `cs` is with a goal.
pub open spec fn has_goal(cs: Seq<Contact>) -> bool {
    exists|i: int| 0 <= i < cs.len() && (#[trigger] cs[i]).kind is Goal
}

/// The ball `ball` overlaps the entity `h` in `m`.
pub open spec fn touches(m: Map<Handle, Body>, ball: Handle, h: Handle) -> bool {
    &&& m.contains_key(h)
    &&& h != ball
    &&& m[ball].shape.overlaps_spec(m[h].shape)
}

impl World {
    /// The entities after the paddles and the ball have moved for one tick.
    pub open spec fn advanced(self, input: TickInput) -> Map<Handle, Body> {
        let m = self.arena@;
        let s = self.state;
        let dt = step_ms(input.dt_ms);
        m.insert(s.left_paddle, moved_paddle(m[s.left_paddle], input.left_up, input.left_down, dt))
            .insert(s.right_paddle, moved_paddle(m[s.right_paddle], input.right_up, input.right_down, dt))
            .insert(s.ball, moved_ball(m[s.ball], input))
    }

    /// In `m`, the ball overlaps `h` and did not at the end of the last tick.
    pub open spec fn started(self, m: Map<Handle, Body>, h: Handle) -> bool {
        touches(m, self.state.ball, h) && !self.touching@.contains(h)
    }

    /// `cs` lists each contact that began in `m` once, with the kind of entity met.
    pub open spec fn reports_started(self, m: Map<Handle, Body>, cs: Seq<Contact>) -> bool {
        &&& forall|i: int, j: int| 0 <= i < j < cs.len() ==> cs[i].other != cs[j].other
        &&& forall|i: int| 0 <= i < cs.len() ==> self.started(m, (#[trigger] cs[i]).other)
            && cs[i].kind == m[cs[i].other].kind
        &&& forall|h: Handle| self.started(m, h) ==> exists|i: int| 0 <= i < cs.len() && (#[trigger] cs[i]).other == h
    }

    /// How one tick, with `serve_angle` for a serve should a goal be scored,
    /// takes this world to `next` and produces `report`. The paddles and the
    /// ball move; each contact that began is reported. Without a goal, the
    /// ball's velocity responds to each contact in turn and the match state
    /// stays. With one, each goal scores a point for the player who did not
    /// defend it, the ball is replaced by a new one served from the centre
    /// towards the side whose turn it was, and the turn passes to the other side.
    pub open spec fn tick_relation(self, input: TickInput, serve_angle: int, next: World, report: TickReport) -> bool {
        let m = self.advanced(input);
        let cs = report.contacts@;
        let s = self.state;
        let ball = m[s.ball];
        &&& self.reports_started(m, cs)
        &&& report.scores@ == score_log(s, cs)
        &&& report.round_reset == has_goal(cs)
        &&& if has_goal(cs) {
            &&& !m.contains_key(next.state.ball)
            &&& next.arena@ == m.remove(s.ball).insert(next.state.ball, Body::served_spec(s.next_serve, serve_angle))
            &&& next.state == MatchState { ball: next.state.ball, next_serve: s.next_serve.next_spec(), ..tally(s, cs) }
            &&& next.touching@.len() == 0
        } else {
            &&& next.arena@ == m.insert(s.ball, Body { velocity: respond_all(ball.velocity, ball.shape.center.y as int, cs, m), ..ball })
            &&& next.state == s
            &&& forall|h: Handle| next.touching@.contains(h) <==> touches(m, s.ball, h)
        }
    }

    /// The entity of `h`, which the caller knows to be live.
    fn body_of(&self, h: Handle) -> (r: Body)
        requires
            self.arena@.contains_key(h),
        ensures
            r == self.arena@[h],
    {
        match self.arena.get(h) {
            Some(b) => b,
            None => vstd::pervasive::unreached(),
        }
    }

    /// Moves the paddles by the keys held and the ball by its displacement.
    fn advance(&mut self, input: TickInput)
        requires
            old(self).wf(),
        ensures
            final(self).wf(),
            final(self).arena@ == old(self).advanced(input),
            final(self).state == old(self).state,
            final(self).touching@ == old(self).touching@,
    {
        let dt: u32 = if input.dt_ms > MAX_STEP_MS {
            MAX_STEP_MS
        } else {
            input.dt_ms
        };
        let lp = self.body_of(self.state.left_paddle);
        let y = step_paddle(lp.shape.center.y, input.left_up, input.left_down, dt);
        let moved = Body { shape: Aabb { center: Point { y, ..lp.shape.center }, ..lp.shape }, ..lp };
        self.arena.set(self.state.left_paddle, moved);
        let rp = self.body_of(self.state.right_paddle);
        let y = step_paddle(rp.shape.center.y, input.right_up, input.right_down, dt);
        let moved = Body { shape: Aabb { center: Point { y, ..rp.shape.center }, ..rp.shape }, ..rp };
        self.arena.set(self.state.right_paddle, moved);
        let b = self.body_of(self.state.ball);
        assert(b == old(self).arena@[self.state.ball]);
        assert(old(self).arena@[self.state.ball].wf());
        assert((b.velocity.speed as int) * (dt as int) <= 1000 * 20) by (nonlinear_arith)
            requires
                b.velocity.speed <= 1000,
                dt <= 20,
        ;
        let reach: i64 = (b.velocity.speed as i64) * (dt as i64);
        let x = clamp_i64(b.shape.center.x + clamp_i64(input.ball_dx, -reach, reach), -WORLD_LIMIT, WORLD_LIMIT);
        let y = clamp_i64(b.shape.center.y + clamp_i64(input.ball_dy, -reach, reach), -WORLD_LIMIT, WORLD_LIMIT);
        let moved = Body { shape: Aabb { center: Point { x, y }, ..b.shape }, ..b };
        self.arena.set(self.state.ball, moved);
        assert(self.arena@ == old(self).advanced(input));
    }
}


/// Whether `v` holds `h`.
fn contains_handle(v: &Vec<Handle>, h: Handle) -> (r: bool)
    ensures
        r == v@.contains(h),
{
    let mut i: usize = 0;
    while i < v.len()
        invariant
            i <= v@.len(),
            forall|j: int| 0 <= j < i ==> v@[j] != h,
        decreases v@.len() - i,
    {
        if v[i] == h {
            return true;
        }
        i = i + 1;
    }
    false
}

impl World {
    /// The contacts that began, each once, and every entity the ball overlaps.
    fn detect(&self) -> (r: (Vec<Contact>, Vec<Handle>))
        requires
            self.wf(),
        ensures
            self.reports_started(self.arena@, r.0@),
            forall|h: Handle| r.1@.contains(h) <==> touches(self.arena@, self.state.ball, h),
    {
        let m = Ghost(self.arena@);
        let ball_handle = self.state.ball;
        let ball = self.body_of(ball_handle);
        let hs = self.arena.handles();
        let mut contacts: Vec<Contact> = Vec::new();
        let mut now: Vec<Handle> = Vec::new();
        let mut i: usize = 0;
        while i < hs.len()
            invariant
                self.wf(),
                m@ == self.arena@,
                ball == m@[ball_handle],
                ball_handle == self.state.ball,
                hs@.no_duplicates(),
                forall|h: Handle| hs@.contains(h) <==> m@.contains_key(h),
                i <= hs@.len(),
                forall|a: int, b: int| 0 <= a < b < contacts@.len() ==> contacts@[a].other != contacts@[b].other,
                forall|a: int| 0 <= a < contacts@.len() ==> self.started(m@, (#[trigger] contacts@[a]).other)
                    && contacts@[a].kind == m@[contacts@[a].other].kind,
                forall|a: int| 0 <= a < contacts@.len() ==> exists|j: int| 0 <= j < i && hs@[j] == (#[trigger] contacts@[a]).other,
                forall|j: int| 0 <= j < i && self.started(m@, #[trigger] hs@[j]) ==> exists|a: int| 0 <= a < contacts@.len() && (#[trigger] contacts@[a]).other == hs@[j],
                forall|h: Handle| now@.contains(h) <==> (touches(m@, ball_handle, h) && exists|j: int| 0 <= j < i && hs@[j] == h),
            decreases hs@.len() - i,
        {
            let h = hs[i];
            assert(hs@.contains(h));
            let ghost old_contacts = contacts@;
            let ghost old_now = now@;
            if h != ball_handle {
                let body = self.body_of(h);
                assert(m@[h].wf());
                assert(m@[ball_handle].wf());
                if ball.shape.overlaps(&body.shape) {
                    now.push(h);
                    if !contains_handle(&self.touching, h) {
                        contacts.push(Contact { other: h, kind: body.kind });
                        proof {
                            assert forall|a: int| 0 <= a < old_contacts.len() implies old_contacts[a].other != h by {
                                let j = choose|j: int| 0 <= j < i && hs@[j] == old_contacts[a].other;
                                assert(hs@[j] != hs@[i as int]);
                            }
                            assert(contacts@[old_contacts.len() as int] == Contact { other: h, kind: body.kind });
                        }
                    }
                }
            }
            proof {
                assert forall|a: int| 0 <= a < contacts@.len() implies exists|j: int| 0 <= j < i + 1 && hs@[j] == (#[trigger] contacts@[a]).other by {
                    if a < old_contacts.len() {
                        assert(contacts@[a] == old_contacts[a]);
                        let j = choose|j: int| 0 <= j < i && hs@[j] == old_contacts[a].other;
                        assert(0 <= j < i + 1 && hs@[j] == contacts@[a].other);
                    } else {
                        assert(hs@[i as int] == contacts@[a].other);
                    }
                }
                assert forall|j: int| 0 <= j < i + 1 && self.started(m@, #[trigger] hs@[j]) implies exists|a: int| 0 <= a < contacts@.len() && (#[trigger] contacts@[a]).other == hs@[j] by {
                    if j < i {
                        let a = choose|a: int| 0 <= a < old_contacts.len() && old_contacts[a].other == hs@[j];
                        assert(contacts@[a] == old_contacts[a]);
                    } else {
                        assert(contacts@[old_contacts.len() as int].other == hs@[j]);
                    }
                }
                assert forall|k: Handle| now@.contains(k) <==> (touches(m@, ball_handle, k) && exists|j: int| 0 <= j < i + 1 && hs@[j] == k) by {
                    if now@.contains(k) {
                        let a = choose|a: int| 0 <= a < now@.len() && now@[a] == k;
                        if a < old_now.len() {
                            assert(old_now[a] == k);
                            assert(old_now.contains(k));
                        }
                    }
                    if touches(m@, ball_handle, k) && exists|j: int| 0 <= j < i + 1 && hs@[j] == k {
                        let j = choose|j: int| 0 <= j < i + 1 && hs@[j] == k;
                        if j < i {
                            assert(old_now.contains(k));
                            let a = choose|a: int| 0 <= a < old_now.len() && old_now[a] == k;
                            assert(now@[a] == k);
                        } else {
                            assert(now@[old_now.len() as int] == k);
                        }
                    }
                }
            }
            i = i + 1;
        }
        proof {
            assert forall|h: Handle| self.started(m@, h) implies exists|a: int| 0 <= a < contacts@.len() && (#[trigger] contacts@[a]).other == h by {
                assert(hs@.contains(h));
                let j = choose|j: int| 0 <= j < hs@.len() && hs@[j] == h;
                assert(self.started(m@, hs@[j]));
            }
            assert forall|h: Handle| now@.contains(h) <==> touches(self.arena@, self.state.ball, h) by {
                if touches(m@, ball_handle, h) {
                    assert(hs@.contains(h));
                    let j = choose|j: int| 0 <= j < hs@.len() && hs@[j] == h;
                }
            }
        }
        (contacts, now)
    }
}


/// Counting goals changes the scores and nothing else.
pub proof fn lemma_tally_keeps_entities(s: MatchState, cs: Seq<Contact>)
    ensures
        tally(s, cs) == (MatchState {
            left_score: tally(s, cs).left_score,
            right_score: tally(s, cs).right_score,
            ..s
        }),
    decreases cs.len(),
{
    if cs.len() > 0 {
        lemma_tally_keeps_entities(s, cs.drop_last());
    }
}

/// Without a goal, counting leaves the match state as it was.
proof fn lemma_tally_without_goal(s: MatchState, cs: Seq<Contact>)
    requires
        !has_goal(cs),
    ensures
        tally(s, cs) == s,
    decreases cs.len(),
{
    if cs.len() > 0 {
        assert(!has_goal(cs.drop_last())) by {
            if has_goal(cs.drop_last()) {
                let i = choose|i: int| 0 <= i < cs.drop_last().len() && (#[trigger] cs.drop_last()[i]).kind is Goal;
                assert(cs[i] == cs.drop_last()[i]);
            }
        }
        assert(!(cs[cs.len() - 1].kind is Goal));
        lemma_tally_without_goal(s, cs.drop_last());
    }
}

/// Counts the goals among `contacts` into `state`, and lists the points
/// scored; says whether there was any goal.
fn tally_goals(state: &mut MatchState, contacts: &Vec<Contact>) -> (r: (Vec<ScoreChange>, bool))
    ensures
        *final(state) == tally(*old(state), contacts@),
        r.0@ == score_log(*old(state), contacts@),
        r.1 == has_goal(contacts@),
{
    let mut log: Vec<ScoreChange> = Vec::new();
    let mut goal = false;
    let mut i: usize = 0;
    while i < contacts.len()
        invariant
            i <= contacts@.len(),
            *state == tally(*old(state), contacts@.take(i as int)),
            log@ == score_log(*old(state), contacts@.take(i as int)),
            goal == has_goal(contacts@.take(i as int)),
        decreases contacts@.len() - i,
    {
        let c = contacts[i];
        let ghost before = contacts@.take(i as int);
        let ghost after = contacts@.take(i + 1);
        assert(after.drop_last() == before);
        assert(after.last() == c);
        match c.kind {
            BodyKind::Goal(g) => {
                let change = state.record_goal(g);
                log.push(change);
                goal = true;
                assert(after[i as int] == c);
            },
            _ => {
                assert(has_goal(after) == has_goal(before)) by {
                    if has_goal(after) {
                        let k = choose|k: int| 0 <= k < after.len() && (#[trigger] after[k]).kind is Goal;
                        assert(before[k] == after[k]);
                    }
                    if has_goal(before) {
                        let k = choose|k: int| 0 <= k < before.len() && (#[trigger] before[k]).kind is Goal;
                        assert(before[k] == after[k]);
                    }
                }
            },
        }
        i = i + 1;
    }
    assert(contacts@.take(contacts@.len() as int) == contacts@);
    (log, goal)
}

impl World {
    /// The ball's velocity after each of `contacts` in turn.
    fn respond_to(&self, v: Velocity, ball_y: i64, contacts: &Vec<Contact>) -> (r: Velocity)
        requires
            self.wf(),
            v.wf(),
            -WORLD_LIMIT <= ball_y <= WORLD_LIMIT,
            forall|a: int| 0 <= a < contacts@.len() ==> self.arena@.contains_key((#[trigger] contacts@[a]).other),
        ensures
            r == respond_all(v, ball_y as int, contacts@, self.arena@),
            r.wf(),
    {
        let mut cur = v;
        let mut i: usize = 0;
        while i < contacts.len()
            invariant
                self.wf(),
                i <= contacts@.len(),
                -WORLD_LIMIT <= ball_y <= WORLD_LIMIT,
                forall|a: int| 0 <= a < contacts@.len() ==> self.arena@.contains_key((#[trigger] contacts@[a]).other),
                cur == respond_all(v, ball_y as int, contacts@.take(i as int), self.arena@),
                cur.wf(),
            decreases contacts@.len() - i,
        {
            let c = contacts[i];
            assert(self.arena@.contains_key(contacts@[i as int].other));
            let next = match c.kind {
                BodyKind::Wall => cur.reflect_vertical(),
                BodyKind::Paddle(side) => {
                    let p = self.body_of(c.other);
                    assert(self.arena@[c.other].wf());
                    cur.off_paddle(ball_y - p.shape.center.y, side)
                },
                _ => cur,
            };
            assert(contacts@.take(i + 1).drop_last() == contacts@.take(i as int));
            assert(contacts@.take(i + 1).last() == c);
            cur = next;
            i = i + 1;
        }
        assert(contacts@.take(contacts@.len() as int) == contacts@);
        cur
    }

    /// Runs one tick; should a goal be scored, the new ball is served at `serve_angle`.
    pub fn tick_with(&mut self, input: TickInput, serve_angle: i32) -> (report: TickReport)
        requires
            old(self).wf(),
            -MAX_BOUNCE_ANGLE <= serve_angle <= MAX_BOUNCE_ANGLE,
        ensures
            final(self).wf(),
            old(self).tick_relation(input, serve_angle as int, *final(self), report),
    {
        let ghost w0 = *self;
        self.advance(input);
        let (contacts, now) = self.detect();
        assert(w0.reports_started(w0.advanced(input), contacts@)) by {
            assert forall|h: Handle| w0.started(w0.advanced(input), h) == self.started(self.arena@, h) by {}
        }
        let mut state = self.state;
        let (scores, goal) = tally_goals(&mut state, &contacts);
        proof {
            lemma_tally_keeps_entities(self.state, contacts@);
        }
        if goal {
            let served = Body::served(self.state.next_serve, serve_angle);
            let ball = self.arena.respawn(self.state.ball, served);
            self.state = MatchState { ball, next_serve: self.state.next_serve.next(), ..state };
            self.touching = Vec::new();
        } else {
            proof {
                lemma_tally_without_goal(self.state, contacts@);
            }
            let b = self.body_of(self.state.ball);
            assert(self.arena@[self.state.ball].wf());
            let v = self.respond_to(b.velocity, b.shape.center.y, &contacts);
            self.arena.set(self.state.ball, Body { velocity: v, ..b });
            self.touching = now;
        }
        TickReport { contacts, scores, round_reset: goal }
    }

    /// Runs one tick; should a goal be scored, the new ball is served at an
    /// angle drawn uniformly from `[-MAX_BOUNCE_ANGLE, MAX_BOUNCE_ANGLE]`.
    pub fn tick(&mut self, input: TickInput) -> (report: TickReport)
        requires
            old(self).wf(),
        ensures
            final(self).wf(),
            exists|a: int|
                -MAX_BOUNCE_ANGLE <= a <= MAX_BOUNCE_ANGLE && old(self).tick_relation(
                    input,
                    a,
                    *final(self),
                    report,
                ),
    {
        let angle = random_between(-MAX_BOUNCE_ANGLE, MAX_BOUNCE_ANGLE);
        self.tick_with(input, angle)
    }
}


impl World {
    /// Every live entity with its handle, each once, for drawing.
    pub fn snapshot(&self) -> (r: Vec<(Handle, Body)>)
        ensures
            forall|i: int, j: int| 0 <= i < j < r@.len() ==> r@[i].0 != r@[j].0,
            forall|i: int| 0 <= i < r@.len() ==> self.arena@.contains_key((#[trigger] r@[i]).0)
                && self.arena@[r@[i].0] == r@[i].1,
            forall|h: Handle| self.arena@.contains_key(h) ==> exists|i: int| 0 <= i < r@.len() && (#[trigger] r@[i]).0 == h,
    {
        let hs = self.arena.handles();
        let mut out: Vec<(Handle, Body)> = Vec::new();
        let mut i: usize = 0;
        while i < hs.len()
            invariant
                i <= hs@.len(),
                out@.len() == i,
                hs@.no_duplicates(),
                forall|h: Handle| hs@.contains(h) <==> self.arena@.contains_key(h),
                forall|k: int| 0 <= k < i ==> (#[trigger] out@[k]).0 == hs@[k] && self.arena@[hs@[k]] == out@[k].1,
            decreases hs@.len() - i,
        {
            let h = hs[i];
            assert(hs@.contains(h));
            let b = self.body_of(h);
            out.push((h, b));
            i = i + 1;
        }
        proof {
            assert forall|k: int| 0 <= k < out@.len() implies self.arena@.contains_key((#[trigger] out@[k]).0) by {
                assert(hs@.contains(hs@[k]));
            }
            assert forall|h: Handle| self.arena@.contains_key(h) implies exists|k: int| 0 <= k < out@.len() && (#[trigger] out@[k]).0 == h by {
                assert(hs@.contains(h));
                let k = choose|k: int| 0 <= k < hs@.len() && hs@[k] == h;
                assert(out@[k].0 == h);
            }
        }
        out
    }
}

} // verus!
