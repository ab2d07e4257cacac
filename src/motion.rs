use vstd::prelude::*;

use crate::chance::random_between;
use crate::geometry::clamp;
use crate::paddle::PADDLE_HALF_HEIGHT;
use crate::side::PlayerSide;

verus! {

/// Half a turn, in microdegrees.
pub const HALF_TURN: i32 = 180_000_000;

/// Steepest angle, in microdegrees, at which a ball leaves a paddle or a serve.
pub const MAX_BOUNCE_ANGLE: i32 = 45_000_000;

/// Speed of a freshly served ball, in pixels per second.
pub const BALL_START_SPEED: u32 = 400;

/// Speed that paddle bounces never take a ball beyond, in pixels per second.
pub const BALL_MAX_SPEED: u32 = 1000;

/// Speed that each paddle bounce adds, in pixels per second.
pub const BALL_SPEED_INCREMENT: u32 = 20;

/// Brings an angle of `(-3 * HALF_TURN, 3 * HALF_TURN]` into
/// `(-HALF_TURN, HALF_TURN]` by whole turns.
pub open spec fn normalize_heading(a: int) -> int {
    if a > HALF_TURN {
        a - 2 * HALF_TURN
    } else if a <= -HALF_TURN {
        a + 2 * HALF_TURN
    } else {
        a
    }
}

/// Heading of the unit vector `(m, 0)` turned counter-clockwise by `angle`:
/// `angle` itself where `m` points right, half a turn more where it points left.
pub open spec fn turned_heading(m: int, angle: int) -> int {
    if m >= 0 {
        normalize_heading(angle)
    } else {
        normalize_heading(HALF_TURN + angle)
    }
}

/// The heading mirrored across the horizontal axis: the vertical component
/// of the direction changes sign, the horizontal one stays.
pub open spec fn mirrored_heading(h: int) -> int {
    if h == HALF_TURN {
        h
    } else {
        -h
    }
}

/// Angle at which a ball leaves a paddle that it struck `offset` above the
/// paddle's centre, towards horizontal direction `m`: the maximum angle scaled
/// by the offset as a fraction of half the paddle height, clamped to
/// `[-1, 1]`, and by `m`.
pub open spec fn bounce_angle(offset: int, m: int) -> int {
    let half = PADDLE_HALF_HEIGHT as int;
    m * (MAX_BOUNCE_ANGLE as int * clamp(offset, -half, half) / half)
}

/// Speed after a paddle bounce.
pub open spec fn bounced_speed(speed: int) -> int {
    if speed + BALL_SPEED_INCREMENT < BALL_MAX_SPEED {
        speed + BALL_SPEED_INCREMENT
    } else {
        BALL_MAX_SPEED as int
    }
}

/// Direction in which a ball leaves the paddle of `paddle`: away from it,
/// towards the other side.
pub open spec fn away_from(paddle: PlayerSide) -> int {
    paddle.next_spec().multiplier_spec() as int
}

/// Velocity of a ball, as a speed and the heading of its direction of travel.
#[derive(Clone, Copy, Debug, PartialEq, Eq, Structural)]
pub struct Velocity {
    /// Pixels per second.
    pub speed: u32,
    /// Counter-clockwise from the positive x axis, in microdegrees.
    pub heading: i32,
}

impl Velocity {
    pub open spec fn wf(self) -> bool {
        &&& self.speed <= BALL_MAX_SPEED
        &&& -HALF_TURN < self.heading <= HALF_TURN
    }

    /// Velocity of a ball served towards `side`, its direction turned by `angle`.
    pub open spec fn serve_spec(side: PlayerSide, angle: int) -> Velocity {
        Velocity {
            speed: BALL_START_SPEED,
            heading: turned_heading(side.multiplier_spec() as int, angle) as i32,
        }
    }

    /// Velocity after striking a top or bottom wall.
    pub open spec fn reflected_spec(self) -> Velocity {
        Velocity { speed: self.speed, heading: mirrored_heading(self.heading as int) as i32 }
    }

    /// Velocity after striking the paddle of `paddle`, `offset` above its centre.
    pub open spec fn off_paddle_spec(self, offset: int, paddle: PlayerSide) -> Velocity {
        Velocity {
            speed: bounced_speed(self.speed as int) as u32,
            heading: turned_heading(away_from(paddle), bounce_angle(offset, away_from(paddle))) as i32,
        }
    }

    /// Velocity of a body that does not move.
    pub fn at_rest() -> (r: Velocity)
        ensures
            r.speed == 0,
            r.heading == 0,
            r.wf(),
    {
        Velocity { speed: 0, heading: 0 }
    }

    /// Velocity after striking a top or bottom wall.
    pub fn reflect_vertical(&self) -> (r: Velocity)
        requires
            self.wf(),
        ensures
            r.speed == self.speed,
            r.heading == mirrored_heading(self.heading as int),
            r == self.reflected_spec(),
            r.wf(),
    {
        let heading = if self.heading == HALF_TURN {
            HALF_TURN
        } else {
            -self.heading
        };
        Velocity { speed: self.speed, heading }
    }

    /// Velocity after striking the paddle of `paddle`, `offset` milli-pixels
    /// above the paddle's centre.
    pub fn off_paddle(&self, offset: i64, paddle: PlayerSide) -> (r: Velocity)
        requires
            self.wf(),
        ensures
            r.speed == bounced_speed(self.speed as int),
            r.heading == turned_heading(
                away_from(paddle),
                bounce_angle(offset as int, away_from(paddle)),
            ),
            r == self.off_paddle_spec(offset as int, paddle),
            r.wf(),
    {
        let m = paddle.next().multiplier();
        let clamped: i64 = if offset < -PADDLE_HALF_HEIGHT {
            -PADDLE_HALF_HEIGHT
        } else if offset > PADDLE_HALF_HEIGHT {
            PADDLE_HALF_HEIGHT
        } else {
            offset
        };
        let per_unit: i64 = (MAX_BOUNCE_ANGLE as i64) / PADDLE_HALF_HEIGHT;
        proof {
            lemma_bounce_angle_exact(clamped as int);
        }
        let base: i64 = clamped * per_unit;
        let angle: i32 = if m > 0 {
            base as i32
        } else {
            (-base) as i32
        };
        let speed = if self.speed + BALL_SPEED_INCREMENT < BALL_MAX_SPEED {
            self.speed + BALL_SPEED_INCREMENT
        } else {
            BALL_MAX_SPEED
        };
        Velocity { speed, heading: heading_toward(m, angle) }
    }

    /// Velocity of a ball served towards `side`, its direction turned by
    /// `angle` microdegrees.
    pub fn serve(side: PlayerSide, angle: i32) -> (r: Velocity)
        requires
            -MAX_BOUNCE_ANGLE <= angle <= MAX_BOUNCE_ANGLE,
        ensures
            r == Velocity::serve_spec(side, angle as int),
            r.speed == BALL_START_SPEED,
            r.heading == turned_heading(side.multiplier_spec() as int, angle as int),
            r.wf(),
    {
        Velocity { speed: BALL_START_SPEED, heading: heading_toward(side.multiplier(), angle) }
    }

    /// Velocity of a ball served towards `side` at an angle drawn uniformly
    /// from `[-MAX_BOUNCE_ANGLE, MAX_BOUNCE_ANGLE]`.
    pub fn random_serve(side: PlayerSide) -> (r: Velocity)
        ensures
            exists|angle: int|
                -MAX_BOUNCE_ANGLE <= angle <= MAX_BOUNCE_ANGLE && r == Velocity::serve_spec(
                    side,
                    angle,
                ),
            r.wf(),
    {
        let angle = random_between(-MAX_BOUNCE_ANGLE, MAX_BOUNCE_ANGLE);
        Velocity::serve(side, angle)
    }
}

/// The scaling of the clamped offset into an angle is exact.
proof fn lemma_bounce_angle_exact(c: int)
    ensures
        MAX_BOUNCE_ANGLE as int * c / PADDLE_HALF_HEIGHT as int == c * 900,
        MAX_BOUNCE_ANGLE as int / PADDLE_HALF_HEIGHT as int == 900,
{
    assert(MAX_BOUNCE_ANGLE as int / PADDLE_HALF_HEIGHT as int == 900);
    assert(MAX_BOUNCE_ANGLE as int * c == PADDLE_HALF_HEIGHT as int * (c * 900)) by (nonlinear_arith);
    vstd::arithmetic::div_mod::lemma_div_multiples_vanish(c * 900, PADDLE_HALF_HEIGHT as int);
}

/// Heading of `(m, 0)` turned by `angle`, for an angle of at most a maximum
/// bounce either way.
fn heading_toward(m: i8, angle: i32) -> (r: i32)
    requires
        m == 1 || m == -1,
        -MAX_BOUNCE_ANGLE <= angle <= MAX_BOUNCE_ANGLE,
    ensures
        r == turned_heading(m as int, angle as int),
        -HALF_TURN < r <= HALF_TURN,
{
    if m > 0 {
        angle
    } else if angle > 0 {
        angle - HALF_TURN
    } else {
        HALF_TURN + angle
    }
}

} // verus!
