use vstd::prelude::*;

use crate::geometry::{clamp, WORLD_LIMIT};

verus! {

/// Half the width of a paddle, in milli-pixels.
pub const PADDLE_HALF_WIDTH: i64 = 10_000;

/// Half the height of a paddle, in milli-pixels.
pub const PADDLE_HALF_HEIGHT: i64 = 50_000;

/// Paddle speed in pixels per second, which is milli-pixels per millisecond.
pub const PADDLE_SPEED: i64 = 300;

/// Farthest a paddle centre may be from the horizontal mid-line: half the
/// field height, less the wall thickness and half a paddle.
pub const PADDLE_LIMIT: i64 = 230_000;

/// Where a paddle at height `y` stands after `dt_ms` milliseconds with the
/// given keys held: each held key moves it by `PADDLE_SPEED * dt_ms`, up or
/// down, so that both together cancel, and the result is kept within
/// `[-PADDLE_LIMIT, PADDLE_LIMIT]`.
pub open spec fn paddle_step(y: int, up: bool, down: bool, dt_ms: int) -> int {
    let rise = if up { PADDLE_SPEED * dt_ms } else { 0 };
    let fall = if down { PADDLE_SPEED * dt_ms } else { 0 };
    clamp(y + rise - fall, -PADDLE_LIMIT as int, PADDLE_LIMIT as int)
}

/// Moves a paddle for one tick of `dt_ms` milliseconds.
pub fn step_paddle(y: i64, up: bool, down: bool, dt_ms: u32) -> (r: i64)
    requires
        -WORLD_LIMIT <= y <= WORLD_LIMIT,
    ensures
        r == paddle_step(y as int, up, down, dt_ms as int),
        -PADDLE_LIMIT <= r <= PADDLE_LIMIT,
{
    let delta: i64 = PADDLE_SPEED * (dt_ms as i64);
    let mut moved: i64 = y;
    if up {
        moved = moved + delta;
    }
    if down {
        moved = moved - delta;
    }
    if moved < -PADDLE_LIMIT {
        -PADDLE_LIMIT
    } else if moved > PADDLE_LIMIT {
        PADDLE_LIMIT
    } else {
        moved
    }
}

} // verus!
