//! How the paddles move: a peer's own paddle after its pointer, the paddle
//! of the built-in opponent after the puck, and the paddle of the other peer
//! after what that peer last reported.

use vstd::prelude::*;
use crate::field::{
    within, Paddle, Puck, MAX_DT, MID_Y, MILLION, PADDLE_R, PADDLE_VEL_LIMIT, POS_LIMIT, PUCK_LIMIT,
};
use crate::fixed::{
    ceil_sqrt, clamp, clamped, lemma_trunc_div, length_ceil, mag, scale, scaled, sum_sq, trunc_div,
};

verus! {

/// Fastest a peer's own paddle follows its pointer.
pub const PADDLE_SPEED: i64 = 1_400_000;

/// Highest a paddle's centre may stand in the host's half.
pub const HOST_TOP: i64 = 338_000;

/// Lowest a paddle's centre may stand in the host's half.
pub const HOST_BOTTOM: i64 = 604_000;

/// Lowest a paddle's centre may stand in the guest's half.
pub const GUEST_BOTTOM: i64 = 302_000;

/// Farthest to the right a paddle's centre may stand.
pub const PADDLE_RIGHT: i64 = 324_000;

/// Where the built-in opponent waits while the puck is far.
pub const ANCHOR_Y: i64 = 110_000;

/// Lowest the built-in opponent goes after the puck.
pub const CHASE_BOTTOM: i64 = 284_000;

/// How far behind the puck the built-in opponent aims.
pub const CHASE_LEAD: i64 = 50_000;

/// Upward speed of the puck from which the built-in opponent goes after it.
pub const CHASE_SPEED: i64 = 50_000;

/// Share of the way to the reported position that the other peer's paddle
/// covers in one step, in hundredths.
pub const PADDLE_BLEND: i64 = 85;

/// The velocity of something that moved by `delta` in `dt` microseconds.
pub open spec fn velocity(delta: int, dt: int) -> int {
    trunc_div(delta * MILLION, dt)
}

/// How far a peer's own paddle can go in `dt` microseconds.
pub open spec fn paddle_reach(dt: int) -> int {
    trunc_div(PADDLE_SPEED * dt, MILLION as int)
}

/// A paddle in the half of the host, or of the guest.
pub open spec fn in_own_half(p: Paddle, is_host: bool) -> bool {
    &&& PADDLE_R <= p.x <= PADDLE_RIGHT
    &&& is_host ==> HOST_TOP <= p.y <= HOST_BOTTOM
    &&& !is_host ==> PADDLE_R <= p.y <= GUEST_BOTTOM
}

/// A peer's own paddle after `dt` microseconds of following the pointer at
/// `(tx, ty)`. It goes straight for the pointer, at most `paddle_reach(dt)`
/// far, and is then held inside its half of the field, half a paddle's radius
/// off the centre line. Its velocity is the way it came, over `dt`.
pub open spec fn steered(p: Paddle, tx: int, ty: int, is_host: bool, dt: int) -> Paddle {
    let dx = tx - p.x;
    let dy = ty - p.y;
    let pd = ceil_sqrt(sum_sq(dx, dy));
    let s = if pd < paddle_reach(dt) {
        pd
    } else {
        paddle_reach(dt)
    };
    let x0 = if pd > 0 {
        p.x + scaled(s, dx, pd)
    } else {
        p.x as int
    };
    let y0 = if pd > 0 {
        p.y + scaled(s, dy, pd)
    } else {
        p.y as int
    };
    let x = clamped(x0, PADDLE_R as int, PADDLE_RIGHT as int);
    let y = if is_host {
        clamped(y0, HOST_TOP as int, HOST_BOTTOM as int)
    } else {
        clamped(y0, PADDLE_R as int, GUEST_BOTTOM as int)
    };
    Paddle {
        x: x as i64,
        y: y as i64,
        pvx: velocity(x - p.x, dt) as i64,
        pvy: velocity(y - p.y, dt) as i64,
    }
}

/// The built-in opponent goes after the puck: the puck is in its half, or
/// comes up faster than `CHASE_SPEED`.
pub open spec fn chasing(puck: Puck) -> bool {
    puck.y < MID_Y || puck.vy < -CHASE_SPEED
}

/// The share of the remaining way that the built-in opponent covers in `dt`
/// microseconds at `rate` hundredths per second, in hundred-millionths: never
/// more than all of it.
pub open spec fn chase_share(rate: int, dt: int) -> int {
    if rate * dt < 100 * MILLION {
        rate * dt
    } else {
        100 * MILLION
    }
}

/// The paddle of the built-in opponent after `dt` microseconds. While it
/// chases, it closes in on the puck's column and on a point `CHASE_LEAD`
/// below the puck; otherwise it drifts back to its anchor. It stays in the
/// guest's half.
pub open spec fn chased(ai: Paddle, puck: Puck, dt: int) -> Paddle {
    let keen = chasing(puck);
    let rate_x: int = if keen {
        550
    } else {
        180
    };
    let rate_y: int = if keen {
        715
    } else {
        234
    };
    let goal_y = if keen {
        clamped(puck.y + CHASE_LEAD, PADDLE_R as int, CHASE_BOTTOM as int)
    } else {
        ANCHOR_Y as int
    };
    let x0 = ai.x + scaled(puck.x - ai.x, chase_share(rate_x, dt), 100 * MILLION);
    let y0 = ai.y + scaled(goal_y - ai.y, chase_share(rate_y, dt), 100 * MILLION);
    let x = clamped(x0, PADDLE_R as int, PADDLE_RIGHT as int);
    let y = clamped(y0, PADDLE_R as int, GUEST_BOTTOM as int);
    Paddle {
        x: x as i64,
        y: y as i64,
        pvx: velocity(x - ai.x, dt) as i64,
        pvy: velocity(y - ai.y, dt) as i64,
    }
}

/// The paddle of the other peer after one step of `dt` microseconds: it
/// covers `PADDLE_BLEND` hundredths of the way to `(tx, ty)`, where that peer
/// last reported it.
pub open spec fn followed(op: Paddle, tx: int, ty: int, dt: int) -> Paddle {
    let mx = scaled(tx - op.x, PADDLE_BLEND as int, 100);
    let my = scaled(ty - op.y, PADDLE_BLEND as int, 100);
    Paddle {
        x: (op.x + mx) as i64,
        y: (op.y + my) as i64,
        pvx: velocity(mx, dt) as i64,
        pvy: velocity(my, dt) as i64,
    }
}

/// The velocity of something that moved by `delta` in `dt` microseconds.
pub fn velocity_of(delta: i64, dt: u32) -> (v: i64)
    requires
        dt >= 1,
        within(delta as int, 2 * POS_LIMIT),
    ensures
        v == velocity(delta as int, dt as int),
        within(v as int, mag(delta as int) * MILLION),
        within(v as int, PADDLE_VEL_LIMIT as int),
{
    let p: i64 = delta * MILLION;
    proof {
        lemma_trunc_div(p as int, dt as int);
        let t = mag(trunc_div(p as int, dt as int));
        assert(t <= mag(p as int)) by (nonlinear_arith)
            requires
                t * dt <= mag(p as int),
                dt >= 1,
                t >= 0,
        ;
    }
    p / (dt as i64)
}

/// Moves a peer's own paddle after the pointer at `(tx, ty)` for `dt`
/// microseconds.
pub fn steer(p: &mut Paddle, tx: i64, ty: i64, is_host: bool, dt: u32)
    requires
        1 <= dt <= MAX_DT,
        within(old(p).x as int, POS_LIMIT as int),
        within(old(p).y as int, POS_LIMIT as int),
        within(tx as int, POS_LIMIT as int),
        within(ty as int, POS_LIMIT as int),
    ensures
        *final(p) == steered(*old(p), tx as int, ty as int, is_host, dt as int),
        in_own_half(*final(p), is_host),
        final(p).bounded(POS_LIMIT as int, PADDLE_VEL_LIMIT as int),
{
    let x_before: i64 = p.x;
    let y_before: i64 = p.y;
    let dx: i64 = tx - p.x;
    let dy: i64 = ty - p.y;
    let pd: i64 = length_ceil(dx, dy);
    let reach: i64 = (PADDLE_SPEED * (dt as i64)) / MILLION;
    if pd > 0 {
        let s: i64 = if pd < reach {
            pd
        } else {
            reach
        };
        p.x = p.x + scale(s, dx, pd);
        p.y = p.y + scale(s, dy, pd);
    }
    p.x = clamp(p.x, PADDLE_R, PADDLE_RIGHT);
    if is_host {
        p.y = clamp(p.y, HOST_TOP, HOST_BOTTOM);
    } else {
        p.y = clamp(p.y, PADDLE_R, GUEST_BOTTOM);
    }
    p.pvx = velocity_of(p.x - x_before, dt);
    p.pvy = velocity_of(p.y - y_before, dt);
}

/// The share of the remaining way that the built-in opponent covers in `dt`
/// microseconds at `rate` hundredths per second.
pub fn chase_share_of(rate: i64, dt: u32) -> (share: i64)
    requires
        0 <= rate <= 1_000,
    ensures
        share == chase_share(rate as int, dt as int),
        0 <= share <= 100 * MILLION,
{
    assert(0 <= rate * dt <= 1_000 * 0xffff_ffff) by (nonlinear_arith)
        requires
            0 <= rate <= 1_000,
            0 <= dt <= 0xffff_ffff,
    ;
    let due: i64 = rate * (dt as i64);
    if due < 100 * MILLION {
        due
    } else {
        100 * MILLION
    }
}

/// Moves the paddle of the built-in opponent for `dt` microseconds.
pub fn chase(ai: &mut Paddle, puck: &Puck, dt: u32)
    requires
        1 <= dt <= MAX_DT,
        within(old(ai).x as int, POS_LIMIT as int),
        within(old(ai).y as int, POS_LIMIT as int),
        within(puck.x as int, PUCK_LIMIT as int),
        within(puck.y as int, PUCK_LIMIT as int),
    ensures
        *final(ai) == chased(*old(ai), *puck, dt as int),
        in_own_half(*final(ai), false),
        final(ai).bounded(POS_LIMIT as int, PADDLE_VEL_LIMIT as int),
{
    let x_before: i64 = ai.x;
    let y_before: i64 = ai.y;
    let keen: bool = puck.y < MID_Y || puck.vy < -CHASE_SPEED;
    let rate_x: i64 = if keen {
        550
    } else {
        180
    };
    let rate_y: i64 = if keen {
        715
    } else {
        234
    };
    let goal_y: i64 = if keen {
        clamp(puck.y + CHASE_LEAD, PADDLE_R, CHASE_BOTTOM)
    } else {
        ANCHOR_Y
    };
    let full: i64 = 100 * MILLION;
    ai.x = ai.x + scale(puck.x - ai.x, chase_share_of(rate_x, dt), full);
    ai.y = ai.y + scale(goal_y - ai.y, chase_share_of(rate_y, dt), full);
    ai.x = clamp(ai.x, PADDLE_R, PADDLE_RIGHT);
    ai.y = clamp(ai.y, PADDLE_R, GUEST_BOTTOM);
    ai.pvx = velocity_of(ai.x - x_before, dt);
    ai.pvy = velocity_of(ai.y - y_before, dt);
}

/// Moves the paddle of the other peer one step toward `(tx, ty)`.
pub fn follow(op: &mut Paddle, tx: i64, ty: i64, dt: u32)
    requires
        1 <= dt <= MAX_DT,
        within(old(op).x as int, POS_LIMIT as int),
        within(old(op).y as int, POS_LIMIT as int),
        within(tx as int, POS_LIMIT as int),
        within(ty as int, POS_LIMIT as int),
    ensures
        *final(op) == followed(*old(op), tx as int, ty as int, dt as int),
        final(op).bounded(POS_LIMIT as int, PADDLE_VEL_LIMIT as int),
{
    let mx: i64 = scale(tx - op.x, PADDLE_BLEND, 100);
    let my: i64 = scale(ty - op.y, PADDLE_BLEND, 100);
    op.x = op.x + mx;
    op.y = op.y + my;
    op.pvx = velocity_of(mx, dt);
    op.pvy = velocity_of(my, dt);
}

} // verus!
