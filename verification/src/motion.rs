//! How the puck moves when nothing round is in its way: free flight,
//! friction, the straight walls, the limits on its speed, and the correction
//! toward what the other peer reports.

use vstd::prelude::*;
use crate::field::{
    heft, within, Puck, FIELD_H, FIELD_W, FRICTION, GAP_HALF, GOAL_MARGIN, MAX_DT, MAX_SPEED, MID_X,
    MILLION, MIN_SPEED, PUCK_R, RESTITUTION, REST_SPEED, SPAN, SWIFT,
};
use crate::fixed::{
    ceil_sqrt, floor_sqrt, isqrt, length_ceil, lemma_ceil_sqrt, lemma_floor_sqrt_exists,
    lemma_leg_le_hypot, lemma_mag_square, lemma_outward_div, lemma_scaled_bound, lemma_square_order,
    lemma_trunc_div, mag, magnitude, scale, scale_out, scaled, scaled_out, sum_sq, sum_squares,
    WIDE,
};

verus! {

/// Distance from the reported position beyond which the puck is set on it
/// outright.
pub const SNAP_DISTANCE: i64 = 80_000;

/// Distance from the reported position up to which the puck is left alone.
pub const NEAR_DISTANCE: i64 = 1_000;

/// Share of the position error that one correction removes, in hundredths.
pub const POSITION_BLEND: i64 = 18;

/// Share of the velocity error that one correction removes, in hundredths.
pub const VELOCITY_BLEND: i64 = 25;

/// Through which goal the puck has left the field.
#[derive(Clone, Copy, Debug, PartialEq, Eq, Structural)]
pub enum Exit {
    /// It is still in play.
    Nowhere,
    /// Past the top end line, the goal that the guest defends.
    Top,
    /// Past the bottom end line, the goal that the host defends.
    Bottom,
}

/// The puck after `dt` microseconds of free flight.
pub open spec fn advanced(puck: Puck, dt: int) -> Puck {
    Puck {
        x: (puck.x + scaled(puck.vx as int, dt, MILLION as int)) as i64,
        y: (puck.y + scaled(puck.vy as int, dt, MILLION as int)) as i64,
        vx: puck.vx,
        vy: puck.vy,
    }
}

/// The share of its speed that the puck loses to friction in `dt`
/// microseconds, in hundred-millionths: never more than all of it.
pub open spec fn friction_share(dt: int) -> int {
    if FRICTION * dt < 100 * MILLION {
        FRICTION * dt
    } else {
        100 * MILLION
    }
}

/// The puck after `dt` microseconds of friction: slower, on the same course.
pub open spec fn slowed(puck: Puck, dt: int) -> Puck {
    Puck {
        x: puck.x,
        y: puck.y,
        vx: (puck.vx - scaled(puck.vx as int, friction_share(dt), 100 * MILLION)) as i64,
        vy: (puck.vy - scaled(puck.vy as int, friction_share(dt), 100 * MILLION)) as i64,
    }
}

/// The speed with which a wall sends back a puck that hit it at `v`.
pub open spec fn bounced(v: int) -> int {
    scaled(mag(v), RESTITUTION as int, 100)
}

/// The puck after the side walls, and whether it touched one. A puck whose
/// centre is closer to a side wall than its radius is set back to touching
/// the wall and sent away from it.
pub open spec fn side_walled(puck: Puck) -> (Puck, bool) {
    if puck.x < PUCK_R {
        (Puck { x: PUCK_R, y: puck.y, vx: bounced(puck.vx as int) as i64, vy: puck.vy }, true)
    } else if puck.x > FIELD_W - PUCK_R {
        (
            Puck {
                x: (FIELD_W - PUCK_R) as i64,
                y: puck.y,
                vx: (-bounced(puck.vx as int)) as i64,
                vy: puck.vy,
            },
            true,
        )
    } else {
        (puck, false)
    }
}

/// The puck is in front of a goal mouth, where the end lines have no wall.
pub open spec fn in_goal_gap(x: int) -> bool {
    mag(x - MID_X) < GAP_HALF
}

/// The puck after the end walls, and whether it touched one. In front of a
/// goal mouth there is none.
pub open spec fn end_walled(puck: Puck) -> (Puck, bool) {
    if in_goal_gap(puck.x as int) {
        (puck, false)
    } else if puck.y < PUCK_R {
        (Puck { x: puck.x, y: PUCK_R, vx: puck.vx, vy: bounced(puck.vy as int) as i64 }, true)
    } else if puck.y > FIELD_H - PUCK_R {
        (
            Puck {
                x: puck.x,
                y: (FIELD_H - PUCK_R) as i64,
                vx: puck.vx,
                vy: (-bounced(puck.vy as int)) as i64,
            },
            true,
        )
    } else {
        (puck, false)
    }
}

/// Through which goal a puck at height `y` has left the field.
pub open spec fn exit_at(y: int) -> Exit {
    if y < -GOAL_MARGIN {
        Exit::Top
    } else if y > FIELD_H + GOAL_MARGIN {
        Exit::Bottom
    } else {
        Exit::Nowhere
    }
}

/// The puck's speed is in order after an authoritative step: it is at rest,
/// or it moves no slower than `MIN_SPEED` and no faster than `MAX_SPEED`.
pub open spec fn speed_in_band(puck: Puck) -> bool {
    puck.speed_sq() <= REST_SPEED * REST_SPEED || MIN_SPEED * MIN_SPEED <= puck.speed_sq()
        <= MAX_SPEED * MAX_SPEED
}

/// The puck with its speed brought into the band. A puck that moves, but
/// slower than `MIN_SPEED`, is sped up to it, each component rounded away
/// from zero; one faster than `MAX_SPEED` is slowed down to it, each
/// component rounded toward zero. The course stays.
pub open spec fn speed_clamped(puck: Puck) -> Puck {
    let sq = puck.speed_sq();
    if REST_SPEED * REST_SPEED < sq < MIN_SPEED * MIN_SPEED {
        let c = floor_sqrt(sq);
        Puck {
            x: puck.x,
            y: puck.y,
            vx: scaled_out(MIN_SPEED as int, puck.vx as int, c) as i64,
            vy: scaled_out(MIN_SPEED as int, puck.vy as int, c) as i64,
        }
    } else if sq > MAX_SPEED * MAX_SPEED {
        let c = ceil_sqrt(sq);
        Puck {
            x: puck.x,
            y: puck.y,
            vx: scaled(MAX_SPEED as int, puck.vx as int, c) as i64,
            vy: scaled(MAX_SPEED as int, puck.vy as int, c) as i64,
        }
    } else {
        puck
    }
}

/// The puck after `dt` microseconds of dead reckoning: free flight, friction
/// and the straight walls.
pub open spec fn dead_reckoned(puck: Puck, dt: int) -> Puck {
    end_walled(side_walled(slowed(advanced(puck, dt), dt)).0).0
}

/// The square of the distance between the positions of two pucks.
pub open spec fn gap_sq(a: Puck, b: Puck) -> int {
    sum_sq(b.x - a.x, b.y - a.y)
}

/// The puck corrected toward `target`, the state that the other peer
/// reported. Farther than `SNAP_DISTANCE` from it, the puck takes the
/// target's position and velocity. Up to `NEAR_DISTANCE` from it, the puck
/// stays as it is. In between, it moves `POSITION_BLEND` hundredths of the way
/// to the target's position and `VELOCITY_BLEND` hundredths of the way to its
/// velocity.
pub open spec fn reconciled(puck: Puck, target: Puck) -> Puck {
    let err = gap_sq(puck, target);
    if err > SNAP_DISTANCE * SNAP_DISTANCE {
        target
    } else if err > NEAR_DISTANCE * NEAR_DISTANCE {
        Puck {
            x: (puck.x + scaled(target.x - puck.x, POSITION_BLEND as int, 100)) as i64,
            y: (puck.y + scaled(target.y - puck.y, POSITION_BLEND as int, 100)) as i64,
            vx: (puck.vx + scaled(target.vx - puck.vx, VELOCITY_BLEND as int, 100)) as i64,
            vy: (puck.vy + scaled(target.vy - puck.vy, VELOCITY_BLEND as int, 100)) as i64,
        }
    } else {
        puck
    }
}

/// Two numbers that are both raised by the factor `m / c`, rounded up, have
/// squares that together reach `m * m` when their own reach `c * c`.
proof fn lemma_raised(x: int, y: int, bx: int, by: int, m: int, c: int)
    requires
        c > 0,
        m >= 0,
        bx >= 0,
        by >= 0,
        x * c >= m * bx,
        y * c >= m * by,
        x >= 0,
        y >= 0,
        bx * bx + by * by >= c * c,
    ensures
        x * x + y * y >= m * m,
{
    let xc = x * c;
    let yc = y * c;
    let mx = m * bx;
    let my = m * by;
    assert(mx >= 0 && my >= 0) by (nonlinear_arith)
        requires
            mx == m * bx,
            my == m * by,
            m >= 0,
            bx >= 0,
            by >= 0,
    ;
    lemma_square_order(mx, xc);
    lemma_square_order(my, yc);
    assert(xc * xc == (x * x) * (c * c)) by (nonlinear_arith)
        requires
            xc == x * c,
    ;
    assert(yc * yc == (y * y) * (c * c)) by (nonlinear_arith)
        requires
            yc == y * c,
    ;
    assert(mx * mx == (m * m) * (bx * bx)) by (nonlinear_arith)
        requires
            mx == m * bx,
    ;
    assert(my * my == (m * m) * (by * by)) by (nonlinear_arith)
        requires
            my == m * by,
    ;
    let s = x * x + y * y;
    let b = bx * bx + by * by;
    let cc = c * c;
    let mm = m * m;
    assert(s * cc >= mm * b) by (nonlinear_arith)
        requires
            (x * x) * cc >= mm * (bx * bx),
            (y * y) * cc >= mm * (by * by),
            s == x * x + y * y,
            b == bx * bx + by * by,
    ;
    assert(cc > 0 && mm >= 0) by (nonlinear_arith)
        requires
            cc == c * c,
            mm == m * m,
            c > 0,
    ;
    assert(s >= mm) by (nonlinear_arith)
        requires
            s * cc >= mm * b,
            b >= cc,
            cc > 0,
            mm >= 0,
    ;
}

/// Two numbers that are both lowered by the factor `m / c`, rounded down,
/// have squares that together stay within `m * m` when their own stay within
/// `c * c`.
pub proof fn lemma_lowered(x: int, y: int, bx: int, by: int, m: int, c: int)
    requires
        c > 0,
        m >= 0,
        bx >= 0,
        by >= 0,
        x * c <= m * bx,
        y * c <= m * by,
        x >= 0,
        y >= 0,
        bx * bx + by * by <= c * c,
    ensures
        x * x + y * y <= m * m,
{
    let xc = x * c;
    let yc = y * c;
    let mx = m * bx;
    let my = m * by;
    assert(xc >= 0 && yc >= 0) by (nonlinear_arith)
        requires
            xc == x * c,
            yc == y * c,
            c > 0,
            x >= 0,
            y >= 0,
    ;
    lemma_square_order(xc, mx);
    lemma_square_order(yc, my);
    assert(xc * xc == (x * x) * (c * c)) by (nonlinear_arith)
        requires
            xc == x * c,
    ;
    assert(yc * yc == (y * y) * (c * c)) by (nonlinear_arith)
        requires
            yc == y * c,
    ;
    assert(mx * mx == (m * m) * (bx * bx)) by (nonlinear_arith)
        requires
            mx == m * bx,
    ;
    assert(my * my == (m * m) * (by * by)) by (nonlinear_arith)
        requires
            my == m * by,
    ;
    let s = x * x + y * y;
    let b = bx * bx + by * by;
    let cc = c * c;
    let mm = m * m;
    assert(cc > 0 && mm >= 0 && b >= 0) by (nonlinear_arith)
        requires
            cc == c * c,
            mm == m * m,
            b == bx * bx + by * by,
            c > 0,
    ;
    assert(s * cc <= mm * b) by (nonlinear_arith)
        requires
            (x * x) * cc <= mm * (bx * bx),
            (y * y) * cc <= mm * (by * by),
            s == x * x + y * y,
            b == bx * bx + by * by,
    ;
    assert(s <= mm) by (nonlinear_arith)
        requires
            s * cc <= mm * b,
            b <= cc,
            cc > 0,
            mm >= 0,
            b >= 0,
    ;
}

/// A component that the factor `MAX_SPEED / c` lowers to less than
/// `MIN_SPEED` was less than `16 / 90` of `c`.
proof fn lemma_small_component(u: int, b: int, c: int)
    requires
        c > 0,
        b >= 0,
        0 <= u < MIN_SPEED,
        MAX_SPEED * b < (u + 1) * c,
    ensures
        8100 * (b * b) <= 256 * (c * c),
{
    assert(900_000 * b < 160_000 * c) by (nonlinear_arith)
        requires
            900_000 * b < (u + 1) * c,
            u + 1 <= 160_000,
            c > 0,
    ;
    let l = 90 * b;
    let r = 16 * c;
    lemma_square_order(l, r);
    assert(l * l == 8100 * (b * b)) by (nonlinear_arith)
        requires
            l == 90 * b,
    ;
    assert(r * r == 256 * (c * c)) by (nonlinear_arith)
        requires
            r == 16 * c,
    ;
}

/// After `speed_clamped`, the puck is at rest or moves no slower than
/// `MIN_SPEED` and no faster than `MAX_SPEED`.
pub proof fn law_speed_band(puck: Puck)
    ensures
        speed_in_band(speed_clamped(puck)),
        within(speed_clamped(puck).vx as int, MAX_SPEED as int),
        within(speed_clamped(puck).vy as int, MAX_SPEED as int),
{
    let vx = puck.vx as int;
    let vy = puck.vy as int;
    let sq = puck.speed_sq();
    let bx = mag(vx);
    let by = mag(vy);
    lemma_leg_le_hypot(vx, vy);
    lemma_floor_sqrt_exists(sq);
    lemma_mag_square(vx);
    lemma_mag_square(vy);
    if REST_SPEED * REST_SPEED < sq < MIN_SPEED * MIN_SPEED {
        let c = floor_sqrt(sq);
        assert(100 <= c < 160_000) by (nonlinear_arith)
            requires
                c >= 0,
                c * c <= sq < (c + 1) * (c + 1),
                10_000 < sq < 160_000 * 160_000,
        ;
        let ux = scaled_out(MIN_SPEED as int, vx, c);
        let uy = scaled_out(MIN_SPEED as int, vy, c);
        lemma_scaled_bound(MIN_SPEED as int, vx, c);
        lemma_scaled_bound(MIN_SPEED as int, vy, c);
        lemma_outward_div(MIN_SPEED * vx, c);
        lemma_outward_div(MIN_SPEED * vy, c);
        lemma_raised(mag(ux), mag(uy), bx, by, MIN_SPEED as int, c);
        lemma_mag_square(ux);
        lemma_mag_square(uy);
        lemma_square_order(mag(ux), MIN_SPEED as int);
        lemma_square_order(mag(uy), MIN_SPEED as int);
    } else if sq > MAX_SPEED * MAX_SPEED {
        let c = ceil_sqrt(sq);
        assert(c > 900_000) by (nonlinear_arith)
            requires
                c >= 0,
                c * c >= sq,
                sq > 900_000 * 900_000,
        ;
        let ux = scaled(MAX_SPEED as int, vx, c);
        let uy = scaled(MAX_SPEED as int, vy, c);
        lemma_scaled_bound(MAX_SPEED as int, vx, c);
        lemma_scaled_bound(MAX_SPEED as int, vy, c);
        lemma_trunc_div(MAX_SPEED * vx, c);
        lemma_trunc_div(MAX_SPEED * vy, c);
        lemma_lowered(mag(ux), mag(uy), bx, by, MAX_SPEED as int, c);
        lemma_mag_square(ux);
        lemma_mag_square(uy);
        if mag(ux) < MIN_SPEED && mag(uy) < MIN_SPEED {
            lemma_small_component(mag(ux), bx, c);
            lemma_small_component(mag(uy), by, c);
            assert(false) by (nonlinear_arith)
                requires
                    8100 * (bx * bx) <= 256 * (c * c),
                    8100 * (by * by) <= 256 * (c * c),
                    bx * bx + by * by > (c - 1) * (c - 1),
                    c > 900_000,
            ;
        }
        if mag(ux) >= MIN_SPEED {
            lemma_square_order(MIN_SPEED as int, mag(ux));
        } else {
            lemma_square_order(MIN_SPEED as int, mag(uy));
        }
    } else {
        let r = floor_sqrt(sq);
        if sq <= MAX_SPEED * MAX_SPEED {
            assert(r <= 900_000) by (nonlinear_arith)
                requires
                    r >= 0,
                    r * r <= sq,
                    sq <= 900_000 * 900_000,
            ;
        }
    }
}

/// Moves the puck by `dt` microseconds of free flight.
pub fn advance(puck: &mut Puck, dt: u32)
    requires
        dt <= MAX_DT,
        old(puck).bounded(SPAN as int, SWIFT as int),
    ensures
        *final(puck) == advanced(*old(puck), dt as int),
        within(final(puck).x - old(puck).x, mag(old(puck).vx as int)),
        within(final(puck).y - old(puck).y, mag(old(puck).vy as int)),
{
    puck.x = puck.x + scale(puck.vx, dt as i64, MILLION);
    puck.y = puck.y + scale(puck.vy, dt as i64, MILLION);
}

/// Takes from the puck the speed that friction costs in `dt` microseconds.
pub fn apply_friction(puck: &mut Puck, dt: u32)
    requires
        old(puck).vx > i64::MIN,
        old(puck).vy > i64::MIN,
    ensures
        *final(puck) == slowed(*old(puck), dt as int),
        mag(final(puck).vx as int) <= mag(old(puck).vx as int),
        mag(final(puck).vy as int) <= mag(old(puck).vy as int),
{
    let full: i64 = 100 * MILLION;
    let due: i64 = FRICTION * (dt as i64);
    let share: i64 = if due < full {
        due
    } else {
        full
    };
    let lost_x: i64 = scale(puck.vx, share, full);
    let lost_y: i64 = scale(puck.vy, share, full);
    proof {
        lemma_scaled_bound(puck.vx as int, share as int, full as int);
        lemma_scaled_bound(puck.vy as int, share as int, full as int);
    }
    puck.vx = puck.vx - lost_x;
    puck.vy = puck.vy - lost_y;
}

/// The speed with which a wall sends back a puck that hit it at `v`.
pub fn bounce(v: i64) -> (r: i64)
    requires
        v > i64::MIN,
    ensures
        r == bounced(v as int),
        0 <= r <= mag(v as int),
{
    let m: i64 = magnitude(v);
    scale(m, RESTITUTION, 100)
}

/// Lets the puck meet the side walls; says whether it touched one.
pub fn resolve_side_walls(puck: &mut Puck) -> (hit: bool)
    requires
        old(puck).vx > i64::MIN,
    ensures
        (*final(puck), hit) == side_walled(*old(puck)),
        PUCK_R <= final(puck).x <= FIELD_W - PUCK_R,
        mag(final(puck).vx as int) <= mag(old(puck).vx as int),
        final(puck).heft() <= old(puck).heft(),
{
    reveal(heft);
    if puck.x < PUCK_R {
        puck.x = PUCK_R;
        puck.vx = bounce(puck.vx);
        true
    } else if puck.x > FIELD_W - PUCK_R {
        puck.x = FIELD_W - PUCK_R;
        puck.vx = -bounce(puck.vx);
        true
    } else {
        false
    }
}

/// Whether a puck at `x` is in front of a goal mouth.
pub fn is_in_goal_gap(x: i64) -> (r: bool)
    requires
        within(x as int, SPAN as int),
    ensures
        r == in_goal_gap(x as int),
{
    magnitude(x - MID_X) < GAP_HALF
}

/// Lets the puck meet the end walls; says whether it touched one.
pub fn resolve_end_walls(puck: &mut Puck) -> (hit: bool)
    requires
        within(old(puck).x as int, SPAN as int),
        old(puck).vy > i64::MIN,
    ensures
        (*final(puck), hit) == end_walled(*old(puck)),
        !in_goal_gap(old(puck).x as int) ==> PUCK_R <= final(puck).y <= FIELD_H - PUCK_R,
        mag(final(puck).vy as int) <= mag(old(puck).vy as int),
        final(puck).heft() <= old(puck).heft(),
{
    reveal(heft);
    if is_in_goal_gap(puck.x) {
        false
    } else if puck.y < PUCK_R {
        puck.y = PUCK_R;
        puck.vy = bounce(puck.vy);
        true
    } else if puck.y > FIELD_H - PUCK_R {
        puck.y = FIELD_H - PUCK_R;
        puck.vy = -bounce(puck.vy);
        true
    } else {
        false
    }
}

/// Through which goal a puck at height `y` has left the field.
pub fn goal_exit(y: i64) -> (e: Exit)
    ensures
        e == exit_at(y as int),
{
    if y < -GOAL_MARGIN {
        Exit::Top
    } else if y > FIELD_H + GOAL_MARGIN {
        Exit::Bottom
    } else {
        Exit::Nowhere
    }
}

/// Brings the puck's speed into the band.
pub fn clamp_speed(puck: &mut Puck)
    requires
        within(old(puck).vx as int, WIDE as int),
        within(old(puck).vy as int, WIDE as int),
    ensures
        *final(puck) == speed_clamped(*old(puck)),
        speed_in_band(*final(puck)),
        within(final(puck).vx as int, MAX_SPEED as int),
        within(final(puck).vy as int, MAX_SPEED as int),
{
    proof {
        law_speed_band(*puck);
    }
    let sq: u128 = sum_squares(puck.vx, puck.vy);
    let rest: u128 = 100;
    let slow: u128 = 160_000;
    let fast: u128 = 900_000;
    proof {
        lemma_leg_le_hypot(puck.vx as int, puck.vy as int);
        lemma_ceil_sqrt(sq as int);
    }
    if sq > rest * rest && sq < slow * slow {
        let c: i64 = isqrt(sq) as i64;
        assert(c > 0) by (nonlinear_arith)
            requires
                c >= 0,
                (c + 1) * (c + 1) > 10_000,
        ;
        puck.vx = scale_out(MIN_SPEED, puck.vx, c);
        puck.vy = scale_out(MIN_SPEED, puck.vy, c);
    } else if sq > fast * fast {
        let c: i64 = length_ceil(puck.vx, puck.vy);
        puck.vx = scale(MAX_SPEED, puck.vx, c);
        puck.vy = scale(MAX_SPEED, puck.vy, c);
    } else {
        let ghost r = floor_sqrt(sq as int);
        assert(r <= 900_000) by (nonlinear_arith)
            requires
                r >= 0,
                r * r <= sq,
                sq <= 900_000 * 900_000,
        ;
    }
}

/// Moves the puck by `dt` microseconds of dead reckoning.
pub fn dead_reckon(puck: &mut Puck, dt: u32)
    requires
        dt <= MAX_DT,
        old(puck).bounded(SPAN as int, SWIFT as int),
    ensures
        *final(puck) == dead_reckoned(*old(puck), dt as int),
        PUCK_R <= final(puck).x <= FIELD_W - PUCK_R,
        within(final(puck).y - old(puck).y, mag(old(puck).vy as int)) || PUCK_R <= final(puck).y
            <= FIELD_H - PUCK_R,
        mag(final(puck).vx as int) <= mag(old(puck).vx as int),
        mag(final(puck).vy as int) <= mag(old(puck).vy as int),
{
    advance(puck, dt);
    apply_friction(puck, dt);
    let _ = resolve_side_walls(puck);
    let _ = resolve_end_walls(puck);
}

/// Corrects the puck toward `target`, the state that the other peer
/// reported.
pub fn reconcile(puck: &mut Puck, target: &Puck)
    requires
        old(puck).bounded(SPAN as int, SWIFT as int),
        target.bounded(SPAN as int, SWIFT as int),
    ensures
        *final(puck) == reconciled(*old(puck), *target),
        *final(puck) == *target || (gap_sq(*old(puck), *target) <= SNAP_DISTANCE * SNAP_DISTANCE
            && within(final(puck).x - target.x, SNAP_DISTANCE as int) && within(
            final(puck).y - target.y,
            SNAP_DISTANCE as int,
        )),
        within(final(puck).vx as int, mag(old(puck).vx as int)) || within(
            final(puck).vx as int,
            mag(target.vx as int),
        ),
        within(final(puck).vy as int, mag(old(puck).vy as int)) || within(
            final(puck).vy as int,
            mag(target.vy as int),
        ),
{
    let ex: i64 = target.x - puck.x;
    let ey: i64 = target.y - puck.y;
    let err: u128 = sum_squares(ex, ey);
    let snap: u128 = 80_000;
    let near: u128 = 1_000;
    if err > snap * snap {
        puck.x = target.x;
        puck.y = target.y;
        puck.vx = target.vx;
        puck.vy = target.vy;
    } else {
        proof {
            lemma_leg_le_hypot(ex as int, ey as int);
            lemma_floor_sqrt_exists(err as int);
            let r = floor_sqrt(err as int);
            assert(r <= 80_000) by (nonlinear_arith)
                requires
                    r >= 0,
                    r * r <= err,
                    err <= 80_000 * 80_000,
            ;
        }
        if err > near * near {
            let evx: i64 = target.vx - puck.vx;
            let evy: i64 = target.vy - puck.vy;
            puck.x = puck.x + scale(ex, POSITION_BLEND, 100);
            puck.y = puck.y + scale(ey, POSITION_BLEND, 100);
            puck.vx = puck.vx + scale(evx, VELOCITY_BLEND, 100);
            puck.vy = puck.vy + scale(evy, VELOCITY_BLEND, 100);
        }
    }
}

} // verus!
