//! What holds of the simulation whatever the state of the match: each a
//! theorem about the functions of the other modules.

use vstd::prelude::*;
use crate::collide::{corner_collision, paddle_collision, post_collision, rebound, TOUCH};
use crate::driver::{next_net_tick, SEND_EVERY};
use crate::field::{
    within, Paddle, Puck, CORNER_R, CORNER_REACH, FIELD_H, FIELD_W, GOAL_X, MID_X, MID_Y,
    PUCK_R, RESTITUTION, SPAN, SWIFT,
};
use crate::fixed::{
    ceil_sqrt, dotted, lemma_ceil_sqrt, lemma_leg_le_hypot, lemma_mag_mul, lemma_mag_square,
    lemma_projected_bound, lemma_scaled_bound, lemma_square_order, lemma_trunc_div, mag,
    projected, scaled, sum_sq, trunc_div,
};
use crate::game::{authoritative, flag, GameState};
use crate::motion::{
    dead_reckoned, end_walled, gap_sq, in_goal_gap, law_speed_band, lemma_lowered, reconciled,
    side_walled, speed_clamped, speed_in_band, Exit, NEAR_DISTANCE, POSITION_BLEND,
    SNAP_DISTANCE,
};
use crate::step::{
    after_goal, local_step, paddled, posted, rebounded, remote_step, Outcome, BOTTOM_ARC_Y,
    RIGHT_ARC_X, RIGHT_POST_X,
};

verus! {

/// The puck's centre is farther than the puck's radius from every wall.
pub open spec fn clear_of_walls(puck: Puck) -> bool {
    PUCK_R < puck.x < FIELD_W - PUCK_R && PUCK_R < puck.y < FIELD_H - PUCK_R
}

/// No hit is reported without contact. While the puck is clear of the walls,
/// neither a straight wall nor a goalpost touches it or reports a hit. A
/// corner reports a hit exactly of a puck in its zone whose centre is beyond
/// the arc's reach and which moves outward; a goalpost exactly of a puck that
/// it overlaps and that closes in on it; a paddle exactly of a puck that it
/// overlaps and that closes in on it, as seen from the paddle. Whatever
/// reports no hit leaves the velocity alone.
pub proof fn law_no_hit_without_contact(puck: Puck, pad: Paddle, cx: int, cy: int, in_zone: bool)
    ensures
        clear_of_walls(puck) ==> side_walled(puck) == (puck, false),
        clear_of_walls(puck) ==> end_walled(puck) == (puck, false),
        clear_of_walls(puck) ==> posted(puck) == (puck, false),
        corner_collision(puck, cx, cy, in_zone).1 <==> in_zone && sum_sq(puck.x - cx, puck.y - cy)
            > CORNER_REACH * CORNER_REACH && dotted(
            puck.vx as int,
            puck.vy as int,
            puck.x - cx,
            puck.y - cy,
        ) > 0,
        post_collision(puck, cx, cy).1 <==> 0 < sum_sq(puck.x - cx, puck.y - cy) < PUCK_R * PUCK_R
            && dotted(puck.vx as int, puck.vy as int, puck.x - cx, puck.y - cy) < 0,
        !post_collision(puck, cx, cy).1 ==> post_collision(puck, cx, cy).0.vx == puck.vx
            && post_collision(puck, cx, cy).0.vy == puck.vy,
        !corner_collision(puck, cx, cy, in_zone).1 ==> corner_collision(puck, cx, cy, in_zone).0.vx
            == puck.vx && corner_collision(puck, cx, cy, in_zone).0.vy == puck.vy,
        paddle_collision(puck, pad).1 <==> 0 < sum_sq(puck.x - pad.x, puck.y - pad.y) < TOUCH
            * TOUCH && dotted(
            puck.vx - pad.pvx,
            puck.vy - pad.pvy,
            puck.x - pad.x,
            puck.y - pad.y,
        ) < 0,
        !paddle_collision(puck, pad).1 ==> paddle_collision(puck, pad).0.vx == puck.vx
            && paddle_collision(puck, pad).0.vy == puck.vy,
{
    reveal(corner_collision);
    reveal(paddle_collision);
    reveal(post_collision);
    lemma_mag_square(puck.x - pad.x);
    lemma_mag_square(puck.y - pad.y);
    lemma_mag_square(puck.x - cx);
    lemma_mag_square(puck.y - cy);
    if clear_of_walls(puck) {
        let up = puck.y as int;
        let down = puck.y - FIELD_H;
        lemma_mag_square(down);
        lemma_square_order(PUCK_R as int, mag(up));
        lemma_square_order(PUCK_R as int, mag(down));
        let left = puck.x - GOAL_X;
        let right = puck.x - RIGHT_POST_X;
        lemma_mag_square(left);
        lemma_mag_square(right);
    }
}

/// A straight wall that the puck touches gives back no more than the share
/// `RESTITUTION` of the speed at which the puck came, and sends the puck away
/// from itself. The speed along the wall stays, and a wall that the puck does
/// not touch changes nothing.
pub proof fn law_wall_restitution(puck: Puck)
    ensures
        side_walled(puck).1 ==> 100 * mag(side_walled(puck).0.vx as int) <= RESTITUTION * mag(
            puck.vx as int,
        ),
        side_walled(puck).1 && puck.x < PUCK_R ==> side_walled(puck).0.vx >= 0,
        side_walled(puck).1 && puck.x >= PUCK_R ==> side_walled(puck).0.vx <= 0,
        side_walled(puck).0.vy == puck.vy,
        !side_walled(puck).1 ==> side_walled(puck).0 == puck,
        end_walled(puck).1 ==> 100 * mag(end_walled(puck).0.vy as int) <= RESTITUTION * mag(
            puck.vy as int,
        ),
        end_walled(puck).1 && puck.y < PUCK_R ==> end_walled(puck).0.vy >= 0,
        end_walled(puck).1 && puck.y >= PUCK_R ==> end_walled(puck).0.vy <= 0,
        end_walled(puck).0.vx == puck.vx,
        !end_walled(puck).1 ==> end_walled(puck).0 == puck,
{
}

/// The product of two numbers of the same sign is the product of their
/// magnitudes.
proof fn lemma_same_sign_product(a: int, b: int)
    requires
        (a >= 0 && b >= 0) || (a <= 0 && b <= 0),
    ensures
        a * b == mag(a) * mag(b),
        a * b >= 0,
{
    assert(a * b == mag(a) * mag(b) && a * b >= 0) by (nonlinear_arith)
        requires
            (a >= 0 && b >= 0) || (a <= 0 && b <= 0),
            mag(a) == if a >= 0 { a } else { -a },
            mag(b) == if b >= 0 { b } else { -b },
    ;
}

/// What one component of the rebound takes from the speed along the normal:
/// `a * dx`, where `a` is the share `dx / d` of the gain `g`, rounded toward
/// zero, lies within `d * |dx|` below `g * dx * dx`, all times `d`.
proof fn lemma_rebound_component(g: int, dx: int, d: int)
    requires
        g >= 0,
        d > 0,
    ensures
        d * (scaled(g, dx, d) * dx) <= g * (dx * dx),
        d * (scaled(g, dx, d) * dx) >= g * (dx * dx) - d * mag(dx),
{
    let a = scaled(g, dx, d);
    lemma_trunc_div(g * dx, d);
    lemma_mag_mul(g, dx);
    assert((dx >= 0 ==> g * dx >= 0) && (dx <= 0 ==> g * dx <= 0)) by (nonlinear_arith)
        requires
            g >= 0,
    ;
    lemma_same_sign_product(a, dx);
    lemma_mag_square(dx);
    let ma = mag(a);
    let mx = mag(dx);
    assert(d * (ma * mx) <= g * (mx * mx)) by (nonlinear_arith)
        requires
            ma * d <= g * mx,
            mx >= 0,
    ;
    assert(d * (ma * mx) >= g * (mx * mx) - d * mx) by (nonlinear_arith)
        requires
            g * mx < (ma + 1) * d,
            mx >= 0,
    ;
}

/// A rebound against an outward speed: of a velocity with the speed `dot >
/// 0` along the direction `(dx, dy) / d`, it leaves a speed along that
/// direction between `-0.88 * dot` and `0.88 * dot + 3`.
proof fn lemma_rebound_outward(vx: int, vy: int, dx: int, dy: int, d: int)
    requires
        d > 0,
        within(dx, d),
        within(dy, d),
        (d - 1) * (d - 1) < sum_sq(dx, dy) <= d * d,
        projected(vx, vy, dx, dy, d) > 0,
    ensures
        ({
            let dot = projected(vx, vy, dx, dy, d);
            let g = rebound(dot);
            let after = projected(vx - scaled(g, dx, d), vy - scaled(g, dy, d), dx, dy, d);
            -RESTITUTION * dot <= 100 * after <= RESTITUTION * dot + 300
        }),
{
    let n = vx * dx + vy * dy;
    let dot = projected(vx, vy, dx, dy, d);
    let g = rebound(dot);
    let ax = scaled(g, dx, d);
    let ay = scaled(g, dy, d);
    let s = sum_sq(dx, dy);
    let m = (vx - ax) * dx + (vy - ay) * dy;
    let after = projected(vx - ax, vy - ay, dx, dy, d);
    lemma_trunc_div(n, d);
    lemma_rebound_component(g, dx, d);
    lemma_rebound_component(g, dy, d);
    let e = ax * dx + ay * dy;
    assert(m == n - e) by (nonlinear_arith)
        requires
            m == (vx - ax) * dx + (vy - ay) * dy,
            n == vx * dx + vy * dy,
            e == ax * dx + ay * dy,
    ;
    assert(d * e <= g * s) by (nonlinear_arith)
        requires
            d * (ax * dx) <= g * (dx * dx),
            d * (ay * dy) <= g * (dy * dy),
            e == ax * dx + ay * dy,
            s == dx * dx + dy * dy,
    ;
    assert(d * e >= g * s - 2 * (d * d)) by (nonlinear_arith)
        requires
            d * (ax * dx) >= g * (dx * dx) - d * mag(dx),
            d * (ay * dy) >= g * (dy * dy) - d * mag(dy),
            e == ax * dx + ay * dy,
            s == dx * dx + dy * dy,
            0 <= mag(dx) <= d,
            0 <= mag(dy) <= d,
    ;
    assert(4 * s >= d * d) by (nonlinear_arith)
        requires
            (d - 1) * (d - 1) < s,
            d > 0,
    ;
    // From below: the rebound takes no more than 1.88 times the outward speed.
    assert(100 * m >= -88 * (dot * d)) by (nonlinear_arith)
        requires
            m == n - e,
            n >= dot * d,
            d * e <= g * s,
            s <= d * d,
            100 * g <= 188 * dot,
            g >= 0,
            d > 0,
    ;
    // From above: it takes at least the outward speed itself, over a normal
    // that is at least half as long as it should be.
    assert(4 * m < (3 * dot + 12) * d) by (nonlinear_arith)
        requires
            m == n - e,
            n < (dot + 1) * d,
            d * e >= g * s - 2 * (d * d),
            4 * s >= d * d,
            g >= dot,
            dot > 0,
            d > 0,
    ;
    lemma_trunc_div(m, d);
    let t = mag(after);
    if m >= 0 {
        assert(4 * t < 3 * dot + 12) by (nonlinear_arith)
            requires
                t * d <= m,
                4 * m < (3 * dot + 12) * d,
                d > 0,
        ;
    } else {
        assert(100 * t <= 88 * dot) by (nonlinear_arith)
            requires
                t * d <= -m,
                100 * m >= -88 * (dot * d),
                d > 0,
        ;
    }
}

/// Turning a velocity round turns its speed along any direction round.
proof fn lemma_projected_odd(vx: int, vy: int, dx: int, dy: int, d: int)
    requires
        d > 0,
    ensures
        projected(-vx, -vy, dx, dy, d) == -projected(vx, vy, dx, dy, d),
{
    assert((-vx) * dx + (-vy) * dy == -(vx * dx + vy * dy)) by (nonlinear_arith);
}

/// Turning a value round turns its scaled value round.
proof fn lemma_scaled_odd(a: int, num: int, den: int)
    requires
        den > 0,
    ensures
        scaled(-a, num, den) == -scaled(a, num, den),
{
    assert((-a) * num == -(a * num)) by (nonlinear_arith);
}

/// A rebound leaves, along the contact normal, no more than the share
/// `RESTITUTION` of the speed that the puck had along it, but for three
/// thousandths of a unit per second that the rounding may add.
pub proof fn lemma_rebound_share(vx: int, vy: int, dx: int, dy: int, d: int)
    requires
        d > 0,
        within(dx, d),
        within(dy, d),
        (d - 1) * (d - 1) < sum_sq(dx, dy) <= d * d,
    ensures
        ({
            let dot = projected(vx, vy, dx, dy, d);
            let g = rebound(dot);
            let after = projected(vx - scaled(g, dx, d), vy - scaled(g, dy, d), dx, dy, d);
            100 * mag(after) <= RESTITUTION * mag(dot) + 300
        }),
{
    let dot = projected(vx, vy, dx, dy, d);
    let g = rebound(dot);
    if dot > 0 {
        lemma_rebound_outward(vx, vy, dx, dy, d);
    } else if dot < 0 {
        lemma_projected_odd(vx, vy, dx, dy, d);
        lemma_rebound_outward(-vx, -vy, dx, dy, d);
        let h = rebound(-dot);
        assert(h == -g);
        lemma_scaled_odd(g, dx, d);
        lemma_scaled_odd(g, dy, d);
        lemma_projected_odd(vx - scaled(g, dx, d), vy - scaled(g, dy, d), dx, dy, d);
    } else {
        lemma_scaled_bound(0, dx, d);
        lemma_scaled_bound(0, dy, d);
    }
}

/// A corner or a goalpost that turns the puck leaves it, along the line from
/// the obstacle's centre to the puck's, no more than the share `RESTITUTION`
/// of the speed that it had along that line, but for three thousandths of a
/// unit per second that the rounding may add. The normal is taken where the
/// puck stood when it met the obstacle.
pub proof fn law_round_restitution(puck: Puck, cx: int, cy: int, in_zone: bool)
    requires
        puck.bounded(SPAN as int, SWIFT as int),
        within(cx, SPAN as int),
        within(cy, SPAN as int),
    ensures
        ({
            let dx = puck.x - cx;
            let dy = puck.y - cy;
            let d = ceil_sqrt(sum_sq(dx, dy));
            let before = projected(puck.vx as int, puck.vy as int, dx, dy, d);
            let corner = corner_collision(puck, cx, cy, in_zone);
            let post = post_collision(puck, cx, cy);
            &&& corner.1 ==> 100 * mag(
                projected(corner.0.vx as int, corner.0.vy as int, dx, dy, d),
            ) <= RESTITUTION * mag(before) + 300
            &&& post.1 ==> 100 * mag(projected(post.0.vx as int, post.0.vy as int, dx, dy, d))
                <= RESTITUTION * mag(before) + 300
        }),
{
    reveal(corner_collision);
    reveal(post_collision);
    let dx = puck.x - cx;
    let dy = puck.y - cy;
    let n = sum_sq(dx, dy);
    lemma_leg_le_hypot(dx, dy);
    lemma_ceil_sqrt(n);
    let d = ceil_sqrt(n);
    if n > 0 {
        lemma_rebound_share(puck.vx as int, puck.vy as int, dx, dy, d);
        let dot = projected(puck.vx as int, puck.vy as int, dx, dy, d);
        lemma_projected_bound(puck.vx as int, puck.vy as int, dx, dy, d);
        lemma_scaled_bound(rebound(dot), dx, d);
        lemma_scaled_bound(rebound(dot), dy, d);
    }
}

/// What rounding toward zero cuts off a share `dx / d` of `g`: less than one
/// `d`, and of the sign of the share.
proof fn lemma_share_remainder(g: int, dx: int, d: int)
    requires
        d > 0,
    ensures
        mag(g * dx - d * scaled(g, dx, d)) < d,
{
    let p = g * dx;
    let a = trunc_div(p, d);
    let m = mag(a);
    lemma_trunc_div(p, d);
    let md = m * d;
    assert((m + 1) * d == md + d && (m == 0 ==> md == 0)) by (nonlinear_arith)
        requires
            md == m * d,
    ;
    assert(d * a == if a >= 0 { md } else { -md }) by (nonlinear_arith)
        requires
            md == m * d,
            m == if a >= 0 { a } else { -a },
    ;
}

/// A rebound along `(dx, dy) / d` leaves the speed across that direction as
/// it was, but for the rounding: the inner product with the tangent changes
/// by no more than the tangent's two components together, which is less than
/// two thousandths of a unit per second.
pub proof fn lemma_rebound_keeps_tangent(vx: int, vy: int, dx: int, dy: int, d: int, g: int)
    requires
        d > 0,
    ensures
        mag(
            dotted(vx - scaled(g, dx, d), vy - scaled(g, dy, d), -dy, dx) - dotted(vx, vy, -dy, dx),
        ) <= mag(dx) + mag(dy),
{
    let ax = scaled(g, dx, d);
    let ay = scaled(g, dy, d);
    let rx = g * dx - d * ax;
    let ry = g * dy - d * ay;
    lemma_share_remainder(g, dx, d);
    lemma_share_remainder(g, dy, d);
    let diff = dotted(vx - ax, vy - ay, -dy, dx) - dotted(vx, vy, -dy, dx);
    assert(diff == ax * dy - ay * dx) by (nonlinear_arith)
        requires
            diff == ((vx - ax) * (-dy) + (vy - ay) * dx) - (vx * (-dy) + vy * dx),
    ;
    assert(d * diff == ry * dx - rx * dy) by (nonlinear_arith)
        requires
            diff == ax * dy - ay * dx,
            rx == g * dx - d * ax,
            ry == g * dy - d * ay,
    ;
    lemma_mag_mul(ry, dx);
    lemma_mag_mul(rx, dy);
    lemma_mag_mul(d, diff);
    let bound = mag(dx) + mag(dy);
    assert(mag(ry) * mag(dx) + mag(rx) * mag(dy) <= d * bound) by (nonlinear_arith)
        requires
            0 <= mag(rx) < d,
            0 <= mag(ry) < d,
            mag(dx) >= 0,
            mag(dy) >= 0,
            bound == mag(dx) + mag(dy),
    ;
    assert(mag(diff) <= bound) by (nonlinear_arith)
        requires
            d * mag(diff) <= d * bound,
            d > 0,
    ;
}

/// `v` times what rounding cut off the share `a` of `g`.
proof fn lemma_share_times(v: int, g: int, x: int, d: int, a: int)
    ensures
        d * (v * a) == g * (v * x) - v * (g * x - d * a),
{
    let gx = g * x;
    let da = d * a;
    assert(v * (gx - da) == v * gx - v * da) by (nonlinear_arith);
    assert(v * gx == g * (v * x)) by (nonlinear_arith)
        requires
            gx == g * x,
    ;
    assert(v * da == d * (v * a)) by (nonlinear_arith)
        requires
            da == d * a,
    ;
}

/// A rebound against an outward motion does not speed the puck up, but for
/// the rounding: the square of the speed grows by no more than twice the two
/// components of the velocity together, which is less than two thousandths of
/// a unit per second in speed.
proof fn lemma_rebound_outward_speed(vx: int, vy: int, dx: int, dy: int, d: int)
    requires
        d > 0,
        sum_sq(dx, dy) <= d * d,
        dotted(vx, vy, dx, dy) > 0,
    ensures
        ({
            let g = rebound(projected(vx, vy, dx, dy, d));
            sum_sq(vx - scaled(g, dx, d), vy - scaled(g, dy, d)) <= sum_sq(vx, vy) + 2 * (mag(vx)
                + mag(vy))
        }),
{
    let n = dotted(vx, vy, dx, dy);
    let dot = projected(vx, vy, dx, dy, d);
    let g = rebound(dot);
    let ax = scaled(g, dx, d);
    let ay = scaled(g, dy, d);
    let rx = g * dx - d * ax;
    let ry = g * dy - d * ay;
    let h = mag(vx) + mag(vy);
    let k = vx * ax + vy * ay;
    let a = sum_sq(ax, ay);
    let w = sum_sq(vx, vy);
    let after = sum_sq(vx - ax, vy - ay);
    lemma_trunc_div(n, d);
    lemma_trunc_div(dot * (100 + RESTITUTION), 100);
    assert(dot >= 0 && dot * d <= n);
    assert(0 <= g <= 2 * dot);
    lemma_share_remainder(g, dx, d);
    lemma_share_remainder(g, dy, d);
    lemma_set_back_within_reach(g, dx, dy, d);
    assert(a <= g * g);
    lemma_share_times(vx, g, dx, d, ax);
    lemma_share_times(vy, g, dy, d, ay);
    assert(d * k == g * n - (vx * rx + vy * ry)) by (nonlinear_arith)
        requires
            k == vx * ax + vy * ay,
            n == vx * dx + vy * dy,
            d * (vx * ax) == g * (vx * dx) - vx * rx,
            d * (vy * ay) == g * (vy * dy) - vy * ry,
    ;
    lemma_mag_mul(vx, rx);
    lemma_mag_mul(vy, ry);
    assert(mag(vx) * mag(rx) + mag(vy) * mag(ry) <= d * h) by (nonlinear_arith)
        requires
            0 <= mag(rx) < d,
            0 <= mag(ry) < d,
            mag(vx) >= 0,
            mag(vy) >= 0,
            h == mag(vx) + mag(vy),
    ;
    assert(g * n >= d * (g * dot)) by (nonlinear_arith)
        requires
            n >= dot * d,
            g >= 0,
    ;
    assert(k >= g * dot - h) by (nonlinear_arith)
        requires
            d * k >= d * (g * dot) - d * h,
            d > 0,
    ;
    assert(g * g <= 2 * (g * dot)) by (nonlinear_arith)
        requires
            0 <= g <= 2 * dot,
    ;
    assert(after == w - 2 * k + a) by (nonlinear_arith)
        requires
            after == (vx - ax) * (vx - ax) + (vy - ay) * (vy - ay),
            w == vx * vx + vy * vy,
            k == vx * ax + vy * ay,
            a == ax * ax + ay * ay,
    ;
}

/// A rebound does not speed the puck up, whichever way the puck moves along
/// the normal, but for the rounding.
pub proof fn lemma_rebound_speed(vx: int, vy: int, dx: int, dy: int, d: int)
    requires
        d > 0,
        sum_sq(dx, dy) <= d * d,
    ensures
        ({
            let g = rebound(projected(vx, vy, dx, dy, d));
            sum_sq(vx - scaled(g, dx, d), vy - scaled(g, dy, d)) <= sum_sq(vx, vy) + 2 * (mag(vx)
                + mag(vy))
        }),
{
    let n = dotted(vx, vy, dx, dy);
    let dot = projected(vx, vy, dx, dy, d);
    let g = rebound(dot);
    let ax = scaled(g, dx, d);
    let ay = scaled(g, dy, d);
    if n > 0 {
        lemma_rebound_outward_speed(vx, vy, dx, dy, d);
    } else if n < 0 {
        lemma_projected_odd(vx, vy, dx, dy, d);
        assert(dotted(-vx, -vy, dx, dy) == -n) by (nonlinear_arith)
            requires
                n == vx * dx + vy * dy,
                dotted(-vx, -vy, dx, dy) == (-vx) * dx + (-vy) * dy,
        ;
        lemma_rebound_outward_speed(-vx, -vy, dx, dy, d);
        assert(rebound(-dot) == -g);
        lemma_scaled_odd(g, dx, d);
        lemma_scaled_odd(g, dy, d);
        assert(sum_sq(-vx + ax, -vy + ay) == sum_sq(vx - ax, vy - ay)) by (nonlinear_arith)
            requires
                sum_sq(-vx + ax, -vy + ay) == (-vx + ax) * (-vx + ax) + (-vy + ay) * (-vy + ay),
                sum_sq(vx - ax, vy - ay) == (vx - ax) * (vx - ax) + (vy - ay) * (vy - ay),
        ;
        assert(sum_sq(-vx, -vy) == sum_sq(vx, vy)) by (nonlinear_arith)
            requires
                sum_sq(-vx, -vy) == (-vx) * (-vx) + (-vy) * (-vy),
                sum_sq(vx, vy) == vx * vx + vy * vy,
        ;
    } else {
        lemma_trunc_div(n, d);
        assert(g == 0);
        assert(ax == 0 && ay == 0) by (nonlinear_arith)
            requires
                ax == scaled(0, dx, d),
                ay == scaled(0, dy, d),
                scaled(0, dx, d) == trunc_div(0 * dx, d),
                scaled(0, dy, d) == trunc_div(0 * dy, d),
                trunc_div(0, d) == 0,
        ;
    }
}

/// A corner or a goalpost that turns the puck changes only its speed along
/// the line from the obstacle's centre to the puck's. The speed across that
/// line stays: the inner product of the velocity with the tangent changes by
/// no more than the tangent's two components together, less than two
/// thousandths of a unit per second. And the puck gets no faster: the square
/// of its speed grows by no more than twice its two velocity components
/// together, again less than two thousandths of a unit per second in speed.
pub proof fn law_round_rebound_keeps_the_rest(puck: Puck, cx: int, cy: int, in_zone: bool)
    requires
        puck.bounded(SPAN as int, SWIFT as int),
        within(cx, SPAN as int),
        within(cy, SPAN as int),
    ensures
        ({
            let dx = puck.x - cx;
            let dy = puck.y - cy;
            let across = dotted(puck.vx as int, puck.vy as int, -dy, dx);
            let slack = 2 * (mag(puck.vx as int) + mag(puck.vy as int));
            let corner = corner_collision(puck, cx, cy, in_zone);
            let post = post_collision(puck, cx, cy);
            &&& corner.1 ==> mag(dotted(corner.0.vx as int, corner.0.vy as int, -dy, dx) - across)
                <= mag(dx) + mag(dy)
            &&& corner.1 ==> corner.0.speed_sq() <= puck.speed_sq() + slack
            &&& post.1 ==> mag(dotted(post.0.vx as int, post.0.vy as int, -dy, dx) - across)
                <= mag(dx) + mag(dy)
            &&& post.1 ==> post.0.speed_sq() <= puck.speed_sq() + slack
        }),
{
    reveal(corner_collision);
    reveal(post_collision);
    let dx = puck.x - cx;
    let dy = puck.y - cy;
    let n = sum_sq(dx, dy);
    lemma_leg_le_hypot(dx, dy);
    lemma_ceil_sqrt(n);
    let d = ceil_sqrt(n);
    if n > 0 {
        let dot = projected(puck.vx as int, puck.vy as int, dx, dy, d);
        lemma_projected_bound(puck.vx as int, puck.vy as int, dx, dy, d);
        lemma_scaled_bound(rebound(dot), dx, d);
        lemma_scaled_bound(rebound(dot), dy, d);
        lemma_rebound_keeps_tangent(puck.vx as int, puck.vy as int, dx, dy, d, rebound(dot));
        lemma_rebound_speed(puck.vx as int, puck.vy as int, dx, dy, d);
    }
}

/// Whatever sets the puck back along `(dx, dy) / d` to the distance `reach`
/// sets it no farther than that, and in each coordinate less than one
/// thousandth short of the exact place.
pub proof fn lemma_set_back_within_reach(reach: int, dx: int, dy: int, d: int)
    requires
        d > 0,
        reach >= 0,
        sum_sq(dx, dy) <= d * d,
    ensures
        sum_sq(scaled(reach, dx, d), scaled(reach, dy, d)) <= reach * reach,
        mag(reach * dx - d * scaled(reach, dx, d)) < d,
        mag(reach * dy - d * scaled(reach, dy, d)) < d,
{
    let ox = scaled(reach, dx, d);
    let oy = scaled(reach, dy, d);
    lemma_share_remainder(reach, dx, d);
    lemma_share_remainder(reach, dy, d);
    lemma_trunc_div(reach * dx, d);
    lemma_trunc_div(reach * dy, d);
    lemma_mag_mul(reach, dx);
    lemma_mag_mul(reach, dy);
    lemma_mag_square(dx);
    lemma_mag_square(dy);
    lemma_mag_square(ox);
    lemma_mag_square(oy);
    lemma_lowered(mag(ox), mag(oy), mag(dx), mag(dy), reach, d);
}

/// A paddle, a corner and a goalpost set the puck back to the distance at
/// which it just touches, and no farther: after a paddle the centres are at
/// most `TOUCH` apart, after a corner the puck's centre is within
/// `CORNER_REACH` of the arc's, after a goalpost within the puck's radius of
/// the post.
pub proof fn law_set_back_to_touching(puck: Puck, pad: Paddle, cx: int, cy: int, in_zone: bool)
    requires
        puck.bounded(SPAN as int, SWIFT as int),
        pad.bounded(SPAN as int, SWIFT as int),
        within(cx, SPAN as int),
        within(cy, SPAN as int),
    ensures
        ({
            let p = paddle_collision(puck, pad).0;
            0 < sum_sq(puck.x - pad.x, puck.y - pad.y) < TOUCH * TOUCH ==> sum_sq(
                p.x - pad.x,
                p.y - pad.y,
            ) <= TOUCH * TOUCH
        }),
        ({
            let p = corner_collision(puck, cx, cy, in_zone).0;
            in_zone ==> sum_sq(p.x - cx, p.y - cy) <= CORNER_REACH * CORNER_REACH
        }),
        ({
            let p = post_collision(puck, cx, cy).0;
            0 < sum_sq(puck.x - cx, puck.y - cy) < PUCK_R * PUCK_R ==> sum_sq(p.x - cx, p.y - cy)
                <= PUCK_R * PUCK_R
        }),
{
    reveal(paddle_collision);
    reveal(corner_collision);
    reveal(post_collision);
    let dx = puck.x - pad.x;
    let dy = puck.y - pad.y;
    lemma_leg_le_hypot(dx, dy);
    lemma_ceil_sqrt(sum_sq(dx, dy));
    if sum_sq(dx, dy) > 0 {
        let d = ceil_sqrt(sum_sq(dx, dy));
        lemma_set_back_within_reach(TOUCH as int, dx, dy, d);
        lemma_scaled_bound(TOUCH as int, dx, d);
        lemma_scaled_bound(TOUCH as int, dy, d);
    }
    let ex = puck.x - cx;
    let ey = puck.y - cy;
    lemma_leg_le_hypot(ex, ey);
    lemma_ceil_sqrt(sum_sq(ex, ey));
    if sum_sq(ex, ey) > 0 {
        let d = ceil_sqrt(sum_sq(ex, ey));
        lemma_set_back_within_reach(CORNER_REACH as int, ex, ey, d);
        lemma_set_back_within_reach(PUCK_R as int, ex, ey, d);
        lemma_scaled_bound(CORNER_REACH as int, ex, d);
        lemma_scaled_bound(CORNER_REACH as int, ey, d);
        lemma_scaled_bound(PUCK_R as int, ex, d);
        lemma_scaled_bound(PUCK_R as int, ey, d);
    }
}

/// A correction brings the puck closer to what the other peer reported,
/// whenever it is more than `NEAR_DISTANCE` away.
pub proof fn law_correction_closes_in(puck: Puck, target: Puck)
    requires
        puck.bounded(SPAN as int, SWIFT as int),
        target.bounded(SPAN as int, SWIFT as int),
        gap_sq(puck, target) > NEAR_DISTANCE * NEAR_DISTANCE,
    ensures
        gap_sq(reconciled(puck, target), target) < gap_sq(puck, target),
{
    let ex = target.x - puck.x;
    let ey = target.y - puck.y;
    let err = gap_sq(puck, target);
    lemma_mag_square(ex);
    lemma_mag_square(ey);
    if err > SNAP_DISTANCE * SNAP_DISTANCE {
        assert(gap_sq(target, target) == 0);
    } else {
        let mx = scaled(ex, POSITION_BLEND as int, 100);
        let my = scaled(ey, POSITION_BLEND as int, 100);
        let rx = ex - mx;
        let ry = ey - my;
        lemma_mag_square(rx);
        lemma_mag_square(ry);
        lemma_square_order(mag(rx), mag(ex));
        lemma_square_order(mag(ry), mag(ey));
        // An error of more than `NEAR_DISTANCE` is at least six thousandths
        // long in one coordinate, and that one comes at least one closer.
        if mag(ex) < 6 && mag(ey) < 6 {
            lemma_square_order(mag(ex), 5);
            lemma_square_order(mag(ey), 5);
        }
    }
}

/// At a handoff the peer forgets its own puck: what it holds after the tick
/// depends on what the other peer reported, and on nothing that it held
/// before.
pub proof fn law_handoff_forgets(puck: Puck, other: Puck, target: Puck, dt: int)
    ensures
        remote_step(puck, target, true, dt) == remote_step(other, target, true, dt),
        remote_step(puck, target, true, dt) == reconciled(dead_reckoned(target, dt), target),
{
}

/// The reported puck lies at rest where no wall reaches it.
pub open spec fn resting_in_play(target: Puck) -> bool {
    &&& target.vx == 0
    &&& target.vy == 0
    &&& PUCK_R <= target.x <= FIELD_W - PUCK_R
    &&& in_goal_gap(target.x as int) || PUCK_R <= target.y <= FIELD_H - PUCK_R
}

/// At a handoff onto a reported puck that rests in play, or that one tick
/// of reckoning carries farther than `SNAP_DISTANCE`, the peer holds exactly
/// the reported puck after the tick, position and velocity.
pub proof fn law_handoff_snap(puck: Puck, target: Puck, dt: int)
    requires
        resting_in_play(target) || gap_sq(dead_reckoned(target, dt), target) > SNAP_DISTANCE
            * SNAP_DISTANCE,
    ensures
        remote_step(puck, target, true, dt) == target,
{
    if resting_in_play(target) {
        assert(dead_reckoned(target, dt) == target);
        assert(gap_sq(target, target) == 0);
    }
}

/// The same, of a whole match: in the tick in which a peer stops being in
/// charge of the puck, it comes to hold exactly the reported puck, if that
/// one rests in play.
pub proof fn law_handoff_snap_in_match(s: GameState, dt: int, tx: int, ty: int)
    requires
        s.prev_auth,
        !s.in_charge(),
        resting_in_play(s.target_puck),
    ensures
        s.stepped(dt, tx, ty).puck == s.target_puck,
        !s.stepped(dt, tx, ty).prev_auth,
{
}

/// Far from its reported place the puck is set on it: after a tick by a
/// peer that is not in charge, a puck that the reckoning left farther than
/// `SNAP_DISTANCE` from the reported one is exactly the reported one.
pub proof fn law_far_puck_snaps(puck: Puck, target: Puck, handoff: bool, dt: int)
    requires
        gap_sq(
            dead_reckoned(
                if handoff {
                    target
                } else {
                    puck
                },
                dt,
            ),
            target,
        ) > SNAP_DISTANCE * SNAP_DISTANCE,
    ensures
        remote_step(puck, target, handoff, dt) == target,
{
}

/// Neither paddle overlaps a puck in the middle of the field.
pub open spec fn centre_is_free(host: Paddle, client: Paddle) -> bool {
    &&& sum_sq(MID_X - host.x, MID_Y - host.y) >= TOUCH * TOUCH
    &&& sum_sq(MID_X - client.x, MID_Y - client.y) >= TOUCH * TOUCH
}

/// A goal counts once, for one side, and sends the puck back to the middle.
///
/// In a tick in which the peer in charge sees the puck leave through a goal,
/// exactly one counter goes up, by exactly one; the other stays; the flag for
/// a goal is up. The puck restarts at rest in the middle of the field, and
/// there it is after the tick unless a paddle overlaps that spot. In a tick
/// without a goal both counters stay and the flag is down.
pub proof fn law_goal_counts_once(s: GameState, dt: int, tx: int, ty: int)
    requires
        s.in_charge(),
        s.score[0] < u32::MAX,
        s.score[1] < u32::MAX,
    ensures
        ({
            let paddles = s.paddles_moved(dt, tx, ty);
            let exit = local_step(s.puck, paddles.0, paddles.1, dt).exit;
            let after = s.stepped(dt, tx, ty);
            &&& exit == Exit::Bottom ==> after.score[0] == s.score[0] + 1 && after.score[1]
                == s.score[1]
            &&& exit == Exit::Top ==> after.score[1] == s.score[1] + 1 && after.score[0]
                == s.score[0]
            &&& exit == Exit::Nowhere ==> after.score == s.score
            &&& after.goal_scored == flag(exit != Exit::Nowhere)
            &&& exit != Exit::Nowhere ==> after.puck == speed_clamped(
                paddled(Puck::centred(), paddles.0, paddles.1).0,
            )
            &&& exit != Exit::Nowhere && centre_is_free(paddles.0, paddles.1) ==> after.puck
                == Puck::centred()
        }),
{
    reveal(paddle_collision);
    assert(Puck::centred().speed_sq() == 0) by (nonlinear_arith)
        requires
            Puck::centred().speed_sq() == Puck::centred().vx * Puck::centred().vx
                + Puck::centred().vy * Puck::centred().vy,
            Puck::centred().vx == 0,
            Puck::centred().vy == 0,
    ;
}

/// After every tick of a peer in charge of the puck, the puck is at rest or
/// moves no slower than `MIN_SPEED` and no faster than `MAX_SPEED`, whatever the
/// tick began with.
pub proof fn law_speed_after_step(s: GameState, dt: int, tx: int, ty: int)
    ensures
        s.in_charge() ==> speed_in_band(s.stepped(dt, tx, ty).puck),
{
    let paddles = s.paddles_moved(dt, tx, ty);
    law_speed_band(paddled(after_goal(rebounded(s.puck, dt).0), paddles.0, paddles.1).0);
}

/// A step never takes a goal back: each counter stays or goes up, and in a
/// step by a peer that is not in charge of the puck both stay.
pub proof fn law_score_never_falls(s: GameState, dt: int, tx: int, ty: int)
    requires
        s.score[0] < u32::MAX,
        s.score[1] < u32::MAX,
    ensures
        s.stepped(dt, tx, ty).score[0] >= s.score[0],
        s.stepped(dt, tx, ty).score[1] >= s.score[1],
        !s.in_charge() ==> s.stepped(dt, tx, ty).score == s.score,
{
}

/// The puck is in no corner's zone.
pub open spec fn clear_of_corners(puck: Puck) -> bool {
    CORNER_R <= puck.x <= RIGHT_ARC_X || CORNER_R <= puck.y <= BOTTOM_ARC_Y
}

/// Neither paddle overlaps the puck.
pub open spec fn clear_of_paddles(puck: Puck, host: Paddle, client: Paddle) -> bool {
    &&& sum_sq(puck.x - host.x, puck.y - host.y) >= TOUCH * TOUCH
    &&& sum_sq(puck.x - client.x, puck.y - client.y) >= TOUCH * TOUCH
}

/// A puck at rest in the open stays as it is: a step by the peer in charge
/// neither moves it nor reports anything.
pub proof fn law_resting_puck_rests(puck: Puck, host: Paddle, client: Paddle, dt: int)
    requires
        puck.vx == 0,
        puck.vy == 0,
        clear_of_walls(puck),
        clear_of_corners(puck),
        clear_of_paddles(puck, host, client),
    ensures
        local_step(puck, host, client, dt) == (Outcome {
            puck,
            wall_hit: false,
            exit: Exit::Nowhere,
            paddle_hit: false,
        }),
{
    reveal(corner_collision);
    reveal(paddle_collision);
    law_no_hit_without_contact(puck, host, 0, 0, false);
    assert(puck.speed_sq() == 0) by (nonlinear_arith)
        requires
            puck.speed_sq() == puck.vx * puck.vx + puck.vy * puck.vy,
            puck.vx == 0,
            puck.vy == 0,
    ;
}

/// What one peer reports, the other comes to hold. A guest that takes in the
/// report of a host holds the host's puck, paddle and score as its targets;
/// a host that takes in the report of a guest holds the guest's paddle, and
/// the guest's puck and score if the guest is in charge of the puck, else
/// what it held before.
pub proof fn law_report_is_taken(sender: GameState, receiver: GameState)
    requires
        !sender.is_single,
        sender.is_host != receiver.is_host,
        sender.outgoing()->Some_0.in_range(),
    ensures
        ({
            let after = receiver.received(sender.outgoing()->Some_0);
            let own = if sender.is_host {
                sender.host_paddle
            } else {
                sender.client_paddle
            };
            let full = sender.is_host || sender.in_charge();
            &&& after.target_opponent@ == seq![own.x, own.y]
            &&& full ==> after.target_puck == sender.puck && after.score == sender.score
            &&& !full ==> after.target_puck == receiver.target_puck && after.score
                == receiver.score
            &&& after.puck == receiver.puck
            &&& after.host_paddle == receiver.host_paddle
            &&& after.client_paddle == receiver.client_paddle
        }),
{
}

/// A report is due with every third tick: of any three ticks in a row,
/// exactly one brings the count of ticks back to nothing, and after the three
/// the count is what it was.
pub proof fn law_report_every_third_tick(n: u8)
    requires
        n < SEND_EVERY,
    ensures
        ({
            let a = next_net_tick(n);
            let b = next_net_tick(a);
            let c = next_net_tick(b);
            &&& c == n
            &&& a < SEND_EVERY && b < SEND_EVERY
            &&& (a == 0 && b != 0 && c != 0) || (a != 0 && b == 0 && c != 0) || (a != 0 && b != 0
                && c == 0)
        }),
{
}

/// Who is in charge of the puck depends on nothing but the mode, the side
/// and the height of the puck: alone always; else the host exactly when the
/// guest is not.
pub proof fn law_authority_is_positional(is_host: bool, puck_y: int, field_height: int)
    ensures
        authoritative(true, is_host, puck_y, field_height),
        authoritative(false, true, puck_y, field_height) != authoritative(
            false,
            false,
            puck_y,
            field_height,
        ),
        authoritative(false, true, puck_y, field_height) == (2 * puck_y >= field_height),
{
}

} // verus!
