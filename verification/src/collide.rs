//! The three collisions of the puck with something round: a paddle, a rounded
//! corner of the field, and a goalpost.
//!
//! Each takes the puck alone, changes nothing else, and says whether it turned
//! the puck's velocity. The contact normal is the offset of the puck from the
//! other centre, divided by its length rounded up, so that the normal is never
//! longer than one. It may be shorter: at a distance of `d` thousandths by up
//! to one part in `d`, which is less than one in twenty thousand wherever a
//! puck in flight first touches anything.

use vstd::prelude::*;
use crate::field::{
    heft, lemma_components_of_heft, lemma_heft_after_swing, lemma_heft_is, lemma_heft_of_components,
    lemma_heft_of_difference, within, Paddle, Puck, CORNER_REACH, PUCK_R, RESTITUTION, SPAN, SWIFT,
};
use crate::fixed::{
    ceil_sqrt, dot_product, dotted, length_ceil, mag, project, projected, scale, scaled, sum_sq,
    sum_squares, trunc_div,
};

verus! {

/// Distance between the centres of puck and paddle below which they touch.
pub const TOUCH: i64 = 56_000;

/// The share `1 + restitution` of `dot`: what a wall takes from the puck's
/// velocity along the normal, so that the puck leaves with `restitution`
/// times the speed at which it came.
pub open spec fn rebound(dot: int) -> int {
    trunc_div(dot * (100 + RESTITUTION), 100)
}

/// The puck after meeting a paddle, and whether the paddle turned it.
///
/// They meet when their centres are closer than the two radii together, and
/// not on the same spot. The puck is then set back to touching distance,
/// along the line of centres. If it was closing in on the paddle, however
/// slowly, its velocity relative to the paddle is mirrored at the contact
/// plane.
#[verifier::opaque]
pub open spec fn paddle_collision(puck: Puck, pad: Paddle) -> (Puck, bool) {
    let dx = puck.x - pad.x;
    let dy = puck.y - pad.y;
    let n = sum_sq(dx, dy);
    if n == 0 || n >= TOUCH * TOUCH {
        (puck, false)
    } else {
        let d = ceil_sqrt(n);
        let x = pad.x + scaled(TOUCH as int, dx, d);
        let y = pad.y + scaled(TOUCH as int, dy, d);
        let dot = projected(puck.vx - pad.pvx, puck.vy - pad.pvy, dx, dy, d);
        if dotted(puck.vx - pad.pvx, puck.vy - pad.pvy, dx, dy) < 0 {
            (
                Puck {
                    x: x as i64,
                    y: y as i64,
                    vx: (puck.vx - 2 * scaled(dot, dx, d)) as i64,
                    vy: (puck.vy - 2 * scaled(dot, dy, d)) as i64,
                },
                true,
            )
        } else {
            (Puck { x: x as i64, y: y as i64, vx: puck.vx, vy: puck.vy }, false)
        }
    }
}

/// The puck after meeting the rounded corner whose arc has its centre at
/// `(cx, cy)`, and whether the corner turned it.
///
/// Outside the corner's zone nothing happens. Inside, the puck's centre may
/// be up to `CORNER_REACH` from the arc's centre; beyond that it is set
/// back on that circle, and if it was moving outward, however slowly, it
/// loses `1 + restitution` times its outward speed.
#[verifier::opaque]
pub open spec fn corner_collision(puck: Puck, cx: int, cy: int, in_zone: bool) -> (Puck, bool) {
    let dx = puck.x - cx;
    let dy = puck.y - cy;
    let n = sum_sq(dx, dy);
    if !in_zone || n <= CORNER_REACH * CORNER_REACH {
        (puck, false)
    } else {
        let d = ceil_sqrt(n);
        let x = cx + scaled(CORNER_REACH as int, dx, d);
        let y = cy + scaled(CORNER_REACH as int, dy, d);
        let dot = projected(puck.vx as int, puck.vy as int, dx, dy, d);
        if dotted(puck.vx as int, puck.vy as int, dx, dy) > 0 {
            (
                Puck {
                    x: x as i64,
                    y: y as i64,
                    vx: (puck.vx - scaled(rebound(dot), dx, d)) as i64,
                    vy: (puck.vy - scaled(rebound(dot), dy, d)) as i64,
                },
                true,
            )
        } else {
            (Puck { x: x as i64, y: y as i64, vx: puck.vx, vy: puck.vy }, false)
        }
    }
}

/// The puck after meeting the goalpost at `(px, py)`, and whether the post
/// turned it.
///
/// They meet when the puck's centre is closer to the post than the puck's
/// radius, and not on it. The puck is then set back to touching distance, and
/// if it was closing in, however slowly, it loses `1 + restitution` times its
/// closing speed.
#[verifier::opaque]
pub open spec fn post_collision(puck: Puck, px: int, py: int) -> (Puck, bool) {
    let dx = puck.x - px;
    let dy = puck.y - py;
    let n = sum_sq(dx, dy);
    if n == 0 || n >= PUCK_R * PUCK_R {
        (puck, false)
    } else {
        let d = ceil_sqrt(n);
        let x = px + scaled(PUCK_R as int, dx, d);
        let y = py + scaled(PUCK_R as int, dy, d);
        let dot = projected(puck.vx as int, puck.vy as int, dx, dy, d);
        if dotted(puck.vx as int, puck.vy as int, dx, dy) < 0 {
            (
                Puck {
                    x: x as i64,
                    y: y as i64,
                    vx: (puck.vx - scaled(rebound(dot), dx, d)) as i64,
                    vy: (puck.vy - scaled(rebound(dot), dy, d)) as i64,
                },
                true,
            )
        } else {
            (Puck { x: x as i64, y: y as i64, vx: puck.vx, vy: puck.vy }, false)
        }
    }
}

/// Where a round obstacle at `(cx, cy)` may leave the puck: each coordinate
/// untouched, or within `reach` of the obstacle's.
pub open spec fn placed(before: Puck, after: Puck, cx: int, cy: int, reach: int) -> bool {
    &&& after.x == before.x || within(after.x - cx, reach)
    &&& after.y == before.y || within(after.y - cy, reach)
}

/// `1 + restitution` times `dot`, rounded toward zero.
pub fn rebound_of(dot: i64) -> (g: i64)
    requires
        within(dot as int, 4 * SWIFT),
    ensures
        g == rebound(dot as int),
        mag(g as int) <= 2 * mag(dot as int),
        dot >= 0 ==> g >= 0,
        dot <= 0 ==> g <= 0,
{
    let wide: i128 = (dot as i128) * 188;
    (wide / 100) as i64
}

/// Lets the puck meet a paddle; says whether the paddle turned it.
pub fn collide_paddle_puck(puck: &mut Puck, pad: &Paddle) -> (hit: bool)
    requires
        old(puck).bounded(SPAN as int, SWIFT as int),
        pad.bounded(SPAN as int, SWIFT as int),
    ensures
        (*final(puck), hit) == paddle_collision(*old(puck), *pad),
        placed(*old(puck), *final(puck), pad.x as int, pad.y as int, TOUCH as int),
        final(puck).heft() <= 5 * old(puck).heft() + 4 * pad.heft(),
        !hit ==> final(puck).vx == old(puck).vx && final(puck).vy == old(puck).vy,
{
    reveal(paddle_collision);
    proof {
        lemma_components_of_heft(puck.vx as int, puck.vy as int);
        lemma_components_of_heft(pad.pvx as int, pad.pvy as int);
    }
    let dx: i64 = puck.x - pad.x;
    let dy: i64 = puck.y - pad.y;
    let n: u128 = sum_squares(dx, dy);
    let touch: u128 = 56_000;
    if n == 0 || n >= touch * touch {
        return false;
    }
    let d: i64 = length_ceil(dx, dy);
    let rvx: i64 = puck.vx - pad.pvx;
    let rvy: i64 = puck.vy - pad.pvy;
    puck.x = pad.x + scale(TOUCH, dx, d);
    puck.y = pad.y + scale(TOUCH, dy, d);
    let dot: i64 = project(rvx, rvy, dx, dy, d);
    if dot_product(rvx, rvy, dx, dy) < 0 {
        let ax: i64 = 2 * scale(dot, dx, d);
        let ay: i64 = 2 * scale(dot, dy, d);
        proof {
            let rel = heft(rvx as int, rvy as int);
            lemma_heft_of_difference(
                old(puck).vx as int,
                old(puck).vy as int,
                pad.pvx as int,
                pad.pvy as int,
            );
            lemma_heft_is(rvx as int, rvy as int);
            lemma_heft_after_swing(puck.vx as int, puck.vy as int, ax as int, ay as int, 2 * rel);
        }
        puck.vx = puck.vx - ax;
        puck.vy = puck.vy - ay;
        true
    } else {
        false
    }
}

/// Takes from the puck's velocity the share `1 + restitution` of its speed
/// `dot` along `(dx, dy) / d`.
fn rebound_along(puck: &mut Puck, dot: i64, dx: i64, dy: i64, d: i64)
    requires
        old(puck).bounded(i64::MAX as int, SWIFT as int),
        d > 0,
        within(dx as int, d as int),
        within(dy as int, d as int),
        mag(dot as int) <= old(puck).heft(),
    ensures
        final(puck).x == old(puck).x,
        final(puck).y == old(puck).y,
        final(puck).vx == old(puck).vx - scaled(rebound(dot as int), dx as int, d as int),
        final(puck).vy == old(puck).vy - scaled(rebound(dot as int), dy as int, d as int),
        final(puck).heft() <= 5 * old(puck).heft(),
{
    proof {
        lemma_heft_of_components(puck.vx as int, puck.vy as int, SWIFT as int);
    }
    let g: i64 = rebound_of(dot);
    let ax: i64 = scale(g, dx, d);
    let ay: i64 = scale(g, dy, d);
    proof {
        lemma_heft_after_swing(
            puck.vx as int,
            puck.vy as int,
            ax as int,
            ay as int,
            2 * puck.heft(),
        );
    }
    puck.vx = puck.vx - ax;
    puck.vy = puck.vy - ay;
}

/// Lets the puck meet a rounded corner; says whether the corner turned it.
pub fn collide_corner_puck(puck: &mut Puck, cx: i64, cy: i64, in_zone: bool) -> (hit: bool)
    requires
        old(puck).bounded(SPAN as int, SWIFT as int),
        within(cx as int, SPAN as int),
        within(cy as int, SPAN as int),
    ensures
        (*final(puck), hit) == corner_collision(*old(puck), cx as int, cy as int, in_zone),
        placed(*old(puck), *final(puck), cx as int, cy as int, CORNER_REACH as int),
        final(puck).heft() <= 5 * old(puck).heft(),
        !hit ==> final(puck).vx == old(puck).vx && final(puck).vy == old(puck).vy,
{
    reveal(corner_collision);
    proof {
        lemma_components_of_heft(puck.vx as int, puck.vy as int);
    }
    if !in_zone {
        return false;
    }
    let dx: i64 = puck.x - cx;
    let dy: i64 = puck.y - cy;
    let n: u128 = sum_squares(dx, dy);
    let reach: u128 = 20_000;
    if n <= reach * reach {
        return false;
    }
    let d: i64 = length_ceil(dx, dy);
    puck.x = cx + scale(CORNER_REACH, dx, d);
    puck.y = cy + scale(CORNER_REACH, dy, d);
    let dot: i64 = project(puck.vx, puck.vy, dx, dy, d);
    proof {
        lemma_heft_is(puck.vx as int, puck.vy as int);
    }
    if dot_product(puck.vx, puck.vy, dx, dy) > 0 {
        rebound_along(puck, dot, dx, dy, d);
        true
    } else {
        false
    }
}

/// Lets the puck meet a goalpost; says whether the post turned it.
pub fn collide_goal_post(puck: &mut Puck, px: i64, py: i64) -> (hit: bool)
    requires
        old(puck).bounded(SPAN as int, SWIFT as int),
        within(px as int, SPAN as int),
        within(py as int, SPAN as int),
    ensures
        (*final(puck), hit) == post_collision(*old(puck), px as int, py as int),
        placed(*old(puck), *final(puck), px as int, py as int, PUCK_R as int),
        final(puck).heft() <= 5 * old(puck).heft(),
        !hit ==> final(puck).vx == old(puck).vx && final(puck).vy == old(puck).vy,
{
    reveal(post_collision);
    proof {
        lemma_components_of_heft(puck.vx as int, puck.vy as int);
    }
    let dx: i64 = puck.x - px;
    let dy: i64 = puck.y - py;
    let n: u128 = sum_squares(dx, dy);
    let radius: u128 = 20_000;
    if n == 0 || n >= radius * radius {
        return false;
    }
    let d: i64 = length_ceil(dx, dy);
    puck.x = px + scale(PUCK_R, dx, d);
    puck.y = py + scale(PUCK_R, dy, d);
    let dot: i64 = project(puck.vx, puck.vy, dx, dy, d);
    proof {
        lemma_heft_is(puck.vx as int, puck.vy as int);
    }
    if dot_product(puck.vx, puck.vy, dx, dy) < 0 {
        rebound_along(puck, dot, dx, dy, d);
        true
    } else {
        false
    }
}

} // verus!
