//! One step of the puck: the full simulation that the peer in charge of the
//! puck runs, and the dead reckoning with correction that the other peer
//! runs.

use vstd::prelude::*;
use crate::collide::{
    collide_corner_puck, collide_goal_post, collide_paddle_puck, corner_collision,
    paddle_collision, post_collision, TOUCH,
};
use crate::field::{
    lemma_components_of_heft, lemma_heft_of_components, within, Paddle, Puck, CORNER_R, FIELD_H,
    FIELD_W, GOAL_MARGIN, GOAL_X, MAX_DT, MAX_SPEED, PADDLE_VEL_LIMIT, POS_LIMIT, PUCK_LIMIT,
    PUCK_R, SPAN, SWIFT, VEL_LIMIT,
};
use crate::motion::{
    advance, advanced, apply_friction, clamp_speed, dead_reckon, dead_reckoned, end_walled,
    exit_at, goal_exit, reconcile, reconciled, resolve_end_walls, resolve_side_walls,
    side_walled, slowed, speed_clamped, speed_in_band, Exit,
};

verus! {

/// Where the right-hand corner arcs and goalposts stand.
pub const RIGHT_ARC_X: i64 = 318_000;

/// Where the bottom corner arcs stand.
pub const BOTTOM_ARC_Y: i64 = 598_000;

/// Where the right-hand goalposts stand.
pub const RIGHT_POST_X: i64 = 235_000;

/// What an authoritative step did to the puck, and what happened on the way.
#[derive(Clone, Copy, Debug, PartialEq, Eq, Structural)]
pub struct Outcome {
    /// The puck after the step.
    pub puck: Puck,
    /// The puck touched a wall, a corner or a goalpost.
    pub wall_hit: bool,
    /// The goal through which the puck left the field, if it did.
    pub exit: Exit,
    /// A paddle turned the puck.
    pub paddle_hit: bool,
}

/// What happened during an authoritative step.
#[derive(Clone, Copy, Debug, PartialEq, Eq, Structural)]
pub struct Feedback {
    /// The puck touched a wall, a corner or a goalpost.
    pub wall_hit: bool,
    /// The goal through which the puck left the field, if it did.
    pub exit: Exit,
    /// A paddle turned the puck.
    pub paddle_hit: bool,
}

/// The puck after the four rounded corners, top left, top right, bottom left
/// and bottom right, and whether one of them turned it. Which corner's zone
/// the puck is in is judged once, by where it is before the first corner.
pub open spec fn cornered(puck: Puck) -> (Puck, bool) {
    let px = puck.x;
    let py = puck.y;
    let a = corner_collision(puck, CORNER_R as int, CORNER_R as int, px < CORNER_R && py < CORNER_R);
    let b = corner_collision(
        a.0,
        RIGHT_ARC_X as int,
        CORNER_R as int,
        px > RIGHT_ARC_X && py < CORNER_R,
    );
    let c = corner_collision(
        b.0,
        CORNER_R as int,
        BOTTOM_ARC_Y as int,
        px < CORNER_R && py > BOTTOM_ARC_Y,
    );
    let d = corner_collision(
        c.0,
        RIGHT_ARC_X as int,
        BOTTOM_ARC_Y as int,
        px > RIGHT_ARC_X && py > BOTTOM_ARC_Y,
    );
    (d.0, a.1 || b.1 || c.1 || d.1)
}

/// The puck after the four goalposts, top left, top right, bottom left and
/// bottom right, and whether one of them turned it.
pub open spec fn posted(puck: Puck) -> (Puck, bool) {
    let a = post_collision(puck, GOAL_X as int, 0);
    let b = post_collision(a.0, RIGHT_POST_X as int, 0);
    let c = post_collision(b.0, GOAL_X as int, FIELD_H as int);
    let d = post_collision(c.0, RIGHT_POST_X as int, FIELD_H as int);
    (d.0, a.1 || b.1 || c.1 || d.1)
}

/// The puck as a goal leaves it: at rest in the middle of the field if it
/// left through a goal, untouched if not.
pub open spec fn after_goal(puck: Puck) -> Puck {
    if exit_at(puck.y as int) == Exit::Nowhere {
        puck
    } else {
        Puck::centred()
    }
}

/// Where a step by the peer in charge leaves the puck: each coordinate on the
/// field, off a side wall by the puck's radius and past an end line by no more
/// than the margin of a goal, or else within a paddle's push of that paddle.
/// A paddle acts after the walls, so it can push the puck into a wall for the
/// length of one tick.
pub open spec fn in_play_or_pushed(puck: Puck, host: Paddle, client: Paddle) -> bool {
    &&& PUCK_R <= puck.x <= FIELD_W - PUCK_R || within(puck.x - host.x, TOUCH as int) || within(
        puck.x - client.x,
        TOUCH as int,
    )
    &&& -GOAL_MARGIN <= puck.y <= FIELD_H + GOAL_MARGIN || within(puck.y - host.y, TOUCH as int)
        || within(puck.y - client.y, TOUCH as int)
}

/// The puck after `dt` microseconds of flight and friction and after
/// everything that stands still: the corners, the side walls, the end walls
/// and the goalposts, in this order; and whether it touched one of them.
pub open spec fn rebounded(puck: Puck, dt: int) -> (Puck, bool) {
    let a = cornered(slowed(advanced(puck, dt), dt));
    let b = side_walled(a.0);
    let c = end_walled(b.0);
    let d = posted(c.0);
    (d.0, a.1 || b.1 || c.1 || d.1)
}

/// The puck after the host's paddle and then the other one, and whether one
/// of them turned it.
pub open spec fn paddled(puck: Puck, host: Paddle, client: Paddle) -> (Puck, bool) {
    let e = paddle_collision(puck, host);
    let f = paddle_collision(e.0, client);
    (f.0, e.1 || f.1)
}

/// One step of `dt` microseconds by the peer in charge of the puck: flight,
/// friction and what stands still; then the goals, which send the puck back
/// to the middle; then the paddles; and last the limits on the speed.
pub open spec fn local_step(puck: Puck, host: Paddle, client: Paddle, dt: int) -> Outcome {
    let r = rebounded(puck, dt);
    let p = paddled(after_goal(r.0), host, client);
    Outcome {
        puck: speed_clamped(p.0),
        wall_hit: r.1,
        exit: exit_at(r.0.y as int),
        paddle_hit: p.1,
    }
}

/// One step of `dt` microseconds by the peer that is not in charge of the
/// puck. If it was in charge until now, it first takes over `target`, what
/// the other peer reported. Then it reckons the puck forward and corrects it
/// toward `target`.
pub open spec fn remote_step(puck: Puck, target: Puck, handoff: bool, dt: int) -> Puck {
    let start = if handoff {
        target
    } else {
        puck
    };
    reconciled(dead_reckoned(start, dt), target)
}

/// Lets the puck meet the four rounded corners; says whether one turned it.
pub fn resolve_corners(puck: &mut Puck) -> (hit: bool)
    requires
        old(puck).bounded(SPAN as int, SWIFT as int),
        125 * old(puck).heft() <= SWIFT,
    ensures
        (*final(puck), hit) == cornered(*old(puck)),
        final(puck).heft() <= 625 * old(puck).heft(),
        final(puck).x == old(puck).x || 0 <= final(puck).x <= FIELD_W,
        final(puck).y == old(puck).y || 0 <= final(puck).y <= FIELD_H,
{
    let px: i64 = puck.x;
    let py: i64 = puck.y;
    let a: bool = collide_corner_puck(puck, CORNER_R, CORNER_R, px < CORNER_R && py < CORNER_R);
    proof {
        lemma_components_of_heft(puck.vx as int, puck.vy as int);
    }
    let b: bool = collide_corner_puck(
        puck,
        RIGHT_ARC_X,
        CORNER_R,
        px > RIGHT_ARC_X && py < CORNER_R,
    );
    proof {
        lemma_components_of_heft(puck.vx as int, puck.vy as int);
    }
    let c: bool = collide_corner_puck(
        puck,
        CORNER_R,
        BOTTOM_ARC_Y,
        px < CORNER_R && py > BOTTOM_ARC_Y,
    );
    proof {
        lemma_components_of_heft(puck.vx as int, puck.vy as int);
    }
    let d: bool = collide_corner_puck(
        puck,
        RIGHT_ARC_X,
        BOTTOM_ARC_Y,
        px > RIGHT_ARC_X && py > BOTTOM_ARC_Y,
    );
    a || b || c || d
}

/// Lets the puck meet the four goalposts; says whether one turned it.
pub fn resolve_posts(puck: &mut Puck) -> (hit: bool)
    requires
        old(puck).bounded(SPAN as int, SWIFT as int),
        125 * old(puck).heft() <= SWIFT,
    ensures
        (*final(puck), hit) == posted(*old(puck)),
        final(puck).heft() <= 625 * old(puck).heft(),
        final(puck).x == old(puck).x || GOAL_X - PUCK_R <= final(puck).x <= RIGHT_POST_X + PUCK_R,
        final(puck).y == old(puck).y || -PUCK_R <= final(puck).y <= FIELD_H + PUCK_R,
{
    let a: bool = collide_goal_post(puck, GOAL_X, 0);
    proof {
        lemma_components_of_heft(puck.vx as int, puck.vy as int);
    }
    let b: bool = collide_goal_post(puck, RIGHT_POST_X, 0);
    proof {
        lemma_components_of_heft(puck.vx as int, puck.vy as int);
    }
    let c: bool = collide_goal_post(puck, GOAL_X, FIELD_H);
    proof {
        lemma_components_of_heft(puck.vx as int, puck.vy as int);
    }
    let d: bool = collide_goal_post(puck, RIGHT_POST_X, FIELD_H);
    a || b || c || d
}

/// Advances the puck by one step of `dt` microseconds, as the peer in charge
/// of it does; says what happened on the way.
pub fn step_local(puck: &mut Puck, host: &Paddle, client: &Paddle, dt: u32) -> (fb: Feedback)
    requires
        dt <= MAX_DT,
        old(puck).bounded(PUCK_LIMIT as int, VEL_LIMIT as int),
        host.bounded(POS_LIMIT as int, PADDLE_VEL_LIMIT as int),
        client.bounded(POS_LIMIT as int, PADDLE_VEL_LIMIT as int),
    ensures
        (Outcome {
            puck: *final(puck),
            wall_hit: fb.wall_hit,
            exit: fb.exit,
            paddle_hit: fb.paddle_hit,
        }) == local_step(*old(puck), *host, *client, dt as int),
        final(puck).bounded(PUCK_LIMIT as int, MAX_SPEED as int),
        speed_in_band(*final(puck)),
        in_play_or_pushed(*final(puck), *host, *client),
{
    advance(puck, dt);
    apply_friction(puck, dt);
    proof {
        lemma_heft_of_components(puck.vx as int, puck.vy as int, VEL_LIMIT as int);
    }
    let a: bool = resolve_corners(puck);
    proof {
        lemma_components_of_heft(puck.vx as int, puck.vy as int);
    }
    let b: bool = resolve_side_walls(puck);
    let c: bool = resolve_end_walls(puck);
    let d: bool = resolve_posts(puck);
    proof {
        lemma_components_of_heft(puck.vx as int, puck.vy as int);
    }
    let exit: Exit = goal_exit(puck.y);
    match exit {
        Exit::Nowhere => {},
        _ => {
            *puck = Puck::at_centre();
            proof {
                lemma_heft_of_components(0, 0, 0);
            }
        },
    }
    proof {
        lemma_heft_of_components(host.pvx as int, host.pvy as int, PADDLE_VEL_LIMIT as int);
        lemma_heft_of_components(client.pvx as int, client.pvy as int, PADDLE_VEL_LIMIT as int);
    }
    let e: bool = collide_paddle_puck(puck, host);
    proof {
        lemma_components_of_heft(puck.vx as int, puck.vy as int);
    }
    let f: bool = collide_paddle_puck(puck, client);
    proof {
        lemma_components_of_heft(puck.vx as int, puck.vy as int);
    }
    clamp_speed(puck);
    Feedback { wall_hit: a || b || c || d, exit, paddle_hit: e || f }
}

/// Advances the puck by one step of `dt` microseconds, as the peer that is
/// not in charge of it does. `handoff` says that this peer was in charge
/// until now.
pub fn step_remote(puck: &mut Puck, target: &Puck, handoff: bool, dt: u32)
    requires
        dt <= MAX_DT,
        old(puck).bounded(PUCK_LIMIT as int, VEL_LIMIT as int),
        target.bounded(POS_LIMIT as int, VEL_LIMIT as int),
    ensures
        *final(puck) == remote_step(*old(puck), *target, handoff, dt as int),
        final(puck).bounded(PUCK_LIMIT as int, VEL_LIMIT as int),
{
    if handoff {
        *puck = *target;
    }
    dead_reckon(puck, dt);
    reconcile(puck, target);
}

} // verus!
