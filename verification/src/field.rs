//! The playing field and the bodies on it.
//!
//! A length is a whole number of thousandths of a field unit, a velocity a
//! whole number of thousandths of a unit per second, a span of time a whole
//! number of microseconds, and the strength of a visual effect a whole number
//! of millionths. The y axis points down: the top goal line is `y == 0`, and
//! the host defends the bottom half.

use vstd::prelude::*;
use crate::fixed::mag;

verus! {

/// One field unit.
pub const UNIT: i64 = 1_000;

/// One second, and the full strength of a visual effect.
pub const MILLION: i64 = 1_000_000;

/// Width of the field.
pub const FIELD_W: i64 = 360_000;

/// Height of the field.
pub const FIELD_H: i64 = 640_000;

/// The centre line, halfway down the field.
pub const MID_Y: i64 = 320_000;

/// The middle of the field's width.
pub const MID_X: i64 = 180_000;

/// Radius of the puck.
pub const PUCK_R: i64 = 20_000;

/// Radius of a paddle.
pub const PADDLE_R: i64 = 36_000;

/// Width of the goal mouth, which is centred on each end line.
pub const GOAL_W: i64 = 110_000;

/// Where the goal mouth begins, from the left wall.
pub const GOAL_X: i64 = 125_000;

/// Radius of the rounded corners.
pub const CORNER_R: i64 = 42_000;

/// How far the centre of the puck may stray from the centre of a corner arc.
pub const CORNER_REACH: i64 = 20_000;

/// How far off the middle of the width the puck's centre still counts as
/// inside the goal mouth.
pub const GAP_HALF: i64 = 67_000;

/// How far past an end line the puck must travel for a goal to count.
pub const GOAL_MARGIN: i64 = 20_000;

/// Fastest the puck leaves an authoritative step.
pub const MAX_SPEED: i64 = 900_000;

/// Slowest a moving puck leaves an authoritative step.
pub const MIN_SPEED: i64 = 160_000;

/// Speed up to which the puck counts as at rest.
pub const REST_SPEED: i64 = 100;

/// Share of the normal speed that a wall gives back, in hundredths.
pub const RESTITUTION: i64 = 88;

/// Share of its speed that the puck loses per second, in hundredths.
pub const FRICTION: i64 = 22;

/// Longest span of time that one step advances, in microseconds.
pub const MAX_DT: u32 = 50_000;

/// Largest coordinate of a paddle, of a pointer, or of anything a peer
/// reports.
pub const POS_LIMIT: i64 = 1_000_000_000;

/// Largest coordinate of the puck between two steps.
pub const PUCK_LIMIT: i64 = 1_000_100_000;

/// Largest velocity component of the puck between two steps, or reported by
/// a peer.
pub const VEL_LIMIT: i64 = 1_000_000_000;

/// Largest velocity component of a paddle: the widest move in the shortest
/// step.
pub const PADDLE_VEL_LIMIT: i64 = 2_000_000_000_000_000;

/// Largest coordinate that a collision accepts.
pub const SPAN: i64 = 0x100_0000_0000;

/// Largest velocity component that a collision accepts.
pub const SWIFT: i64 = 0x200_0000_0000_0000;

/// The puck: where it is and how fast it moves.
#[derive(Clone, Copy, Debug, PartialEq, Eq, Structural)]
pub struct Puck {
    pub x: i64,
    pub y: i64,
    pub vx: i64,
    pub vy: i64,
}

/// A paddle: where it is, and the velocity at which it got there during the
/// last step. The velocity only feeds the impulse that the paddle gives the
/// puck; it is never integrated.
#[derive(Clone, Copy, Debug, PartialEq, Eq, Structural)]
pub struct Paddle {
    pub x: i64,
    pub y: i64,
    pub pvx: i64,
    pub pvy: i64,
}

/// `a` lies within `limit` of zero.
pub open spec fn within(a: int, limit: int) -> bool {
    -limit <= a <= limit
}

/// The magnitudes of the two components of a velocity, added up. It bounds
/// each component, and a collision enlarges it by a fixed factor at most.
#[verifier::opaque]
pub open spec fn heft(vx: int, vy: int) -> int {
    (if vx >= 0 {
        vx
    } else {
        -vx
    }) + (if vy >= 0 {
        vy
    } else {
        -vy
    })
}

/// Components within `limit` of zero have a heft of at most twice `limit`.
pub proof fn lemma_heft_of_components(vx: int, vy: int, limit: int)
    requires
        within(vx, limit),
        within(vy, limit),
    ensures
        0 <= heft(vx, vy) <= 2 * limit,
{
    reveal(heft);
}

/// Each component lies within the heft of zero.
pub proof fn lemma_components_of_heft(vx: int, vy: int)
    ensures
        within(vx, heft(vx, vy)),
        within(vy, heft(vx, vy)),
        heft(vx, vy) >= 0,
{
    reveal(heft);
}

/// The heft is the two magnitudes added up.
pub proof fn lemma_heft_is(vx: int, vy: int)
    ensures
        heft(vx, vy) == mag(vx) + mag(vy),
{
    reveal(heft);
}

/// A velocity that changes by at most `swing` in each component gains at
/// most twice `swing` in heft.
pub proof fn lemma_heft_after_swing(vx: int, vy: int, ax: int, ay: int, swing: int)
    requires
        within(ax, swing),
        within(ay, swing),
    ensures
        heft(vx - ax, vy - ay) <= heft(vx, vy) + 2 * swing,
{
    reveal(heft);
}

/// The heft of a difference is at most the two hefts together.
pub proof fn lemma_heft_of_difference(vx: int, vy: int, wx: int, wy: int)
    ensures
        0 <= heft(vx - wx, vy - wy) <= heft(vx, vy) + heft(wx, wy),
{
    reveal(heft);
}

impl Puck {
    /// The puck at rest in the middle of the field.
    pub open spec fn centred() -> Puck {
        Puck { x: MID_X, y: MID_Y, vx: 0, vy: 0 }
    }

    /// The position lies within `pos` of the origin and the velocity within
    /// `vel` of zero, component by component.
    pub open spec fn bounded(self, pos: int, vel: int) -> bool {
        &&& within(self.x as int, pos)
        &&& within(self.y as int, pos)
        &&& within(self.vx as int, vel)
        &&& within(self.vy as int, vel)
    }

    /// The heft of the puck's velocity.
    pub open spec fn heft(self) -> int {
        heft(self.vx as int, self.vy as int)
    }

    /// The square of the puck's speed.
    pub open spec fn speed_sq(self) -> int {
        self.vx * self.vx + self.vy * self.vy
    }

    /// The puck at rest in the middle of the field.
    pub fn at_centre() -> (p: Puck)
        ensures
            p == Puck::centred(),
    {
        Puck { x: MID_X, y: MID_Y, vx: 0, vy: 0 }
    }
}

impl Paddle {
    /// The heft of the paddle's velocity.
    pub open spec fn heft(self) -> int {
        heft(self.pvx as int, self.pvy as int)
    }

    /// The position lies within `pos` of the origin and the velocity within
    /// `vel` of zero, component by component.
    pub open spec fn bounded(self, pos: int, vel: int) -> bool {
        &&& within(self.x as int, pos)
        &&& within(self.y as int, pos)
        &&& within(self.pvx as int, vel)
        &&& within(self.pvy as int, vel)
    }
}

} // verus!
