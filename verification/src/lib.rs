//! The simulation and synchronisation core of a two-player puck game.
//!
//! Two peers, or one player and a built-in opponent, play on a field with
//! rounded corners and a goal at each end. Each peer simulates the whole
//! match. For the paddles each peer trusts its own pointer and the other's
//! reports. For the puck the peers take turns: whoever has the puck in its
//! half of the field runs the full simulation and reports the result; the
//! other reckons the puck forward on its own and lets the reports correct it.
//! Nothing is retransmitted and nothing is negotiated.
//!
//! All quantities are whole numbers, so that every step is exact and the two
//! peers compute alike: lengths in thousandths of a field unit, velocities in
//! thousandths of a unit per second, time in microseconds (see [`field`]).
//!
//! - [`fixed`]: division with stated rounding, square roots, projections.
//! - [`field`]: the dimensions of the field, the puck and the paddles.
//! - [`collide`]: the puck against a paddle, a rounded corner, a goalpost.
//! - [`motion`]: free flight, friction, straight walls, speed limits, and the
//!   correction toward a reported puck.
//! - [`paddle`]: how each paddle moves.
//! - [`step`]: one step of the puck, in charge of it or not.
//! - [`game`]: the state of a match, its tick, and its messages.
//! - [`driver`]: what the loop around a match decides.
//! - [`relay`]: the lines exchanged with the pairing service.
//! - [`netif`]: which local addresses to offer to a guest.
//! - [`laws`]: what holds of all this, as theorems.

pub mod collide;
pub mod driver;
pub mod field;
pub mod fixed;
pub mod game;
pub mod laws;
pub mod motion;
pub mod netif;
pub mod paddle;
pub mod relay;
pub mod step;
