//! The state of one match as one peer holds it, and its step from tick to
//! tick.
//!
//! Who is in charge of the puck is never negotiated: a peer is in charge
//! while the puck is in its own half of the field, as that peer sees it.

use vstd::prelude::*;
use crate::field::{
    within, Paddle, Puck, FIELD_H, MAX_DT, MID_X, MILLION, PADDLE_VEL_LIMIT, POS_LIMIT, PUCK_LIMIT,
    VEL_LIMIT,
};
use crate::fixed::{floor_sqrt, length, sum_sq, trunc_div};
use crate::motion::{speed_in_band, Exit};
use crate::paddle::{chase, chased, follow, followed, in_own_half, steer, steered};
use crate::step::{in_play_or_pushed, local_step, remote_step, step_local, step_remote, Feedback};

verus! {

/// Where the host's paddle starts, and its pointer.
pub const HOST_START_Y: i64 = 520_000;

/// Where the guest's paddle starts, and its pointer.
pub const GUEST_START_Y: i64 = 120_000;

/// What a peer tells the other.
#[derive(Clone, Copy, Debug, PartialEq, Eq, Structural)]
pub enum MessageKind {
    /// The host's report: its paddle and the puck as it sees it.
    State,
    /// The guest's report: its paddle, and the puck while the guest is in
    /// charge of it.
    Input,
    /// Anything else; it is read and ignored.
    Other,
}

/// A message between the peers, with each field that may be missing.
#[derive(Clone, Copy, Debug, PartialEq, Eq)]
pub struct PeerMessage {
    pub kind: MessageKind,
    /// The sender's paddle.
    pub paddle: Option<[i64; 2]>,
    /// The puck's position.
    pub puck: Option<[i64; 2]>,
    /// The puck's velocity.
    pub vel: Option<[i64; 2]>,
    /// The score.
    pub score: Option<[u32; 2]>,
}

/// What is shown of the match after a tick.
#[derive(Clone, Copy, Debug, PartialEq, Eq)]
pub struct RenderState {
    pub puck: [i64; 2],
    pub puck_speed: i64,
    pub host_paddle: [i64; 2],
    pub client_paddle: [i64; 2],
    pub score: [u32; 2],
    pub wall_flash: i64,
    pub goal_flash: i64,
    pub score_flash: [i64; 2],
    /// 1 if a paddle turned the puck during this tick.
    pub hit: u8,
    /// 1 if the puck touched a wall during this tick.
    pub wall_hit: u8,
    /// 1 if a goal fell during this tick.
    pub goal_scored: u8,
}

/// One match, as one peer holds it.
#[derive(Clone, Copy, Debug, PartialEq, Eq)]
pub struct GameState {
    pub puck: Puck,
    pub host_paddle: Paddle,
    pub client_paddle: Paddle,
    /// Goals so far: first those through the bottom goal, which the host
    /// defends, then those through the top goal.
    pub score: [u32; 2],
    /// The puck as the other peer last reported it.
    pub target_puck: Puck,
    /// The other peer's paddle as that peer last reported it.
    pub target_opponent: [i64; 2],
    pub wall_flash: i64,
    pub goal_flash: i64,
    pub score_flash: [i64; 2],
    pub hit: u8,
    pub wall_hit: u8,
    pub goal_scored: u8,
    /// This peer was in charge of the puck during the last tick.
    pub prev_auth: bool,
    pub is_host: bool,
    pub is_single: bool,
}

/// Whether a peer is in charge of a puck at height `puck_y` on a field of
/// height `field_height`: always when it plays alone; else the host while the
/// puck is on the centre line or below it, and the guest while it is above.
pub open spec fn authoritative(is_single: bool, is_host: bool, puck_y: int, field_height: int) -> bool {
    is_single || (is_host == (2 * puck_y >= field_height))
}

/// A visual effect of strength `level` after it lost `loss`.
pub open spec fn faded(level: int, loss: int) -> int {
    if level - loss > 0 {
        level - loss
    } else {
        0
    }
}

/// The score after the puck left the field through `exit`: a puck that left
/// through the bottom goal counts for the side at the top, which is the first
/// counter, and one that left through the top goal for the second.
pub open spec fn scored(score: [u32; 2], exit: Exit) -> [u32; 2] {
    match exit {
        Exit::Nowhere => score,
        Exit::Bottom => [(score[0] + 1) as u32, score[1]],
        Exit::Top => [score[0], (score[1] + 1) as u32],
    }
}

/// The per-side flashes after the puck left the field through `exit`.
pub open spec fn flashed(flash: [i64; 2], exit: Exit) -> [i64; 2] {
    match exit {
        Exit::Nowhere => flash,
        Exit::Bottom => [MILLION, flash[1]],
        Exit::Top => [flash[0], MILLION],
    }
}

/// 1 for `true`, 0 for `false`.
pub open spec fn flag(b: bool) -> u8 {
    if b {
        1
    } else {
        0
    }
}

impl PeerMessage {
    /// Every number of the message is one that a match can hold.
    pub open spec fn in_range(self) -> bool {
        &&& self.paddle matches Some(p) ==> within(p[0] as int, POS_LIMIT as int) && within(
            p[1] as int,
            POS_LIMIT as int,
        )
        &&& self.puck matches Some(p) ==> within(p[0] as int, POS_LIMIT as int) && within(
            p[1] as int,
            POS_LIMIT as int,
        )
        &&& self.vel matches Some(v) ==> within(v[0] as int, VEL_LIMIT as int) && within(
            v[1] as int,
            VEL_LIMIT as int,
        )
    }

    /// Whether every number of the message is one that a match can hold.
    pub fn is_in_range(&self) -> (r: bool)
        ensures
            r == self.in_range(),
    {
        let paddle_ok: bool = match self.paddle {
            Some(p) => -POS_LIMIT <= p[0] && p[0] <= POS_LIMIT && -POS_LIMIT <= p[1] && p[1]
                <= POS_LIMIT,
            None => true,
        };
        let puck_ok: bool = match self.puck {
            Some(p) => -POS_LIMIT <= p[0] && p[0] <= POS_LIMIT && -POS_LIMIT <= p[1] && p[1]
                <= POS_LIMIT,
            None => true,
        };
        let vel_ok: bool = match self.vel {
            Some(v) => -VEL_LIMIT <= v[0] && v[0] <= VEL_LIMIT && -VEL_LIMIT <= v[1] && v[1]
                <= VEL_LIMIT,
            None => true,
        };
        paddle_ok && puck_ok && vel_ok
    }
}

/// The pair that a field of a message holds, from its entries as they came:
/// each a number, or `None` for anything else. A field with fewer than two
/// entries holds no pair and counts as missing; an entry that is no number
/// counts as zero; entries after the second are ignored.
pub open spec fn pair_in(entries: Seq<Option<i64>>) -> Option<[i64; 2]> {
    if entries.len() < 2 {
        None
    } else {
        Some(
            [
                match entries[0] {
                    Some(v) => v,
                    None => 0,
                },
                match entries[1] {
                    Some(v) => v,
                    None => 0,
                },
            ],
        )
    }
}

/// The counter that an entry of the score holds: the number's lowest 32
/// bits, or zero for anything that is no number.
pub open spec fn counter_in(entry: Option<u64>) -> u32 {
    match entry {
        Some(v) => (v % 0x1_0000_0000) as u32,
        None => 0,
    }
}

/// The score that a field of a message holds, from its entries as they came.
/// A field with fewer than two entries holds none and counts as missing.
pub open spec fn score_in(entries: Seq<Option<u64>>) -> Option<[u32; 2]> {
    if entries.len() < 2 {
        None
    } else {
        Some([counter_in(entries[0]), counter_in(entries[1])])
    }
}

/// The pair that a field of a message holds.
pub fn pair_of(entries: &Vec<Option<i64>>) -> (pair: Option<[i64; 2]>)
    ensures
        pair == pair_in(entries@),
{
    if entries.len() < 2 {
        return None;
    }
    let a: i64 = match entries[0] {
        Some(v) => v,
        None => 0,
    };
    let b: i64 = match entries[1] {
        Some(v) => v,
        None => 0,
    };
    let pair: [i64; 2] = [a, b];
    assert(pair@ =~= pair_in(entries@)->Some_0@);
    Some(pair)
}

/// The counter that an entry of the score holds.
pub fn counter_of(entry: Option<u64>) -> (n: u32)
    ensures
        n == counter_in(entry),
{
    match entry {
        Some(v) => (v % 0x1_0000_0000) as u32,
        None => 0,
    }
}

/// The score that a field of a message holds.
pub fn score_of(entries: &Vec<Option<u64>>) -> (score: Option<[u32; 2]>)
    ensures
        score == score_in(entries@),
{
    if entries.len() < 2 {
        return None;
    }
    let score: [u32; 2] = [counter_of(entries[0]), counter_of(entries[1])];
    assert(score@ =~= score_in(entries@)->Some_0@);
    Some(score)
}

/// Whether a peer is in charge of a puck at height `puck_y` on a field of
/// height `field_height`.
pub fn is_authoritative(is_single: bool, is_host: bool, puck_y: i64, field_height: i64) -> (r: bool)
    ensures
        r == authoritative(is_single, is_host, puck_y as int, field_height as int),
{
    let twice: i128 = 2 * (puck_y as i128);
    is_single || (is_host == (twice >= field_height as i128))
}

/// A visual effect of strength `level` after it lost `loss`.
pub fn fade(level: i64, loss: i64) -> (r: i64)
    requires
        0 <= level <= MILLION,
        0 <= loss,
    ensures
        r == faded(level as int, loss as int),
        0 <= r <= level,
{
    if level > loss {
        level - loss
    } else {
        0
    }
}

impl GameState {
    /// Every number of the state is one that a step can work with: the
    /// positions and velocities within their limits, the effects between
    /// nothing and full strength.
    pub open spec fn wf(self) -> bool {
        &&& self.puck.bounded(PUCK_LIMIT as int, VEL_LIMIT as int)
        &&& self.host_paddle.bounded(POS_LIMIT as int, PADDLE_VEL_LIMIT as int)
        &&& self.client_paddle.bounded(POS_LIMIT as int, PADDLE_VEL_LIMIT as int)
        &&& self.target_puck.bounded(POS_LIMIT as int, VEL_LIMIT as int)
        &&& within(self.target_opponent[0] as int, POS_LIMIT as int)
        &&& within(self.target_opponent[1] as int, POS_LIMIT as int)
        &&& 0 <= self.wall_flash <= MILLION
        &&& 0 <= self.goal_flash <= MILLION
        &&& 0 <= self.score_flash[0] <= MILLION
        &&& 0 <= self.score_flash[1] <= MILLION
    }

    /// A match at its start, for the host or the guest, alone or with a peer.
    pub open spec fn initial(is_host: bool, is_single: bool) -> GameState {
        GameState {
            puck: Puck::centred(),
            host_paddle: Paddle { x: MID_X, y: HOST_START_Y, pvx: 0, pvy: 0 },
            client_paddle: Paddle { x: MID_X, y: GUEST_START_Y, pvx: 0, pvy: 0 },
            score: [0, 0],
            target_puck: Puck::centred(),
            target_opponent: if is_host {
                [MID_X, GUEST_START_Y]
            } else {
                [MID_X, HOST_START_Y]
            },
            wall_flash: 0,
            goal_flash: 0,
            score_flash: [0, 0],
            hit: 0,
            wall_hit: 0,
            goal_scored: 0,
            prev_auth: is_single || is_host,
            is_host,
            is_single,
        }
    }

    /// This peer's own paddle stands in this peer's half of the field, and so
    /// does the paddle of the built-in opponent.
    pub open spec fn own_paddle_at_home(self) -> bool {
        &&& self.is_host ==> in_own_half(self.host_paddle, true)
        &&& !self.is_host || self.is_single ==> in_own_half(self.client_paddle, false)
    }

    /// Whether this peer is in charge of the puck.
    pub open spec fn in_charge(self) -> bool {
        authoritative(self.is_single, self.is_host, self.puck.y as int, FIELD_H as int)
    }

    /// The two paddles, the host's and the guest's, after a tick of `dt`
    /// microseconds with the pointer at `(tx, ty)`. This peer's own paddle
    /// follows the pointer. Then the other one moves: the built-in opponent,
    /// which plays the guest's paddle, after the puck; the paddle of a peer
    /// after what that peer last reported.
    pub open spec fn paddles_moved(self, dt: int, tx: int, ty: int) -> (Paddle, Paddle) {
        let host = if self.is_host {
            steered(self.host_paddle, tx, ty, true, dt)
        } else {
            self.host_paddle
        };
        let client = if self.is_host {
            self.client_paddle
        } else {
            steered(self.client_paddle, tx, ty, false, dt)
        };
        if self.is_single {
            (host, chased(client, self.puck, dt))
        } else if self.is_host {
            (
                host,
                followed(
                    client,
                    self.target_opponent[0] as int,
                    self.target_opponent[1] as int,
                    dt,
                ),
            )
        } else {
            (
                followed(host, self.target_opponent[0] as int, self.target_opponent[1] as int, dt),
                client,
            )
        }
    }

    /// The match after a tick of `dt` microseconds with the pointer at
    /// `(tx, ty)`.
    ///
    /// The paddles move first. Then the puck: by a full step of the
    /// simulation if this peer is in charge of it, judged by where the puck
    /// is before the tick; by dead reckoning and correction if not. A goal
    /// counts, and flashes, only in a full step. Last, the visual effects
    /// fade: the wall flash by 7 per second, the goal flash by 2.5, the
    /// per-side flashes by 1.8.
    pub open spec fn stepped(self, dt: int, tx: int, ty: int) -> GameState {
        let (host, client) = self.paddles_moved(dt, tx, ty);
        if self.in_charge() {
            let o = local_step(self.puck, host, client, dt);
            let lit = flashed(self.score_flash, o.exit);
            GameState {
                puck: o.puck,
                host_paddle: host,
                client_paddle: client,
                score: scored(self.score, o.exit),
                wall_flash: faded(
                    if o.wall_hit {
                        MILLION as int
                    } else {
                        self.wall_flash as int
                    },
                    7 * dt,
                ) as i64,
                goal_flash: faded(
                    if o.exit != Exit::Nowhere {
                        MILLION as int
                    } else {
                        self.goal_flash as int
                    },
                    trunc_div(5 * dt, 2),
                ) as i64,
                score_flash: [
                    faded(lit[0] as int, trunc_div(9 * dt, 5)) as i64,
                    faded(lit[1] as int, trunc_div(9 * dt, 5)) as i64,
                ],
                hit: flag(o.paddle_hit),
                wall_hit: flag(o.wall_hit),
                goal_scored: flag(o.exit != Exit::Nowhere),
                prev_auth: true,
                ..self
            }
        } else {
            GameState {
                puck: remote_step(self.puck, self.target_puck, self.prev_auth, dt),
                host_paddle: host,
                client_paddle: client,
                wall_flash: faded(self.wall_flash as int, 7 * dt) as i64,
                goal_flash: faded(self.goal_flash as int, trunc_div(5 * dt, 2)) as i64,
                score_flash: [
                    faded(self.score_flash[0] as int, trunc_div(9 * dt, 5)) as i64,
                    faded(self.score_flash[1] as int, trunc_div(9 * dt, 5)) as i64,
                ],
                hit: 0,
                wall_hit: 0,
                goal_scored: 0,
                prev_auth: false,
                ..self
            }
        }
    }

    /// The match after `msg` came in.
    ///
    /// A message with a number out of range changes nothing, nor does one
    /// that is not meant for this peer: the host reads the guest's input,
    /// the guest reads the host's state. Of a message that is read, each
    /// field that is there replaces what was held; the puck's position and
    /// velocity count only together.
    pub open spec fn received(self, msg: PeerMessage) -> GameState {
        let meant = (self.is_host && msg.kind == MessageKind::Input) || (!self.is_host && msg.kind
            == MessageKind::State);
        if !msg.in_range() || !meant {
            self
        } else {
            GameState {
                target_opponent: match msg.paddle {
                    Some(p) => p,
                    None => self.target_opponent,
                },
                target_puck: match (msg.puck, msg.vel) {
                    (Some(p), Some(v)) => Puck { x: p[0], y: p[1], vx: v[0], vy: v[1] },
                    _ => self.target_puck,
                },
                score: match msg.score {
                    Some(s) => s,
                    None => self.score,
                },
                ..self
            }
        }
    }

    /// What this peer tells the other, if anything.
    ///
    /// Alone, nothing. The host always reports its paddle, the puck and the
    /// score. The guest always reports its paddle, and the puck and the
    /// score while it is in charge of the puck.
    pub open spec fn outgoing(self) -> Option<PeerMessage> {
        if self.is_single {
            None
        } else if self.is_host {
            Some(
                PeerMessage {
                    kind: MessageKind::State,
                    paddle: Some([self.host_paddle.x, self.host_paddle.y]),
                    puck: Some([self.puck.x, self.puck.y]),
                    vel: Some([self.puck.vx, self.puck.vy]),
                    score: Some(self.score),
                },
            )
        } else if self.in_charge() {
            Some(
                PeerMessage {
                    kind: MessageKind::Input,
                    paddle: Some([self.client_paddle.x, self.client_paddle.y]),
                    puck: Some([self.puck.x, self.puck.y]),
                    vel: Some([self.puck.vx, self.puck.vy]),
                    score: Some(self.score),
                },
            )
        } else {
            Some(
                PeerMessage {
                    kind: MessageKind::Input,
                    paddle: Some([self.client_paddle.x, self.client_paddle.y]),
                    puck: None,
                    vel: None,
                    score: None,
                },
            )
        }
    }

    /// What is shown of the match; the puck's speed is rounded down.
    pub open spec fn rendered(self) -> RenderState {
        RenderState {
            puck: [self.puck.x, self.puck.y],
            puck_speed: floor_sqrt(sum_sq(self.puck.vx as int, self.puck.vy as int)) as i64,
            host_paddle: [self.host_paddle.x, self.host_paddle.y],
            client_paddle: [self.client_paddle.x, self.client_paddle.y],
            score: self.score,
            wall_flash: self.wall_flash,
            goal_flash: self.goal_flash,
            score_flash: self.score_flash,
            hit: self.hit,
            wall_hit: self.wall_hit,
            goal_scored: self.goal_scored,
        }
    }

    /// A match at its start.
    pub fn new(is_host: bool, is_single: bool) -> (s: GameState)
        ensures
            s == GameState::initial(is_host, is_single),
            s.wf(),
    {
        let s = GameState {
            puck: Puck::at_centre(),
            host_paddle: Paddle { x: MID_X, y: HOST_START_Y, pvx: 0, pvy: 0 },
            client_paddle: Paddle { x: MID_X, y: GUEST_START_Y, pvx: 0, pvy: 0 },
            score: [0, 0],
            target_puck: Puck::at_centre(),
            target_opponent: if is_host {
                [MID_X, GUEST_START_Y]
            } else {
                [MID_X, HOST_START_Y]
            },
            wall_flash: 0,
            goal_flash: 0,
            score_flash: [0, 0],
            hit: 0,
            wall_hit: 0,
            goal_scored: 0,
            prev_auth: is_single || is_host,
            is_host,
            is_single,
        };
        s
    }

    /// Whether every number of the state is one that a step can work with.
    pub fn is_valid(&self) -> (r: bool)
        ensures
            r == self.wf(),
    {
        let p: &Puck = &self.puck;
        let t: &Puck = &self.target_puck;
        let h: &Paddle = &self.host_paddle;
        let c: &Paddle = &self.client_paddle;
        let puck_ok: bool = -PUCK_LIMIT <= p.x && p.x <= PUCK_LIMIT && -PUCK_LIMIT <= p.y && p.y
            <= PUCK_LIMIT && -VEL_LIMIT <= p.vx && p.vx <= VEL_LIMIT && -VEL_LIMIT <= p.vy && p.vy
            <= VEL_LIMIT;
        let target_ok: bool = -POS_LIMIT <= t.x && t.x <= POS_LIMIT && -POS_LIMIT <= t.y && t.y
            <= POS_LIMIT && -VEL_LIMIT <= t.vx && t.vx <= VEL_LIMIT && -VEL_LIMIT <= t.vy && t.vy
            <= VEL_LIMIT;
        let host_ok: bool = -POS_LIMIT <= h.x && h.x <= POS_LIMIT && -POS_LIMIT <= h.y && h.y
            <= POS_LIMIT && -PADDLE_VEL_LIMIT <= h.pvx && h.pvx <= PADDLE_VEL_LIMIT
            && -PADDLE_VEL_LIMIT <= h.pvy && h.pvy <= PADDLE_VEL_LIMIT;
        let client_ok: bool = -POS_LIMIT <= c.x && c.x <= POS_LIMIT && -POS_LIMIT <= c.y && c.y
            <= POS_LIMIT && -PADDLE_VEL_LIMIT <= c.pvx && c.pvx <= PADDLE_VEL_LIMIT
            && -PADDLE_VEL_LIMIT <= c.pvy && c.pvy <= PADDLE_VEL_LIMIT;
        let opponent_ok: bool = -POS_LIMIT <= self.target_opponent[0] && self.target_opponent[0]
            <= POS_LIMIT && -POS_LIMIT <= self.target_opponent[1] && self.target_opponent[1]
            <= POS_LIMIT;
        let effects_ok: bool = 0 <= self.wall_flash && self.wall_flash <= MILLION && 0
            <= self.goal_flash && self.goal_flash <= MILLION && 0 <= self.score_flash[0]
            && self.score_flash[0] <= MILLION && 0 <= self.score_flash[1] && self.score_flash[1]
            <= MILLION;
        puck_ok && target_ok && host_ok && client_ok && opponent_ok && effects_ok
    }

    /// Whether this peer is in charge of the puck.
    pub fn auth(&self) -> (r: bool)
        ensures
            r == self.in_charge(),
    {
        is_authoritative(self.is_single, self.is_host, self.puck.y, FIELD_H)
    }

    /// Puts the puck at rest in the middle of the field.
    pub fn reset_puck(&mut self)
        ensures
            *final(self) == (GameState { puck: Puck::centred(), ..*old(self) }),
    {
        self.puck = Puck::at_centre();
    }

    /// Moves the two paddles by a tick of `dt` microseconds with the pointer
    /// at `ptr`.
    pub fn move_paddles(&mut self, dt: u32, ptr: [i64; 2])
        requires
            old(self).wf(),
            1 <= dt <= MAX_DT,
            within(ptr[0] as int, POS_LIMIT as int),
            within(ptr[1] as int, POS_LIMIT as int),
        ensures
            (final(self).host_paddle, final(self).client_paddle) == old(self).paddles_moved(
                dt as int,
                ptr[0] as int,
                ptr[1] as int,
            ),
            *final(self) == (GameState {
                host_paddle: final(self).host_paddle,
                client_paddle: final(self).client_paddle,
                ..*old(self)
            }),
            final(self).wf(),
            final(self).own_paddle_at_home(),
    {
        let mut host: Paddle = self.host_paddle;
        let mut client: Paddle = self.client_paddle;
        if self.is_host {
            steer(&mut host, ptr[0], ptr[1], true, dt);
        } else {
            steer(&mut client, ptr[0], ptr[1], false, dt);
        }
        if self.is_single {
            chase(&mut client, &self.puck, dt);
        } else if self.is_host {
            follow(&mut client, self.target_opponent[0], self.target_opponent[1], dt);
        } else {
            follow(&mut host, self.target_opponent[0], self.target_opponent[1], dt);
        }
        self.host_paddle = host;
        self.client_paddle = client;
    }

    /// Advances the match by a tick of `dt` microseconds with the pointer at
    /// `ptr`.
    pub fn update(&mut self, dt: u32, ptr: [i64; 2])
        requires
            old(self).wf(),
            1 <= dt <= MAX_DT,
            within(ptr[0] as int, POS_LIMIT as int),
            within(ptr[1] as int, POS_LIMIT as int),
            old(self).score[0] < u32::MAX,
            old(self).score[1] < u32::MAX,
        ensures
            *final(self) == old(self).stepped(dt as int, ptr[0] as int, ptr[1] as int),
            final(self).wf(),
            final(self).own_paddle_at_home(),
            old(self).in_charge() ==> speed_in_band(final(self).puck) && in_play_or_pushed(
                final(self).puck,
                final(self).host_paddle,
                final(self).client_paddle,
            ),
    {
        let auth_now: bool = self.auth();
        self.move_paddles(dt, ptr);
        let host: Paddle = self.host_paddle;
        let client: Paddle = self.client_paddle;
        let mut puck: Puck = self.puck;
        self.hit = 0;
        self.wall_hit = 0;
        self.goal_scored = 0;
        if auth_now {
            let fb: Feedback = step_local(&mut puck, &host, &client, dt);
            if fb.wall_hit {
                self.wall_hit = 1;
                self.wall_flash = MILLION;
            }
            match fb.exit {
                Exit::Nowhere => {},
                Exit::Bottom => {
                    self.score = [self.score[0] + 1, self.score[1]];
                    self.score_flash = [MILLION, self.score_flash[1]];
                    self.goal_scored = 1;
                    self.goal_flash = MILLION;
                },
                Exit::Top => {
                    self.score = [self.score[0], self.score[1] + 1];
                    self.score_flash = [self.score_flash[0], MILLION];
                    self.goal_scored = 1;
                    self.goal_flash = MILLION;
                },
            }
            if fb.paddle_hit {
                self.hit = 1;
            }
        } else {
            let target: Puck = self.target_puck;
            step_remote(&mut puck, &target, self.prev_auth, dt);
        }
        self.puck = puck;
        self.prev_auth = auth_now;
        let t: i64 = dt as i64;
        self.goal_flash = fade(self.goal_flash, (5 * t) / 2);
        self.wall_flash = fade(self.wall_flash, 7 * t);
        self.score_flash = [
            fade(self.score_flash[0], (9 * t) / 5),
            fade(self.score_flash[1], (9 * t) / 5),
        ];
    }

    /// What is shown of the match.
    pub fn to_render(&self) -> (r: RenderState)
        requires
            self.wf(),
        ensures
            r == self.rendered(),
    {
        let r = RenderState {
            puck: [self.puck.x, self.puck.y],
            puck_speed: length(self.puck.vx, self.puck.vy),
            host_paddle: [self.host_paddle.x, self.host_paddle.y],
            client_paddle: [self.client_paddle.x, self.client_paddle.y],
            score: self.score,
            wall_flash: self.wall_flash,
            goal_flash: self.goal_flash,
            score_flash: self.score_flash,
            hit: self.hit,
            wall_hit: self.wall_hit,
            goal_scored: self.goal_scored,
        };
        r
    }

    /// What this peer tells the other, if anything.
    pub fn net_msg(&self) -> (m: Option<PeerMessage>)
        ensures
            m == self.outgoing(),
    {
        if self.is_single {
            return None;
        }
        let puck: [i64; 2] = [self.puck.x, self.puck.y];
        let vel: [i64; 2] = [self.puck.vx, self.puck.vy];
        let m: PeerMessage = if self.is_host {
            PeerMessage {
                kind: MessageKind::State,
                paddle: Some([self.host_paddle.x, self.host_paddle.y]),
                puck: Some(puck),
                vel: Some(vel),
                score: Some(self.score),
            }
        } else if self.auth() {
            PeerMessage {
                kind: MessageKind::Input,
                paddle: Some([self.client_paddle.x, self.client_paddle.y]),
                puck: Some(puck),
                vel: Some(vel),
                score: Some(self.score),
            }
        } else {
            PeerMessage {
                kind: MessageKind::Input,
                paddle: Some([self.client_paddle.x, self.client_paddle.y]),
                puck: None,
                vel: None,
                score: None,
            }
        };
        Some(m)
    }

    /// Takes in a message from the other peer.
    pub fn apply_net(&mut self, msg: &PeerMessage)
        requires
            old(self).wf(),
        ensures
            *final(self) == old(self).received(*msg),
            final(self).wf(),
    {
        if !msg.is_in_range() {
            return ;
        }
        let meant: bool = match msg.kind {
            MessageKind::Input => self.is_host,
            MessageKind::State => !self.is_host,
            MessageKind::Other => false,
        };
        if !meant {
            return ;
        }
        match msg.paddle {
            Some(p) => {
                self.target_opponent = p;
            },
            None => {},
        }
        match msg.puck {
            Some(p) => {
                match msg.vel {
                    Some(v) => {
                        self.target_puck = Puck { x: p[0], y: p[1], vx: v[0], vy: v[1] };
                    },
                    None => {},
                }
            },
            None => {},
        }
        match msg.score {
            Some(s) => {
                self.score = s;
            },
            None => {},
        }
    }
}

} // verus!
