//! What the loop around a match decides from tick to tick: how long the step
//! is, which message from the other peer counts, when a report goes out, and
//! when a match may start at all. The loop itself, with its clock and its
//! sockets, is the caller's.

use vstd::prelude::*;
use crate::field::{within, MAX_DT, MID_X, POS_LIMIT};
use crate::fixed::{clamp, clamped};
use crate::game::{GameState, PeerMessage, RenderState, GUEST_START_Y, HOST_START_Y};

verus! {

/// The time from one tick to the next, in nanoseconds: sixty ticks a second.
pub const TICK_NANOS: u64 = 16_666_667;

/// A report goes out with every tick whose number this divides.
pub const SEND_EVERY: u8 = 3;

/// Whether a match runs, and where the player points.
#[derive(Clone, Copy, Debug, PartialEq, Eq)]
pub struct GameEngine {
    pub running: bool,
    pub pointer: [i64; 2],
}

/// A running match and its count of ticks since the last report.
#[derive(Clone, Copy, Debug, PartialEq, Eq)]
pub struct Session {
    pub game: GameState,
    /// Ticks since the last report, below `SEND_EVERY`.
    pub net_tick: u8,
}

/// What one tick hands the caller: what to show, and what to send if
/// anything.
#[derive(Clone, Copy, Debug, PartialEq, Eq)]
pub struct Frame {
    pub render: RenderState,
    pub outbound: Option<PeerMessage>,
}

/// The length of the step for a tick that comes `elapsed` microseconds
/// after the last: the time that passed, but at least one microsecond and at
/// most `MAX_DT`, so that a stall does not turn into one huge step.
pub open spec fn frame_dt(elapsed: int) -> int {
    clamped(elapsed, 1, MAX_DT as int)
}

/// Where the pointer of a player starts: on the player's own paddle.
pub open spec fn start_pointer(is_host: bool) -> [i64; 2] {
    if is_host {
        [MID_X, HOST_START_Y]
    } else {
        [MID_X, GUEST_START_Y]
    }
}

/// The place in `msgs` of the last message whose numbers are all in range,
/// if there is one.
pub open spec fn latest_in_range(msgs: Seq<PeerMessage>) -> Option<int>
    decreases msgs.len(),
{
    if msgs.len() == 0 {
        None
    } else if msgs.last().in_range() {
        Some(msgs.len() - 1)
    } else {
        latest_in_range(msgs.drop_last())
    }
}

/// The match after the messages that came in since the last tick: only the
/// last one that is in range counts, the older ones are stale.
pub open spec fn caught_up(game: GameState, msgs: Seq<PeerMessage>) -> GameState {
    match latest_in_range(msgs) {
        Some(i) => game.received(msgs[i]),
        None => game,
    }
}

/// The count of ticks since the last report, one tick after `n`.
pub open spec fn next_net_tick(n: u8) -> u8 {
    if n + 1 >= SEND_EVERY {
        0
    } else {
        (n + 1) as u8
    }
}

impl GameEngine {
    /// No match runs, and the pointer rests where the host's paddle starts.
    pub open spec fn idle() -> GameEngine {
        GameEngine { running: false, pointer: [MID_X, HOST_START_Y] }
    }

    /// An engine in which no match runs.
    pub fn new() -> (e: GameEngine)
        ensures
            e == GameEngine::idle(),
    {
        let e = GameEngine { running: false, pointer: [MID_X, HOST_START_Y] };
        e
    }
}

impl Session {
    /// The match can be stepped, and the count of ticks is in order.
    pub open spec fn wf(self) -> bool {
        self.game.wf() && self.net_tick < SEND_EVERY
    }

    /// A counter of goals has reached the largest number that it can hold:
    /// the match cannot go on.
    pub open spec fn exhausted(game: GameState) -> bool {
        game.score[0] == u32::MAX || game.score[1] == u32::MAX
    }

    /// The session after a tick that comes `elapsed` microseconds after the
    /// last, with the messages `msgs` come in and the pointer at `(px, py)`;
    /// and what the tick hands the caller.
    ///
    /// The last message in range is taken in. If a counter of goals is then
    /// exhausted, the match ends here: nothing else changes and nothing is
    /// handed out. Otherwise the match advances by `frame_dt(elapsed)`, with
    /// the pointer held within `POS_LIMIT`; every third tick the peer's report
    /// goes out; and every tick the new state is shown.
    pub open spec fn ticked(self, elapsed: int, msgs: Seq<PeerMessage>, px: int, py: int) -> (
        Session,
        Option<Frame>,
    ) {
        let heard = caught_up(self.game, msgs);
        if Session::exhausted(heard) {
            (Session { game: heard, net_tick: self.net_tick }, None)
        } else {
            let game = heard.stepped(
                frame_dt(elapsed),
                clamped(px, -POS_LIMIT, POS_LIMIT as int),
                clamped(py, -POS_LIMIT, POS_LIMIT as int),
            );
            let n = next_net_tick(self.net_tick);
            (
                Session { game, net_tick: n },
                Some(
                    Frame {
                        render: game.rendered(),
                        outbound: if n == 0 {
                            game.outgoing()
                        } else {
                            None
                        },
                    },
                ),
            )
        }
    }

    /// Advances the session by one tick; `None` says that the match has
    /// ended.
    pub fn tick(&mut self, elapsed: u64, inbound: &Vec<PeerMessage>, pointer: [i64; 2]) -> (frame:
        Option<Frame>)
        requires
            old(self).wf(),
        ensures
            (*final(self), frame) == old(self).ticked(
                elapsed as int,
                inbound@,
                pointer[0] as int,
                pointer[1] as int,
            ),
            final(self).wf(),
            frame is None <==> Session::exhausted(caught_up(old(self).game, inbound@)),
    {
        match find_latest_in_range(inbound) {
            Some(i) => {
                self.game.apply_net(&inbound[i]);
            },
            None => {},
        }
        if self.game.score[0] == u32::MAX || self.game.score[1] == u32::MAX {
            return None;
        }
        let dt: u32 = frame_time(elapsed);
        let ptr: [i64; 2] = [
            clamp(pointer[0], -POS_LIMIT, POS_LIMIT),
            clamp(pointer[1], -POS_LIMIT, POS_LIMIT),
        ];
        self.game.update(dt, ptr);
        self.net_tick = if self.net_tick + 1 >= SEND_EVERY {
            0
        } else {
            self.net_tick + 1
        };
        let outbound: Option<PeerMessage> = if self.net_tick == 0 {
            self.game.net_msg()
        } else {
            None
        };
        Some(Frame { render: self.game.to_render(), outbound })
    }
}

/// The length of the step for a tick that comes `elapsed` microseconds
/// after the last.
pub fn frame_time(elapsed: u64) -> (dt: u32)
    ensures
        dt == frame_dt(elapsed as int),
        1 <= dt <= MAX_DT,
{
    if elapsed < 1 {
        1
    } else if elapsed > MAX_DT as u64 {
        MAX_DT
    } else {
        elapsed as u32
    }
}

/// The place in `msgs` of the last message whose numbers are all in range,
/// if there is one.
pub fn find_latest_in_range(msgs: &Vec<PeerMessage>) -> (found: Option<usize>)
    ensures
        match found {
            Some(i) => latest_in_range(msgs@) == Some(i as int),
            None => latest_in_range(msgs@) is None,
        },
        found matches Some(i) ==> i < msgs.len() && msgs[i as int].in_range() && forall|j: int|
            i < j < msgs.len() ==> !(#[trigger] msgs[j]).in_range(),
        found is None ==> forall|j: int| 0 <= j < msgs.len() ==> !(#[trigger] msgs[j]).in_range(),
{
    let mut i: usize = msgs.len();
    assert(msgs@.take(i as int) =~= msgs@);
    while i > 0
        invariant
            i <= msgs.len(),
            latest_in_range(msgs@) == latest_in_range(msgs@.take(i as int)),
            forall|j: int| i <= j < msgs.len() ==> !(#[trigger] msgs[j]).in_range(),
        decreases i,
    {
        proof {
            let head = msgs@.take(i as int);
            assert(head.drop_last() =~= msgs@.take(i - 1));
        }
        if msgs[i - 1].is_in_range() {
            return Some(i - 1);
        }
        i = i - 1;
    }
    None
}

/// Starts a match unless one runs already. A match that starts finds the
/// pointer on the player's own paddle.
pub fn start_game(engine: &mut GameEngine, is_host: bool, is_single_player: bool) -> (session:
    Option<Session>)
    ensures
        old(engine).running ==> session is None && *final(engine) == *old(engine),
        !old(engine).running ==> *final(engine) == (GameEngine {
            running: true,
            pointer: start_pointer(is_host),
        }) && session == Some(
            Session { game: GameState::initial(is_host, is_single_player), net_tick: 0 },
        ),
        session matches Some(s) ==> s.wf(),
{
    if engine.running {
        return None;
    }
    engine.running = true;
    engine.pointer = if is_host {
        [MID_X, HOST_START_Y]
    } else {
        [MID_X, GUEST_START_Y]
    };
    Some(Session { game: GameState::new(is_host, is_single_player), net_tick: 0 })
}

/// Asks the running match to stop.
pub fn stop_game(engine: &mut GameEngine)
    ensures
        *final(engine) == (GameEngine { running: false, ..*old(engine) }),
{
    engine.running = false;
}

/// Notes where the player points.
pub fn set_pointer(engine: &mut GameEngine, x: i64, y: i64)
    ensures
        final(engine).running == old(engine).running,
        final(engine).pointer@ == seq![x, y],
{
    engine.pointer = [x, y];
}

} // verus!
