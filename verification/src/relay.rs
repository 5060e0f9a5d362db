//! The words that a peer and the pairing service exchange before a match:
//! one line each, here as bytes without the line's end.
//!
//! A host asks for a room and is told its code; a guest asks to join a room
//! by its code; both are told when the room is full. After that the service
//! only passes lines on.

use vstd::prelude::*;
use rand::Rng;

verus! {

/// Smallest number of a room.
pub const ROOM_MIN: u32 = 1_000;

/// The numbers of rooms end before this one.
pub const ROOM_END: u32 = 9_999;

/// What a peer asks of the pairing service with its first line.
#[derive(Debug, PartialEq, Eq)]
pub enum Command {
    /// A room of its own, to wait in for a guest.
    Host,
    /// The room with this code.
    Join(Vec<u8>),
    /// Nothing that the service knows.
    Unknown,
}

/// What the pairing service answers to a guest.
#[derive(Clone, Copy, Debug, PartialEq, Eq, Structural)]
pub enum JoinReply {
    /// The room was there: the match starts.
    Start,
    /// No such room.
    NotFound,
    /// Something else.
    Unexpected,
}

/// The line `HOST`.
pub open spec fn host_word() -> Seq<u8> {
    seq![0x48u8, 0x4f, 0x53, 0x54]
}

/// The line's beginning `JOIN:`.
pub open spec fn join_prefix() -> Seq<u8> {
    seq![0x4au8, 0x4f, 0x49, 0x4e, 0x3a]
}

/// The line's beginning `ROOM:`.
pub open spec fn room_prefix() -> Seq<u8> {
    seq![0x52u8, 0x4f, 0x4f, 0x4d, 0x3a]
}

/// The line `START`.
pub open spec fn start_word() -> Seq<u8> {
    seq![0x53u8, 0x54, 0x41, 0x52, 0x54]
}

/// The line `ERR`.
pub open spec fn err_word() -> Seq<u8> {
    seq![0x45u8, 0x52, 0x52]
}

/// `line` begins with `prefix`.
pub open spec fn begins_with(line: Seq<u8>, prefix: Seq<u8>) -> bool {
    prefix.len() <= line.len() && line.subrange(0, prefix.len() as int) == prefix
}

/// The decimal digit of `n` at `place`, counted from the thousands, as an
/// ASCII byte.
pub open spec fn room_digit(n: int, place: int) -> u8 {
    let d = if place == 0 {
        n / 1000
    } else if place == 1 {
        (n / 100) % 10
    } else if place == 2 {
        (n / 10) % 10
    } else {
        n % 10
    };
    (0x30 + d) as u8
}

/// The code of room `n`: its four decimal digits.
pub open spec fn room_code(n: int) -> Seq<u8> {
    seq![room_digit(n, 0), room_digit(n, 1), room_digit(n, 2), room_digit(n, 3)]
}

/// The number that four decimal digits stand for.
pub open spec fn room_number(code: Seq<u8>) -> int {
    (code[0] - 0x30) * 1000 + (code[1] - 0x30) * 100 + (code[2] - 0x30) * 10 + (code[3] - 0x30)
}

/// Whether `line` is exactly `word`.
pub fn is_word(line: &[u8], word: &[u8]) -> (r: bool)
    ensures
        r == (line@ == word@),
{
    if line.len() != word.len() {
        return false;
    }
    let mut i: usize = 0;
    while i < word.len()
        invariant
            i <= word.len(),
            line.len() == word.len(),
            line@.subrange(0, i as int) == word@.subrange(0, i as int),
        decreases word.len() - i,
    {
        if line[i] != word[i] {
            return false;
        }
        assert(line@.subrange(0, i + 1) =~= line@.subrange(0, i as int).push(line@[i as int]));
        i = i + 1;
    }
    assert(line@.subrange(0, i as int) =~= line@);
    assert(word@.subrange(0, i as int) =~= word@);
    true
}

/// Whether `line` begins with `prefix`.
pub fn has_prefix(line: &[u8], prefix: &[u8]) -> (r: bool)
    ensures
        r == begins_with(line@, prefix@),
{
    if line.len() < prefix.len() {
        return false;
    }
    let mut i: usize = 0;
    while i < prefix.len()
        invariant
            i <= prefix.len() <= line.len(),
            line@.subrange(0, i as int) == prefix@.subrange(0, i as int),
        decreases prefix.len() - i,
    {
        if line[i] != prefix[i] {
            return false;
        }
        assert(prefix@.subrange(0, i + 1) =~= prefix@.subrange(0, i as int).push(
            prefix@[i as int],
        ));
        i = i + 1;
    }
    assert(prefix@.subrange(0, i as int) =~= prefix@);
    true
}

/// `line` from its byte `from` on.
pub fn rest_of(line: &[u8], from: usize) -> (rest: Vec<u8>)
    requires
        from <= line.len(),
    ensures
        rest@ == line@.subrange(from as int, line.len() as int),
{
    let mut rest: Vec<u8> = Vec::new();
    let mut i: usize = from;
    while i < line.len()
        invariant
            from <= i <= line.len(),
            rest@ == line@.subrange(from as int, i as int),
        decreases line.len() - i,
    {
        rest.push(line[i]);
        assert(line@.subrange(from as int, i + 1) =~= line@.subrange(from as int, i as int).push(
            line@[i as int],
        ));
        i = i + 1;
    }
    rest
}

/// `head` followed by `tail`.
pub fn joined(head: &[u8], tail: &[u8]) -> (line: Vec<u8>)
    ensures
        line@ == head@ + tail@,
{
    let mut line: Vec<u8> = Vec::new();
    let mut i: usize = 0;
    while i < head.len()
        invariant
            i <= head.len(),
            line@ == head@.subrange(0, i as int),
        decreases head.len() - i,
    {
        line.push(head[i]);
        i = i + 1;
    }
    assert(head@.subrange(0, i as int) =~= head@);
    let mut j: usize = 0;
    while j < tail.len()
        invariant
            j <= tail.len(),
            line@ == head@ + tail@.subrange(0, j as int),
        decreases tail.len() - j,
    {
        line.push(tail[j]);
        assert(head@ + tail@.subrange(0, j + 1) =~= (head@ + tail@.subrange(0, j as int)).push(
            tail@[j as int],
        ));
        j = j + 1;
    }
    assert(tail@.subrange(0, j as int) =~= tail@);
    line
}

/// Reads the first line of a peer: `HOST` asks for a room, `JOIN:` and a
/// code asks for the room with that code, and anything else asks for
/// nothing.
pub fn parse_command(line: &[u8]) -> (cmd: Command)
    ensures
        match cmd {
            Command::Host => line@ == host_word(),
            Command::Join(code) => line@ != host_word() && begins_with(line@, join_prefix())
                && code@ == line@.subrange(5, line.len() as int),
            Command::Unknown => line@ != host_word() && !begins_with(line@, join_prefix()),
        },
{
    let host: [u8; 4] = [0x48, 0x4f, 0x53, 0x54];
    let join: [u8; 5] = [0x4a, 0x4f, 0x49, 0x4e, 0x3a];
    if is_word(line, host.as_slice()) {
        Command::Host
    } else if has_prefix(line, join.as_slice()) {
        Command::Join(rest_of(line, 5))
    } else {
        Command::Unknown
    }
}

/// The first line with which a peer asks for `cmd`; none asks for nothing.
pub fn command_line(cmd: &Command) -> (line: Option<Vec<u8>>)
    ensures
        match *cmd {
            Command::Host => line matches Some(l) && l@ == host_word(),
            Command::Join(code) => line matches Some(l) && l@ == join_prefix() + code@,
            Command::Unknown => line is None,
        },
{
    let host: [u8; 4] = [0x48, 0x4f, 0x53, 0x54];
    let join: [u8; 5] = [0x4a, 0x4f, 0x49, 0x4e, 0x3a];
    let none: [u8; 0] = [];
    match cmd {
        Command::Host => {
            let l = joined(host.as_slice(), none.as_slice());
            assert(l@ =~= host_word());
            Some(l)
        },
        Command::Join(code) => Some(joined(join.as_slice(), code.as_slice())),
        Command::Unknown => None,
    }
}

/// The line that tells a host the code of its room: `ROOM:` and the code.
pub fn room_reply(code: &[u8]) -> (line: Vec<u8>)
    ensures
        line@ == room_prefix() + code@,
{
    let room: [u8; 5] = [0x52, 0x4f, 0x4f, 0x4d, 0x3a];
    joined(room.as_slice(), code)
}

/// Reads the line that tells a host the code of its room; a line that does
/// not begin with `ROOM:` tells none.
pub fn parse_room_reply(line: &[u8]) -> (code: Option<Vec<u8>>)
    ensures
        match code {
            Some(c) => begins_with(line@, room_prefix()) && c@ == line@.subrange(
                5,
                line.len() as int,
            ),
            None => !begins_with(line@, room_prefix()),
        },
{
    let room: [u8; 5] = [0x52, 0x4f, 0x4f, 0x4d, 0x3a];
    if has_prefix(line, room.as_slice()) {
        Some(rest_of(line, 5))
    } else {
        None
    }
}

/// The line that tells both peers that the room is full: `START`.
pub fn start_line() -> (line: Vec<u8>)
    ensures
        line@ == start_word(),
{
    let start: [u8; 5] = [0x53, 0x54, 0x41, 0x52, 0x54];
    let none: [u8; 0] = [];
    let line = joined(start.as_slice(), none.as_slice());
    assert(line@ =~= start_word());
    line
}

/// The line that tells a guest that there is no such room: `ERR`.
pub fn err_line() -> (line: Vec<u8>)
    ensures
        line@ == err_word(),
{
    let err: [u8; 3] = [0x45, 0x52, 0x52];
    let none: [u8; 0] = [];
    let line = joined(err.as_slice(), none.as_slice());
    assert(line@ =~= err_word());
    line
}

/// Reads the answer to a guest: `START` starts the match, `ERR` says that
/// there is no such room, and anything else is unexpected.
pub fn classify_join_reply(line: &[u8]) -> (reply: JoinReply)
    ensures
        reply == JoinReply::Start <==> line@ == start_word(),
        reply == JoinReply::NotFound <==> line@ == err_word(),
{
    let start: [u8; 5] = [0x53, 0x54, 0x41, 0x52, 0x54];
    let err: [u8; 3] = [0x45, 0x52, 0x52];
    assert(start_word() != err_word()) by {
        assert(start_word().len() != err_word().len());
    }
    if is_word(line, start.as_slice()) {
        JoinReply::Start
    } else if is_word(line, err.as_slice()) {
        JoinReply::NotFound
    } else {
        JoinReply::Unexpected
    }
}

/// The code of room `n`: its four decimal digits, with leading zeros.
pub fn room_code_of(n: u32) -> (code: Vec<u8>)
    requires
        n <= 9_999,
    ensures
        code@ == room_code(n as int),
        code.len() == 4,
        forall|i: int| 0 <= i < 4 ==> 0x30 <= #[trigger] code[i] <= 0x39,
        room_number(code@) == n,
{
    let mut code: Vec<u8> = Vec::new();
    code.push(0x30 + (n / 1000) as u8);
    code.push(0x30 + ((n / 100) % 10) as u8);
    code.push(0x30 + ((n / 10) % 10) as u8);
    code.push(0x30 + (n % 10) as u8);
    assert(code@ =~= room_code(n as int));
    code
}

/// Draws a number from `low` up to, but not including, `high`.
///
/// Calls `gen_range` of the crate `rand` on the generator of the current
/// thread, with the range `low..high`. Believed of it: the number lies in
/// that range. Which one it is depends on chance, so nothing more is said.
#[verifier::external_body]
fn draw_between(low: u32, high: u32) -> (n: u32)
    requires
        low < high,
    ensures
        low <= n < high,
{
    rand::thread_rng().gen_range(low..high)
}

/// Draws the code for a new room: four digits, the first of which is no
/// zero.
pub fn new_room_code() -> (code: Vec<u8>)
    ensures
        code.len() == 4,
        forall|i: int| 0 <= i < 4 ==> 0x30 <= #[trigger] code[i] <= 0x39,
        ROOM_MIN <= room_number(code@) < ROOM_END,
        code@ == room_code(room_number(code@)),
{
    let n: u32 = draw_between(ROOM_MIN, ROOM_END);
    room_code_of(n)
}

/// Asking and reading agree: the line with which a peer asks for a room, or
/// for the room with `code`, is read as just that.
pub proof fn law_command_round_trip(code: Seq<u8>)
    ensures
        host_word() != join_prefix() + code,
        begins_with(join_prefix() + code, join_prefix()),
        (join_prefix() + code).subrange(5, (join_prefix() + code).len() as int) == code,
        !begins_with(host_word(), join_prefix()),
        begins_with(room_prefix() + code, room_prefix()),
        (room_prefix() + code).subrange(5, (room_prefix() + code).len() as int) == code,
{
    let j = join_prefix() + code;
    assert(j.subrange(0, 5) =~= join_prefix());
    let r = room_prefix() + code;
    assert(r.subrange(0, 5) =~= room_prefix());
}

} // verus!
