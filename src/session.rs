//! One connection's protocol: the handshake, the recharge interleave,
//! the homing loop and the pickup, as a machine from the frame just read
//! to the messages to send and the next frame to read.
use vstd::prelude::*;

use crate::auth::{
    check_confirmation, confirmation_matches, name_hash, name_hash_of, required_confirmation_of,
    server_confirmation, server_confirmation_of, matches_iff_required, KEY_COUNT,
};
use crate::codec::{ClientMessage, Decoded, ServerMessage};
use crate::navigator::{
    abs, after_move, after_turn, avoid_direction, avoid_of, homing_round_progresses, lower,
    offset, primary_direction, primary_of, progress, round_end, should_turn_left, turns_left,
    Direction, MoveResult, Position, Robot,
};

verus! {

/// Why no message came out of a frame.
#[derive(PartialEq, Eq, Structural, Clone, Copy, Debug)]
pub enum ReadError {
    /// The cap was reached before the terminator.
    TooLong,
    /// The payload did not decode.
    Invalid,
    /// A byte did not arrive in time.
    TimedOut,
    /// The stream failed or closed.
    IOError,
}

/// The stretch of a detour that a move belongs to.
#[derive(PartialEq, Eq, Structural, Clone, Copy, Debug)]
pub enum Leg {
    Primary,
    Avoid,
    Return,
}

/// What the robot's current command is for.
#[derive(PartialEq, Eq, Structural, Clone, Copy, Debug)]
pub enum Task {
    /// The first move, which fixes the position.
    ProbeFirst,
    /// A later move while the heading is still unknown.
    Probe,
    /// A round of the homing loop.
    Home { primary: Direction, avoid: Direction, leg: Leg },
}

/// What the session waits for.
#[derive(PartialEq, Eq, Structural, Clone, Copy, Debug)]
pub enum Phase {
    AwaitName,
    AwaitKeyId { hash: u16 },
    AwaitConfirm { key_id: u32, hash: u16 },
    AwaitMoveAck { task: Task },
    AwaitTurnAck { left: bool, task: Task },
    AwaitSecret,
    Closed,
}

#[derive(PartialEq, Eq, Structural, Clone, Copy, Debug)]
pub struct Session {
    pub phase: Phase,
    pub robot: Robot,
    /// The robot said it is recharging and must next say it has full power.
    pub recharging: bool,
}

/// What to send after a frame, and whether to close the connection then.
#[derive(Debug)]
pub struct Reply {
    pub messages: Vec<ServerMessage>,
    pub close: bool,
}

pub open spec fn input_view(input: Result<ClientMessage, ReadError>) -> Result<Decoded, ReadError> {
    match input {
        Ok(m) => Ok(m@),
        Err(e) => Err(e),
    }
}

/// The cap (terminator included) and the per-byte timeout in seconds of
/// the next frame.
pub open spec fn limits_of(s: Session) -> (usize, u64) {
    if s.recharging {
        (12, 5)
    } else {
        match s.phase {
            Phase::AwaitName => (20, 1),
            Phase::AwaitSecret => (100, 1),
            _ => (12, 1),
        }
    }
}

/// What a command in progress needs to know of the robot: a probe after
/// the first move has a position, and a homing round a position and a
/// heading.
pub open spec fn task_ready(r: Robot, task: Task) -> bool {
    match task {
        Task::ProbeFirst => true,
        Task::Probe => r.position != Position::Unknown,
        Task::Home { .. } => r.position != Position::Unknown && r.direction != Direction::Unknown,
    }
}

/// A key id being confirmed is one the tables hold, and a command in
/// progress has what it needs.
pub open spec fn wf(s: Session) -> bool {
    match s.phase {
        Phase::AwaitConfirm { key_id, .. } => key_id < KEY_COUNT,
        Phase::AwaitMoveAck { task } => task_ready(s.robot, task),
        Phase::AwaitTurnAck { task, .. } => task_ready(s.robot, task) && task != Task::ProbeFirst,
        Phase::AwaitSecret => s.robot.position == Position::Known(0, 0),
        _ => true,
    }
}

pub open spec fn closed(s: Session) -> Session {
    Session { phase: Phase::Closed, ..s }
}

pub open spec fn is_closed(s: Session) -> bool {
    s.phase == Phase::Closed
}

/// Steer toward the heading that `leg` calls for: a move where the robot
/// faces it, else a turn.
pub open spec fn drive(r: Robot, primary: Direction, avoid: Direction, leg: Leg) -> (Session, Seq<ServerMessage>) {
    let target = if leg == Leg::Avoid { avoid } else { primary };
    let task = Task::Home { primary, avoid, leg };
    if r.direction == Direction::Unknown {
        (Session { phase: Phase::Closed, robot: r, recharging: false }, seq![ServerMessage::LogicError])
    } else if r.direction == target {
        (Session { phase: Phase::AwaitMoveAck { task }, robot: r, recharging: false }, seq![ServerMessage::Move])
    } else if turns_left(r.direction, target) {
        (Session { phase: Phase::AwaitTurnAck { left: true, task }, robot: r, recharging: false }, seq![ServerMessage::TurnLeft])
    } else {
        (Session { phase: Phase::AwaitTurnAck { left: false, task }, robot: r, recharging: false }, seq![ServerMessage::TurnRight])
    }
}

/// The top of the homing loop: pick up the secret at the origin, else
/// start a round toward it.
pub open spec fn home(r: Robot) -> (Session, Seq<ServerMessage>) {
    match r.position {
        Position::Known(x, y) => {
            if x == 0 && y == 0 {
                (Session { phase: Phase::AwaitSecret, robot: r, recharging: false }, seq![ServerMessage::PickUp])
            } else {
                drive(r, primary_of(x as int, y as int), avoid_of(x as int, y as int), Leg::Primary)
            }
        },
        Position::Unknown => (Session { phase: Phase::Closed, robot: r, recharging: false }, seq![ServerMessage::LogicError]),
    }
}

/// The next command once the robot stands at `r` within `task`.
pub open spec fn go_on(r: Robot, task: Task) -> (Session, Seq<ServerMessage>) {
    match task {
        Task::Home { primary, avoid, leg } => drive(r, primary, avoid, leg),
        _ => (Session { phase: Phase::AwaitMoveAck { task }, robot: r, recharging: false }, seq![ServerMessage::Move]),
    }
}

/// After a move acknowledged with the robot at `r`.
pub open spec fn after_move_in(r: Robot, task: Task, result: MoveResult) -> (Session, Seq<ServerMessage>) {
    match task {
        Task::ProbeFirst => (Session { phase: Phase::AwaitMoveAck { task: Task::Probe }, robot: r, recharging: false }, seq![ServerMessage::Move]),
        Task::Probe => {
            if r.direction == Direction::Unknown {
                (Session { phase: Phase::AwaitTurnAck { left: true, task: Task::Probe }, robot: r, recharging: false }, seq![ServerMessage::TurnLeft])
            } else {
                home(r)
            }
        },
        Task::Home { primary, avoid, leg } => {
            if leg == Leg::Primary && result == MoveResult::Rammed {
                drive(r, primary, avoid, Leg::Avoid)
            } else if leg == Leg::Avoid {
                drive(r, primary, avoid, Leg::Return)
            } else {
                home(r)
            }
        },
    }
}

/// A message that the phase expects (neither recharge message), outside a
/// recharge.
pub open spec fn on_message(s: Session, m: Decoded) -> (Session, Seq<ServerMessage>) {
    match s.phase {
        Phase::AwaitName => match m {
            Decoded::Text(name) => (Session { phase: Phase::AwaitKeyId { hash: name_hash_of(name) }, ..s }, seq![ServerMessage::KeyRequest]),
            _ => (closed(s), seq![ServerMessage::SyntaxError]),
        },
        Phase::AwaitKeyId { hash } => match m {
            Decoded::Number(id) => {
                if id >= KEY_COUNT {
                    (closed(s), seq![ServerMessage::KeyOutOfRangeError])
                } else {
                    (Session { phase: Phase::AwaitConfirm { key_id: id, hash }, ..s }, seq![ServerMessage::Confirmation(server_confirmation_of(hash, id))])
                }
            },
            _ => (closed(s), seq![ServerMessage::SyntaxError]),
        },
        Phase::AwaitConfirm { key_id, hash } => match m {
            Decoded::Number(c) => {
                if c > 0xffff {
                    (closed(s), seq![ServerMessage::SyntaxError])
                } else if !confirmation_matches(hash, key_id, c as u16) {
                    (closed(s), seq![ServerMessage::LoginFailed])
                } else {
                    (Session { phase: Phase::AwaitMoveAck { task: Task::ProbeFirst }, ..s }, seq![ServerMessage::OK, ServerMessage::Move])
                }
            },
            _ => (closed(s), seq![ServerMessage::SyntaxError]),
        },
        Phase::AwaitMoveAck { task } => match m {
            Decoded::Position(x, y) => match after_move(s.robot, x, y) {
                Some((r, result)) => after_move_in(r, task, result),
                None => (closed(s), seq![ServerMessage::LogicError]),
            },
            _ => (closed(s), seq![ServerMessage::SyntaxError]),
        },
        Phase::AwaitTurnAck { left, task } => match m {
            Decoded::Position(x, y) => go_on(after_turn(s.robot, left, x, y), task),
            _ => (closed(s), seq![ServerMessage::SyntaxError]),
        },
        Phase::AwaitSecret => match m {
            Decoded::Text(_) | Decoded::Number(_) => (closed(s), seq![ServerMessage::Logout]),
            _ => (closed(s), seq![ServerMessage::SyntaxError]),
        },
        Phase::Closed => (s, seq![]),
    }
}

/// The session after one frame was read (or failed to be), and the
/// messages it sends in turn. A closed session stays closed and silent.
pub open spec fn transition(s: Session, input: Result<Decoded, ReadError>) -> (Session, Seq<ServerMessage>) {
    if is_closed(s) {
        (s, seq![])
    } else {
        match input {
            Err(ReadError::TimedOut) | Err(ReadError::IOError) => (closed(s), seq![]),
            Err(_) => (closed(s), seq![ServerMessage::SyntaxError]),
            Ok(m) => {
                if s.recharging {
                    if m == Decoded::FullPower {
                        (Session { recharging: false, ..s }, seq![])
                    } else {
                        (closed(s), seq![ServerMessage::LogicError])
                    }
                } else if s.phase == Phase::AwaitName {
                    on_message(s, m)
                } else if m == Decoded::Recharging {
                    (Session { recharging: true, ..s }, seq![])
                } else if m == Decoded::FullPower {
                    (closed(s), seq![ServerMessage::LogicError])
                } else {
                    on_message(s, m)
                }
            },
        }
    }
}

fn one(m: ServerMessage) -> (r: Vec<ServerMessage>)
    ensures
        r@ == seq![m],
{
    let mut v: Vec<ServerMessage> = Vec::new();
    v.push(m);
    v
}

fn drive_exec(r: Robot, primary: Direction, avoid: Direction, leg: Leg) -> (out: (Session, Vec<ServerMessage>))
    ensures
        (out.0, out.1@) == drive(r, primary, avoid, leg),
{
    let target = if leg == Leg::Avoid { avoid } else { primary };
    let task = Task::Home { primary, avoid, leg };
    if r.direction == Direction::Unknown {
        (Session { phase: Phase::Closed, robot: r, recharging: false }, one(ServerMessage::LogicError))
    } else if r.direction == target {
        (Session { phase: Phase::AwaitMoveAck { task }, robot: r, recharging: false }, one(ServerMessage::Move))
    } else if should_turn_left(r.direction, target) {
        (Session { phase: Phase::AwaitTurnAck { left: true, task }, robot: r, recharging: false }, one(ServerMessage::TurnLeft))
    } else {
        (Session { phase: Phase::AwaitTurnAck { left: false, task }, robot: r, recharging: false }, one(ServerMessage::TurnRight))
    }
}

fn home_exec(r: Robot) -> (out: (Session, Vec<ServerMessage>))
    ensures
        (out.0, out.1@) == home(r),
{
    match r.position {
        Position::Known(x, y) => {
            if x == 0 && y == 0 {
                (Session { phase: Phase::AwaitSecret, robot: r, recharging: false }, one(ServerMessage::PickUp))
            } else {
                drive_exec(r, primary_direction(x, y), avoid_direction(x, y), Leg::Primary)
            }
        },
        Position::Unknown => (Session { phase: Phase::Closed, robot: r, recharging: false }, one(ServerMessage::LogicError)),
    }
}

fn after_move_exec(r: Robot, task: Task, result: MoveResult) -> (out: (Session, Vec<ServerMessage>))
    ensures
        (out.0, out.1@) == after_move_in(r, task, result),
{
    match task {
        Task::ProbeFirst => (Session { phase: Phase::AwaitMoveAck { task: Task::Probe }, robot: r, recharging: false }, one(ServerMessage::Move)),
        Task::Probe => {
            if r.direction == Direction::Unknown {
                (Session { phase: Phase::AwaitTurnAck { left: true, task: Task::Probe }, robot: r, recharging: false }, one(ServerMessage::TurnLeft))
            } else {
                home_exec(r)
            }
        },
        Task::Home { primary, avoid, leg } => {
            if leg == Leg::Primary && result == MoveResult::Rammed {
                drive_exec(r, primary, avoid, Leg::Avoid)
            } else if leg == Leg::Avoid {
                drive_exec(r, primary, avoid, Leg::Return)
            } else {
                home_exec(r)
            }
        },
    }
}

impl Session {
    /// A session on a fresh connection: it waits for the robot's name.
    pub fn new() -> (r: Session)
        ensures
            wf(r),
            r.phase == Phase::AwaitName,
            r.robot.position == Position::Unknown,
            r.robot.direction == Direction::Unknown,
            !r.recharging,
    {
        Session { phase: Phase::AwaitName, robot: Robot::new(), recharging: false }
    }

    /// The cap (terminator included) and the per-byte timeout in seconds of
    /// the frame to read next.
    pub fn limits(&self) -> (r: (usize, u64))
        ensures
            r == limits_of(*self),
    {
        if self.recharging {
            (12, 5)
        } else {
            match self.phase {
                Phase::AwaitName => (20, 1),
                Phase::AwaitSecret => (100, 1),
                _ => (12, 1),
            }
        }
    }

    pub fn is_closed(&self) -> (r: bool)
        ensures
            r == is_closed(*self),
    {
        self.phase == Phase::Closed
    }

    fn close_with(&mut self, m: ServerMessage) -> (r: Vec<ServerMessage>)
        ensures
            *final(self) == closed(*old(self)),
            r@ == seq![m],
    {
        self.phase = Phase::Closed;
        one(m)
    }

    fn on_message_exec(&mut self, m: ClientMessage) -> (r: Vec<ServerMessage>)
        requires
            !is_closed(*old(self)),
            wf(*old(self)),
        ensures
            (*final(self), r@) == on_message(*old(self), m@),
    {
        match self.phase {
            Phase::AwaitName => match m {
                ClientMessage::Text(name) => {
                    self.phase = Phase::AwaitKeyId { hash: name_hash(&name) };
                    one(ServerMessage::KeyRequest)
                },
                _ => self.close_with(ServerMessage::SyntaxError),
            },
            Phase::AwaitKeyId { hash } => match m {
                ClientMessage::Number(id) => {
                    if id >= KEY_COUNT {
                        self.close_with(ServerMessage::KeyOutOfRangeError)
                    } else {
                        self.phase = Phase::AwaitConfirm { key_id: id, hash };
                        one(ServerMessage::Confirmation(server_confirmation(hash, id)))
                    }
                },
                _ => self.close_with(ServerMessage::SyntaxError),
            },
            Phase::AwaitConfirm { key_id, hash } => match m {
                ClientMessage::Number(c) => {
                    if c > 0xffff {
                        self.close_with(ServerMessage::SyntaxError)
                    } else if !check_confirmation(hash, key_id, c as u16) {
                        self.close_with(ServerMessage::LoginFailed)
                    } else {
                        self.phase = Phase::AwaitMoveAck { task: Task::ProbeFirst };
                        let mut v = one(ServerMessage::OK);
                        v.push(ServerMessage::Move);
                        v
                    }
                },
                _ => self.close_with(ServerMessage::SyntaxError),
            },
            Phase::AwaitMoveAck { task } => match m {
                ClientMessage::Position(x, y) => match self.robot.record_move(x, y) {
                    Some((r, result)) => {
                        let (s, v) = after_move_exec(r, task, result);
                        *self = s;
                        v
                    },
                    None => self.close_with(ServerMessage::LogicError),
                },
                _ => self.close_with(ServerMessage::SyntaxError),
            },
            Phase::AwaitTurnAck { left, task } => match m {
                ClientMessage::Position(x, y) => {
                    let r = self.robot.record_turn(left, x, y);
                    let (s, v) = match task {
                        Task::Home { primary, avoid, leg } => drive_exec(r, primary, avoid, leg),
                        _ => (Session { phase: Phase::AwaitMoveAck { task }, robot: r, recharging: false }, one(ServerMessage::Move)),
                    };
                    *self = s;
                    v
                },
                _ => self.close_with(ServerMessage::SyntaxError),
            },
            Phase::AwaitSecret => match m {
                ClientMessage::Text(_) | ClientMessage::Number(_) => self.close_with(ServerMessage::Logout),
                _ => self.close_with(ServerMessage::SyntaxError),
            },
            Phase::Closed => Vec::new(),
        }
    }

    /// Takes the outcome of reading one frame; says what to send and
    /// whether to close the connection afterwards.
    pub fn handle(&mut self, input: Result<ClientMessage, ReadError>) -> (r: Reply)
        requires
            wf(*old(self)),
        ensures
            wf(*final(self)),
            (*final(self), r.messages@) == transition(*old(self), input_view(input)),
            r.close == is_closed(*final(self)),
            old(self).robot.position != Position::Unknown ==> final(self).robot.position
                != Position::Unknown,
    {
        if self.phase == Phase::Closed {
            return Reply { messages: Vec::new(), close: true };
        }
        let messages = match input {
            Err(ReadError::TimedOut) | Err(ReadError::IOError) => {
                self.phase = Phase::Closed;
                Vec::new()
            },
            Err(_) => self.close_with(ServerMessage::SyntaxError),
            Ok(m) => {
                if self.recharging {
                    if let ClientMessage::FullPower = m {
                        self.recharging = false;
                        Vec::new()
                    } else {
                        self.close_with(ServerMessage::LogicError)
                    }
                } else if self.phase == Phase::AwaitName {
                    self.on_message_exec(m)
                } else if let ClientMessage::Recharging = m {
                    self.recharging = true;
                    Vec::new()
                } else if let ClientMessage::FullPower = m {
                    self.close_with(ServerMessage::LogicError)
                } else {
                    self.on_message_exec(m)
                }
            },
        };
        Reply { messages, close: self.phase == Phase::Closed }
    }
}

/// The session on a fresh connection.
pub open spec fn fresh() -> Session {
    Session {
        phase: Phase::AwaitName,
        robot: Robot { position: Position::Unknown, direction: Direction::Unknown },
        recharging: false,
    }
}

/// For any name and any key id in range, a confirmation (below 2^16) that
/// differs from the one owed gets exactly one `LoginFailed`, and the
/// session closes; a closed session sends nothing more, so no `OK` ever
/// follows.
pub proof fn wrong_confirmation_is_rejected(
    name: Seq<u8>,
    key_id: u32,
    c: u32,
    later: Result<Decoded, ReadError>,
)
    requires
        key_id < KEY_COUNT,
        c <= 0xffff,
        c != required_confirmation_of(name_hash_of(name), key_id),
    ensures
        ({
            let (s1, out1) = transition(fresh(), Ok(Decoded::Text(name)));
            let (s2, out2) = transition(s1, Ok(Decoded::Number(key_id)));
            let (s3, out3) = transition(s2, Ok(Decoded::Number(c)));
            &&& out1 == seq![ServerMessage::KeyRequest]
            &&& out2 == seq![ServerMessage::Confirmation(server_confirmation_of(name_hash_of(name), key_id))]
            &&& out3 == seq![ServerMessage::LoginFailed]
            &&& is_closed(s3)
            &&& transition(s3, later) == (s3, Seq::<ServerMessage>::empty())
        }),
{
    matches_iff_required(name_hash_of(name), key_id, c as u16);
}

/// Outside the name, any expected reply may be preceded by `RECHARGING`
/// and `FULL POWER`: the pair sends nothing, reads the second frame under
/// the recharge limits, and leaves the session exactly as it was.
pub proof fn recharge_is_transparent(s: Session, reply: Result<Decoded, ReadError>)
    requires
        !is_closed(s),
        s.phase != Phase::AwaitName,
        !s.recharging,
    ensures
        ({
            let (s1, out1) = transition(s, Ok(Decoded::Recharging));
            let (s2, out2) = transition(s1, Ok(Decoded::FullPower));
            &&& out1 == Seq::<ServerMessage>::empty()
            &&& limits_of(s1) == (12usize, 5u64)
            &&& out2 == Seq::<ServerMessage>::empty()
            &&& s2 == s
            &&& transition(s2, reply) == transition(s, reply)
        }),
{
}

/// A frame that outgrows its cap ends any open session with one
/// `SyntaxError`.
pub proof fn too_long_frame_is_rejected(s: Session)
    requires
        !is_closed(s),
    ensures
        transition(s, Err(ReadError::TooLong)) == (closed(s), seq![ServerMessage::SyntaxError]),
{
}

/// A session waiting for a turn to be acknowledged, after the robot
/// acknowledges it where it stands; any other session as it is.
pub open spec fn answer_turn(s: Session) -> Session {
    match (s.phase, s.robot.position) {
        (Phase::AwaitTurnAck { .. }, Position::Known(x, y)) => transition(s, Ok(Decoded::Position(x, y))).0,
        _ => s,
    }
}

/// A session after up to two turns are acknowledged.
pub open spec fn settle(s: Session) -> Session {
    answer_turn(answer_turn(s))
}

/// A session of the homing loop about to hear where a move on `leg` took a
/// robot that stood at `(x, y)` facing `d`.
pub open spec fn ready(x: i32, y: i32, d: Direction, primary: Direction, avoid: Direction, leg: Leg) -> Session {
    Session {
        phase: Phase::AwaitMoveAck { task: Task::Home { primary, avoid, leg } },
        robot: Robot { position: Position::Known(x, y), direction: d },
        recharging: false,
    }
}

proof fn lemma_drive_settles(x: i32, y: i32, d: Direction, primary: Direction, avoid: Direction, leg: Leg)
    requires
        d != Direction::Unknown,
        primary != Direction::Unknown,
        avoid != Direction::Unknown,
    ensures
        settle(drive(Robot { position: Position::Known(x, y), direction: d }, primary, avoid, leg).0)
            == ready(x, y, if leg == Leg::Avoid { avoid } else { primary }, primary, avoid, leg),
{
}

/// One round of the homing loop, as the session runs it: the robot, away
/// from the origin and at most 1000 cells off on each axis, turns to the
/// primary heading (each turn acknowledged where it stands) and moves. A
/// free step ends the round one cell along it. A ram is followed by the
/// detour: turn to the avoid heading, a free sidestep, turn back, a free
/// step. The round ends at `round_end` with the session back at the top of
/// the loop, after one or three moves, and `progress` is lower there, so
/// the robot reaches the origin after finitely many rounds.
pub proof fn homing_round_runs(x: i32, y: i32, d: Direction, rammed: bool)
    requires
        d != Direction::Unknown,
        x != 0 || y != 0,
        abs(x as int) <= 1000,
        abs(y as int) <= 1000,
        rammed ==> (x + offset(primary_of(x as int, y as int)).0 != 0
            || y + offset(primary_of(x as int, y as int)).1 != 0),
    ensures
        ({
            let p = primary_of(x as int, y as int);
            let a = avoid_of(x as int, y as int);
            let e = round_end(x as int, y as int, rammed);
            let s0 = settle(home(Robot { position: Position::Known(x, y), direction: d }).0);
            let end = home(Robot { position: Position::Known(e.0 as i32, e.1 as i32), direction: p }).0;
            &&& s0 == ready(x, y, p, p, a, Leg::Primary)
            &&& !rammed ==> transition(s0, Ok(Decoded::Position(e.0 as i32, e.1 as i32))).0 == end
            &&& rammed ==> {
                let s1 = settle(transition(s0, Ok(Decoded::Position(x, y))).0);
                let (ax, ay) = ((x + offset(a).0) as i32, (y + offset(a).1) as i32);
                let s2 = settle(transition(s1, Ok(Decoded::Position(ax, ay))).0);
                &&& s1 == ready(x, y, a, p, a, Leg::Avoid)
                &&& s2 == ready(ax, ay, p, p, a, Leg::Return)
                &&& transition(s2, Ok(Decoded::Position(e.0 as i32, e.1 as i32))).0 == end
            }
            &&& lower(progress(e.0, e.1), progress(x as int, y as int))
        }),
{
    let p = primary_of(x as int, y as int);
    let a = avoid_of(x as int, y as int);
    homing_round_progresses(x as int, y as int, rammed);
    lemma_drive_settles(x, y, d, p, a, Leg::Primary);
    if rammed {
        lemma_drive_settles(x, y, p, p, a, Leg::Avoid);
        let (ax, ay) = ((x + offset(a).0) as i32, (y + offset(a).1) as i32);
        lemma_drive_settles(ax, ay, a, p, a, Leg::Return);
    }
}

} // verus!
