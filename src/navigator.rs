//! What the server knows of the robot, how replies to moves and turns
//! update it, and which way the robot is steered home.
use vstd::prelude::*;

verus! {

/// A heading; `Up` is +y and `Right` is +x.
#[derive(PartialEq, Eq, Structural, Clone, Copy, Debug)]
pub enum Direction {
    Unknown,
    Up,
    Down,
    Left,
    Right,
}

#[derive(PartialEq, Eq, Structural, Clone, Copy, Debug)]
pub enum Position {
    Unknown,
    Known(i32, i32),
}

#[derive(PartialEq, Eq, Structural, Clone, Copy, Debug)]
pub struct Robot {
    pub position: Position,
    pub direction: Direction,
}

/// Whether a forward move got the robot anywhere.
#[derive(PartialEq, Eq, Structural, Clone, Copy, Debug)]
pub enum MoveResult {
    Moved,
    Rammed,
}

/// The step one forward move takes in heading `d`.
pub open spec fn offset(d: Direction) -> (int, int) {
    match d {
        Direction::Up => (0, 1),
        Direction::Down => (0, -1),
        Direction::Left => (-1, 0),
        Direction::Right => (1, 0),
        Direction::Unknown => (0, 0),
    }
}

/// The heading whose step is `(dx, dy)`, if any.
pub open spec fn heading_of(dx: int, dy: int) -> Option<Direction> {
    if dx == -1 && dy == 0 {
        Some(Direction::Left)
    } else if dx == 1 && dy == 0 {
        Some(Direction::Right)
    } else if dx == 0 && dy == -1 {
        Some(Direction::Down)
    } else if dx == 0 && dy == 1 {
        Some(Direction::Up)
    } else {
        None
    }
}

pub open spec fn left_of(d: Direction) -> Direction {
    match d {
        Direction::Up => Direction::Left,
        Direction::Left => Direction::Down,
        Direction::Down => Direction::Right,
        Direction::Right => Direction::Up,
        Direction::Unknown => Direction::Unknown,
    }
}

pub open spec fn right_of(d: Direction) -> Direction {
    match d {
        Direction::Up => Direction::Right,
        Direction::Right => Direction::Down,
        Direction::Down => Direction::Left,
        Direction::Left => Direction::Up,
        Direction::Unknown => Direction::Unknown,
    }
}

/// The robot after a move acknowledged at `(x, y)`, and whether it rammed;
/// `None` where the step from a known position is no single cell and the
/// heading is still to be learned from it.
pub open spec fn after_move(r: Robot, x: i32, y: i32) -> Option<(Robot, MoveResult)> {
    match r.position {
        Position::Unknown => Some((Robot { position: Position::Known(x, y), ..r }, MoveResult::Moved)),
        Position::Known(px, py) => {
            if px == x && py == y {
                Some((r, MoveResult::Rammed))
            } else if r.direction == Direction::Unknown {
                match heading_of(x - px, y - py) {
                    Some(d) => Some((Robot { position: Position::Known(x, y), direction: d }, MoveResult::Moved)),
                    None => None,
                }
            } else {
                Some((Robot { position: Position::Known(x, y), ..r }, MoveResult::Moved))
            }
        },
    }
}

/// The robot after a turn acknowledged at `(x, y)`; an unknown heading
/// stays unknown.
pub open spec fn after_turn(r: Robot, left: bool, x: i32, y: i32) -> Robot {
    Robot {
        position: Position::Known(x, y),
        direction: if left { left_of(r.direction) } else { right_of(r.direction) },
    }
}

/// The heading that shortens the distance home: along x while x is not
/// zero, then along y.
pub open spec fn primary_of(x: int, y: int) -> Direction {
    if x != 0 {
        if x < 0 { Direction::Right } else { Direction::Left }
    } else {
        if y < 0 { Direction::Up } else { Direction::Down }
    }
}

/// The heading of the sidestep around an obstacle met along `primary_of`.
pub open spec fn avoid_of(x: int, y: int) -> Direction {
    if x != 0 {
        if y < 0 { Direction::Up } else { Direction::Down }
    } else {
        if x < 0 { Direction::Right } else { Direction::Left }
    }
}

/// Whether to turn left (rather than right) to face `target` from `d`; a
/// half turn is two left turns.
pub open spec fn turns_left(d: Direction, target: Direction) -> bool {
    target != right_of(d)
}

fn heading(dx: i64, dy: i64) -> (r: Option<Direction>)
    ensures
        r == heading_of(dx as int, dy as int),
{
    if dx == -1 && dy == 0 {
        Some(Direction::Left)
    } else if dx == 1 && dy == 0 {
        Some(Direction::Right)
    } else if dx == 0 && dy == -1 {
        Some(Direction::Down)
    } else if dx == 0 && dy == 1 {
        Some(Direction::Up)
    } else {
        None
    }
}

pub fn turned(d: Direction, left: bool) -> (r: Direction)
    ensures
        r == (if left { left_of(d) } else { right_of(d) }),
{
    match (d, left) {
        (Direction::Up, true) => Direction::Left,
        (Direction::Left, true) => Direction::Down,
        (Direction::Down, true) => Direction::Right,
        (Direction::Right, true) => Direction::Up,
        (Direction::Up, false) => Direction::Right,
        (Direction::Right, false) => Direction::Down,
        (Direction::Down, false) => Direction::Left,
        (Direction::Left, false) => Direction::Up,
        (Direction::Unknown, _) => Direction::Unknown,
    }
}

impl Robot {
    /// A robot whose position and heading are yet to be learned.
    pub fn new() -> (r: Robot)
        ensures
            r.position == Position::Unknown,
            r.direction == Direction::Unknown,
    {
        Robot { position: Position::Unknown, direction: Direction::Unknown }
    }

    /// Takes in the coordinates acknowledged after a forward move.
    pub fn record_move(&self, x: i32, y: i32) -> (r: Option<(Robot, MoveResult)>)
        ensures
            r == after_move(*self, x, y),
    {
        match self.position {
            Position::Unknown => Some((Robot { position: Position::Known(x, y), ..*self }, MoveResult::Moved)),
            Position::Known(px, py) => {
                if px == x && py == y {
                    Some((*self, MoveResult::Rammed))
                } else if self.direction == Direction::Unknown {
                    match heading(x as i64 - px as i64, y as i64 - py as i64) {
                        Some(d) => Some((Robot { position: Position::Known(x, y), direction: d }, MoveResult::Moved)),
                        None => None,
                    }
                } else {
                    Some((Robot { position: Position::Known(x, y), ..*self }, MoveResult::Moved))
                }
            },
        }
    }

    /// Takes in the coordinates acknowledged after a turn.
    pub fn record_turn(&self, left: bool, x: i32, y: i32) -> (r: Robot)
        ensures
            r == after_turn(*self, left, x, y),
    {
        Robot { position: Position::Known(x, y), direction: turned(self.direction, left) }
    }
}

pub fn primary_direction(x: i32, y: i32) -> (r: Direction)
    ensures
        r == primary_of(x as int, y as int),
{
    if x != 0 {
        if x < 0 { Direction::Right } else { Direction::Left }
    } else {
        if y < 0 { Direction::Up } else { Direction::Down }
    }
}

pub fn avoid_direction(x: i32, y: i32) -> (r: Direction)
    ensures
        r == avoid_of(x as int, y as int),
{
    if x != 0 {
        if y < 0 { Direction::Up } else { Direction::Down }
    } else {
        if x < 0 { Direction::Right } else { Direction::Left }
    }
}

pub fn should_turn_left(d: Direction, target: Direction) -> (r: bool)
    ensures
        r == turns_left(d, target),
{
    let right = turned(d, false);
    target != right
}

/// From a known position with no heading yet, the first move that gets the
/// robot one cell further in some heading teaches the server that heading.
pub proof fn first_step_reveals_heading(r: Robot, d: Direction, x: i32, y: i32)
    requires
        r.direction == Direction::Unknown,
        d != Direction::Unknown,
        r.position matches Position::Known(px, py) && x == px + offset(d).0 && y == py + offset(d).1,
    ensures
        after_move(r, x, y) == Some((Robot { position: Position::Known(x, y), direction: d }, MoveResult::Moved)),
{
}

pub open spec fn abs(v: int) -> nat {
    if v < 0 { (-v) as nat } else { v as nat }
}

/// The measure that every round of the homing loop lowers: the distance
/// home, then the distance along x, counting a robot on the y axis as
/// two further off.
pub open spec fn progress(x: int, y: int) -> (nat, nat) {
    (abs(x) + abs(y), abs(x) + if x == 0 { 2nat } else { 0nat })
}

pub open spec fn lower(a: (nat, nat), b: (nat, nat)) -> bool {
    a.0 < b.0 || (a.0 == b.0 && a.1 < b.1)
}

/// Where one round of the homing loop leaves the robot: one step along the
/// primary heading, or, where that step rammed, a sidestep along the avoid
/// heading and then the primary step.
pub open spec fn round_end(x: int, y: int, rammed: bool) -> (int, int) {
    let p = offset(primary_of(x, y));
    let a = offset(avoid_of(x, y));
    if rammed {
        (x + a.0 + p.0, y + a.1 + p.1)
    } else {
        (x + p.0, y + p.1)
    }
}

/// Every round of the homing loop away from the origin lowers `progress`
/// (ordered first on its first part), as long as an obstacle that makes the
/// robot ram is not on the origin itself and the detour is free. A
/// lexicographic order on pairs of naturals has no infinite descent, so
/// the robot reaches home after finitely many rounds, of at most three
/// forward moves each.
pub proof fn homing_round_progresses(x: int, y: int, rammed: bool)
    requires
        x != 0 || y != 0,
        rammed ==> (x + offset(primary_of(x, y)).0 != 0 || y + offset(primary_of(x, y)).1 != 0),
    ensures
        lower(progress(round_end(x, y, rammed).0, round_end(x, y, rammed).1), progress(x, y)),
{
}

} // verus!
