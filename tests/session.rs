use robot_server::auth::{name_hash, server_confirmation};
use robot_server::codec::ClientMessage;
use robot_server::frame::{FrameReader, FrameStep};
use robot_server::navigator::{Direction, Position};
use robot_server::session::{Phase, ReadError, Session};

/// Feeds client bytes to a session the way a connection would and returns
/// everything the server sent, with whether it closed.
fn run(s: &mut Session, wire: &[u8]) -> (Vec<u8>, bool) {
    let mut out = Vec::new();
    let mut reader = FrameReader::new(s.limits().0);
    for &b in wire {
        let input = match reader.push(b) {
            FrameStep::Pending => continue,
            FrameStep::Complete(p) => ClientMessage::parse(&p).ok_or(ReadError::Invalid),
            FrameStep::TooLong => Err(ReadError::TooLong),
        };
        let reply = s.handle(input);
        for m in reply.messages {
            out.extend(m.to_bytes());
        }
        if reply.close {
            return (out, true);
        }
        reader = FrameReader::new(s.limits().0);
    }
    (out, false)
}

fn login(s: &mut Session) {
    let (out, closed) = run(s, b"Mnau\x07\x082\x07\x0821387\x07\x08");
    assert_eq!(out, b"107 KEY REQUEST\x07\x0826573\x07\x08200 OK\x07\x08102 MOVE\x07\x08".to_vec());
    assert!(!closed);
}

#[test]
fn name_hash_of_mnau() {
    assert_eq!(name_hash(&b"Mnau".to_vec()), 7784);
    assert_eq!(server_confirmation(7784, 2), 26573);
    assert_eq!(name_hash(&Vec::new()), 0);
}

#[test]
fn login_with_wrong_confirmation_fails() {
    let mut s = Session::new();
    let (out, closed) = run(&mut s, b"Mnau\x07\x082\x07\x088389\x07\x08");
    assert_eq!(out, b"107 KEY REQUEST\x07\x0826573\x07\x08300 LOGIN FAILED\x07\x08".to_vec());
    assert!(closed);
    let after = s.handle(Ok(ClientMessage::Number(21387)));
    assert!(after.messages.is_empty() && after.close);
}

#[test]
fn wrong_confirmation_for_every_key() {
    for id in 0u32..5 {
        let mut s = Session::new();
        let wire = format!("Robot\x07\x08{}\x07\x081\x07\x08", id);
        let (out, closed) = run(&mut s, wire.as_bytes());
        assert!(out.ends_with(b"300 LOGIN FAILED\x07\x08"));
        assert_eq!(out.windows(6).filter(|w| w == b"200 OK").count(), 0);
        assert!(closed);
    }
}

#[test]
fn confirmation_over_16_bits_is_syntax_error() {
    let mut s = Session::new();
    let (out, closed) = run(&mut s, b"Mnau\x07\x082\x07\x0870000\x07\x08");
    assert!(out.ends_with(b"301 SYNTAX ERROR\x07\x08"));
    assert!(closed);
}

#[test]
fn successful_login_then_home_at_origin() {
    let mut s = Session::new();
    login(&mut s);
    // first move fixes the position, the second learns the heading
    let (out, _) = run(&mut s, b"OK 0 -1\x07\x08");
    assert_eq!(out, b"102 MOVE\x07\x08".to_vec());
    let (out, _) = run(&mut s, b"OK 0 0\x07\x08");
    assert_eq!(out, b"105 GET MESSAGE\x07\x08".to_vec());
    assert_eq!(s.robot.direction, Direction::Up);
    let (out, closed) = run(&mut s, b"Secret message.\x07\x08");
    assert_eq!(out, b"106 LOGOUT\x07\x08".to_vec());
    assert!(closed);
}

#[test]
fn key_out_of_range() {
    let mut s = Session::new();
    let (out, closed) = run(&mut s, b"A\x07\x085\x07\x08");
    assert_eq!(out, b"107 KEY REQUEST\x07\x08303 KEY OUT OF RANGE\x07\x08".to_vec());
    assert!(closed);
}

#[test]
fn name_at_cap_is_accepted() {
    let mut s = Session::new();
    let mut wire = vec![b'n'; 19];
    wire.extend_from_slice(b"\x07\x08");
    let (out, closed) = run(&mut s, &wire);
    assert_eq!(out, b"107 KEY REQUEST\x07\x08".to_vec());
    assert!(!closed);
}

#[test]
fn oversize_name() {
    let mut s = Session::new();
    let (out, closed) = run(&mut s, &[b'n'; 20]);
    assert_eq!(out, b"301 SYNTAX ERROR\x07\x08".to_vec());
    assert!(closed);
}

#[test]
fn recharge_mid_handshake() {
    let mut s = Session::new();
    let (out, _) = run(&mut s, b"Mnau\x07\x08");
    assert_eq!(out, b"107 KEY REQUEST\x07\x08".to_vec());
    let before = s;
    let (out, _) = run(&mut s, b"RECHARGING\x07\x08");
    assert!(out.is_empty());
    assert_eq!(s.limits(), (12, 5));
    let (out, _) = run(&mut s, b"FULL POWER\x07\x08");
    assert!(out.is_empty());
    assert_eq!(s, before);
    let (out, _) = run(&mut s, b"2\x07\x08");
    assert_eq!(out, b"26573\x07\x08".to_vec());
}

#[test]
fn bad_recharge_follow_up() {
    let mut s = Session::new();
    let (_, _) = run(&mut s, b"Mnau\x07\x08");
    let (out, closed) = run(&mut s, b"RECHARGING\x07\x081\x07\x08");
    assert_eq!(out, b"302 LOGIC ERROR\x07\x08".to_vec());
    assert!(closed);
}

#[test]
fn full_power_out_of_recharge_is_logic_error() {
    let mut s = Session::new();
    let (_, _) = run(&mut s, b"Mnau\x07\x08");
    let (out, closed) = run(&mut s, b"FULL POWER\x07\x08");
    assert_eq!(out, b"302 LOGIC ERROR\x07\x08".to_vec());
    assert!(closed);
}

#[test]
fn timeout_and_io_error_close_silently() {
    let mut s = Session::new();
    let r = s.handle(Err(ReadError::TimedOut));
    assert!(r.messages.is_empty() && r.close);
    let mut s = Session::new();
    let r = s.handle(Err(ReadError::IOError));
    assert!(r.messages.is_empty() && r.close);
    let mut s = Session::new();
    let r = s.handle(Err(ReadError::Invalid));
    assert_eq!(r.messages.len(), 1);
    assert!(r.close);
}

#[test]
fn secret_limits() {
    let mut s = Session::new();
    assert_eq!(s.limits(), (20, 1));
    login(&mut s);
    assert_eq!(s.limits(), (12, 1));
    run(&mut s, b"OK 0 1\x07\x08OK 0 0\x07\x08");
    assert_eq!(s.phase, Phase::AwaitSecret);
    assert_eq!(s.limits(), (100, 1));
}

#[test]
fn heading_is_learned_from_first_step() {
    for (second, heading) in [
        (&b"OK 4 5\x07\x08"[..], Direction::Left),
        (b"OK 6 5\x07\x08", Direction::Right),
        (b"OK 5 4\x07\x08", Direction::Down),
        (b"OK 5 6\x07\x08", Direction::Up),
    ] {
        let mut s = Session::new();
        login(&mut s);
        run(&mut s, b"OK 5 5\x07\x08");
        run(&mut s, second);
        assert_eq!(s.robot.direction, heading);
    }
}

#[test]
fn ram_on_probe_turns_left_and_moves_again() {
    let mut s = Session::new();
    login(&mut s);
    run(&mut s, b"OK 3 3\x07\x08");
    let (out, _) = run(&mut s, b"OK 3 3\x07\x08");
    assert_eq!(out, b"103 TURN LEFT\x07\x08".to_vec());
    let (out, _) = run(&mut s, b"OK 3 3\x07\x08");
    assert_eq!(out, b"102 MOVE\x07\x08".to_vec());
    let (out, closed) = run(&mut s, b"OK 2 3\x07\x08");
    assert_eq!(s.robot.direction, Direction::Left);
    assert_eq!(s.robot.position, Position::Known(2, 3));
    // already facing home along x
    assert_eq!(out, b"102 MOVE\x07\x08".to_vec());
    assert!(!closed);
}

#[test]
fn diagonal_step_is_logic_error() {
    let mut s = Session::new();
    login(&mut s);
    run(&mut s, b"OK 3 3\x07\x08");
    let (out, closed) = run(&mut s, b"OK 4 4\x07\x08");
    assert_eq!(out, b"302 LOGIC ERROR\x07\x08".to_vec());
    assert!(closed);
}

#[test]
fn wrong_reply_to_move_is_syntax_error() {
    let mut s = Session::new();
    login(&mut s);
    let (out, closed) = run(&mut s, b"OK 3\x07\x08");
    assert_eq!(out, b"301 SYNTAX ERROR\x07\x08".to_vec());
    assert!(closed);
}

#[test]
fn obstacle_detour() {
    let mut s = Session::new();
    login(&mut s);
    // probe: (1,0) then (2,0), facing right
    run(&mut s, b"OK 1 0\x07\x08");
    let (out, _) = run(&mut s, b"OK 2 0\x07\x08");
    assert_eq!(s.robot.direction, Direction::Right);
    // primary is left: a half turn, two left turns
    assert_eq!(out, b"103 TURN LEFT\x07\x08".to_vec());
    let (out, _) = run(&mut s, b"OK 2 0\x07\x08");
    assert_eq!(out, b"103 TURN LEFT\x07\x08".to_vec());
    let (out, _) = run(&mut s, b"OK 2 0\x07\x08");
    assert_eq!(out, b"102 MOVE\x07\x08".to_vec());
    // rammed: avoid is down, a left turn from facing left
    let (out, _) = run(&mut s, b"OK 2 0\x07\x08");
    assert_eq!(out, b"103 TURN LEFT\x07\x08".to_vec());
    let (out, _) = run(&mut s, b"OK 2 0\x07\x08");
    assert_eq!(out, b"102 MOVE\x07\x08".to_vec());
    let (out, _) = run(&mut s, b"OK 2 -1\x07\x08");
    assert_eq!(out, b"104 TURN RIGHT\x07\x08".to_vec());
    let (out, _) = run(&mut s, b"OK 2 -1\x07\x08");
    assert_eq!(out, b"102 MOVE\x07\x08".to_vec());
    let (out, _) = run(&mut s, b"OK 1 -1\x07\x08");
    assert_eq!(s.robot.position, Position::Known(1, -1));
    // one step closer on x; the next round goes on left
    assert_eq!(out, b"102 MOVE\x07\x08".to_vec());
    let (out, _) = run(&mut s, b"OK 0 -1\x07\x08");
    assert_eq!(out, b"104 TURN RIGHT\x07\x08".to_vec());
    let (out, _) = run(&mut s, b"OK 0 -1\x07\x08");
    assert_eq!(out, b"102 MOVE\x07\x08".to_vec());
    let (out, _) = run(&mut s, b"OK 0 0\x07\x08");
    assert_eq!(out, b"105 GET MESSAGE\x07\x08".to_vec());
}

/// A simulated world: the robot starts at `start` facing `heading`, with
/// obstacles in `blocked`; counts the moves before the pickup request.
fn simulate(start: (i32, i32), heading: Direction, blocked: &[(i32, i32)]) -> usize {
    let mut s = Session::new();
    login(&mut s);
    let (mut x, mut y) = start;
    let mut d = heading;
    let mut pending = b"102 MOVE\x07\x08".to_vec();
    let mut moves = 0;
    for _ in 0..100_000 {
        if pending == b"105 GET MESSAGE\x07\x08".to_vec() {
            return moves;
        }
        if pending == b"102 MOVE\x07\x08".to_vec() {
            moves += 1;
            let (dx, dy) = match d {
                Direction::Up => (0, 1),
                Direction::Down => (0, -1),
                Direction::Left => (-1, 0),
                Direction::Right => (1, 0),
                Direction::Unknown => unreachable!(),
            };
            if !blocked.contains(&(x + dx, y + dy)) {
                x += dx;
                y += dy;
            }
        } else if pending == b"103 TURN LEFT\x07\x08".to_vec() {
            d = match d {
                Direction::Up => Direction::Left,
                Direction::Left => Direction::Down,
                Direction::Down => Direction::Right,
                Direction::Right => Direction::Up,
                Direction::Unknown => unreachable!(),
            };
        } else if pending == b"104 TURN RIGHT\x07\x08".to_vec() {
            d = match d {
                Direction::Up => Direction::Right,
                Direction::Right => Direction::Down,
                Direction::Down => Direction::Left,
                Direction::Left => Direction::Up,
                Direction::Unknown => unreachable!(),
            };
        } else {
            panic!("unexpected {:?}", String::from_utf8_lossy(&pending));
        }
        let (out, closed) = run(&mut s, format!("OK {} {}\x07\x08", x, y).as_bytes());
        assert!(!closed);
        pending = out;
    }
    panic!("no pickup");
}

#[test]
fn homing_reaches_origin_in_open_field() {
    assert!(simulate((40, -30), Direction::Up, &[]) <= 2 + 70);
    assert_eq!(simulate((-7, 3), Direction::Left, &[]), 2 + 9 + 3);
}

#[test]
fn homing_reaches_origin_around_obstacles() {
    let blocked = [(3, 0), (0, 4), (-2, 1), (5, 5)];
    assert!(simulate((8, 0), Direction::Right, &blocked) < 100);
    assert!(simulate((0, 9), Direction::Down, &blocked) < 100);
    assert!(simulate((-6, 1), Direction::Up, &blocked) < 100);
}

#[test]
fn recharge_before_move_reply() {
    let mut s = Session::new();
    login(&mut s);
    run(&mut s, b"OK 0 2\x07\x08");
    let before = s;
    let (out, closed) = run(&mut s, b"RECHARGING\x07\x08FULL POWER\x07\x08");
    assert!(out.is_empty() && !closed);
    assert_eq!(s, before);
    let (out, _) = run(&mut s, b"OK 0 1\x07\x08");
    assert_eq!(s.robot.direction, Direction::Down);
    assert_eq!(out, b"102 MOVE\x07\x08".to_vec());
}

#[test]
fn recharge_twice_is_logic_error() {
    let mut s = Session::new();
    login(&mut s);
    let (out, closed) = run(&mut s, b"RECHARGING\x07\x08RECHARGING\x07\x08");
    assert_eq!(out, b"302 LOGIC ERROR\x07\x08".to_vec());
    assert!(closed);
}

#[test]
fn too_long_move_reply_is_syntax_error() {
    let mut s = Session::new();
    login(&mut s);
    let (out, closed) = run(&mut s, b"OK 1000 1000\x07\x08");
    assert_eq!(out, b"301 SYNTAX ERROR\x07\x08".to_vec());
    assert!(closed);
}

#[test]
fn secret_may_be_a_number() {
    let mut s = Session::new();
    login(&mut s);
    run(&mut s, b"OK 0 1\x07\x08OK 0 0\x07\x08");
    let (out, closed) = run(&mut s, b"12345\x07\x08");
    assert_eq!(out, b"106 LOGOUT\x07\x08".to_vec());
    assert!(closed);
}

#[test]
fn name_must_be_text() {
    let mut s = Session::new();
    let (out, closed) = run(&mut s, b"OK 1 1\x07\x08");
    assert_eq!(out, b"301 SYNTAX ERROR\x07\x08".to_vec());
    assert!(closed);
}
