use robot_server::codec::{ClientMessage, ServerMessage};
use robot_server::frame::{FrameReader, FrameStep};

fn frame_text(m: ServerMessage) -> Vec<u8> {
    m.to_bytes()
}

#[test]
fn server_messages_have_their_texts() {
    assert_eq!(frame_text(ServerMessage::Confirmation(43253)), b"43253\x07\x08".to_vec());
    assert_eq!(frame_text(ServerMessage::Confirmation(0)), b"0\x07\x08".to_vec());
    assert_eq!(frame_text(ServerMessage::Confirmation(65535)), b"65535\x07\x08".to_vec());
    assert_eq!(frame_text(ServerMessage::Move), b"102 MOVE\x07\x08".to_vec());
    assert_eq!(frame_text(ServerMessage::TurnLeft), b"103 TURN LEFT\x07\x08".to_vec());
    assert_eq!(frame_text(ServerMessage::TurnRight), b"104 TURN RIGHT\x07\x08".to_vec());
    assert_eq!(frame_text(ServerMessage::PickUp), b"105 GET MESSAGE\x07\x08".to_vec());
    assert_eq!(frame_text(ServerMessage::Logout), b"106 LOGOUT\x07\x08".to_vec());
    assert_eq!(frame_text(ServerMessage::KeyRequest), b"107 KEY REQUEST\x07\x08".to_vec());
    assert_eq!(frame_text(ServerMessage::OK), b"200 OK\x07\x08".to_vec());
    assert_eq!(frame_text(ServerMessage::LoginFailed), b"300 LOGIN FAILED\x07\x08".to_vec());
    assert_eq!(frame_text(ServerMessage::SyntaxError), b"301 SYNTAX ERROR\x07\x08".to_vec());
    assert_eq!(frame_text(ServerMessage::LogicError), b"302 LOGIC ERROR\x07\x08".to_vec());
    assert_eq!(frame_text(ServerMessage::KeyOutOfRangeError), b"303 KEY OUT OF RANGE\x07\x08".to_vec());
}

#[test]
fn every_frame_has_one_terminator_at_its_end() {
    let all = [
        ServerMessage::Confirmation(7),
        ServerMessage::Confirmation(1808),
        ServerMessage::Move,
        ServerMessage::TurnLeft,
        ServerMessage::TurnRight,
        ServerMessage::PickUp,
        ServerMessage::Logout,
        ServerMessage::KeyRequest,
        ServerMessage::OK,
        ServerMessage::LoginFailed,
        ServerMessage::SyntaxError,
        ServerMessage::LogicError,
        ServerMessage::KeyOutOfRangeError,
    ];
    for m in all {
        let f = m.to_bytes();
        let pairs: Vec<usize> = (0..f.len() - 1).filter(|&i| f[i] == 7 && f[i + 1] == 8).collect();
        assert_eq!(pairs, vec![f.len() - 2]);
    }
}

#[test]
fn parses_recharge_messages() {
    assert!(matches!(ClientMessage::parse(b"RECHARGING"), Some(ClientMessage::Recharging)));
    assert!(matches!(ClientMessage::parse(b"FULL POWER"), Some(ClientMessage::FullPower)));
    assert!(matches!(ClientMessage::parse(b"FULL POWER "), Some(ClientMessage::Text(_))));
}

#[test]
fn parses_positions() {
    assert!(matches!(ClientMessage::parse(b"OK 1 -2"), Some(ClientMessage::Position(1, -2))));
    assert!(matches!(ClientMessage::parse(b"OK -2147483648 2147483647"), Some(ClientMessage::Position(-2147483648, 2147483647))));
    assert!(matches!(ClientMessage::parse(b"OK +3 0"), Some(ClientMessage::Position(3, 0))));
}

#[test]
fn malformed_positions_stay_text() {
    for p in [&b"OK 5"[..], b"OK 1 2 3", b"OK  1 2", b"OK a 2", b"OK 2147483648 0", b"OK - 1", b"OK 1 "] {
        match ClientMessage::parse(p) {
            Some(ClientMessage::Text(t)) => assert_eq!(t, p.to_vec()),
            other => panic!("{:?} parsed as {:?}", p, other),
        }
    }
}

#[test]
fn parses_numbers() {
    assert!(matches!(ClientMessage::parse(b"2"), Some(ClientMessage::Number(2))));
    assert!(matches!(ClientMessage::parse(b"38067"), Some(ClientMessage::Number(38067))));
    assert!(matches!(ClientMessage::parse(b"4294967295"), Some(ClientMessage::Number(4294967295))));
    assert!(matches!(ClientMessage::parse(b"4294967296"), Some(ClientMessage::Text(_))));
    assert!(matches!(ClientMessage::parse(b"-1"), Some(ClientMessage::Text(_))));
    assert!(matches!(ClientMessage::parse(b""), Some(ClientMessage::Text(_))));
}

#[test]
fn parses_names() {
    match ClientMessage::parse(b"Mnau") {
        Some(ClientMessage::Text(t)) => assert_eq!(t, b"Mnau".to_vec()),
        other => panic!("{:?}", other),
    }
}

#[test]
fn rejects_non_ascii() {
    assert!(ClientMessage::parse(&[77, 200, 65]).is_none());
    assert!(ClientMessage::parse("Čau".as_bytes()).is_none());
}

fn read(cap: usize, bytes: &[u8]) -> (Option<FrameStep>, usize) {
    let mut r = FrameReader::new(cap);
    for (i, &b) in bytes.iter().enumerate() {
        match r.push(b) {
            FrameStep::Pending => {}
            done => return (Some(done), i + 1),
        }
    }
    (None, bytes.len())
}

#[test]
fn frame_at_cap_is_read() {
    let mut bytes = vec![b'a'; 19];
    bytes.extend_from_slice(b"\x07\x08");
    match read(20, &bytes) {
        (Some(FrameStep::Complete(p)), 21) => assert_eq!(p, vec![b'a'; 19]),
        other => panic!("{:?}", other),
    }
}

#[test]
fn frame_below_cap_is_read() {
    let mut bytes = vec![b'a'; 18];
    bytes.extend_from_slice(b"\x07\x08");
    match read(20, &bytes) {
        (Some(FrameStep::Complete(p)), 20) => assert_eq!(p, vec![b'a'; 18]),
        other => panic!("{:?}", other),
    }
}

#[test]
fn frame_over_cap_is_too_long() {
    let mut bytes = vec![b'a'; 20];
    bytes.extend_from_slice(b"\x07\x08");
    assert!(matches!(read(20, &bytes), (Some(FrameStep::TooLong), 20)));
    assert!(matches!(read(20, &[b'x'; 20]), (Some(FrameStep::TooLong), 20)));
    assert!(matches!(read(12, &[b'1'; 12]), (Some(FrameStep::TooLong), 12)));
    // a terminator's first byte at the cap, then anything but its second
    let mut bytes = vec![b'a'; 19];
    bytes.extend_from_slice(b"\x07a");
    assert!(matches!(read(20, &bytes), (Some(FrameStep::TooLong), 21)));
}

#[test]
fn empty_payload_is_a_frame() {
    assert!(matches!(read(12, b"\x07\x08"), (Some(FrameStep::Complete(ref p)), 2) if p.is_empty()));
}

#[test]
fn lone_bel_stays_in_payload() {
    match read(12, b"a\x07\x07\x08") {
        (Some(FrameStep::Complete(p)), 4) => assert_eq!(p, b"a\x07".to_vec()),
        other => panic!("{:?}", other),
    }
}
