//! Wire codec: the text of server messages and the decoding of client frames.
use vstd::prelude::*;

verus! {

/// The bytes of an ASCII string.
pub open spec fn ascii_bytes(s: Seq<char>) -> Seq<u8> {
    Seq::new(s.len(), |i: int| s[i] as u8)
}

/// The two bytes (BEL, BS) that end every frame.
pub open spec fn terminator() -> Seq<u8> {
    seq![7u8, 8u8]
}

/// Whether the terminator pair starts at position `i` of `s`.
pub open spec fn pair_at(s: Seq<u8>, i: int) -> bool {
    0 <= i && i + 1 < s.len() && s[i] == 7 && s[i + 1] == 8
}

/// Whether `s` holds the terminator pair at some position.
pub open spec fn has_terminator_pair(s: Seq<u8>) -> bool {
    exists|i: int| #[trigger] pair_at(s, i)
}

pub open spec fn is_digit(b: u8) -> bool {
    48 <= b <= 57
}

/// A non-empty run of decimal digits.
pub open spec fn all_digits(s: Seq<u8>) -> bool {
    s.len() > 0 && forall|i: int| 0 <= i < s.len() ==> is_digit(#[trigger] s[i])
}

/// The value of a run of decimal digits, most significant first.
pub open spec fn digits_value(s: Seq<u8>) -> nat
    decreases s.len(),
{
    if s.len() == 0 {
        0
    } else {
        digits_value(s.drop_last()) * 10 + (s.last() - 48) as nat
    }
}

/// The shortest decimal text of `n`.
pub open spec fn decimal(n: nat) -> Seq<u8>
    decreases n,
{
    if n < 10 {
        seq![(48 + n) as u8]
    } else {
        decimal(n / 10).push((48 + n % 10) as u8)
    }
}

/// Messages that the server sends.
#[derive(PartialEq, Eq, Structural, Clone, Copy, Debug)]
pub enum ServerMessage {
    Confirmation(u16),
    Move,
    TurnLeft,
    TurnRight,
    PickUp,
    Logout,
    KeyRequest,
    OK,
    LoginFailed,
    SyntaxError,
    LogicError,
    KeyOutOfRangeError,
}

/// The text of a server message, without the terminator.
pub open spec fn server_text(m: ServerMessage) -> Seq<u8> {
    match m {
        ServerMessage::Confirmation(n) => decimal(n as nat),
        ServerMessage::Move => ascii_bytes("102 MOVE"@),
        ServerMessage::TurnLeft => ascii_bytes("103 TURN LEFT"@),
        ServerMessage::TurnRight => ascii_bytes("104 TURN RIGHT"@),
        ServerMessage::PickUp => ascii_bytes("105 GET MESSAGE"@),
        ServerMessage::Logout => ascii_bytes("106 LOGOUT"@),
        ServerMessage::KeyRequest => ascii_bytes("107 KEY REQUEST"@),
        ServerMessage::OK => ascii_bytes("200 OK"@),
        ServerMessage::LoginFailed => ascii_bytes("300 LOGIN FAILED"@),
        ServerMessage::SyntaxError => ascii_bytes("301 SYNTAX ERROR"@),
        ServerMessage::LogicError => ascii_bytes("302 LOGIC ERROR"@),
        ServerMessage::KeyOutOfRangeError => ascii_bytes("303 KEY OUT OF RANGE"@),
    }
}

/// The frame of a server message: its text followed by the terminator.
pub open spec fn server_frame(m: ServerMessage) -> Seq<u8> {
    server_text(m) + terminator()
}

/// Appends the bytes of the ASCII string `s` to `out`.
fn push_ascii(out: &mut Vec<u8>, s: &str)
    requires
        s.is_ascii(),
    ensures
        final(out)@ == old(out)@ + ascii_bytes(s@),
{
    let b = s.as_bytes();
    proof {
        vstd::string::is_ascii_spec_bytes(s);
    }
    let mut i: usize = 0;
    while i < b.len()
        invariant
            b@ == ascii_bytes(s@),
            i <= b@.len(),
            out@ == old(out)@ + b@.subrange(0, i as int),
        decreases b@.len() - i,
    {
        out.push(b[i]);
        i += 1;
        assert(out@ =~= old(out)@ + b@.subrange(0, i as int));
    }
    assert(b@.subrange(0, i as int) =~= b@);
}

/// Appends the shortest decimal text of `n` to `out`.
fn push_decimal(out: &mut Vec<u8>, n: u16)
    ensures
        final(out)@ == old(out)@ + decimal(n as nat),
{
    let mut digits: Vec<u8> = Vec::new();
    let mut m: u16 = n;
    while m >= 10
        invariant
            decimal(n as nat) == decimal(m as nat) + digits@,
        decreases m,
    {
        let d: u8 = (m % 10) as u8 + 48;
        assert(decimal(m as nat) == decimal((m / 10) as nat).push(d));
        digits.insert(0, d);
        assert(decimal(n as nat) =~= decimal((m / 10) as nat) + digits@);
        m = m / 10;
    }
    digits.insert(0, (m as u8) + 48);
    assert(decimal(n as nat) =~= digits@);
    let mut i: usize = 0;
    while i < digits.len()
        invariant
            i <= digits@.len(),
            decimal(n as nat) == digits@,
            out@ == old(out)@ + digits@.subrange(0, i as int),
        decreases digits@.len() - i,
    {
        out.push(digits[i]);
        i += 1;
        assert(out@ =~= old(out)@ + digits@.subrange(0, i as int));
    }
    assert(digits@.subrange(0, i as int) =~= digits@);
}

impl ServerMessage {
    /// The bytes of this message's frame, terminator included.
    pub fn to_bytes(&self) -> (r: Vec<u8>)
        ensures
            r@ == server_frame(*self),
    {
        let mut out: Vec<u8> = Vec::new();
        let text = match *self {
            ServerMessage::Confirmation(n) => {
                push_decimal(&mut out, n);
                ""
            },
            ServerMessage::Move => "102 MOVE",
            ServerMessage::TurnLeft => "103 TURN LEFT",
            ServerMessage::TurnRight => "104 TURN RIGHT",
            ServerMessage::PickUp => "105 GET MESSAGE",
            ServerMessage::Logout => "106 LOGOUT",
            ServerMessage::KeyRequest => "107 KEY REQUEST",
            ServerMessage::OK => "200 OK",
            ServerMessage::LoginFailed => "300 LOGIN FAILED",
            ServerMessage::SyntaxError => "301 SYNTAX ERROR",
            ServerMessage::LogicError => "302 LOGIC ERROR",
            ServerMessage::KeyOutOfRangeError => "303 KEY OUT OF RANGE",
        };
        proof {
            reveal_strlit("");
            reveal_strlit("102 MOVE");
            reveal_strlit("103 TURN LEFT");
            reveal_strlit("104 TURN RIGHT");
            reveal_strlit("105 GET MESSAGE");
            reveal_strlit("106 LOGOUT");
            reveal_strlit("107 KEY REQUEST");
            reveal_strlit("200 OK");
            reveal_strlit("300 LOGIN FAILED");
            reveal_strlit("301 SYNTAX ERROR");
            reveal_strlit("302 LOGIC ERROR");
            reveal_strlit("303 KEY OUT OF RANGE");
        }
        push_ascii(&mut out, text);
        out.push(7);
        out.push(8);
        assert(out@ =~= server_frame(*self));
        out
    }
}

/// A decoded client message, as the session reads it.
pub ghost enum Decoded {
    Text(Seq<u8>),
    Number(u32),
    Position(i32, i32),
    Recharging,
    FullPower,
}

/// Messages that a client sends, once framed and decoded. A name, a key
/// id and a confirmation share their wire forms: the session tells them
/// apart by phase.
#[derive(Debug)]
pub enum ClientMessage {
    Text(Vec<u8>),
    Number(u32),
    Position(i32, i32),
    Recharging,
    FullPower,
}

impl View for ClientMessage {
    type V = Decoded;

    open spec fn view(&self) -> Decoded {
        match self {
            ClientMessage::Text(t) => Decoded::Text(t@),
            ClientMessage::Number(n) => Decoded::Number(*n),
            ClientMessage::Position(x, y) => Decoded::Position(*x, *y),
            ClientMessage::Recharging => Decoded::Recharging,
            ClientMessage::FullPower => Decoded::FullPower,
        }
    }
}

pub open spec fn is_ascii_bytes(s: Seq<u8>) -> bool {
    forall|i: int| 0 <= i < s.len() ==> #[trigger] s[i] < 128
}

/// `s` without a leading byte `c`, if it has one.
pub open spec fn strip_sign(s: Seq<u8>, c: u8) -> Seq<u8> {
    if s.len() > 0 && s[0] == c {
        s.drop_first()
    } else {
        s
    }
}

/// An unsigned 32-bit decimal number: an optional `+`, then digits.
pub open spec fn unsigned_of(s: Seq<u8>) -> Option<u32> {
    let d = strip_sign(s, 43);
    if all_digits(d) && digits_value(d) <= u32::MAX {
        Some(digits_value(d) as u32)
    } else {
        None
    }
}

/// A signed 32-bit decimal number: an optional `+` or `-`, then digits.
pub open spec fn signed_of(s: Seq<u8>) -> Option<i32> {
    if s.len() > 0 && s[0] == 45 {
        let d = s.drop_first();
        if all_digits(d) && digits_value(d) <= 0x8000_0000 {
            Some((0 - digits_value(d)) as i32)
        } else {
            None
        }
    } else {
        let d = strip_sign(s, 43);
        if all_digits(d) && digits_value(d) <= i32::MAX {
            Some(digits_value(d) as i32)
        } else {
            None
        }
    }
}

/// Two signed numbers separated by exactly one space.
pub open spec fn coordinates_of(s: Seq<u8>) -> Option<(i32, i32)> {
    if exists|k: int| 0 <= k < s.len() && s[k] == 32 && (forall|j: int|
        0 <= j < s.len() && j != k ==> #[trigger] s[j] != 32) {
        let k = choose|k: int| 0 <= k < s.len() && s[k] == 32 && (forall|j: int|
            0 <= j < s.len() && j != k ==> #[trigger] s[j] != 32);
        match (signed_of(s.subrange(0, k)), signed_of(s.subrange(k + 1, s.len() as int))) {
            (Some(x), Some(y)) => Some((x, y)),
            _ => None,
        }
    } else {
        None
    }
}

/// Whether `s` begins with `OK ` (O, K, space).
pub open spec fn starts_with_ok(s: Seq<u8>) -> bool {
    s.len() >= 3 && s[0] == 79 && s[1] == 75 && s[2] == 32
}

/// How a frame's payload decodes; `None` for a payload that is not ASCII.
pub open spec fn decode(p: Seq<u8>) -> Option<Decoded> {
    if p == ascii_bytes("RECHARGING"@) {
        Some(Decoded::Recharging)
    } else if p == ascii_bytes("FULL POWER"@) {
        Some(Decoded::FullPower)
    } else if !is_ascii_bytes(p) {
        None
    } else if starts_with_ok(p) {
        match coordinates_of(p.subrange(3, p.len() as int)) {
            Some((x, y)) => Some(Decoded::Position(x, y)),
            None => Some(Decoded::Text(p)),
        }
    } else {
        match unsigned_of(p) {
            Some(n) => Some(Decoded::Number(n)),
            None => Some(Decoded::Text(p)),
        }
    }
}

proof fn lemma_digits_value_prefix_grows(s: Seq<u8>, j: int)
    requires
        0 <= j <= s.len(),
        forall|i: int| 0 <= i < s.len() ==> is_digit(#[trigger] s[i]),
    ensures
        digits_value(s.subrange(0, j)) <= digits_value(s),
    decreases s.len(),
{
    if j < s.len() {
        assert(s.drop_last().subrange(0, j) =~= s.subrange(0, j));
        lemma_digits_value_prefix_grows(s.drop_last(), j);
    } else {
        assert(s.subrange(0, j) =~= s);
    }
}

/// The value of the digits `p[start..end]` if they are all digits, there is
/// at least one, and the value is at most `bound`.
fn bounded_digits(p: &[u8], start: usize, end: usize, bound: u64) -> (r: Option<u64>)
    requires
        start <= end <= p@.len(),
        9 <= bound,
    ensures
        r == (if all_digits(p@.subrange(start as int, end as int))
            && digits_value(p@.subrange(start as int, end as int)) <= bound {
            Some(digits_value(p@.subrange(start as int, end as int)) as u64)
        } else {
            None
        }),
{
    if start == end {
        return None;
    }
    let ghost s = p@.subrange(start as int, end as int);
    let mut acc: u64 = 0;
    let mut i: usize = start;
    while i < end
        invariant
            start <= i <= end <= p@.len(),
            s == p@.subrange(start as int, end as int),
            forall|j: int| 0 <= j < i - start ==> is_digit(#[trigger] s[j]),
            acc == digits_value(s.subrange(0, i - start)),
            acc <= bound,
            9 <= bound,
        decreases end - i,
    {
        let b = p[i];
        if b < 48 || b > 57 {
            assert(!is_digit(s[i - start]));
            return None;
        }
        assert(s.subrange(0, i + 1 - start).drop_last() =~= s.subrange(0, i - start));
        if acc > (bound - (b - 48) as u64) / 10 {
            proof {
                assert(digits_value(s.subrange(0, i + 1 - start)) > bound) by (nonlinear_arith)
                    requires
                        acc > (bound - (b - 48) as u64) / 10,
                        digits_value(s.subrange(0, i + 1 - start)) == acc * 10 + (b - 48),
                        b >= 48, b <= 57, acc <= bound;
                if all_digits(s) {
                    lemma_digits_value_prefix_grows(s, i + 1 - start);
                }
            }
            return None;
        }
        proof {
            assert(acc * 10 + (b - 48) <= bound) by (nonlinear_arith)
                requires
                    acc <= (bound - (b - 48) as u64) / 10,
                    b >= 48, b <= 57, acc <= bound;
        }
        acc = acc * 10 + (b - 48) as u64;
        i += 1;
    }
    assert(s.subrange(0, i - start) =~= s);
    Some(acc)
}

/// The signed number in `p[start..end]`, as `signed_of` reads it.
fn parse_signed(p: &[u8], start: usize, end: usize) -> (r: Option<i32>)
    requires
        start <= end <= p@.len(),
    ensures
        r == signed_of(p@.subrange(start as int, end as int)),
{
    let ghost s = p@.subrange(start as int, end as int);
    if start < end && p[start] == 45 {
        assert(s.drop_first() =~= p@.subrange(start + 1, end as int));
        match bounded_digits(p, start + 1, end, 0x8000_0000) {
            Some(v) => Some((0 - v as i64) as i32),
            None => None,
        }
    } else if start < end && p[start] == 43 {
        assert(s.drop_first() =~= p@.subrange(start + 1, end as int));
        match bounded_digits(p, start + 1, end, 0x7fff_ffff) {
            Some(v) => Some(v as i32),
            None => None,
        }
    } else {
        match bounded_digits(p, start, end, 0x7fff_ffff) {
            Some(v) => Some(v as i32),
            None => None,
        }
    }
}

/// The unsigned number in `p`, as `unsigned_of` reads it.
fn parse_unsigned(p: &[u8]) -> (r: Option<u32>)
    ensures
        r == unsigned_of(p@),
{
    assert(p@.subrange(0, p@.len() as int) =~= p@);
    if p.len() > 0 && p[0] == 43 {
        assert(p@.drop_first() =~= p@.subrange(1, p@.len() as int));
        match bounded_digits(p, 1, p.len(), 0xffff_ffff) {
            Some(v) => Some(v as u32),
            None => None,
        }
    } else {
        match bounded_digits(p, 0, p.len(), 0xffff_ffff) {
            Some(v) => Some(v as u32),
            None => None,
        }
    }
}

/// Two signed numbers separated by one space in `p[3..]`.
fn parse_coordinates(p: &[u8]) -> (r: Option<(i32, i32)>)
    requires
        p@.len() >= 3,
    ensures
        r == coordinates_of(p@.subrange(3, p@.len() as int)),
{
    let ghost s = p@.subrange(3, p@.len() as int);
    let mut space: usize = 0;
    let mut count: usize = 0;
    let mut i: usize = 3;
    while i < p.len()
        invariant
            3 <= i <= p@.len(),
            s == p@.subrange(3, p@.len() as int),
            count <= i,
            count == 0 ==> forall|j: int| 0 <= j < i - 3 ==> #[trigger] s[j] != 32,
            count == 1 ==> 3 <= space < i && p@[space as int] == 32 && forall|j: int|
                0 <= j < i - 3 && j != space - 3 ==> #[trigger] s[j] != 32,
            count >= 2 ==> exists|a: int, b: int|
                0 <= a < b < i - 3 && #[trigger] s[a] == 32 && #[trigger] s[b] == 32,
        decreases p@.len() - i,
    {
        if p[i] == 32 {
            if count == 1 {
                assert(s[space - 3] == 32 && s[i - 3] == 32);
            }
            if count == 0 {
                space = i;
            }
            if count < 2 {
                count += 1;
            }
        }
        i += 1;
    }
    if count != 1 {
        if count >= 2 {
            let ghost (a, b) = choose|a: int, b: int|
                0 <= a < b < s.len() && #[trigger] s[a] == 32 && #[trigger] s[b] == 32;
            assert forall|k: int| 0 <= k < s.len() && s[k] == 32 implies !(forall|j: int|
                0 <= j < s.len() && j != k ==> #[trigger] s[j] != 32) by {
                if k == a {
                    assert(s[b] == 32);
                } else {
                    assert(s[a] == 32);
                }
            }
        }
        return None;
    }
    let ghost k = space - 3;
    assert(s[k] == 32);
    proof {
        let k2 = choose|k2: int| 0 <= k2 < s.len() && s[k2] == 32 && (forall|j: int|
            0 <= j < s.len() && j != k2 ==> #[trigger] s[j] != 32);
        if k2 != k {
            assert(s[k] != 32);
        }
    }
    assert(s.subrange(0, k) =~= p@.subrange(3, space as int));
    assert(s.subrange(k + 1, s.len() as int) =~= p@.subrange(space + 1, p@.len() as int));
    let x = parse_signed(p, 3, space);
    let y = parse_signed(p, space + 1, p.len());
    match (x, y) {
        (Some(x), Some(y)) => Some((x, y)),
        _ => None,
    }
}

/// Whether `p` holds exactly the bytes of the ASCII string `s`.
fn equals_ascii(p: &[u8], s: &str) -> (r: bool)
    requires
        s.is_ascii(),
    ensures
        r == (p@ == ascii_bytes(s@)),
{
    let b = s.as_bytes();
    proof {
        vstd::string::is_ascii_spec_bytes(s);
    }
    if p.len() != b.len() {
        return false;
    }
    let mut i: usize = 0;
    while i < p.len()
        invariant
            b@ == ascii_bytes(s@),
            p@.len() == b@.len(),
            i <= p@.len(),
            forall|j: int| 0 <= j < i ==> p@[j] == b@[j],
        decreases p@.len() - i,
    {
        if p[i] != b[i] {
            return false;
        }
        i += 1;
    }
    assert(p@ =~= b@);
    true
}

fn is_ascii_payload(p: &[u8]) -> (r: bool)
    ensures
        r == is_ascii_bytes(p@),
{
    let mut i: usize = 0;
    while i < p.len()
        invariant
            i <= p@.len(),
            forall|j: int| 0 <= j < i ==> #[trigger] p@[j] < 128,
        decreases p@.len() - i,
    {
        if p[i] >= 128 {
            return false;
        }
        i += 1;
    }
    true
}

fn copy_bytes(p: &[u8]) -> (r: Vec<u8>)
    ensures
        r@ == p@,
{
    let mut out: Vec<u8> = Vec::new();
    let mut i: usize = 0;
    while i < p.len()
        invariant
            i <= p@.len(),
            out@ == p@.subrange(0, i as int),
        decreases p@.len() - i,
    {
        out.push(p[i]);
        i += 1;
        assert(out@ =~= p@.subrange(0, i as int));
    }
    assert(p@.subrange(0, i as int) =~= p@);
    out
}

impl ClientMessage {
    /// Decodes the payload of a frame (its terminator already removed);
    /// `None` where the payload is not ASCII.
    pub fn parse(p: &[u8]) -> (r: Option<ClientMessage>)
        ensures
            match r {
                Some(m) => decode(p@) == Some(m@),
                None => decode(p@).is_none(),
            },
    {
        proof {
            reveal_strlit("RECHARGING");
            reveal_strlit("FULL POWER");
        }
        if equals_ascii(p, "RECHARGING") {
            return Some(ClientMessage::Recharging);
        }
        if equals_ascii(p, "FULL POWER") {
            return Some(ClientMessage::FullPower);
        }
        if !is_ascii_payload(p) {
            return None;
        }
        if p.len() >= 3 && p[0] == 79 && p[1] == 75 && p[2] == 32 {
            return match parse_coordinates(p) {
                Some((x, y)) => Some(ClientMessage::Position(x, y)),
                None => Some(ClientMessage::Text(copy_bytes(p))),
            };
        }
        match parse_unsigned(p) {
            Some(n) => Some(ClientMessage::Number(n)),
            None => Some(ClientMessage::Text(copy_bytes(p))),
        }
    }
}

/// The server message a frame holds, read back: a run of digits is a
/// confirmation, any other text one of the fixed messages.
pub open spec fn server_message_of(f: Seq<u8>) -> Option<ServerMessage> {
    if f.len() < 2 || f.subrange(f.len() - 2, f.len() as int) != terminator() {
        None
    } else {
        let t = f.subrange(0, f.len() - 2);
        if all_digits(t) {
            if digits_value(t) <= 0xffff {
                Some(ServerMessage::Confirmation(digits_value(t) as u16))
            } else {
                None
            }
        } else if t == server_text(ServerMessage::Move) {
            Some(ServerMessage::Move)
        } else if t == server_text(ServerMessage::TurnLeft) {
            Some(ServerMessage::TurnLeft)
        } else if t == server_text(ServerMessage::TurnRight) {
            Some(ServerMessage::TurnRight)
        } else if t == server_text(ServerMessage::PickUp) {
            Some(ServerMessage::PickUp)
        } else if t == server_text(ServerMessage::Logout) {
            Some(ServerMessage::Logout)
        } else if t == server_text(ServerMessage::KeyRequest) {
            Some(ServerMessage::KeyRequest)
        } else if t == server_text(ServerMessage::OK) {
            Some(ServerMessage::OK)
        } else if t == server_text(ServerMessage::LoginFailed) {
            Some(ServerMessage::LoginFailed)
        } else if t == server_text(ServerMessage::SyntaxError) {
            Some(ServerMessage::SyntaxError)
        } else if t == server_text(ServerMessage::LogicError) {
            Some(ServerMessage::LogicError)
        } else if t == server_text(ServerMessage::KeyOutOfRangeError) {
            Some(ServerMessage::KeyOutOfRangeError)
        } else {
            None
        }
    }
}

proof fn lemma_decimal(n: nat)
    ensures
        all_digits(decimal(n)),
        digits_value(decimal(n)) == n,
    decreases n,
{
    if n >= 10 {
        lemma_decimal(n / 10);
        let d = decimal(n);
        assert(d.drop_last() =~= decimal(n / 10));
        assert(d.last() == (48 + n % 10) as u8);
        vstd::arithmetic::div_mod::lemma_fundamental_div_mod(n as int, 10);
        assert(digits_value(d) == digits_value(decimal(n / 10)) * 10 + (d.last() - 48) as nat);
        assert(digits_value(d) == (n / 10) * 10 + n % 10);
    } else {
        let d = decimal(n);
        assert(d.drop_last() =~= Seq::<u8>::empty());
        assert(digits_value(d.drop_last()) == 0);
        assert(d.last() == (48 + n) as u8);
        assert(digits_value(d) == digits_value(d.drop_last()) * 10 + (d.last() - 48) as nat);
    }
}

/// Every server frame reads back as the message it was made from, and its
/// only terminator pair is the one at its end.
pub proof fn server_frame_round_trip(m: ServerMessage)
    ensures
        server_message_of(server_frame(m)) == Some(m),
        !has_terminator_pair(server_text(m)),
        server_frame(m).subrange(server_frame(m).len() - 2, server_frame(m).len() as int) == terminator(),
        forall|i: int| #[trigger] pair_at(server_frame(m), i) ==> i == server_frame(m).len() - 2,
{
    reveal_strlit("102 MOVE");
    reveal_strlit("103 TURN LEFT");
    reveal_strlit("104 TURN RIGHT");
    reveal_strlit("105 GET MESSAGE");
    reveal_strlit("106 LOGOUT");
    reveal_strlit("107 KEY REQUEST");
    reveal_strlit("200 OK");
    reveal_strlit("300 LOGIN FAILED");
    reveal_strlit("301 SYNTAX ERROR");
    reveal_strlit("302 LOGIC ERROR");
    reveal_strlit("303 KEY OUT OF RANGE");
    let t = server_text(m);
    let f = server_frame(m);
    assert(f.subrange(0, f.len() - 2) =~= t);
    assert(f.subrange(f.len() - 2, f.len() as int) =~= terminator());
    if let ServerMessage::Confirmation(n) = m {
        lemma_decimal(n as nat);
        assert forall|i: int| 0 <= i < t.len() implies t[i] >= 48 by {
            assert(is_digit(t[i]));
        }
    } else {
        assert(t.len() >= 4 && t[3] == 32);
        assert(!is_digit(t[3]));
        assert(server_text(ServerMessage::PickUp)[2] != server_text(ServerMessage::KeyRequest)[2]);
        assert(server_text(ServerMessage::PickUp)[2] != server_text(ServerMessage::LogicError)[2]);
        assert(server_text(ServerMessage::KeyRequest)[2] != server_text(ServerMessage::LogicError)[2]);
        assert(server_text(ServerMessage::LoginFailed)[2] != server_text(ServerMessage::SyntaxError)[2]);
        assert forall|i: int| 0 <= i < t.len() implies t[i] >= 32 by {}
    }
    assert forall|i: int| #[trigger] pair_at(f, i) implies i == f.len() - 2 by {
        if i < f.len() - 2 {
            assert(f[i] == t[i]);
        }
    }
    assert forall|i: int| !#[trigger] pair_at(t, i) by {
        if pair_at(t, i) {
            assert(t[i] >= 32);
        }
    }
}

} // verus!
