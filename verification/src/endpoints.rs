//! What the HTTP endpoints compute: the join path of a websocket, fresh room
//! codes and identifiers, and the error bodies sent back to the browser.
use vstd::prelude::*;
use vstd::string::*;
use vstd::utf8::*;
use crate::ids::{
    ClientId, hex_value, id_digits, is_hyphenated_id, is_random_v4, parse_hyphenated_id, random_v4_id,
    uuid_error_text,
};
use crate::server::WebsocketConnection;
use rand::Rng;

verus! {

broadcast use vstd::utf8::group_utf8_lib;

/// Why a room code could not be read.
#[derive(Clone, Copy, Debug, PartialEq, Eq, Structural)]
pub enum RoomCodeError {
    /// There were no characters at all.
    Empty,
    /// A character is not a decimal digit.
    InvalidDigit,
}

/// Why the join path of a websocket could not be read.
#[derive(Debug, PartialEq, Eq)]
pub enum ParseError {
    /// The first six bytes are not a room code.
    RoomCode(RoomCodeError),
    /// The next 36 bytes are not a hyphenated client identifier; the text
    /// says what is wrong with them.
    ClientId(String),
}

/// Whether `b` is an ASCII decimal digit.
pub open spec fn is_decimal_digit(b: u8) -> bool {
    48 <= b <= 57
}

/// The number written by the decimal digits `digits`, most significant first.
pub open spec fn decimal_value(digits: Seq<u8>) -> nat
    decreases digits.len(),
{
    if digits.len() == 0 {
        0
    } else {
        decimal_value(digits.drop_last()) * 10 + (digits.last() - 48) as nat
    }
}

/// The digits of `text`, a leading `+` left out.
pub open spec fn unsigned_digits(text: Seq<u8>) -> Seq<u8> {
    if text.len() > 0 && text[0] == 43u8 {
        text.drop_first()
    } else {
        text
    }
}

/// What reading `text` as an unsigned decimal number gives: an optional `+`
/// followed by at least one digit, and nothing else.
pub open spec fn room_code_spec(text: Seq<u8>) -> Result<nat, RoomCodeError> {
    let digits = unsigned_digits(text);
    if text.len() == 0 {
        Err(RoomCodeError::Empty)
    } else if digits.len() > 0 && forall|i: int| 0 <= i < digits.len() ==> #[trigger] is_decimal_digit(digits[i]) {
        Ok(decimal_value(digits))
    } else {
        Err(RoomCodeError::InvalidDigit)
    }
}

/// Ten to the power `n`.
pub open spec fn pow10(n: nat) -> nat
    decreases n,
{
    if n == 0 {
        1
    } else {
        10 * pow10((n - 1) as nat)
    }
}

proof fn lemma_pow10_monotone(m: nat, n: nat)
    requires
        m <= n,
    ensures
        pow10(m) <= pow10(n),
    decreases n,
{
    if m < n {
        lemma_pow10_monotone(m, (n - 1) as nat);
    }
}

/// Reads a room code: an optional `+` and decimal digits, at most nine bytes.
fn parse_room_code(text: &[u8]) -> (code: Result<u32, RoomCodeError>)
    requires
        text@.len() <= 9,
    ensures
        match room_code_spec(text@) {
            Ok(n) => code == Ok::<u32, RoomCodeError>(n as u32) && n < 1_000_000_000,
            Err(e) => code == Err::<u32, RoomCodeError>(e),
        },
{
    if text.len() == 0 {
        return Err(RoomCodeError::Empty);
    }
    let start: usize = if text[0] == 43u8 { 1 } else { 0 };
    let ghost digits = unsigned_digits(text@);
    assert(digits =~= text@.subrange(start as int, text@.len() as int));
    if start == text.len() {
        return Err(RoomCodeError::InvalidDigit);
    }
    let mut value: u32 = 0;
    let mut i: usize = start;
    while i < text.len()
        invariant
            start <= i <= text.len() <= 9,
            digits == text@.subrange(start as int, text@.len() as int),
            digits == unsigned_digits(text@),
            forall|j: int| 0 <= j < i - start ==> #[trigger] is_decimal_digit(digits[j]),
            value as nat == decimal_value(digits.take(i - start)),
            value < pow10((i - start) as nat),
        decreases text.len() - i,
    {
        let b = text[i];
        if b < 48u8 || b > 57u8 {
            assert(digits[i - start] == b);
            assert(!is_decimal_digit(digits[i - start]));
            assert(room_code_spec(text@) == Err::<nat, RoomCodeError>(RoomCodeError::InvalidDigit));
            return Err(RoomCodeError::InvalidDigit);
        }
        let ghost k = (i - start) as nat;
        assert(digits.take((k + 1) as int).drop_last() =~= digits.take(k as int));
        proof {
            lemma_pow10_monotone(k, 8);
            reveal_with_fuel(pow10, 9);
        }
        value = value * 10 + (b - 48u8) as u32;
        i = i + 1;
    }
    assert(digits.take(digits.len() as int) =~= digits);
    proof {
        lemma_pow10_monotone(digits.len(), 9);
        reveal_with_fuel(pow10, 10);
    }
    Ok(value)
}

/// Reads the path of a websocket request: a six-byte room code, a 36-byte
/// hyphenated client identifier, and the client's name in the rest.
pub fn parse_join_path(dat: &str) -> (parsed: Result<(u32, ClientId, String), ParseError>)
    requires
        is_char_boundary(dat.spec_bytes(), 6),
        is_char_boundary(dat.spec_bytes(), 42),
    ensures
        ({
            let bytes = dat.spec_bytes();
            match room_code_spec(bytes.subrange(0, 6)) {
                Err(e) => parsed matches Err(ParseError::RoomCode(f)) && f == e,
                Ok(code) => if is_hyphenated_id(bytes.subrange(6, 42)) {
                    parsed matches Ok(joined) && joined.0 == code
                        && joined.1 == hex_value(id_digits(bytes.subrange(6, 42)))
                        && joined.2@ == decode_utf8(bytes.subrange(42, bytes.len() as int))
                } else {
                    parsed matches Err(ParseError::ClientId(text))
                        && text@ == uuid_error_text(bytes.subrange(6, 42))
                },
            }
        }),
{
    let ghost bytes = dat.spec_bytes();
    proof {
        reveal_with_fuel(is_char_boundary, 2);
    }
    assert(42 <= bytes.len());
    let (head, name) = dat.split_at(42);
    assert(head.spec_bytes() =~= bytes.subrange(0, 42));
    assert(valid_utf8(head.spec_bytes()));
    assert(head.spec_bytes()[6] == bytes[6]);
    assert(valid_utf8(bytes));
    assert(!is_continuation_byte(bytes[6]));
    assert(!is_continuation_byte(head.spec_bytes()[6]));
    assert(is_char_boundary(head.spec_bytes(), 6));
    let (room, id) = head.split_at(6);
    assert(room.spec_bytes() =~= bytes.subrange(0, 6));
    assert(id.spec_bytes() =~= bytes.subrange(6, 42));
    let room_code = match parse_room_code(room.as_bytes()) {
        Ok(code) => code,
        Err(e) => return Err(ParseError::RoomCode(e)),
    };
    let client_name = name.to_owned();
    assert(name.spec_bytes() =~= bytes.subrange(42, bytes.len() as int));
    join_parts(room_code, parse_hyphenated_id(id), client_name)
}

/// Puts together a read join path from its room code, the outcome of reading
/// its client identifier, and the client's name.
pub fn join_parts(room_code: u32, client_id: Result<ClientId, String>, client_name: String) -> (joined: Result<
    (u32, ClientId, String),
    ParseError,
>)
    ensures
        match client_id {
            Ok(id) => joined == Ok::<(u32, ClientId, String), ParseError>((room_code, id, client_name)),
            Err(text) => joined == Err::<(u32, ClientId, String), ParseError>(ParseError::ClientId(text)),
        },
{
    match client_id {
        Ok(id) => Ok((room_code, id, client_name)),
        Err(text) => Err(ParseError::ClientId(text)),
    }
}

/// The connection of a host that asked for the websocket path `dat`, opened at time `now`.
pub fn ws_host(dat: &str, now: u64) -> (conn: Result<WebsocketConnection, ParseError>)
    requires
        is_char_boundary(dat.spec_bytes(), 6),
        is_char_boundary(dat.spec_bytes(), 42),
    ensures
        ({
            let bytes = dat.spec_bytes();
            match room_code_spec(bytes.subrange(0, 6)) {
                Err(e) => conn matches Err(ParseError::RoomCode(f)) && f == e,
                Ok(code) => if is_hyphenated_id(bytes.subrange(6, 42)) {
                    conn matches Ok(c) && c@.room_code == code && c@.is_host && c@.last_hb == now
                        && c@.client_id == hex_value(id_digits(bytes.subrange(6, 42)))
                        && c@.client_name == decode_utf8(bytes.subrange(42, bytes.len() as int))
                } else {
                    conn matches Err(ParseError::ClientId(text))
                        && text@ == uuid_error_text(bytes.subrange(6, 42))
                },
            }
        }),
{
    match parse_join_path(dat) {
        Ok((room_code, client_id, name)) => Ok(WebsocketConnection::host(room_code, name, client_id, now)),
        Err(e) => Err(e),
    }
}

/// The connection of a player that asked for the websocket path `dat`, opened at time `now`.
pub fn ws_play(dat: &str, now: u64) -> (conn: Result<WebsocketConnection, ParseError>)
    requires
        is_char_boundary(dat.spec_bytes(), 6),
        is_char_boundary(dat.spec_bytes(), 42),
    ensures
        ({
            let bytes = dat.spec_bytes();
            match room_code_spec(bytes.subrange(0, 6)) {
                Err(e) => conn matches Err(ParseError::RoomCode(f)) && f == e,
                Ok(code) => if is_hyphenated_id(bytes.subrange(6, 42)) {
                    conn matches Ok(c) && c@.room_code == code && !c@.is_host && c@.last_hb == now
                        && c@.client_id == hex_value(id_digits(bytes.subrange(6, 42)))
                        && c@.client_name == decode_utf8(bytes.subrange(42, bytes.len() as int))
                } else {
                    conn matches Err(ParseError::ClientId(text))
                        && text@ == uuid_error_text(bytes.subrange(6, 42))
                },
            }
        }),
{
    match parse_join_path(dat) {
        Ok((room_code, client_id, name)) => Ok(WebsocketConnection::player(room_code, name, client_id, now)),
        Err(e) => Err(e),
    }
}

/// A uniformly random number in `low..high`, from `rand`'s thread-local
/// generator (`rand::thread_rng().gen_range(low..high)`). Claimed of the
/// crate: the value lies in the range; which one it is is left to chance.
/// The crate panics on an empty range, which `requires` rules out.
#[verifier::external_body]
fn random_in_range(low: u32, high: u32) -> (n: u32)
    requires
        low < high,
    ensures
        low <= n < high,
{
    rand::thread_rng().gen_range(low..high)
}

/// A fresh random six-digit room code.
pub fn new_code() -> (code: u32)
    ensures
        100_000 <= code < 1_000_000,
{
    random_in_range(100_000, 1_000_000)
}

/// A fresh random client identifier (a version 4 UUID).
pub fn new_uuid() -> (id: ClientId)
    ensures
        is_random_v4(id),
{
    random_v4_id()
}

/// An error reported to the browser.
#[derive(Debug, PartialEq, Eq)]
pub struct EndpointError {
    pub message: String,
    /// Whether the message is meant to be shown to the user.
    pub for_user: bool,
}

impl EndpointError {
    /// An error with the text `message`, not meant for the user.
    pub fn from_message(message: &str) -> (e: Self)
        ensures
            e.message@ == message@,
            !e.for_user,
    {
        EndpointError { message: message.to_owned(), for_user: false }
    }

    /// The same error, marked as meant for the user.
    pub fn for_user(self) -> (e: Self)
        ensures
            e.message == self.message,
            e.for_user,
    {
        let mut e = self;
        e.for_user = true;
        e
    }
}

} // verus!
