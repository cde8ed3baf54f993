//! Frame codec: `$<payload>*<XX>\r\n` frames protected by an XOR checksum.
//!
//! A frame on the wire is the start sentinel `$`, the payload, the separator
//! `*`, the checksum of the payload as two uppercase hexadecimal digits, and
//! the terminator `\r\n`. The framer strips the sentinel and the terminator;
//! what is left (`<payload>*<XX>`) is the frame body that [`decode`] checks.

use vstd::prelude::*;

verus! {

/// Start sentinel `$`.
pub const FRAME_START: u8 = 0x24;

/// Separator `*` between the payload and the checksum digits.
pub const FRAME_SEPARATOR: u8 = 0x2A;

/// Carriage return, first byte of the terminator.
pub const FRAME_CR: u8 = 0x0D;

/// Line feed, second byte of the terminator.
pub const FRAME_LF: u8 = 0x0A;

/// Why a frame body was rejected.
#[derive(Clone, Copy, Debug, PartialEq, Eq, Structural)]
pub enum FrameError {
    /// Fewer than four bytes: no room for one payload byte and `*XX`.
    TooShort,
    /// The third byte from the end is not `*`.
    MissingSeparator,
    /// One of the two trailing bytes is not a hexadecimal digit.
    BadChecksumDigits,
    /// The transmitted checksum differs from the XOR of the payload.
    ChecksumMismatch,
}

/// XOR of all bytes of `s`, starting from zero.
pub open spec fn checksum(s: Seq<u8>) -> u8
    decreases s.len(),
{
    if s.len() == 0 {
        0u8
    } else {
        checksum(s.drop_last()) ^ s.last()
    }
}

/// The uppercase hexadecimal digit for a value below sixteen.
pub open spec fn hex_digit(n: u8) -> u8 {
    if n < 10 {
        (0x30 + n) as u8
    } else {
        (0x41 + (n - 10)) as u8
    }
}

/// The two uppercase hexadecimal digits of a byte, most significant first.
pub open spec fn hex2(b: u8) -> Seq<u8> {
    seq![hex_digit(b / 16), hex_digit(b % 16)]
}

/// The value of a hexadecimal digit in either case, if `c` is one.
pub open spec fn hex_value(c: u8) -> Option<u8> {
    if 0x30 <= c <= 0x39 {
        Some((c - 0x30) as u8)
    } else if 0x41 <= c <= 0x46 {
        Some((c - 0x41 + 10) as u8)
    } else if 0x61 <= c <= 0x66 {
        Some((c - 0x61 + 10) as u8)
    } else {
        None
    }
}

/// The byte written by exactly two hexadecimal digits.
pub open spec fn parse_hex2(s: Seq<u8>) -> Option<u8> {
    if s.len() == 2 && hex_value(s[0]).is_some() && hex_value(s[1]).is_some() {
        Some((hex_value(s[0]).unwrap() * 16 + hex_value(s[1]).unwrap()) as u8)
    } else {
        None
    }
}

/// The body of the frame that carries `payload`: `<payload>*<XX>`.
pub open spec fn frame_body(payload: Seq<u8>) -> Seq<u8> {
    payload + seq![FRAME_SEPARATOR] + hex2(checksum(payload))
}

/// The full frame that carries `payload`: `$<payload>*<XX>\r\n`.
pub open spec fn frame(payload: Seq<u8>) -> Seq<u8> {
    seq![FRAME_START] + frame_body(payload) + seq![FRAME_CR, FRAME_LF]
}

/// The payload part of a frame body: everything before the last three bytes.
pub open spec fn body_payload(body: Seq<u8>) -> Seq<u8> {
    body.subrange(0, body.len() - 3)
}

/// The two checksum digits at the end of a frame body.
pub open spec fn body_digits(body: Seq<u8>) -> Seq<u8> {
    body.subrange(body.len() - 2, body.len() as int)
}

/// What decoding a frame body yields: the payload, or the first check that
/// fails, in the order length, separator, digits, checksum.
pub open spec fn decoded(body: Seq<u8>) -> Result<Seq<u8>, FrameError> {
    if body.len() < 4 {
        Err(FrameError::TooShort)
    } else if body[body.len() - 3] != FRAME_SEPARATOR {
        Err(FrameError::MissingSeparator)
    } else if parse_hex2(body_digits(body)).is_none() {
        Err(FrameError::BadChecksumDigits)
    } else if parse_hex2(body_digits(body)).unwrap() != checksum(body_payload(body)) {
        Err(FrameError::ChecksumMismatch)
    } else {
        Ok(body_payload(body))
    }
}

/// Computes the XOR checksum of a payload.
pub fn calc_checksum(input: &[u8]) -> (csum: u8)
    ensures
        csum == checksum(input@),
{
    let mut csum: u8 = 0;
    let mut i: usize = 0;
    while i < input.len()
        invariant
            i <= input.len(),
            csum == checksum(input@.take(i as int)),
        decreases input.len() - i,
    {
        assert(input@.take(i + 1).drop_last() =~= input@.take(i as int));
        csum = csum ^ input[i];
        i += 1;
    }
    assert(input@.take(i as int) =~= input@);
    csum
}

/// The uppercase hexadecimal digit of a nibble.
fn hex_digit_of(n: u8) -> (c: u8)
    requires
        n < 16,
    ensures
        c == hex_digit(n),
{
    if n < 10 {
        0x30 + n
    } else {
        0x41 + (n - 10)
    }
}

/// The value of one hexadecimal digit, upper or lower case.
fn hex_value_of(c: u8) -> (v: Option<u8>)
    ensures
        v == hex_value(c),
        v matches Some(n) ==> n < 16,
{
    if 0x30 <= c && c <= 0x39 {
        Some(c - 0x30)
    } else if 0x41 <= c && c <= 0x46 {
        Some(c - 0x41 + 10)
    } else if 0x61 <= c && c <= 0x66 {
        Some(c - 0x61 + 10)
    } else {
        None
    }
}

/// Encodes a payload as a full frame, sentinel and terminator included.
///
/// The payload must not be empty: a frame without payload could not be
/// decoded again.
pub fn encode(payload: &[u8]) -> (out: Vec<u8>)
    requires
        payload@.len() >= 1,
    ensures
        out@ == frame(payload@),
{
    let csum = calc_checksum(payload);
    let mut out: Vec<u8> = Vec::new();
    out.push(FRAME_START);
    let mut i: usize = 0;
    while i < payload.len()
        invariant
            i <= payload.len(),
            out@ == seq![FRAME_START] + payload@.take(i as int),
        decreases payload.len() - i,
    {
        out.push(payload[i]);
        assert(payload@.take(i + 1) =~= payload@.take(i as int).push(payload@[i as int]));
        i += 1;
    }
    assert(payload@.take(i as int) =~= payload@);
    out.push(FRAME_SEPARATOR);
    out.push(hex_digit_of(csum / 16));
    out.push(hex_digit_of(csum % 16));
    out.push(FRAME_CR);
    out.push(FRAME_LF);
    assert(out@ =~= frame(payload@));
    out
}

/// Decodes a frame body (`<payload>*<XX>`, sentinel and terminator already
/// stripped) and returns the payload, or the first check that failed.
pub fn decode(body: &[u8]) -> (res: Result<Vec<u8>, FrameError>)
    ensures
        match decoded(body@) {
            Ok(payload) => res matches Ok(p) && p@ == payload,
            Err(e) => res == Err::<Vec<u8>, FrameError>(e),
        },
{
    let len = body.len();
    if len < 4 {
        return Err(FrameError::TooShort);
    }
    if body[len - 3] != FRAME_SEPARATOR {
        return Err(FrameError::MissingSeparator);
    }
    let hi = hex_value_of(body[len - 2]);
    let lo = hex_value_of(body[len - 1]);
    assert(body_digits(body@) =~= seq![body@[len - 2], body@[len - 1]]);
    let received: u8 = match (hi, lo) {
        (Some(h), Some(l)) => h * 16 + l,
        _ => {
            return Err(FrameError::BadChecksumDigits);
        },
    };
    let mut payload: Vec<u8> = Vec::new();
    let mut i: usize = 0;
    while i < len - 3
        invariant
            len == body.len(),
            len >= 4,
            i <= len - 3,
            payload@ == body@.take(i as int),
        decreases len - 3 - i,
    {
        payload.push(body[i]);
        assert(body@.take(i + 1) =~= body@.take(i as int).push(body@[i as int]));
        i += 1;
    }
    assert(payload@ =~= body_payload(body@));
    if received != calc_checksum(payload.as_slice()) {
        return Err(FrameError::ChecksumMismatch);
    }
    Ok(payload)
}

/// Two hexadecimal digits written for a byte read back as that byte.
pub proof fn lemma_hex2_round_trip(b: u8)
    ensures
        parse_hex2(hex2(b)) == Some(b),
{
    let hi: u8 = b / 16;
    let lo: u8 = b % 16;
    assert(hi < 16 && lo < 16);
    assert(hex_value(hex_digit(hi)) == Some(hi));
    assert(hex_value(hex_digit(lo)) == Some(lo));
    assert(hi * 16 + lo == b);
}

/// Decoding the body of an encoded frame gives the payload back, for every
/// payload of at least one byte.
pub proof fn lemma_decode_frame_body(payload: Seq<u8>)
    requires
        payload.len() >= 1,
    ensures
        decoded(frame_body(payload)) == Ok::<Seq<u8>, FrameError>(payload),
{
    let body = frame_body(payload);
    lemma_hex2_round_trip(checksum(payload));
    assert(body.len() == payload.len() + 3);
    assert(body[body.len() - 3] == FRAME_SEPARATOR);
    assert(body_digits(body) =~= hex2(checksum(payload)));
    assert(body_payload(body) =~= payload);
}

/// In every encoded frame the checksum digits that follow `*` read back as
/// the XOR of the payload bytes that precede it.
pub proof fn lemma_frame_carries_checksum(payload: Seq<u8>)
    ensures
        frame(payload).len() == payload.len() + 6,
        frame(payload)[0] == FRAME_START,
        frame(payload).subrange(1, 1 + payload.len() as int) == payload,
        frame(payload)[1 + payload.len() as int] == FRAME_SEPARATOR,
        parse_hex2(frame(payload).subrange(2 + payload.len() as int, 4 + payload.len() as int)) == Some(
            checksum(payload),
        ),
        frame(payload)[4 + payload.len() as int] == FRAME_CR,
        frame(payload)[5 + payload.len() as int] == FRAME_LF,
{
    let f = frame(payload);
    lemma_hex2_round_trip(checksum(payload));
    assert(f.subrange(1, 1 + payload.len() as int) =~= payload);
    assert(f.subrange(2 + payload.len() as int, 4 + payload.len() as int) =~= hex2(checksum(payload)));
}

} // verus!
