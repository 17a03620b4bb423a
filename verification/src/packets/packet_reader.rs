//! Fixed-header "remaining length" decoding and the error type shared by
//! every packet decoder.
use vstd::prelude::*;
use vstd::slice::{slice_subrange, slice_to_vec};

verus! {

/// Kind of a packet decoding error.
#[derive(Debug, Clone, Copy, PartialEq, Eq, Structural)]
pub enum ErrorKind {
    InvalidProtocol,
    InvalidProtocolLevel,
    InvalidFlags,
    InvalidControlPacketType,
    InvalidReservedBits,
    UnexpectedEof,
    WouldBlock,
    Other,
}

/// Error raised while decoding a packet: a message and its kind.
#[derive(Debug)]
pub struct PacketError {
    msg: String,
    kind: ErrorKind,
}

/// Message of a [`PacketError`] built without one.
pub const DEFAULT_MSG: &'static str = "Invalid packet encoding";
/// Message of the error raised when a remaining length uses more than four bytes.
pub const MSG_MALFORMED_REMAINING_LENGTH: &'static str = "Malformed Remaining Length";
/// Message of the error raised when the bytes end before the packet does.
pub const MSG_UNEXPECTED_EOF: &'static str = "failed to fill whole buffer";

impl PacketError {
    /// The message of the error.
    pub closed spec fn message(&self) -> Seq<char> {
        self.msg@
    }

    /// The kind of the error.
    pub closed spec fn spec_kind(&self) -> ErrorKind {
        self.kind
    }

    /// Error with the default message and kind [`ErrorKind::Other`].
    pub fn new() -> (e: PacketError)
        ensures
            e.message() == DEFAULT_MSG@,
            e.spec_kind() == ErrorKind::Other,
    {
        PacketError { msg: String::from_str(DEFAULT_MSG), kind: ErrorKind::Other }
    }

    /// Error with the given message and kind [`ErrorKind::Other`].
    pub fn new_msg(msg: &str) -> (e: PacketError)
        ensures
            e.message() == msg@,
            e.spec_kind() == ErrorKind::Other,
    {
        PacketError { msg: String::from_str(msg), kind: ErrorKind::Other }
    }

    /// Error with the given message and kind.
    pub fn new_kind(msg: &str, kind: ErrorKind) -> (e: PacketError)
        ensures
            e.message() == msg@,
            e.spec_kind() == kind,
    {
        PacketError { msg: String::from_str(msg), kind }
    }

    /// The kind of the error.
    pub fn kind(&self) -> (k: ErrorKind)
        ensures
            k == self.spec_kind(),
    {
        self.kind
    }

    /// The message of the error.
    pub fn msg(&self) -> (m: &str)
        ensures
            m@ == self.message(),
    {
        self.msg.as_str()
    }

    /// True when both errors carry the same message and kind.
    pub fn same_as(&self, other: &PacketError) -> (b: bool)
        ensures
            b == (self.message() == other.message() && self.spec_kind() == other.spec_kind()),
    {
        self.msg == other.msg && self.kind == other.kind
    }
}

/// Weight of the `i`-th byte of a remaining length (128 to the `i`).
pub open spec fn weight(i: nat) -> nat
    decreases i,
{
    if i == 0 {
        1
    } else {
        128 * weight((i - 1) as nat)
    }
}

/// Outcome of decoding a remaining length.
pub enum LengthDecoding {
    /// The length `value`, written with `used` bytes.
    Complete { value: nat, used: nat },
    /// Four bytes in a row had the continuation bit set.
    Malformed,
    /// The bytes ended while the continuation bit asked for more.
    Truncated,
}

/// Decoding of a remaining length from byte `i` on, `acc` being the value
/// of the bytes before it.
pub open spec fn decode_length_from(s: Seq<u8>, i: nat, acc: nat) -> LengthDecoding
    decreases 4 - i,
{
    if i >= 4 {
        LengthDecoding::Malformed
    } else if i >= s.len() {
        LengthDecoding::Truncated
    } else {
        let acc2 = acc + (s[i as int] % 128) as nat * weight(i);
        if s[i as int] < 128 {
            LengthDecoding::Complete { value: acc2, used: i + 1 }
        } else {
            decode_length_from(s, i + 1, acc2)
        }
    }
}

/// Decoding of the remaining length written at the start of `s`
/// (MQTT v3.1.1, 2.2.3).
pub open spec fn decode_length(s: Seq<u8>) -> LengthDecoding {
    decode_length_from(s, 0, 0)
}

/// Largest remaining length that four bytes can hold.
pub const MAX_REMAINING_LENGTH: usize = 268435455;

/// Bytes of the remaining length `v`, least significant group first.
pub open spec fn encode_length(v: nat) -> Seq<u8>
    decreases v,
{
    if v < 128 {
        seq![v as u8]
    } else {
        seq![((v % 128) + 128) as u8] + encode_length(v / 128)
    }
}

proof fn lemma_weight_values()
    ensures
        weight(0) == 1,
        weight(1) == 128,
        weight(2) == 16384,
        weight(3) == 2097152,
        weight(4) == 268435456,
{
    reveal_with_fuel(weight, 5);
}

/// Decoding continues from `i` as a fresh decode of the suffix would,
/// scaled by the weight of `i`.
proof fn lemma_encode_length_len(v: nat)
    requires
        v <= MAX_REMAINING_LENGTH,
    ensures
        1 <= encode_length(v).len() <= 4,
        v < 128 ==> encode_length(v).len() == 1,
        128 <= v < 16384 ==> encode_length(v).len() == 2,
        16384 <= v < 2097152 ==> encode_length(v).len() == 3,
        2097152 <= v ==> encode_length(v).len() == 4,
{
    reveal_with_fuel(encode_length, 5);
}

/// Decoding the encoding of `v`, followed by anything, gives `v` back
/// and the number of bytes of the encoding.
pub proof fn lemma_length_roundtrip(v: nat, rest: Seq<u8>)
    requires
        v <= MAX_REMAINING_LENGTH,
    ensures
        decode_length(encode_length(v) + rest) == (LengthDecoding::Complete {
            value: v,
            used: encode_length(v).len(),
        }),
{
    lemma_weight_values();
    lemma_encode_length_len(v);
    reveal_with_fuel(encode_length, 5);
    reveal_with_fuel(decode_length_from, 5);
    let s = encode_length(v) + rest;
    if v < 128 {
        assert(s[0] == v as u8);
    } else if v < 16384 {
        assert(s[0] == ((v % 128) + 128) as u8);
        assert(s[1] == (v / 128) as u8);
    } else if v < 2097152 {
        assert(s[0] == ((v % 128) + 128) as u8);
        assert(s[1] == (((v / 128) % 128) + 128) as u8);
        assert(s[2] == (v / 128 / 128) as u8);
        assert(v == v % 128 + (v / 128) % 128 * 128 + (v / 128 / 128) * 16384) by (nonlinear_arith);
    } else {
        assert(s[0] == ((v % 128) + 128) as u8);
        assert(s[1] == (((v / 128) % 128) + 128) as u8);
        assert(s[2] == (((v / 128 / 128) % 128) + 128) as u8);
        assert(s[3] == (v / 128 / 128 / 128) as u8);
        assert(v == v % 128 + (v / 128) % 128 * 128 + (v / 128 / 128) % 128 * 16384 + (v / 128
            / 128 / 128) * 2097152) by (nonlinear_arith);
    }
}


/// Error of a remaining length longer than four bytes.
pub open spec fn is_malformed_length_error(e: PacketError) -> bool {
    e.spec_kind() == ErrorKind::Other && e.message() == MSG_MALFORMED_REMAINING_LENGTH@
}

/// Error of bytes that end before the packet does.
pub open spec fn is_eof_error(e: PacketError) -> bool {
    e.spec_kind() == ErrorKind::UnexpectedEof && e.message() == MSG_UNEXPECTED_EOF@
}

/// What decoding the remaining length of `s` returns, as a contract on `r`.
pub open spec fn length_result_matches(s: Seq<u8>, r: Result<(usize, usize), PacketError>) -> bool {
    match decode_length(s) {
        LengthDecoding::Complete { value, used } => r matches Ok((v, u)) && v == value && u
            == used,
        LengthDecoding::Malformed => r matches Err(e) && is_malformed_length_error(e),
        LengthDecoding::Truncated => r matches Err(e) && is_eof_error(e),
    }
}

/// Decodes the remaining length written at the start of `s`.
///
/// Returns the length and the number of bytes that encode it.
pub fn decode_remaining_length(s: &[u8]) -> (r: Result<(usize, usize), PacketError>)
    ensures
        length_result_matches(s@, r),
        r matches Ok((v, u)) ==> v <= MAX_REMAINING_LENGTH && 1 <= u <= 4 && u <= s@.len(),
{
    proof {
        lemma_weight_values();
    }
    let mut i: usize = 0;
    let mut acc: usize = 0;
    let mut mult: usize = 1;
    loop
        invariant
            i <= 4,
            mult == weight(i as nat),
            acc < weight(i as nat),
            decode_length(s@) == decode_length_from(s@, i as nat, acc as nat),
            weight(0) == 1,
            weight(1) == 128,
            weight(2) == 16384,
            weight(3) == 2097152,
            weight(4) == 268435456,
        decreases 4 - i,
    {
        if i >= 4 {
            return Err(PacketError::new_msg(MSG_MALFORMED_REMAINING_LENGTH));
        }
        if i >= s.len() {
            return Err(PacketError::new_kind(MSG_UNEXPECTED_EOF, ErrorKind::UnexpectedEof));
        }
        let b = s[i];
        let digit = (b % 128) as usize;
        proof {
            reveal_with_fuel(weight, 2);
            assert(digit * mult <= 127 * mult) by (nonlinear_arith)
                requires
                    digit <= 127,
            ;
        }
        acc = acc + digit * mult;
        if b < 128 {
            return Ok((acc, i + 1));
        }
        proof {
            reveal_with_fuel(weight, 2);
        }
        mult = mult * 128;
        i = i + 1;
        proof {
            if i == 4 {
                assert(decode_length_from(s@, 4, acc as nat) == LengthDecoding::Malformed);
            }
        }
    }
}


/// Decoding only looks at the first four bytes.
proof fn lemma_decode_prefix(s: Seq<u8>, i: nat, acc: nat)
    requires
        s.len() >= 4,
        i <= 4,
    ensures
        decode_length_from(s, i, acc) == decode_length_from(s.take(4), i, acc),
    decreases 4 - i,
{
    if i < 4 {
        let acc2 = acc + (s[i as int] % 128) as nat * weight(i);
        lemma_decode_prefix(s, i + 1, acc2);
    }
}

/// Reads the remaining length of a packet whose first length byte is
/// `byte` and whose next bytes are `stream`.
///
/// Returns the length and the number of bytes taken from `stream`.
pub fn get_remaining(stream: &[u8], byte: u8) -> (r: Result<(usize, usize), PacketError>)
    ensures
        match decode_length(seq![byte] + stream@) {
            LengthDecoding::Complete { value, used } => r matches Ok((v, u)) && v == value && u
                + 1 == used,
            LengthDecoding::Malformed => r matches Err(e) && is_malformed_length_error(e),
            LengthDecoding::Truncated => r matches Err(e) && is_eof_error(e),
        },
        r matches Ok((v, u)) ==> v <= MAX_REMAINING_LENGTH && u <= 3 && u <= stream@.len(),
{
    let mut prefix: Vec<u8> = Vec::new();
    prefix.push(byte);
    let mut k: usize = 0;
    while k < 3 && k < stream.len()
        invariant
            k <= 3,
            k <= stream@.len(),
            prefix@ == seq![byte] + stream@.take(k as int),
        decreases 3 - k,
    {
        prefix.push(stream[k]);
        k = k + 1;
        proof {
            assert(stream@.take(k as int) == stream@.take(k - 1).push(stream@[k - 1]));
        }
    }
    proof {
        let full = seq![byte] + stream@;
        if stream@.len() >= 3 {
            assert(prefix@ == full.take(4));
            lemma_decode_prefix(full, 0, 0);
        } else {
            assert(prefix@ == full);
        }
        assert(decode_length(prefix@) == decode_length(full));
    }
    match decode_remaining_length(prefix.as_slice()) {
        Ok((v, u)) => Ok((v, u - 1)),
        Err(e) => Err(e),
    }
}

/// Body of the packet whose remaining length starts `s`, with the number
/// of bytes that length and body take; `None` when it cannot be read.
pub open spec fn body_of(s: Seq<u8>) -> Option<(Seq<u8>, nat)> {
    match decode_length(s) {
        LengthDecoding::Complete { value, used } => if used + value <= s.len() {
            Some((s.subrange(used as int, (used + value) as int), used + value))
        } else {
            None
        },
        _ => None,
    }
}

/// The error that reading the packet body at the start of `s` fails with.
pub open spec fn body_read_fails_with(s: Seq<u8>, e: PacketError) -> bool {
    match decode_length(s) {
        LengthDecoding::Malformed => is_malformed_length_error(e),
        _ => is_eof_error(e),
    }
}

/// Kind and message of the error met reading a packet body from the start
/// of `s` (see [`body_read_fails_with`]).
pub open spec fn body_error(s: Seq<u8>) -> (ErrorKind, Seq<char>) {
    match decode_length(s) {
        LengthDecoding::Malformed => (ErrorKind::Other, MSG_MALFORMED_REMAINING_LENGTH@),
        _ => (ErrorKind::UnexpectedEof, MSG_UNEXPECTED_EOF@),
    }
}

/// Reads the bytes that follow a fixed header: decodes the remaining
/// length from `fixed_header[1]` and the next bytes of `stream`, then
/// returns that many bytes of `stream`.
pub fn read_packet_bytes(fixed_header: [u8; 2], stream: &[u8]) -> (r: Result<Vec<u8>, PacketError>)
    ensures
        match body_of(seq![fixed_header[1]] + stream@) {
            Some((body, _)) => r matches Ok(b) && b@ == body,
            None => r matches Err(e) && body_read_fails_with(seq![fixed_header[1]] + stream@, e),
        },
{
    let (len, used) = match get_remaining(stream, fixed_header[1]) {
        Ok(p) => p,
        Err(e) => return Err(e),
    };
    if len > stream.len() - used {
        return Err(PacketError::new_kind(MSG_UNEXPECTED_EOF, ErrorKind::UnexpectedEof));
    }
    let body = slice_to_vec(slice_subrange(stream, used, used + len));
    proof {
        let full = seq![fixed_header[1]] + stream@;
        assert(full.subrange(used + 1, used + 1 + len) == stream@.subrange(used as int, used + len));
    }
    Ok(body)
}

/// Reads a remaining length and the packet body after it from `stream`.
///
/// Returns the body and the number of bytes of `stream` read.
pub fn read_packet_body(stream: &[u8]) -> (r: Result<(Vec<u8>, usize), PacketError>)
    ensures
        match body_of(stream@) {
            Some((body, n)) => r matches Ok((b, m)) && b@ == body && m == n,
            None => r matches Err(e) && body_read_fails_with(stream@, e),
        },
{
    let (len, used) = match decode_remaining_length(stream) {
        Ok(p) => p,
        Err(e) => return Err(e),
    };
    if len > stream.len() - used {
        return Err(PacketError::new_kind(MSG_UNEXPECTED_EOF, ErrorKind::UnexpectedEof));
    }
    let body = slice_to_vec(slice_subrange(stream, used, used + len));
    Ok((body, used + len))
}


/// The bytes of the remaining length `v`.
pub fn encode_remaining_length(v: usize) -> (bytes: Vec<u8>)
    requires
        v <= MAX_REMAINING_LENGTH,
    ensures
        bytes@ == encode_length(v as nat),
    decreases v,
{
    if v < 128 {
        let mut b: Vec<u8> = Vec::new();
        b.push(v as u8);
        proof {
            reveal_with_fuel(encode_length, 1);
        }
        b
    } else {
        let mut b: Vec<u8> = Vec::new();
        b.push(((v % 128) + 128) as u8);
        let mut rest = encode_remaining_length(v / 128);
        b.append(&mut rest);
        proof {
            reveal_with_fuel(encode_length, 1);
        }
        b
    }
}

} // verus!
