//! UTF-8 encoded strings as MQTT writes them: a two-byte big-endian
//! length followed by the bytes (MQTT v3.1.1, 1.5.3).
use crate::packets::packet_reader::{ErrorKind, PacketError};
use crate::text::string_from_utf8;
use vstd::prelude::*;
use vstd::slice::{slice_subrange, slice_to_vec};
use vstd::utf8::{decode_utf8, encode_utf8, valid_utf8};

verus! {

broadcast use {vstd::utf8::encode_utf8_valid_utf8, vstd::utf8::encode_utf8_decode_utf8};

/// Longest string, in bytes, that a field can hold.
pub const MAX_FIELD_LEN: usize = 65535;

/// Message of the error raised for a string longer than [`MAX_FIELD_LEN`] bytes.
pub const MSG_FIELD_TOO_LONG: &'static str = "String too long for an MQTT field";

/// A UTF-8 string field of a packet.
#[derive(Debug)]
pub struct Field {
    pub value: String,
}

/// Length announced by the two bytes at the start of `s`.
pub open spec fn announced_len(s: Seq<u8>) -> nat
    recommends
        s.len() >= 2,
{
    (s[0] as nat) * 256 + (s[1] as nat)
}

/// The field written at the start of `s`, with the number of bytes it
/// takes, or `None` when `s` does not start with a complete valid field.
pub open spec fn decode_field(s: Seq<u8>) -> Option<(Seq<char>, nat)> {
    if s.len() < 2 {
        None
    } else {
        let n = announced_len(s);
        if 2 + n > s.len() {
            None
        } else if !valid_utf8(s.subrange(2, 2 + n as int)) {
            None
        } else {
            Some((decode_utf8(s.subrange(2, 2 + n as int)), 2 + n))
        }
    }
}

/// The fields written one after the other at the start of `s`, up to the
/// first place where no complete valid field starts.
pub open spec fn decode_fields(s: Seq<u8>) -> Seq<Seq<char>>
    decreases s.len(),
{
    match decode_field(s) {
        Some((text, used)) => if 0 < used <= s.len() {
            seq![text] + decode_fields(s.skip(used as int))
        } else {
            seq![]
        },
        None => seq![],
    }
}

/// Bytes of the field holding `text`.
pub open spec fn encode_field(text: Seq<char>) -> Seq<u8> {
    let b = encode_utf8(text);
    seq![(b.len() / 256) as u8, (b.len() % 256) as u8] + b
}

impl Field {
    /// Reads a field from the start of `stream`.
    ///
    /// Returns the field and the number of bytes it takes, or `None` when
    /// the bytes end early or are not valid UTF-8.
    pub fn new_from_stream(stream: &[u8]) -> (r: Option<(Field, usize)>)
        ensures
            match decode_field(stream@) {
                Some((text, used)) => r matches Some((f, n)) && f.value@ == text && n == used,
                None => r is None,
            },
    {
        if stream.len() < 2 {
            return None;
        }
        let n = (stream[0] as usize) * 256 + (stream[1] as usize);
        if n > stream.len() - 2 {
            return None;
        }
        let bytes = slice_to_vec(slice_subrange(stream, 2, 2 + n));
        match string_from_utf8(bytes) {
            Ok(value) => Some((Field { value }, 2 + n)),
            Err(_) => None,
        }
    }

    /// Builds a field holding `s`. Fails when `s` takes more than
    /// [`MAX_FIELD_LEN`] bytes.
    pub fn new_from_string(s: &str) -> (r: Result<Field, PacketError>)
        ensures
            encode_utf8(s@).len() <= MAX_FIELD_LEN ==> (r matches Ok(f) && f.value@ == s@),
            encode_utf8(s@).len() > MAX_FIELD_LEN ==> (r matches Err(e) && e.spec_kind()
                == ErrorKind::InvalidProtocol && e.message() == MSG_FIELD_TOO_LONG@),
    {
        if s.as_bytes().len() > MAX_FIELD_LEN {
            Err(PacketError::new_kind(MSG_FIELD_TOO_LONG, ErrorKind::InvalidProtocol))
        } else {
            Ok(Field { value: String::from_str(s) })
        }
    }

    /// The bytes of the field.
    pub fn encode(&self) -> (v: Vec<u8>)
        requires
            encode_utf8(self.value@).len() <= MAX_FIELD_LEN,
        ensures
            v@ == encode_field(self.value@),
    {
        let bytes = self.value.as_str().as_bytes();
        let n = bytes.len();
        let mut v: Vec<u8> = Vec::new();
        v.push((n / 256) as u8);
        v.push((n % 256) as u8);
        let mut i: usize = 0;
        while i < n
            invariant
                n == bytes@.len(),
                i <= n,
                v@ == seq![(n / 256) as u8, (n % 256) as u8] + bytes@.take(i as int),
            decreases n - i,
        {
            v.push(bytes[i]);
            i = i + 1;
            proof {
                assert(bytes@.take(i as int) == bytes@.take(i - 1).push(bytes@[i - 1]));
            }
        }
        proof {
            assert(bytes@.take(n as int) == bytes@);
        }
        v
    }
}

/// Reading back the bytes of a field, followed by anything, gives the
/// same text and the length of those bytes.
pub proof fn lemma_field_roundtrip(text: Seq<char>, rest: Seq<u8>)
    requires
        encode_utf8(text).len() <= MAX_FIELD_LEN,
    ensures
        decode_field(encode_field(text) + rest) == Some((text, encode_field(text).len())),
{
    let b = encode_utf8(text);
    let s = encode_field(text) + rest;
    assert(announced_len(s) == b.len());
    assert(s.subrange(2, 2 + b.len() as int) == b);
}

} // verus!
