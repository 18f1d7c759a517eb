//! How values lie in a telegram: big-endian words, three-byte addresses,
//! text fields and the PLC's day counts.

use crate::error::{Error, Failure};
use byteorder::{BigEndian, ByteOrder};
use chrono::{DateTime, NaiveDateTime};
use vstd::prelude::*;
use vstd::slice::{slice_subrange, slice_to_vec};

verus! {

/// `chrono::NaiveDateTime`: a date and a time of day without a time zone.
/// Nothing is known of what a value holds; it is carried, never read.
#[verifier::external_type_specification]
#[verifier::external_body]
pub struct ExNaiveDateTime(NaiveDateTime);

/// Bits 8 to 15 of `v` in two's complement.
pub open spec fn high_byte(v: int) -> u8 {
    ((v % 0x1_0000) / 0x100) as u8
}

/// Bits 0 to 7 of `v` in two's complement.
pub open spec fn low_byte(v: int) -> u8 {
    ((v % 0x1_0000) % 0x100) as u8
}

/// The unsigned big-endian word at `at`.
pub open spec fn word_value(bytes: Seq<u8>, at: int) -> int {
    bytes[at] as int * 256 + bytes[at + 1] as int
}

/// The unsigned big-endian double word at `at`.
pub open spec fn dword_value(bytes: Seq<u8>, at: int) -> int {
    bytes[at] as int * 0x100_0000 + bytes[at + 1] as int * 0x1_0000 + bytes[at + 2] as int * 0x100
        + bytes[at + 3] as int
}

/// The signed big-endian double word at `at`.
pub open spec fn dint_value(bytes: Seq<u8>, at: int) -> int {
    if dword_value(bytes, at) >= 0x8000_0000 {
        dword_value(bytes, at) - 0x1_0000_0000
    } else {
        dword_value(bytes, at)
    }
}

/// `bytes` with the low 16 bits of `v` stored big-endian at `at`.
pub open spec fn with_word(bytes: Seq<u8>, at: int, v: int) -> Seq<u8> {
    bytes.update(at, high_byte(v)).update(at + 1, low_byte(v))
}

/// `bytes` with the low 24 bits of `a` stored big-endian at `at`.
pub open spec fn with_address(bytes: Seq<u8>, at: int, a: int) -> Seq<u8> {
    let low = a % 0x100_0000;
    bytes.update(at, (low / 0x1_0000) as u8).update(at + 1, ((low / 0x100) % 0x100) as u8).update(
        at + 2,
        (low % 0x100) as u8,
    )
}

/// The address that the three bytes at `at` hold.
pub open spec fn address_value(bytes: Seq<u8>, at: int) -> int {
    bytes[at] as int * 0x1_0000 + bytes[at + 1] as int * 0x100 + bytes[at + 2] as int
}

/// A word that was stored is the word that is read, modulo 65536.
pub proof fn lemma_word_stored(bytes: Seq<u8>, at: int, v: int)
    requires
        0 <= at,
        at + 1 < bytes.len(),
    ensures
        word_value(with_word(bytes, at, v), at) == v % 0x1_0000,
        with_word(bytes, at, v).len() == bytes.len(),
        forall|i: int|
            0 <= i < bytes.len() && i != at && i != at + 1 ==> with_word(bytes, at, v)[i]
                == bytes[i],
{
}

/// An address that was stored is the address that is read, modulo 2^24.
pub proof fn lemma_address_stored(bytes: Seq<u8>, at: int, a: int)
    requires
        0 <= at,
        at + 2 < bytes.len(),
    ensures
        address_value(with_address(bytes, at, a), at) == a % 0x100_0000,
        with_address(bytes, at, a).len() == bytes.len(),
        forall|i: int|
            0 <= i < bytes.len() && !(at <= i <= at + 2) ==> with_address(bytes, at, a)[i]
                == bytes[i],
{
}

/// `byteorder::BigEndian::read_u16`: the first two bytes of `buf` as an
/// unsigned big-endian number. It panics on a shorter slice.
#[verifier::external_body]
fn be_read_u16(buf: &[u8]) -> (r: u16)
    requires
        buf@.len() >= 2,
    ensures
        r as int == word_value(buf@, 0),
{
    BigEndian::read_u16(buf)
}

/// `byteorder::BigEndian::read_i32`: the first four bytes of `buf` as a
/// big-endian number in two's complement. It panics on a shorter slice.
#[verifier::external_body]
fn be_read_i32(buf: &[u8]) -> (r: i32)
    requires
        buf@.len() >= 4,
    ensures
        r as int == dint_value(buf@, 0),
{
    BigEndian::read_i32(buf)
}

/// `byteorder::BigEndian::write_u16`: stores `n` big-endian in the two bytes
/// of `buf`.
#[verifier::external_body]
fn be_write_u16(buf: &mut [u8; 2], n: u16)
    ensures
        final(buf)@[0] == high_byte(n as int),
        final(buf)@[1] == low_byte(n as int),
{
    BigEndian::write_u16(buf, n)
}

/// The unsigned word that lies big-endian at `at`.
pub fn word_at(bytes: &[u8], at: usize) -> (r: u16)
    requires
        at + 2 <= bytes.len(),
    ensures
        r as int == word_value(bytes@, at as int),
{
    be_read_u16(slice_subrange(bytes, at, at + 2))
}

/// The signed double word that lies big-endian at `at`.
pub fn dint_at(bytes: &[u8], at: usize) -> (r: i32)
    requires
        at + 4 <= bytes.len(),
    ensures
        r as int == dint_value(bytes@, at as int),
{
    be_read_i32(slice_subrange(bytes, at, at + 4))
}

/// Stores `value` big-endian at `at`.
pub fn put_word(bytes: &mut Vec<u8>, at: usize, value: u16)
    requires
        at + 1 < old(bytes).len(),
    ensures
        final(bytes)@ == with_word(old(bytes)@, at as int, value as int),
        final(bytes)@.len() == old(bytes)@.len(),
{
    let mut pair: [u8; 2] = [0, 0];
    be_write_u16(&mut pair, value);
    crate::write_word_at(at, &pair, bytes);
}

/// The low 16 bits of `v`.
pub fn low_word(v: i64) -> (r: u16)
    ensures
        r as int == v as int % 0x1_0000,
{
    if v >= 0 {
        (v % 0x1_0000) as u16
    } else {
        let back: i64 = (-(v + 1)) % 0x1_0000;
        (0xFFFF - back) as u16
    }
}

/// Stores the low 16 bits of `v` big-endian at `at`.
pub fn put_low_word(bytes: &mut Vec<u8>, at: usize, v: i64)
    requires
        at + 1 < old(bytes).len(),
    ensures
        final(bytes)@ == with_word(old(bytes)@, at as int, v as int),
        final(bytes)@.len() == old(bytes)@.len(),
{
    let low: u16 = low_word(v);
    assert(high_byte(low as int) == high_byte(v as int) && low_byte(low as int) == low_byte(
        v as int,
    ));
    put_word(bytes, at, low);
}

/// The low 24 bits of `v`.
pub fn low_address(v: i64) -> (r: u32)
    ensures
        r as int == v as int % 0x100_0000,
{
    if v >= 0 {
        (v % 0x100_0000) as u32
    } else {
        let back: i64 = (-(v + 1)) % 0x100_0000;
        (0xFF_FFFF - back) as u32
    }
}

/// Stores the low 24 bits of `address` big-endian at `at`.
pub fn put_address(bytes: &mut Vec<u8>, at: usize, address: i64)
    requires
        at + 2 < old(bytes).len(),
    ensures
        final(bytes)@ == with_address(old(bytes)@, at as int, address as int),
        final(bytes)@.len() == old(bytes)@.len(),
{
    let low: u32 = low_address(address);
    bytes[at] = (low / 0x1_0000) as u8;
    bytes[at + 1] = ((low / 0x100) % 0x100) as u8;
    bytes[at + 2] = (low % 0x100) as u8;
}

/// `std::str::from_utf8`: the text that `bytes` encode in UTF-8, and nothing
/// where they encode none.
#[verifier::external_body]
fn utf8_text(bytes: &[u8]) -> (r: Option<String>)
    ensures
        r is Some <==> vstd::utf8::valid_utf8(bytes@),
        r matches Some(text) ==> vstd::utf8::encode_utf8(text@) == bytes@,
{
    match std::str::from_utf8(bytes) {
        Ok(text) => Some(text.to_string()),
        Err(_) => None,
    }
}

/// The error for a field that is not text.
pub open spec fn invalid_text(bytes: Seq<u8>) -> Failure {
    Failure::InvalidResponse { reason: "invalid utf-8"@, bytes: bytes }
}

/// The text that the bytes of a field encode in UTF-8, or the failure for
/// bytes that encode none.
pub open spec fn text_of(bytes: Seq<u8>) -> Result<Seq<char>, Failure> {
    if vstd::utf8::valid_utf8(bytes) {
        Ok(vstd::utf8::decode_utf8(bytes))
    } else {
        Err(invalid_text(bytes))
    }
}

/// What `to_chars` returned, as contracts speak of it.
pub open spec fn text_result(r: Result<String, Error>) -> Result<Seq<char>, Failure> {
    match r {
        Ok(text) => Ok(text@),
        Err(e) => Err(e@),
    }
}

/// The text of a fixed-width field. Fails on bytes that are not UTF-8, with
/// the bytes in the error.
pub fn to_chars(bytes: Vec<u8>) -> (r: Result<String, Error>)
    ensures
        text_result(r) == text_of(bytes@),
{
    match utf8_text(bytes.as_slice()) {
        Some(text) => {
            proof {
                vstd::utf8::encode_utf8_decode_utf8(text@);
            }
            Ok(text)
        },
        None => Err(Error::InvalidResponse { reason: "invalid utf-8".to_string(), bytes }),
    }
}

/// A field of ASCII bytes is text, character for byte.
pub proof fn lemma_ascii_text(bytes: Seq<u8>)
    requires
        forall|i: int| 0 <= i < bytes.len() ==> bytes[i] < 0x80,
    ensures
        text_of(bytes) == Ok::<Seq<char>, Failure>(
            Seq::new(bytes.len(), |i: int| bytes[i] as char),
        ),
{
    let chars = Seq::new(bytes.len(), |i: int| bytes[i] as char);
    assert(vstd::utf8::is_ascii_chars(chars));
    vstd::utf8::is_ascii_chars_encode_utf8(chars);
    assert(vstd::utf8::encode_utf8(chars) =~= bytes);
    vstd::utf8::encode_utf8_valid_utf8(chars);
    vstd::utf8::encode_utf8_decode_utf8(chars);
}

/// Seconds from 1970-01-01 to 1984-01-01, the day from which the PLC counts.
pub const SIEMENS_EPOCH: i64 = 441_763_200;

/// Seconds in a day
pub const DAY: i64 = 86_400;

/// What `chrono::DateTime::from_timestamp` makes of the given seconds and
/// nanoseconds since 1970-01-01 00:00:00 UTC, as a date and time without a
/// zone; nothing where it makes none.
pub uninterp spec fn unix_datetime(secs: int, nanos: int) -> Option<NaiveDateTime>;

/// `chrono::DateTime::from_timestamp`, and `naive_utc` on what it returns.
#[verifier::external_body]
fn datetime_from_unix(secs: i64, nanos: u32) -> (r: Option<NaiveDateTime>)
    ensures
        r == unix_datetime(secs as int, nanos as int),
{
    match DateTime::from_timestamp(secs, nanos) {
        Some(moment) => Some(moment.naive_utc()),
        None => None,
    }
}

/// The moment that a day count of the PLC stands for: midnight, `encoded`
/// days after 1984-01-01. Nothing where the seconds leave the range of `i64`
/// or the calendar.
pub open spec fn siemens_moment(encoded: int) -> Option<NaiveDateTime> {
    if i64::MIN <= encoded * DAY <= i64::MAX && encoded * DAY + SIEMENS_EPOCH <= i64::MAX {
        unix_datetime(encoded * DAY + SIEMENS_EPOCH, 0)
    } else {
        None
    }
}

/// Turns a day count of the PLC into a date and time.
pub fn siemens_timestamp(encoded: i64) -> (r: Option<NaiveDateTime>)
    ensures
        r == siemens_moment(encoded as int),
{
    let seconds: i64 = match encoded.checked_mul(DAY) {
        Some(seconds) => seconds,
        None => {
            return None;
        },
    };
    match seconds.checked_add(SIEMENS_EPOCH) {
        Some(secs) => datetime_from_unix(secs, 0),
        None => None,
    }
}

} // verus!
