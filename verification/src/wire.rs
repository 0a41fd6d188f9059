//! Mathematical model of the wire format: variable-length integers,
//! big-endian fixed-width integers, length-prefixed strings, packed
//! positions. The executable codec in `buffer` is specified against the
//! functions here, and the round-trip laws are proved here.

use crate::error::CodecError;
use vstd::arithmetic::div_mod::lemma_fundamental_div_mod_converse;
use vstd::prelude::*;

verus! {

// ------------------------------------------------------------------
// Two's-complement reinterpretation between signed and unsigned widths
// ------------------------------------------------------------------
pub open spec fn u8_of_i8(v: i8) -> u8 {
    if v >= 0 {
        v as u8
    } else {
        (v + 0x100) as u8
    }
}

pub open spec fn i8_of_u8(u: u8) -> i8 {
    if u < 0x80 {
        u as i8
    } else {
        (u - 0x100) as i8
    }
}

pub open spec fn u16_of_i16(v: i16) -> u16 {
    if v >= 0 {
        v as u16
    } else {
        (v + 0x1_0000) as u16
    }
}

pub open spec fn i16_of_u16(u: u16) -> i16 {
    if u < 0x8000 {
        u as i16
    } else {
        (u - 0x1_0000) as i16
    }
}

pub open spec fn u32_of_i32(v: i32) -> u32 {
    if v >= 0 {
        v as u32
    } else {
        (v + 0x1_0000_0000) as u32
    }
}

pub open spec fn i32_of_u32(u: u32) -> i32 {
    if u < 0x8000_0000 {
        u as i32
    } else {
        (u - 0x1_0000_0000) as i32
    }
}

pub open spec fn u64_of_i64(v: i64) -> u64 {
    if v >= 0 {
        v as u64
    } else {
        (v + 0x1_0000_0000_0000_0000) as u64
    }
}

pub open spec fn i64_of_u64(u: u64) -> i64 {
    if u < 0x8000_0000_0000_0000 {
        u as i64
    } else {
        (u - 0x1_0000_0000_0000_0000) as i64
    }
}

pub broadcast proof fn lemma_i32_u32_inverse(v: i32)
    ensures
        i32_of_u32(#[trigger] u32_of_i32(v)) == v,
{
}

pub broadcast proof fn lemma_i64_u64_inverse(v: i64)
    ensures
        i64_of_u64(#[trigger] u64_of_i64(v)) == v,
{
}

// ------------------------------------------------------------------
// Variable-length integers: 7 data bits per byte, LSB group first,
// the high bit of each byte marking continuation.
// ------------------------------------------------------------------
/// Outcome of parsing a variable-length integer from the front of a
/// byte sequence: the value and the count of bytes consumed, or the
/// reason no value is there.
pub enum VarParse {
    Val(int, nat),
    Truncated,
    TooBig,
}

/// Parse a variable-length integer from the front of `s`, allowing at
/// most `left` bytes, where the final permitted byte must be below
/// `last_max` (16 for VarInt, 2 for VarLong).
pub open spec fn var_decode(s: Seq<u8>, left: nat, last_max: nat) -> VarParse
    decreases left,
{
    if s.len() == 0 {
        VarParse::Truncated
    } else if left <= 1 {
        if s[0] >= last_max {
            VarParse::TooBig
        } else {
            VarParse::Val(s[0] as int, 1)
        }
    } else if s[0] < 128 {
        VarParse::Val(s[0] as int, 1)
    } else {
        match var_decode(s.skip(1), (left - 1) as nat, last_max) {
            VarParse::Val(v, n) => VarParse::Val((s[0] - 128) + 128 * v, n + 1),
            VarParse::Truncated => VarParse::Truncated,
            VarParse::TooBig => VarParse::TooBig,
        }
    }
}

/// The canonical (minimal) encoding of an unsigned value as 7-bit
/// groups, least significant group first.
pub open spec fn var_bytes(v: nat) -> Seq<u8>
    decreases v,
{
    if v < 128 {
        seq![v as u8]
    } else {
        seq![(v % 128 + 128) as u8] + var_bytes(v / 128)
    }
}

/// Exclusive upper bound of the values representable in `left` bytes
/// whose final byte stays below `last_max`.
pub open spec fn var_bound(left: nat, last_max: nat) -> nat
    decreases left,
{
    if left <= 1 {
        last_max
    } else {
        128 * var_bound((left - 1) as nat, last_max)
    }
}

pub proof fn lemma_var_bound_32()
    ensures
        var_bound(5, 16) == 0x1_0000_0000,
{
    reveal_with_fuel(var_bound, 6);
}

pub proof fn lemma_var_bound_64()
    ensures
        var_bound(10, 2) == 0x1_0000_0000_0000_0000,
{
    reveal_with_fuel(var_bound, 11);
}

/// A parsed value lies below the bound of its width class, and the
/// consumed count is between 1 and `left`, within the sequence.
pub proof fn lemma_var_decode_bound(s: Seq<u8>, left: nat, last_max: nat)
    requires
        1 <= last_max <= 128,
        1 <= left,
    ensures
        var_decode(s, left, last_max) matches VarParse::Val(v, n) ==> 0 <= v < var_bound(
            left,
            last_max,
        ) && 1 <= n <= left && n <= s.len(),
    decreases left,
{
    if s.len() == 0 || left <= 1 {
    } else if s[0] < 128 {
        assert(var_bound(left, last_max) >= var_bound(1, last_max)) by {
            lemma_var_bound_grows(1, left, last_max);
        }
        assert(128 <= var_bound(left, last_max)) by {
            lemma_var_bound_grows(2, left, last_max);
            assert(var_bound(2, last_max) == 128 * last_max);
        }
    } else {
        lemma_var_decode_bound(s.skip(1), (left - 1) as nat, last_max);
        if let VarParse::Val(v, n) = var_decode(s.skip(1), (left - 1) as nat, last_max) {
            assert((s[0] - 128) + 128 * v < 128 * var_bound((left - 1) as nat, last_max));
        }
    }
}

/// `var_bound` is monotone in the byte allowance.
pub proof fn lemma_var_bound_grows(a: nat, b: nat, last_max: nat)
    requires
        1 <= a <= b,
        1 <= last_max,
    ensures
        var_bound(a, last_max) <= var_bound(b, last_max),
    decreases b,
{
    if a < b {
        lemma_var_bound_grows(a, (b - 1) as nat, last_max);
    }
}

/// Shape of the canonical encoding: one to `left` bytes, every byte but
/// the last carrying the continuation bit, the last clear of it. This
/// is exactly the minimality condition of the continuation-bit rule.
pub proof fn lemma_var_bytes_shape(v: nat)
    ensures
        1 <= var_bytes(v).len(),
        var_bytes(v).last() < 128,
        forall|i: int| 0 <= i < var_bytes(v).len() - 1 ==> var_bytes(v)[i] >= 128,
    decreases v,
{
    if v >= 128 {
        lemma_var_bytes_shape(v / 128);
        assert forall|i: int| 0 <= i < var_bytes(v).len() - 1 implies var_bytes(v)[i]
            >= 128 by {
            if i > 0 {
                assert(var_bytes(v)[i] == var_bytes(v / 128)[i - 1]);
            }
        }
    }
}

/// The canonical encoding of a value below `var_bound(left, last_max)`
/// fits in `left` bytes.
pub proof fn lemma_var_bytes_len(v: nat, left: nat, last_max: nat)
    requires
        1 <= last_max <= 128,
        1 <= left,
        v < var_bound(left, last_max),
    ensures
        var_bytes(v).len() <= left,
    decreases left,
{
    if v >= 128 {
        assert(left > 1) by {
            assert(var_bound(1, last_max) == last_max);
        }
        lemma_var_bytes_len(v / 128, (left - 1) as nat, last_max);
    }
}

/// Round trip: parsing a canonical encoding (with anything appended
/// after it) yields the value back and consumes exactly the encoding.
pub proof fn lemma_var_round_trip(v: nat, rest: Seq<u8>, left: nat, last_max: nat)
    requires
        1 <= last_max <= 128,
        1 <= left,
        v < var_bound(left, last_max),
    ensures
        var_decode(var_bytes(v) + rest, left, last_max) == VarParse::Val(
            v as int,
            var_bytes(v).len(),
        ),
    decreases left,
{
    let s = var_bytes(v) + rest;
    if v < 128 {
        assert(s[0] == v as u8);
        if left <= 1 {
            assert(v < last_max);
        }
    } else {
        assert(left > 1) by {
            assert(var_bound(1, last_max) == last_max);
        }
        assert(s[0] == (v % 128 + 128) as u8);
        assert(s[0] >= 128);
        lemma_var_round_trip(v / 128, rest, (left - 1) as nat, last_max);
        assert(s.skip(1) =~= var_bytes(v / 128) + rest);
        let inner = var_decode(s.skip(1), (left - 1) as nat, last_max);
        assert(inner == VarParse::Val((v / 128) as int, var_bytes(v / 128).len()));
        assert((s[0] - 128) + 128 * ((v / 128) as int) == v as int) by {
            assert(s[0] - 128 == v % 128);
        }
    }
}

/// VarInt round trip: for every `i32` value, the canonical encoding is
/// one to five bytes, minimal under the continuation-bit rule (every
/// byte but the last carries the continuation bit), and decoding it —
/// whatever bytes follow — recovers the value exactly.
pub proof fn lemma_varint_round_trip(v: i32, rest: Seq<u8>)
    ensures
        ({
            let enc = var_bytes(u32_of_i32(v) as nat);
            &&& 1 <= enc.len() <= 5
            &&& enc.last() < 128
            &&& forall|i: int| 0 <= i < enc.len() - 1 ==> enc[i] >= 128
            &&& var_decode(enc + rest, 5, 16) == VarParse::Val(u32_of_i32(v) as int, enc.len())
            &&& i32_of_u32(u32_of_i32(v)) == v
        }),
{
    let u = u32_of_i32(v) as nat;
    lemma_var_bound_32();
    lemma_var_round_trip(u, rest, 5, 16);
    lemma_var_bytes_len(u, 5, 16);
    lemma_var_bytes_shape(u);
}

/// VarLong round trip: the same law for every `i64` value, with an
/// encoded length of one to ten bytes.
pub proof fn lemma_varlong_round_trip(v: i64, rest: Seq<u8>)
    ensures
        ({
            let enc = var_bytes(u64_of_i64(v) as nat);
            &&& 1 <= enc.len() <= 10
            &&& enc.last() < 128
            &&& forall|i: int| 0 <= i < enc.len() - 1 ==> enc[i] >= 128
            &&& var_decode(enc + rest, 10, 2) == VarParse::Val(u64_of_i64(v) as int, enc.len())
            &&& i64_of_u64(u64_of_i64(v)) == v
        }),
{
    let u = u64_of_i64(v) as nat;
    lemma_var_bound_64();
    lemma_var_round_trip(u, rest, 10, 2);
    lemma_var_bytes_len(u, 10, 2);
    lemma_var_bytes_shape(u);
}

// ------------------------------------------------------------------
// Big-endian fixed-width integers
// ------------------------------------------------------------------
pub open spec fn be16(v: u16) -> Seq<u8> {
    seq![(v / 0x100) as u8, (v % 0x100) as u8]
}

pub open spec fn be32(v: u32) -> Seq<u8> {
    seq![
        (v / 0x100_0000) as u8,
        ((v / 0x1_0000) % 0x100) as u8,
        ((v / 0x100) % 0x100) as u8,
        (v % 0x100) as u8,
    ]
}

pub open spec fn be64(v: u64) -> Seq<u8> {
    be32((v / 0x1_0000_0000) as u32) + be32((v % 0x1_0000_0000) as u32)
}

pub open spec fn be128(v: u128) -> Seq<u8> {
    be64((v / 0x1_0000_0000_0000_0000) as u64) + be64((v % 0x1_0000_0000_0000_0000) as u64)
}

// ------------------------------------------------------------------
// Length-prefixed UTF-8 strings
// ------------------------------------------------------------------
/// Wire form of a string: VarInt byte length, then the UTF-8 bytes.
pub open spec fn spec_str_bytes(s: Seq<char>) -> Seq<u8> {
    var_bytes(vstd::utf8::encode_utf8(s).len()) + vstd::utf8::encode_utf8(s)
}

/// Whether a string's UTF-8 byte length fits the VarInt length prefix.
pub open spec fn str_fits(s: Seq<char>) -> bool {
    vstd::utf8::encode_utf8(s).len() <= 0x7fff_ffff
}

/// Value of a 4-byte big-endian sequence.
pub open spec fn be32_val(s: Seq<u8>) -> u32 {
    (s[0] * 0x100_0000 + s[1] * 0x1_0000 + s[2] * 0x100 + s[3]) as u32
}

/// Value of an 8-byte big-endian sequence.
pub open spec fn be64_val(s: Seq<u8>) -> u64 {
    (be32_val(s.take(4)) * 0x1_0000_0000 + be32_val(s.skip(4))) as u64
}

/// A 4-byte big-endian sequence is exactly the encoding of its value.
pub proof fn lemma_be32_reconstruct(b0: u8, b1: u8, b2: u8, b3: u8, v: u32)
    requires
        v == b0 * 0x100_0000 + b1 * 0x1_0000 + b2 * 0x100 + b3,
    ensures
        be32(v) == seq![b0, b1, b2, b3],
{
    lemma_fundamental_div_mod_converse(
        v as int,
        0x100_0000,
        b0 as int,
        b1 * 0x1_0000 + b2 * 0x100 + b3,
    );
    lemma_fundamental_div_mod_converse(
        v as int,
        0x1_0000,
        b0 * 0x100 + b1,
        b2 * 0x100 + b3,
    );
    lemma_fundamental_div_mod_converse((b0 * 0x100 + b1) as int, 0x100, b0 as int, b1 as int);
    lemma_fundamental_div_mod_converse(v as int, 0x100, b0 * 0x1_0000 + b1 * 0x100 + b2, b3 as int);
    lemma_fundamental_div_mod_converse(
        (b0 * 0x1_0000 + b1 * 0x100 + b2) as int,
        0x100,
        b0 * 0x100 + b1,
        b2 as int,
    );
    assert(be32(v) =~= seq![b0, b1, b2, b3]);
}

/// An 8-byte big-endian value splits into two 4-byte halves.
pub proof fn lemma_be64_split(hi: u32, lo: u32, v: u64)
    requires
        v == hi * 0x1_0000_0000 + lo,
    ensures
        be64(v) == be32(hi) + be32(lo),
{
    lemma_fundamental_div_mod_converse(v as int, 0x1_0000_0000, hi as int, lo as int);
}

/// A 16-byte big-endian value splits into two 8-byte halves.
pub proof fn lemma_be128_split(hi: u64, lo: u64, v: u128)
    requires
        v == hi * 0x1_0000_0000_0000_0000 + lo,
    ensures
        be128(v) == be64(hi) + be64(lo),
{
    lemma_fundamental_div_mod_converse(
        v as int,
        0x1_0000_0000_0000_0000,
        hi as int,
        lo as int,
    );
}

/// Reading the 4-byte big-endian encoding back gives the value.
pub proof fn lemma_be32_val_inverse(v: u32)
    ensures
        be32_val(be32(v)) == v,
{
    let b0 = v as int / 0x100_0000;
    let b1 = (v as int / 0x1_0000) % 0x100;
    let b2 = (v as int / 0x100) % 0x100;
    let b3 = v as int % 0x100;
    let q2 = v as int / 0x1_0000;
    let q1 = v as int / 0x100;
    vstd::arithmetic::div_mod::lemma_fundamental_div_mod(v as int, 0x100);
    vstd::arithmetic::div_mod::lemma_fundamental_div_mod(q1, 0x100);
    vstd::arithmetic::div_mod::lemma_fundamental_div_mod(q2, 0x100);
    assert((v as int / 0x100) / 0x100 == v as int / 0x1_0000) by {
        vstd::arithmetic::div_mod::lemma_div_denominator(v as int, 0x100, 0x100);
    }
    assert((v as int / 0x1_0000) / 0x100 == v as int / 0x100_0000) by {
        vstd::arithmetic::div_mod::lemma_div_denominator(v as int, 0x1_0000, 0x100);
    }
}

/// Reading the 8-byte big-endian encoding back gives the value.
pub proof fn lemma_be64_val_inverse(v: u64)
    ensures
        be64_val(be64(v)) == v,
{
    let hi = (v as int / 0x1_0000_0000) as u32;
    let lo = (v as int % 0x1_0000_0000) as u32;
    vstd::arithmetic::div_mod::lemma_fundamental_div_mod(v as int, 0x1_0000_0000);
    assert(be64(v).take(4) =~= be32(hi));
    assert(be64(v).skip(4) =~= be32(lo));
    lemma_be32_val_inverse(hi);
    lemma_be32_val_inverse(lo);
}

/// Outcome of parsing a length-prefixed UTF-8 string from the front of
/// a byte sequence.
pub enum StrParse {
    Val(Seq<char>, nat),
    Truncated,
    TooBig,
    BadUtf8,
}

/// Parse a string: a VarInt byte count, then that many bytes of UTF-8.
/// A declared count that exceeds the bytes available is `Truncated`;
/// a count at or above 2^31 can never be satisfied and is `Truncated`
/// as well.
pub open spec fn sp_read_string(s: Seq<u8>) -> StrParse {
    match var_decode(s, 5, 16) {
        VarParse::Val(len, n) => {
            if len >= 0x8000_0000 {
                StrParse::Truncated
            } else if s.len() - n < len {
                StrParse::Truncated
            } else {
                let body = s.subrange(n as int, n + len);
                if vstd::utf8::valid_utf8(body) {
                    StrParse::Val(vstd::utf8::decode_utf8(body), (n + len) as nat)
                } else {
                    StrParse::BadUtf8
                }
            }
        },
        VarParse::Truncated => StrParse::Truncated,
        VarParse::TooBig => StrParse::TooBig,
    }
}

/// String round trip: a wire string written as `spec_str_bytes(cs)`
/// parses back to exactly `cs`, whatever follows it.
pub proof fn lemma_string_round_trip(cs: Seq<char>, rest: Seq<u8>)
    requires
        str_fits(cs),
    ensures
        sp_read_string(spec_str_bytes(cs) + rest) matches StrParse::Val(out, n) && out == cs && n
            == spec_str_bytes(cs).len(),
{
    broadcast use vstd::utf8::encode_utf8_valid_utf8, vstd::utf8::encode_utf8_decode_utf8;

    let body = vstd::utf8::encode_utf8(cs);
    let len = body.len();
    let prefix = var_bytes(len);
    let s = spec_str_bytes(cs) + rest;
    lemma_var_bound_32();
    lemma_var_round_trip(len, body + rest, 5, 16);
    assert(s =~= prefix + (body + rest));
    let n = prefix.len();
    assert(var_decode(s, 5, 16) == VarParse::Val(len as int, n));
    assert(s.subrange(n as int, n + len as int) =~= body);
}

// ------------------------------------------------------------------
// Spec-level field parsers: each yields the value and the bytes
// consumed, or the codec error, for composing packet parsers.
// ------------------------------------------------------------------
pub open spec fn be16_val(s: Seq<u8>) -> u16 {
    (s[0] * 0x100 + s[1]) as u16
}

pub open spec fn be128_val(s: Seq<u8>) -> u128 {
    (be64_val(s.take(8)) * 0x1_0000_0000_0000_0000 + be64_val(s.skip(8))) as u128
}

pub proof fn lemma_be16_val_inverse(v: u16)
    ensures
        be16_val(be16(v)) == v,
{
    vstd::arithmetic::div_mod::lemma_fundamental_div_mod(v as int, 0x100);
}

pub proof fn lemma_be128_val_inverse(v: u128)
    ensures
        be128_val(be128(v)) == v,
{
    let hi = (v as int / 0x1_0000_0000_0000_0000) as u64;
    let lo = (v as int % 0x1_0000_0000_0000_0000) as u64;
    vstd::arithmetic::div_mod::lemma_fundamental_div_mod(v as int, 0x1_0000_0000_0000_0000);
    assert(be128(v).take(8) =~= be64(hi));
    assert(be128(v).skip(8) =~= be64(lo));
    lemma_be64_val_inverse(hi);
    lemma_be64_val_inverse(lo);
}

pub open spec fn sp_varint(s: Seq<u8>) -> Result<(i32, nat), CodecError> {
    match var_decode(s, 5, 16) {
        VarParse::Val(v, n) => Ok((i32_of_u32(v as u32), n)),
        VarParse::Truncated => Err(CodecError::Truncated),
        VarParse::TooBig => Err(CodecError::VarIntTooBig),
    }
}

pub open spec fn sp_string(s: Seq<u8>) -> Result<(Seq<char>, nat), CodecError> {
    match sp_read_string(s) {
        StrParse::Val(cs, n) => Ok((cs, n)),
        StrParse::Truncated => Err(CodecError::Truncated),
        StrParse::TooBig => Err(CodecError::VarIntTooBig),
        StrParse::BadUtf8 => Err(CodecError::InvalidUtf8),
    }
}

pub open spec fn sp_u8(s: Seq<u8>) -> Result<(u8, nat), CodecError> {
    if s.len() >= 1 {
        Ok((s[0], 1))
    } else {
        Err(CodecError::Truncated)
    }
}

pub open spec fn sp_bool(s: Seq<u8>) -> Result<(bool, nat), CodecError> {
    if s.len() >= 1 {
        Ok((s[0] == 1, 1))
    } else {
        Err(CodecError::Truncated)
    }
}

pub open spec fn sp_u16(s: Seq<u8>) -> Result<(u16, nat), CodecError> {
    if s.len() >= 2 {
        Ok((be16_val(s.take(2)), 2))
    } else {
        Err(CodecError::Truncated)
    }
}

pub open spec fn sp_u32(s: Seq<u8>) -> Result<(u32, nat), CodecError> {
    if s.len() >= 4 {
        Ok((be32_val(s.take(4)), 4))
    } else {
        Err(CodecError::Truncated)
    }
}

pub open spec fn sp_i32(s: Seq<u8>) -> Result<(i32, nat), CodecError> {
    if s.len() >= 4 {
        Ok((i32_of_u32(be32_val(s.take(4))), 4))
    } else {
        Err(CodecError::Truncated)
    }
}

pub open spec fn sp_i64(s: Seq<u8>) -> Result<(i64, nat), CodecError> {
    if s.len() >= 8 {
        Ok((i64_of_u64(be64_val(s.take(8))), 8))
    } else {
        Err(CodecError::Truncated)
    }
}

/// A VarInt count followed by that many raw bytes.
pub open spec fn sp_counted_bytes(s: Seq<u8>) -> Result<(Seq<u8>, nat), CodecError> {
    match sp_varint(s) {
        Ok((count, n)) => {
            if count < 0 {
                Err(CodecError::Malformed)
            } else if s.len() - n < count {
                Err(CodecError::Truncated)
            } else {
                Ok((s.subrange(n as int, n + count), (n + count) as nat))
            }
        },
        Err(e) => Err(e),
    }
}

// ------------------------------------------------------------------
// Exec conversions between signed and unsigned representations
// ------------------------------------------------------------------
pub fn i32_from_u32(u: u32) -> (r: i32)
    ensures
        r == i32_of_u32(u),
        u32_of_i32(r) == u,
{
    if u < 0x8000_0000 {
        u as i32
    } else {
        ((u as i64) - 0x1_0000_0000) as i32
    }
}

pub fn u32_from_i32(v: i32) -> (r: u32)
    ensures
        r == u32_of_i32(v),
{
    if v >= 0 {
        v as u32
    } else {
        ((v as i64) + 0x1_0000_0000) as u32
    }
}

pub fn i64_from_u64(u: u64) -> (r: i64)
    ensures
        r == i64_of_u64(u),
        u64_of_i64(r) == u,
{
    if u < 0x8000_0000_0000_0000 {
        u as i64
    } else {
        ((u as i128) - 0x1_0000_0000_0000_0000) as i64
    }
}

pub fn u64_from_i64(v: i64) -> (r: u64)
    ensures
        r == u64_of_i64(v),
{
    if v >= 0 {
        v as u64
    } else {
        ((v as i128) + 0x1_0000_0000_0000_0000) as u64
    }
}

pub fn i8_from_u8(u: u8) -> (r: i8)
    ensures
        r == i8_of_u8(u),
        u8_of_i8(r) == u,
{
    if u < 0x80 {
        u as i8
    } else {
        ((u as i16) - 0x100) as i8
    }
}

pub fn u8_from_i8(v: i8) -> (r: u8)
    ensures
        r == u8_of_i8(v),
{
    if v >= 0 {
        v as u8
    } else {
        ((v as i16) + 0x100) as u8
    }
}

pub fn i16_from_u16(u: u16) -> (r: i16)
    ensures
        r == i16_of_u16(u),
        u16_of_i16(r) == u,
{
    if u < 0x8000 {
        u as i16
    } else {
        ((u as i32) - 0x1_0000) as i16
    }
}

pub fn u16_from_i16(v: i16) -> (r: u16)
    ensures
        r == u16_of_i16(v),
{
    if v >= 0 {
        v as u16
    } else {
        ((v as i32) + 0x1_0000) as u16
    }
}

// ------------------------------------------------------------------
// Packed positions: x in 26 bits, y in 12 bits, z in 26 bits of one
// 64-bit word, each field two's complement within its width.
// ------------------------------------------------------------------
pub open spec fn in_position_range(x: int, y: int, z: int) -> bool {
    &&& -0x200_0000 <= x < 0x200_0000
    &&& -0x800 <= y < 0x800
    &&& -0x200_0000 <= z < 0x200_0000
}

pub open spec fn bias26(x: int) -> int {
    if x >= 0 {
        x
    } else {
        x + 0x400_0000
    }
}

pub open spec fn bias12(y: int) -> int {
    if y >= 0 {
        y
    } else {
        y + 0x1000
    }
}

pub open spec fn unbias26(f: int) -> int {
    if f >= 0x200_0000 {
        f - 0x400_0000
    } else {
        f
    }
}

pub open spec fn unbias12(f: int) -> int {
    if f >= 0x800 {
        f - 0x1000
    } else {
        f
    }
}

/// The packed 64-bit word of an in-range coordinate triple.
pub open spec fn position_word(x: int, y: int, z: int) -> u64 {
    (bias26(x) * 0x40_0000_0000 + bias12(y) * 0x400_0000 + bias26(z)) as u64
}

pub open spec fn position_x(w: u64) -> int {
    unbias26(w as int / 0x40_0000_0000)
}

pub open spec fn position_y(w: u64) -> int {
    unbias12((w as int / 0x400_0000) % 0x1000)
}

pub open spec fn position_z(w: u64) -> int {
    unbias26(w as int % 0x400_0000)
}

/// Round trip of the packed-position word: unpacking recovers every
/// in-range coordinate triple exactly.
pub proof fn lemma_position_round_trip(x: int, y: int, z: int)
    requires
        in_position_range(x, y, z),
    ensures
        position_x(position_word(x, y, z)) == x,
        position_y(position_word(x, y, z)) == y,
        position_z(position_word(x, y, z)) == z,
{
    let a = bias26(x);
    let b = bias12(y);
    let c = bias26(z);
    let w = a * 0x40_0000_0000 + b * 0x400_0000 + c;
    assert(0 <= a < 0x400_0000);
    assert(0 <= b < 0x1000);
    assert(0 <= c < 0x400_0000);
    assert(a * 0x40_0000_0000 <= 0x3ff_ffff * 0x40_0000_0000);
    assert(w <= 0x3ff_ffff * 0x40_0000_0000 + 0xfff * 0x400_0000 + 0x3ff_ffff);
    assert(position_word(x, y, z) == w);
    assert(b * 0x400_0000 + c < 0x40_0000_0000);
    lemma_fundamental_div_mod_converse(w, 0x40_0000_0000, a, b * 0x400_0000 + c);
    assert(w / 0x40_0000_0000 == a);
    assert(a * 0x40_0000_0000 == (a * 0x1000) * 0x400_0000) by (nonlinear_arith);
    lemma_fundamental_div_mod_converse(w, 0x400_0000, a * 0x1000 + b, c);
    assert(w / 0x400_0000 == a * 0x1000 + b);
    assert(w % 0x400_0000 == c);
    lemma_fundamental_div_mod_converse(a * 0x1000 + b, 0x1000, a, b);
    assert((a * 0x1000 + b) % 0x1000 == b);
}

} // verus!
