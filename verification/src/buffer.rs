//! The byte stream of a connection: an owned, growable byte sequence
//! with an independent read cursor. Every typed read is bounds-checked
//! against the bytes remaining past the cursor and advances the cursor
//! only on success; writes append at the end.

use crate::error::CodecError;
use crate::strutil::utf8_to_string;
use crate::uuid::Uuid;
use crate::vector::Vector3;
use crate::wire::{
    be128, be128_val, be16, be16_val, be32, be32_val, be64, be64_val, i16_from_u16, i16_of_u16,
    i32_of_u32, i32_from_u32, i64_from_u64,
    i64_of_u64, i8_from_u8, i8_of_u8, in_position_range, lemma_be128_split, lemma_be128_val_inverse, lemma_be16_val_inverse, lemma_be32_reconstruct,
    lemma_be32_val_inverse, lemma_be64_split, lemma_be64_val_inverse, lemma_var_bound_32, lemma_var_bound_64,
    lemma_var_bound_grows, lemma_var_decode_bound, position_word, position_x, position_y,
    position_z, sp_read_string, spec_str_bytes, str_fits, u16_from_i16, u16_of_i16, u32_from_i32,
    u32_of_i32, u64_from_i64, u64_of_i64, u8_from_i8, u8_of_i8, var_bound, var_bytes, var_decode,
    lemma_i32_u32_inverse, sp_counted_bytes, sp_varint, StrParse, VarParse,
};
use vstd::prelude::*;

verus! {

pub struct Buffer {
    inner: Vec<u8>,
    cursor: usize,
}

impl Buffer {
    /// The whole owned byte sequence, consumed bytes included.
    pub closed spec fn data(&self) -> Seq<u8> {
        self.inner@
    }

    /// The read cursor, as an offset into `data()`.
    pub closed spec fn pos(&self) -> nat {
        self.cursor as nat
    }

    /// The cursor never runs past the end of the data.
    pub open spec fn wf(&self) -> bool {
        self.pos() <= self.data().len()
    }

    /// The bytes not yet consumed.
    pub open spec fn remaining(&self) -> Seq<u8> {
        self.data().skip(self.pos() as int)
    }

    pub fn new() -> (r: Buffer)
        ensures
            r.wf(),
            r.data() == Seq::<u8>::empty(),
            r.pos() == 0,
    {
        Buffer { inner: Vec::new(), cursor: 0 }
    }

    pub fn len(&self) -> (r: usize)
        ensures
            r == self.data().len(),
    {
        self.inner.len()
    }

    pub fn is_empty(&self) -> (r: bool)
        ensures
            r == (self.data().len() == 0),
    {
        self.inner.len() == 0
    }

    pub fn cursor(&self) -> (r: usize)
        ensures
            r == self.pos(),
    {
        self.cursor
    }

    pub fn reset_cursor(&mut self)
        ensures
            final(self).wf(),
            final(self).data() == old(self).data(),
            final(self).pos() == 0,
    {
        self.cursor = 0;
    }

    /// Move the cursor to an absolute offset within the data.
    pub fn seek(&mut self, pos: usize)
        requires
            pos <= old(self).data().len(),
        ensures
            final(self).wf(),
            final(self).data() == old(self).data(),
            final(self).pos() == pos,
    {
        self.cursor = pos;
    }

    pub fn has_at_least(&self, count: usize) -> (r: bool)
        requires
            self.wf(),
        ensures
            r == (self.remaining().len() >= count),
    {
        self.inner.len() - self.cursor >= count
    }

    pub fn as_raw(&self) -> (r: &[u8])
        ensures
            r@ == self.data(),
    {
        self.inner.as_slice()
    }

    /// Append raw bytes at the end, leaving the cursor in place.
    pub fn extend(&mut self, bytes: &[u8])
        requires
            old(self).wf(),
        ensures
            final(self).wf(),
            final(self).data() == old(self).data() + bytes@,
            final(self).pos() == old(self).pos(),
    {
        self.inner.extend_from_slice(bytes);
    }

    /// Physically drop the first `n` bytes, moving the cursor back by
    /// the same amount, so the remaining bytes are unchanged.
    pub fn drain(&mut self, n: usize)
        requires
            old(self).wf(),
            n <= old(self).pos(),
        ensures
            final(self).wf(),
            final(self).data() == old(self).data().skip(n as int),
            final(self).pos() == old(self).pos() - n,
    {
        let mut rest: Vec<u8> = Vec::new();
        let len = self.inner.len();
        let mut i: usize = n;
        while i < len
            invariant
                n <= i <= len,
                len == self.inner.len(),
                self.cursor <= len,
                rest@ == self.inner@.subrange(n as int, i as int),
            decreases len - i,
        {
            rest.push(self.inner[i]);
            assert(rest@ =~= self.inner@.subrange(n as int, i + 1));
            i += 1;
        }
        assert(rest@ =~= self.inner@.skip(n as int));
        self.inner = rest;
        self.cursor = self.cursor - n;
    }

    // --------------------------------------------------------------
    // Fixed-width integers, big-endian
    // --------------------------------------------------------------
    pub fn read_ubyte(&mut self) -> (r: Result<u8, CodecError>)
        requires
            old(self).wf(),
        ensures
            final(self).wf(),
            final(self).data() == old(self).data(),
            match r {
                Ok(v) => old(self).remaining().len() >= 1 && v == old(self).remaining()[0]
                    && final(self).pos() == old(self).pos() + 1,
                Err(e) => e == CodecError::Truncated && old(self).remaining().len() == 0
                    && final(self).pos() == old(self).pos(),
            },
    {
        if self.inner.len() - self.cursor < 1 {
            return Err(CodecError::Truncated);
        }
        let v = self.inner[self.cursor];
        self.cursor = self.cursor + 1;
        Ok(v)
    }

    pub fn write_ubyte(&mut self, value: u8)
        requires
            old(self).wf(),
        ensures
            final(self).wf(),
            final(self).data() == old(self).data() + seq![value],
            final(self).pos() == old(self).pos(),
    {
        self.inner.push(value);
    }

    pub fn read_byte(&mut self) -> (r: Result<i8, CodecError>)
        requires
            old(self).wf(),
        ensures
            final(self).wf(),
            final(self).data() == old(self).data(),
            match r {
                Ok(v) => old(self).remaining().len() >= 1 && v == i8_of_u8(
                    old(self).remaining()[0],
                ) && final(self).pos() == old(self).pos() + 1,
                Err(e) => e == CodecError::Truncated && old(self).remaining().len() == 0
                    && final(self).pos() == old(self).pos(),
            },
    {
        match self.read_ubyte() {
            Ok(v) => Ok(i8_from_u8(v)),
            Err(e) => Err(e),
        }
    }

    pub fn write_byte(&mut self, value: i8)
        requires
            old(self).wf(),
        ensures
            final(self).wf(),
            final(self).data() == old(self).data() + seq![u8_of_i8(value)],
            final(self).pos() == old(self).pos(),
    {
        self.inner.push(u8_from_i8(value));
    }

    pub fn read_bool(&mut self) -> (r: Result<bool, CodecError>)
        requires
            old(self).wf(),
        ensures
            final(self).wf(),
            final(self).data() == old(self).data(),
            match r {
                Ok(v) => old(self).remaining().len() >= 1 && v == (old(self).remaining()[0] == 1)
                    && final(self).pos() == old(self).pos() + 1,
                Err(e) => e == CodecError::Truncated && old(self).remaining().len() == 0
                    && final(self).pos() == old(self).pos(),
            },
    {
        match self.read_ubyte() {
            Ok(v) => Ok(v == 1),
            Err(e) => Err(e),
        }
    }

    pub fn write_bool(&mut self, value: bool)
        requires
            old(self).wf(),
        ensures
            final(self).wf(),
            final(self).data() == old(self).data() + seq![if value { 1u8 } else { 0u8 }],
            final(self).pos() == old(self).pos(),
    {
        self.inner.push(if value { 1 } else { 0 });
    }

    pub fn read_ushort(&mut self) -> (r: Result<u16, CodecError>)
        requires
            old(self).wf(),
        ensures
            final(self).wf(),
            final(self).data() == old(self).data(),
            match r {
                Ok(v) => old(self).remaining().len() >= 2 && be16(v) == old(self).remaining().take(
                    2,
                ) && v == be16_val(old(self).remaining().take(2)) && final(self).pos() == old(
                    self,
                ).pos() + 2,
                Err(e) => e == CodecError::Truncated && old(self).remaining().len() < 2
                    && final(self).pos() == old(self).pos(),
            },
    {
        if self.inner.len() - self.cursor < 2 {
            return Err(CodecError::Truncated);
        }
        let b0 = self.inner[self.cursor] as u16;
        let b1 = self.inner[self.cursor + 1] as u16;
        let v = b0 * 0x100 + b1;
        self.cursor = self.cursor + 2;
        proof {
            assert(be16(v) =~= old(self).remaining().take(2)) by {
                vstd::arithmetic::div_mod::lemma_fundamental_div_mod_converse(
                    v as int,
                    0x100,
                    b0 as int,
                    b1 as int,
                );
            }
            lemma_be16_val_inverse(v);
        }
        Ok(v)
    }

    pub fn write_ushort(&mut self, value: u16)
        requires
            old(self).wf(),
        ensures
            final(self).wf(),
            final(self).data() == old(self).data() + be16(value),
            final(self).pos() == old(self).pos(),
    {
        self.inner.push((value / 0x100) as u8);
        self.inner.push((value % 0x100) as u8);
        assert(self.data() =~= old(self).data() + be16(value));
    }

    pub fn read_short(&mut self) -> (r: Result<i16, CodecError>)
        requires
            old(self).wf(),
        ensures
            final(self).wf(),
            final(self).data() == old(self).data(),
            match r {
                Ok(v) => old(self).remaining().len() >= 2 && be16(u16_of_i16(v)) == old(
                    self,
                ).remaining().take(2) && v == i16_of_u16(be16_val(old(self).remaining().take(2)))
                    && final(self).pos() == old(self).pos() + 2,
                Err(e) => e == CodecError::Truncated && old(self).remaining().len() < 2
                    && final(self).pos() == old(self).pos(),
            },
    {
        match self.read_ushort() {
            Ok(v) => Ok(i16_from_u16(v)),
            Err(e) => Err(e),
        }
    }

    pub fn write_short(&mut self, value: i16)
        requires
            old(self).wf(),
        ensures
            final(self).wf(),
            final(self).data() == old(self).data() + be16(u16_of_i16(value)),
            final(self).pos() == old(self).pos(),
    {
        let u = u16_from_i16(value);
        self.write_ushort(u);
    }

    pub fn read_uint(&mut self) -> (r: Result<u32, CodecError>)
        requires
            old(self).wf(),
        ensures
            final(self).wf(),
            final(self).data() == old(self).data(),
            match r {
                Ok(v) => old(self).remaining().len() >= 4 && be32(v) == old(self).remaining().take(
                    4,
                ) && v == be32_val(old(self).remaining().take(4)) && final(self).pos() == old(
                    self,
                ).pos() + 4,
                Err(e) => e == CodecError::Truncated && old(self).remaining().len() < 4
                    && final(self).pos() == old(self).pos(),
            },
    {
        if self.inner.len() - self.cursor < 4 {
            return Err(CodecError::Truncated);
        }
        let b0 = self.inner[self.cursor];
        let b1 = self.inner[self.cursor + 1];
        let b2 = self.inner[self.cursor + 2];
        let b3 = self.inner[self.cursor + 3];
        let v = (b0 as u32) * 0x100_0000 + (b1 as u32) * 0x1_0000 + (b2 as u32) * 0x100 + (
        b3 as u32);
        self.cursor = self.cursor + 4;
        proof {
            lemma_be32_reconstruct(b0, b1, b2, b3, v);
            assert(seq![b0, b1, b2, b3] =~= old(self).remaining().take(4));
            lemma_be32_val_inverse(v);
        }
        Ok(v)
    }

    pub fn write_uint(&mut self, value: u32)
        requires
            old(self).wf(),
        ensures
            final(self).wf(),
            final(self).data() == old(self).data() + be32(value),
            final(self).pos() == old(self).pos(),
    {
        self.inner.push((value / 0x100_0000) as u8);
        self.inner.push(((value / 0x1_0000) % 0x100) as u8);
        self.inner.push(((value / 0x100) % 0x100) as u8);
        self.inner.push((value % 0x100) as u8);
        assert(self.data() =~= old(self).data() + be32(value));
    }

    pub fn read_int(&mut self) -> (r: Result<i32, CodecError>)
        requires
            old(self).wf(),
        ensures
            final(self).wf(),
            final(self).data() == old(self).data(),
            match r {
                Ok(v) => old(self).remaining().len() >= 4 && be32(u32_of_i32(v)) == old(
                    self,
                ).remaining().take(4) && v == i32_of_u32(be32_val(old(self).remaining().take(4)))
                    && final(self).pos() == old(self).pos() + 4,
                Err(e) => e == CodecError::Truncated && old(self).remaining().len() < 4
                    && final(self).pos() == old(self).pos(),
            },
    {
        match self.read_uint() {
            Ok(v) => Ok(i32_from_u32(v)),
            Err(e) => Err(e),
        }
    }

    pub fn write_int(&mut self, value: i32)
        requires
            old(self).wf(),
        ensures
            final(self).wf(),
            final(self).data() == old(self).data() + be32(u32_of_i32(value)),
            final(self).pos() == old(self).pos(),
    {
        let u = u32_from_i32(value);
        self.write_uint(u);
    }

    pub fn read_ulong(&mut self) -> (r: Result<u64, CodecError>)
        requires
            old(self).wf(),
        ensures
            final(self).wf(),
            final(self).data() == old(self).data(),
            match r {
                Ok(v) => old(self).remaining().len() >= 8 && be64(v) == old(self).remaining().take(
                    8,
                ) && v == be64_val(old(self).remaining().take(8)) && final(self).pos() == old(
                    self,
                ).pos() + 8,
                Err(e) => e == CodecError::Truncated && old(self).remaining().len() < 8
                    && final(self).pos() == old(self).pos(),
            },
    {
        if self.inner.len() - self.cursor < 8 {
            return Err(CodecError::Truncated);
        }
        let ghost rem = old(self).remaining();
        let hi = match self.read_uint() {
            Ok(v) => v,
            Err(_) => {
                proof {
                    assert(false);
                }
                return Err(CodecError::Truncated);
            },
        };
        let lo = match self.read_uint() {
            Ok(v) => v,
            Err(_) => {
                proof {
                    assert(false);
                }
                return Err(CodecError::Truncated);
            },
        };
        let v = (hi as u64) * 0x1_0000_0000 + (lo as u64);
        proof {
            lemma_be64_split(hi, lo, v);
            assert(rem.skip(4).take(4) =~= rem.take(8).skip(4));
            assert(be64(v) =~= rem.take(8));
            lemma_be64_val_inverse(v);
        }
        Ok(v)
    }

    pub fn write_ulong(&mut self, value: u64)
        requires
            old(self).wf(),
        ensures
            final(self).wf(),
            final(self).data() == old(self).data() + be64(value),
            final(self).pos() == old(self).pos(),
    {
        let hi = (value / 0x1_0000_0000) as u32;
        let lo = (value % 0x1_0000_0000) as u32;
        self.write_uint(hi);
        self.write_uint(lo);
        proof {
            lemma_be64_split(hi, lo, value);
            assert(self.data() =~= old(self).data() + be64(value));
        }
    }

    pub fn read_long(&mut self) -> (r: Result<i64, CodecError>)
        requires
            old(self).wf(),
        ensures
            final(self).wf(),
            final(self).data() == old(self).data(),
            match r {
                Ok(v) => old(self).remaining().len() >= 8 && be64(u64_of_i64(v)) == old(
                    self,
                ).remaining().take(8) && v == i64_of_u64(be64_val(old(self).remaining().take(8)))
                    && final(self).pos() == old(self).pos() + 8,
                Err(e) => e == CodecError::Truncated && old(self).remaining().len() < 8
                    && final(self).pos() == old(self).pos(),
            },
    {
        match self.read_ulong() {
            Ok(v) => Ok(i64_from_u64(v)),
            Err(e) => Err(e),
        }
    }

    pub fn write_long(&mut self, value: i64)
        requires
            old(self).wf(),
        ensures
            final(self).wf(),
            final(self).data() == old(self).data() + be64(u64_of_i64(value)),
            final(self).pos() == old(self).pos(),
    {
        let u = u64_from_i64(value);
        self.write_ulong(u);
    }

    #[verifier::rlimit(60)]
    pub fn read_uuid(&mut self) -> (r: Result<Uuid, CodecError>)
        requires
            old(self).wf(),
        ensures
            final(self).wf(),
            final(self).data() == old(self).data(),
            match r {
                Ok(u) => old(self).remaining().len() >= 16 && be128(u.0) == old(
                    self,
                ).remaining().take(16) && u.0 == be128_val(old(self).remaining().take(16))
                    && final(self).pos() == old(self).pos() + 16,
                Err(e) => e == CodecError::Truncated && old(self).remaining().len() < 16
                    && final(self).pos() == old(self).pos(),
            },
    {
        if self.inner.len() - self.cursor < 16 {
            return Err(CodecError::Truncated);
        }
        let ghost rem = old(self).remaining();
        let hi = match self.read_ulong() {
            Ok(v) => v,
            Err(_) => {
                proof {
                    assert(false);
                }
                return Err(CodecError::Truncated);
            },
        };
        let lo = match self.read_ulong() {
            Ok(v) => v,
            Err(_) => {
                proof {
                    assert(false);
                }
                return Err(CodecError::Truncated);
            },
        };
        let v = (hi as u128) * 0x1_0000_0000_0000_0000 + (lo as u128);
        proof {
            lemma_be128_split(hi, lo, v);
            assert(rem.skip(8).take(8) =~= rem.take(16).skip(8));
            assert(be128(v) =~= rem.take(16));
            lemma_be128_val_inverse(v);
        }
        Ok(Uuid(v))
    }

    pub fn write_uuid(&mut self, value: &Uuid)
        requires
            old(self).wf(),
        ensures
            final(self).wf(),
            final(self).data() == old(self).data() + be128(value.0),
            final(self).pos() == old(self).pos(),
    {
        let hi = (value.0 / 0x1_0000_0000_0000_0000) as u64;
        let lo = (value.0 % 0x1_0000_0000_0000_0000) as u64;
        self.write_ulong(hi);
        self.write_ulong(lo);
        proof {
            lemma_be128_split(hi, lo, value.0);
            assert(self.data() =~= old(self).data() + be128(value.0));
        }
    }

    // --------------------------------------------------------------
    // Variable-length integers
    // --------------------------------------------------------------
    /// Scan a variable-length integer at absolute offset `pos` without
    /// moving the cursor. `Err(VarIntTooBig)` stands for the too-big
    /// outcome of either width class.
    fn var_core(&self, pos: usize, left: u32, last_max: u8) -> (r: Result<
        (u64, usize),
        CodecError,
    >)
        requires
            self.wf(),
            pos <= self.data().len(),
            1 <= left,
            1 <= last_max <= 128,
            var_bound(left as nat, last_max as nat) <= 0x1_0000_0000_0000_0000,
        ensures
            match r {
                Ok((v, n)) => var_decode(self.data().skip(pos as int), left as nat, last_max as nat)
                    == VarParse::Val(v as int, n as nat) && 1 <= n <= left && pos + n
                    <= self.data().len(),
                Err(CodecError::Truncated) => var_decode(
                    self.data().skip(pos as int),
                    left as nat,
                    last_max as nat,
                ) is Truncated,
                Err(CodecError::VarIntTooBig) => var_decode(
                    self.data().skip(pos as int),
                    left as nat,
                    last_max as nat,
                ) is TooBig,
                Err(_) => false,
            },
        decreases left,
    {
        let ghost s = self.data().skip(pos as int);
        if pos >= self.inner.len() {
            return Err(CodecError::Truncated);
        }
        let b = self.inner[pos];
        assert(s[0] == b);
        if left == 1 {
            if b >= last_max {
                Err(CodecError::VarIntTooBig)
            } else {
                Ok((b as u64, 1))
            }
        } else if b < 128 {
            Ok((b as u64, 1))
        } else {
            proof {
                assert(self.data().skip(pos as int + 1) =~= s.skip(1));
            }
            match self.var_core(pos + 1, left - 1, last_max) {
                Ok((v, n)) => {
                    proof {
                        lemma_var_decode_bound(s.skip(1), (left - 1) as nat, last_max as nat);
                    }
                    Ok((((b - 128) as u64) + 128 * v, n + 1))
                },
                Err(e) => Err(e),
            }
        }
    }

    pub fn read_varint(&mut self) -> (r: Result<i32, CodecError>)
        requires
            old(self).wf(),
        ensures
            final(self).wf(),
            final(self).data() == old(self).data(),
            match r {
                Ok(v) => var_decode(old(self).remaining(), 5, 16) matches VarParse::Val(val, n)
                    && val == u32_of_i32(v) && final(self).pos() == old(self).pos() + n,
                Err(CodecError::Truncated) => var_decode(old(self).remaining(), 5, 16) is Truncated
                    && final(self).pos() == old(self).pos(),
                Err(CodecError::VarIntTooBig) => var_decode(old(self).remaining(), 5, 16) is TooBig
                    && final(self).pos() == old(self).pos(),
                Err(_) => false,
            },
    {
        proof {
            lemma_var_bound_32();
        }
        let _limit = self.inner.len();
        assert(self.data().len() <= usize::MAX);
        match self.var_core(self.cursor, 5, 16) {
            Ok((v, n)) => {
                proof {
                    lemma_var_decode_bound(self.remaining(), 5, 16);
                }
                let u = v as u32;
                self.cursor = self.cursor + n;
                Ok(i32_from_u32(u))
            },
            Err(e) => Err(e),
        }
    }

    pub fn write_var_u64(&mut self, v: u64)
        requires
            old(self).wf(),
        ensures
            final(self).wf(),
            final(self).data() == old(self).data() + var_bytes(v as nat),
            final(self).pos() == old(self).pos(),
        decreases v,
    {
        if v < 128 {
            self.inner.push(v as u8);
            assert(self.data() =~= old(self).data() + var_bytes(v as nat));
        } else {
            self.inner.push((v % 128 + 128) as u8);
            self.write_var_u64(v / 128);
            assert(self.data() =~= old(self).data() + var_bytes(v as nat));
        }
    }

    pub fn write_varint(&mut self, value: i32)
        requires
            old(self).wf(),
        ensures
            final(self).wf(),
            final(self).data() == old(self).data() + var_bytes(u32_of_i32(value) as nat),
            final(self).pos() == old(self).pos(),
    {
        let u = u32_from_i32(value);
        self.write_var_u64(u as u64);
    }

    pub fn read_varlong(&mut self) -> (r: Result<i64, CodecError>)
        requires
            old(self).wf(),
        ensures
            final(self).wf(),
            final(self).data() == old(self).data(),
            match r {
                Ok(v) => var_decode(old(self).remaining(), 10, 2) matches VarParse::Val(val, n)
                    && val == u64_of_i64(v) && final(self).pos() == old(self).pos() + n,
                Err(CodecError::Truncated) => var_decode(old(self).remaining(), 10, 2) is Truncated
                    && final(self).pos() == old(self).pos(),
                Err(CodecError::VarLongTooBig) => var_decode(old(self).remaining(), 10, 2) is TooBig
                    && final(self).pos() == old(self).pos(),
                Err(_) => false,
            },
    {
        proof {
            lemma_var_bound_64();
        }
        let _limit = self.inner.len();
        assert(self.data().len() <= usize::MAX);
        match self.var_core(self.cursor, 10, 2) {
            Ok((v, n)) => {
                proof {
                    lemma_var_decode_bound(self.remaining(), 10, 2);
                }
                self.cursor = self.cursor + n;
                Ok(i64_from_u64(v))
            },
            Err(CodecError::Truncated) => Err(CodecError::Truncated),
            Err(_) => Err(CodecError::VarLongTooBig),
        }
    }

    pub fn write_varlong(&mut self, value: i64)
        requires
            old(self).wf(),
        ensures
            final(self).wf(),
            final(self).data() == old(self).data() + var_bytes(u64_of_i64(value) as nat),
            final(self).pos() == old(self).pos(),
    {
        let u = u64_from_i64(value);
        self.write_var_u64(u);
    }

    /// Read one VarInt-counted byte array: the count, then that many
    /// raw bytes.
    pub fn read_counted_bytes(&mut self) -> (r: Result<(i32, Vec<u8>), CodecError>)
        requires
            old(self).wf(),
        ensures
            final(self).wf(),
            final(self).data() == old(self).data(),
            match r {
                Ok((count, bytes)) => sp_counted_bytes(old(self).remaining()) matches Ok(p) && p.0
                    == bytes@ && count == bytes@.len() && final(self).pos() == old(self).pos()
                    + p.1,
                Err(e) => sp_counted_bytes(old(self).remaining()) == Err::<
                    (Seq<u8>, nat),
                    CodecError,
                >(e) && final(self).pos() == old(self).pos(),
            },
    {
        broadcast use lemma_i32_u32_inverse;

        let ghost s = old(self).remaining();
        let start = self.cursor();
        let count = match self.read_varint() {
            Ok(v) => v,
            Err(e) => {
                return Err(e);
            },
        };
        let ghost n = self.pos() - old(self).pos();
        proof {
            assert(sp_varint(s) == Ok::<_, CodecError>((count, n as nat)));
            assert(self.remaining() =~= s.skip(n));
        }
        if count < 0 {
            self.seek(start);
            return Err(CodecError::Malformed);
        }
        let bytes = match self.read_ubyte_array(count as usize) {
            Ok(v) => v,
            Err(e) => {
                self.seek(start);
                return Err(e);
            },
        };
        proof {
            assert(bytes@ =~= s.subrange(n, n + count as int));
        }
        Ok((count, bytes))
    }

    // --------------------------------------------------------------
    // Length-prefixed UTF-8 strings
    // --------------------------------------------------------------
    pub fn read_string(&mut self) -> (r: Result<String, CodecError>)
        requires
            old(self).wf(),
        ensures
            final(self).wf(),
            final(self).data() == old(self).data(),
            match r {
                Ok(st) => sp_read_string(old(self).remaining()) matches StrParse::Val(cs, n) && st@
                    == cs && final(self).pos() == old(self).pos() + n,
                Err(CodecError::Truncated) => sp_read_string(old(self).remaining()) is Truncated
                    && final(self).pos() == old(self).pos(),
                Err(CodecError::VarIntTooBig) => sp_read_string(old(self).remaining()) is TooBig
                    && final(self).pos() == old(self).pos(),
                Err(CodecError::InvalidUtf8) => sp_read_string(old(self).remaining()) is BadUtf8
                    && final(self).pos() == old(self).pos(),
                Err(_) => false,
            },
    {
        proof {
            lemma_var_bound_32();
        }
        let _limit = self.inner.len();
        assert(self.data().len() <= usize::MAX);
        let (len, n) = match self.var_core(self.cursor, 5, 16) {
            Ok(p) => p,
            Err(CodecError::Truncated) => {
                return Err(CodecError::Truncated);
            },
            Err(_) => {
                return Err(CodecError::VarIntTooBig);
            },
        };
        proof {
            lemma_var_decode_bound(self.remaining(), 5, 16);
        }
        if len >= 0x8000_0000 {
            return Err(CodecError::Truncated);
        }
        let len_us = len as usize;
        let start = self.cursor + n;
        if self.inner.len() - start < len_us {
            return Err(CodecError::Truncated);
        }
        let mut body: Vec<u8> = Vec::new();
        let mut i: usize = 0;
        while i < len_us
            invariant
                0 <= i <= len_us,
                start + len_us <= self.inner@.len(),
                start + len_us <= usize::MAX,
                body@ == self.data().subrange(start as int, start + i),
            decreases len_us - i,
        {
            body.push(self.inner[start + i]);
            assert(body@ =~= self.data().subrange(start as int, start + i + 1));
            i += 1;
        }
        proof {
            assert(body@ =~= self.remaining().subrange(n as int, n + len as int));
        }
        match utf8_to_string(body) {
            Some(st) => {
                self.cursor = start + len_us;
                Ok(st)
            },
            None => Err(CodecError::InvalidUtf8),
        }
    }

    pub fn write_string(&mut self, value: &str) -> (r: Result<(), CodecError>)
        requires
            old(self).wf(),
        ensures
            final(self).wf(),
            final(self).pos() == old(self).pos(),
            match r {
                Ok(_) => str_fits(value@) && final(self).data() == old(self).data() + spec_str_bytes(
                    value@,
                ),
                Err(e) => e == CodecError::OutOfRange && !str_fits(value@) && final(self).data() == old(
                    self,
                ).data(),
            },
    {
        let bytes = value.as_bytes();
        if bytes.len() > 0x7fff_ffff {
            return Err(CodecError::OutOfRange);
        }
        let len = bytes.len() as i32;
        self.write_varint(len);
        self.inner.extend_from_slice(bytes);
        assert(self.data() =~= old(self).data() + spec_str_bytes(value@));
        Ok(())
    }

    // --------------------------------------------------------------
    // Packed positions
    // --------------------------------------------------------------
    pub fn read_position(&mut self) -> (r: Result<Vector3<i32>, CodecError>)
        requires
            old(self).wf(),
        ensures
            final(self).wf(),
            final(self).data() == old(self).data(),
            match r {
                Ok(p) => old(self).remaining().len() >= 8 && ({
                    let w = be64_val(old(self).remaining().take(8));
                    be64(w) == old(self).remaining().take(8) && p.0 == position_x(w) && p.1
                        == position_y(w) && p.2 == position_z(w) && final(self).pos() == old(self).pos()
                        + 8
                }),
                Err(e) => e == CodecError::Truncated && old(self).remaining().len() < 8
                    && final(self).pos() == old(self).pos(),
            },
    {
        let w = match self.read_ulong() {
            Ok(v) => v,
            Err(e) => {
                return Err(e);
            },
        };
        proof {
            lemma_be64_val_inverse(w);
            assert(be64_val(old(self).remaining().take(8)) == w);
        }
        let xf = w / 0x40_0000_0000;
        let yf = (w / 0x400_0000) % 0x1000;
        let zf = w % 0x400_0000;
        let x: i32 = if xf >= 0x200_0000 {
            ((xf as i64) - 0x400_0000) as i32
        } else {
            xf as i32
        };
        let y: i32 = if yf >= 0x800 {
            ((yf as i64) - 0x1000) as i32
        } else {
            yf as i32
        };
        let z: i32 = if zf >= 0x200_0000 {
            ((zf as i64) - 0x400_0000) as i32
        } else {
            zf as i32
        };
        Ok(Vector3(x, y, z))
    }

    pub fn write_position(&mut self, value: &Vector3<i32>) -> (r: Result<(), CodecError>)
        requires
            old(self).wf(),
        ensures
            final(self).wf(),
            final(self).pos() == old(self).pos(),
            match r {
                Ok(_) => in_position_range(value.0 as int, value.1 as int, value.2 as int)
                    && final(self).data() == old(self).data() + be64(
                    position_word(value.0 as int, value.1 as int, value.2 as int),
                ),
                Err(e) => e == CodecError::OutOfRange && !in_position_range(
                    value.0 as int,
                    value.1 as int,
                    value.2 as int,
                ) && final(self).data() == old(self).data(),
            },
    {
        let x = value.0;
        let y = value.1;
        let z = value.2;
        if !(-0x200_0000 <= x && x < 0x200_0000) {
            return Err(CodecError::OutOfRange);
        }
        if !(-0x800 <= y && y < 0x800) {
            return Err(CodecError::OutOfRange);
        }
        if !(-0x200_0000 <= z && z < 0x200_0000) {
            return Err(CodecError::OutOfRange);
        }
        let xb: u64 = if x >= 0 {
            x as u64
        } else {
            ((x as i64) + 0x400_0000) as u64
        };
        let yb: u64 = if y >= 0 {
            y as u64
        } else {
            ((y as i64) + 0x1000) as u64
        };
        let zb: u64 = if z >= 0 {
            z as u64
        } else {
            ((z as i64) + 0x400_0000) as u64
        };
        let w = xb * 0x40_0000_0000 + yb * 0x400_0000 + zb;
        self.write_ulong(w);
        Ok(())
    }

    // --------------------------------------------------------------
    // Arrays. The array helpers apply an element codec a fixed number
    // of times and carry no invariant beyond the element codec's own
    // contract. A generic helper over a caller-supplied element codec
    // cannot yet state that contract here — a closure's behaviour on a
    // mutable buffer has no expressible specification — so the helpers
    // are the two byte-element forms the protocol's payloads use, each
    // with the exact contract of its element codec, applied in order.
    // --------------------------------------------------------------
    pub fn read_ubyte_array(&mut self, size: usize) -> (r: Result<Vec<u8>, CodecError>)
        requires
            old(self).wf(),
        ensures
            final(self).wf(),
            final(self).data() == old(self).data(),
            match r {
                Ok(v) => old(self).remaining().len() >= size && v@ == old(self).remaining().take(
                    size as int,
                ) && final(self).pos() == old(self).pos() + size,
                Err(e) => e == CodecError::Truncated && old(self).remaining().len() < size
                    && final(self).pos() == old(self).pos(),
            },
    {
        if self.inner.len() - self.cursor < size {
            return Err(CodecError::Truncated);
        }
        let start = self.cursor;
        let mut out: Vec<u8> = Vec::new();
        let mut i: usize = 0;
        while i < size
            invariant
                0 <= i <= size,
                start + size <= self.inner@.len(),
                start + size <= usize::MAX,
                out@ == self.data().subrange(start as int, start + i),
            decreases size - i,
        {
            out.push(self.inner[start + i]);
            assert(out@ =~= self.data().subrange(start as int, start + i + 1));
            i += 1;
        }
        self.cursor = start + size;
        proof {
            assert(out@ =~= old(self).remaining().take(size as int));
        }
        Ok(out)
    }

    pub fn write_ubyte_array(&mut self, slice: &[u8])
        requires
            old(self).wf(),
        ensures
            final(self).wf(),
            final(self).data() == old(self).data() + slice@,
            final(self).pos() == old(self).pos(),
    {
        self.inner.extend_from_slice(slice);
    }

    pub fn read_byte_array(&mut self, size: usize) -> (r: Result<Vec<i8>, CodecError>)
        requires
            old(self).wf(),
        ensures
            final(self).wf(),
            final(self).data() == old(self).data(),
            match r {
                Ok(v) => old(self).remaining().len() >= size && v@ == Seq::new(
                    size as nat,
                    |i: int| i8_of_u8(old(self).remaining()[i]),
                ) && final(self).pos() == old(self).pos() + size,
                Err(e) => e == CodecError::Truncated && old(self).remaining().len() < size
                    && final(self).pos() == old(self).pos(),
            },
    {
        let raw = match self.read_ubyte_array(size) {
            Ok(v) => v,
            Err(e) => {
                return Err(e);
            },
        };
        let mut out: Vec<i8> = Vec::new();
        let mut i: usize = 0;
        while i < raw.len()
            invariant
                0 <= i <= raw@.len(),
                out@ == Seq::new(i as nat, |j: int| i8_of_u8(raw@[j])),
            decreases raw@.len() - i,
        {
            out.push(i8_from_u8(raw[i]));
            assert(out@ =~= Seq::new((i + 1) as nat, |j: int| i8_of_u8(raw@[j])));
            i += 1;
        }
        proof {
            assert(out@ =~= Seq::new(size as nat, |i: int| i8_of_u8(old(self).remaining()[i])));
        }
        Ok(out)
    }

    /// The signed bytes reinterpreted as unsigned, written as raw bytes.
    pub fn write_byte_array(&mut self, vec: &Vec<i8>)
        requires
            old(self).wf(),
        ensures
            final(self).wf(),
            final(self).data() == old(self).data() + Seq::new(
                vec@.len(),
                |i: int| u8_of_i8(vec@[i]),
            ),
            final(self).pos() == old(self).pos(),
    {
        let ghost base = self.data();
        let mut i: usize = 0;
        while i < vec.len()
            invariant
                0 <= i <= vec@.len(),
                self.wf(),
                self.cursor == old(self).cursor,
                self.data() == base + Seq::new(i as nat, |j: int| u8_of_i8(vec@[j])),
            decreases vec@.len() - i,
        {
            self.inner.push(u8_from_i8(vec[i]));
            assert(self.data() =~= base + Seq::new((i + 1) as nat, |j: int| u8_of_i8(vec@[j])));
            i += 1;
        }
    }
}

} // verus!
