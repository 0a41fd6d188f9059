//! A 128-bit identifier, carried on the wire as 16 big-endian bytes and
//! rendered in text as the hyphenated hexadecimal form (8-4-4-4-12
//! digits, lowercase when produced here, either case accepted).

use crate::strutil::ascii_to_string;
use vstd::prelude::*;

verus! {

/// A 128-bit identifier.
#[derive(Clone, Copy, Debug, PartialEq, Eq, Hash, Structural)]
pub struct Uuid(pub u128);

/// The ASCII code of a value below 16 as one lowercase hex digit.
pub open spec fn hex_digit_byte(d: nat) -> u8 {
    if d < 10 {
        (48 + d) as u8
    } else if d < 16 {
        (87 + d) as u8
    } else {
        0
    }
}

/// `n` lowercase hex digits of `v`, most significant first.
pub open spec fn hex_bytes(v: nat, n: nat) -> Seq<u8>
    decreases n,
{
    if n == 0 {
        seq![]
    } else {
        hex_bytes(v / 16, (n - 1) as nat) + seq![hex_digit_byte(v % 16)]
    }
}

pub proof fn lemma_hex_bytes_props(v: nat, n: nat)
    ensures
        hex_bytes(v, n).len() == n,
        forall|i: int| 0 <= i < n ==> is_hex_byte(#[trigger] hex_bytes(v, n)[i]) && hex_bytes(
            v,
            n,
        )[i] < 128,
    decreases n,
{
    if n > 0 {
        lemma_hex_bytes_props(v / 16, (n - 1) as nat);
        assert forall|i: int| 0 <= i < n implies is_hex_byte(#[trigger] hex_bytes(v, n)[i])
            && hex_bytes(v, n)[i] < 128 by {
            if i < n - 1 {
                assert(hex_bytes(v, n)[i] == hex_bytes(v / 16, (n - 1) as nat)[i]);
            } else {
                assert(hex_bytes(v, n)[i] == hex_digit_byte(v % 16));
            }
        }
    }
}

/// The hyphenated ASCII form of a 128-bit identifier.
pub open spec fn uuid_ascii(v: u128) -> Seq<u8> {
    hex_bytes((v as int / 0x1000000000000000000000000) as nat, 8) + seq![45u8] + hex_bytes(
        ((v as int / 0x100000000000000000000) % 0x1_0000) as nat,
        4,
    ) + seq![45u8] + hex_bytes(((v as int / 0x1_0000_0000_0000_0000) % 0x1_0000) as nat, 4)
        + seq![45u8] + hex_bytes(((v as int / 0x1_0000_0000_0000) % 0x1_0000) as nat, 4)
        + seq![45u8] + hex_bytes((v as int % 0x1_0000_0000_0000) as nat, 12)
}

pub proof fn lemma_uuid_ascii_len(v: u128)
    ensures
        uuid_ascii(v).len() == 36,
{
    lemma_hex_bytes_props((v as int / 0x1000000000000000000000000) as nat, 8);
    lemma_hex_bytes_props(((v as int / 0x100000000000000000000) % 0x1_0000) as nat, 4);
    lemma_hex_bytes_props(((v as int / 0x1_0000_0000_0000_0000) % 0x1_0000) as nat, 4);
    lemma_hex_bytes_props(((v as int / 0x1_0000_0000_0000) % 0x1_0000) as nat, 4);
    lemma_hex_bytes_props((v as int % 0x1_0000_0000_0000) as nat, 12);
}

pub open spec fn is_hex_byte(b: u8) -> bool {
    (48 <= b <= 57) || (97 <= b <= 102) || (65 <= b <= 70)
}

/// Numeric value of one hex digit, either case.
pub open spec fn hex_val(b: u8) -> nat {
    if 48 <= b <= 57 {
        (b - 48) as nat
    } else if 97 <= b <= 102 {
        (b - 87) as nat
    } else if 65 <= b <= 70 {
        (b - 55) as nat
    } else {
        0
    }
}

pub open spec fn all_hex(s: Seq<u8>) -> bool {
    forall|i: int| 0 <= i < s.len() ==> is_hex_byte(#[trigger] s[i])
}

/// Value of a big-endian string of hex digits.
pub open spec fn hex_group_val(s: Seq<u8>) -> nat
    decreases s.len(),
{
    if s.len() == 0 {
        0
    } else {
        hex_group_val(s.drop_last()) * 16 + hex_val(s.last())
    }
}

pub open spec fn pow16(n: nat) -> nat
    decreases n,
{
    if n == 0 {
        1
    } else {
        16 * pow16((n - 1) as nat)
    }
}

pub proof fn lemma_hex_group_bound(s: Seq<u8>)
    ensures
        hex_group_val(s) < pow16(s.len()),
    decreases s.len(),
{
    if s.len() > 0 {
        lemma_hex_group_bound(s.drop_last());
    }
}

/// Parse the hyphenated hexadecimal form: exactly 36 bytes, hyphens at
/// offsets 8, 13, 18 and 23, hex digits everywhere else.
pub open spec fn spec_parse_uuid(s: Seq<u8>) -> Option<u128> {
    if s.len() == 36 && s[8] == 45 && s[13] == 45 && s[18] == 45 && s[23] == 45 && all_hex(
        s.subrange(0, 8),
    ) && all_hex(s.subrange(9, 13)) && all_hex(s.subrange(14, 18)) && all_hex(s.subrange(19, 23))
        && all_hex(s.subrange(24, 36)) {
        Some(
            (hex_group_val(s.subrange(0, 8)) * 0x1000000000000000000000000 + hex_group_val(
                s.subrange(9, 13),
            ) * 0x100000000000000000000 + hex_group_val(s.subrange(14, 18))
                * 0x1_0000_0000_0000_0000 + hex_group_val(s.subrange(19, 23)) * 0x1_0000_0000_0000
                + hex_group_val(s.subrange(24, 36))) as u128,
        )
    } else {
        None
    }
}

/// Render `n` lowercase hex digits of `v`, most significant first.
fn hex_render(v: u64, n: usize) -> (r: Vec<u8>)
    requires
        n <= 16,
    ensures
        r@ == hex_bytes(v as nat, n as nat),
        r@.len() == n,
    decreases n,
{
    if n == 0 {
        Vec::new()
    } else {
        let mut r = hex_render(v / 16, n - 1);
        let d = (v % 16) as u8;
        let b: u8 = if d < 10 {
            48 + d
        } else {
            87 + d
        };
        assert(b == hex_digit_byte((v % 16) as nat));
        r.push(b);
        assert(r@ =~= hex_bytes(v as nat, n as nat));
        r
    }
}

impl Uuid {
    pub fn from_u128(v: u128) -> (r: Uuid)
        ensures
            r.0 == v,
    {
        Uuid(v)
    }

    pub fn as_u128(&self) -> (r: u128)
        ensures
            r == self.0,
    {
        self.0
    }

    /// The canonical lowercase hyphenated form, 36 characters.
    pub fn to_hyphenated(&self) -> (r: String)
        ensures
            vstd::utf8::encode_utf8(r@) == uuid_ascii(self.0),
            r@.len() == 36,
    {
        let v = self.0;
        let f1 = (v / 0x1000000000000000000000000) as u64;
        let f2 = ((v / 0x100000000000000000000) % 0x1_0000) as u64;
        let f3 = ((v / 0x1_0000_0000_0000_0000) % 0x1_0000) as u64;
        let f4 = ((v / 0x1_0000_0000_0000) % 0x1_0000) as u64;
        let f5 = (v % 0x1_0000_0000_0000) as u64;
        let mut out: Vec<u8> = hex_render(f1, 8);
        out.push(45);
        let g2 = hex_render(f2, 4);
        out.extend_from_slice(g2.as_slice());
        out.push(45);
        let g3 = hex_render(f3, 4);
        out.extend_from_slice(g3.as_slice());
        out.push(45);
        let g4 = hex_render(f4, 4);
        out.extend_from_slice(g4.as_slice());
        out.push(45);
        let g5 = hex_render(f5, 12);
        out.extend_from_slice(g5.as_slice());
        proof {
            assert(out@ =~= uuid_ascii(v));
            lemma_hex_bytes_props(f1 as nat, 8);
            lemma_hex_bytes_props(f2 as nat, 4);
            lemma_hex_bytes_props(f3 as nat, 4);
            lemma_hex_bytes_props(f4 as nat, 4);
            lemma_hex_bytes_props(f5 as nat, 12);
            assert(forall|i: int| 0 <= i < out@.len() ==> out@[i] < 128);
        }
        let ghost bytes = out@;
        let s = ascii_to_string(out);
        proof {
            assert(vstd::utf8::encode_utf8(s@) == bytes);
        }
        s
    }

    /// Parse the hyphenated hexadecimal form from raw ASCII bytes.
    pub fn parse_bytes(s: &[u8]) -> (r: Option<Uuid>)
        ensures
            match r {
                Some(u) => spec_parse_uuid(s@) == Some(u.0),
                None => spec_parse_uuid(s@) is None,
            },
    {
        if s.len() != 36 {
            return None;
        }
        if s[8] != 45 || s[13] != 45 || s[18] != 45 || s[23] != 45 {
            return None;
        }
        let g1 = match parse_group(s, 0, 8) {
            Some(v) => v,
            None => {
                return None;
            },
        };
        let g2 = match parse_group(s, 9, 4) {
            Some(v) => v,
            None => {
                return None;
            },
        };
        let g3 = match parse_group(s, 14, 4) {
            Some(v) => v,
            None => {
                return None;
            },
        };
        let g4 = match parse_group(s, 19, 4) {
            Some(v) => v,
            None => {
                return None;
            },
        };
        let g5 = match parse_group(s, 24, 12) {
            Some(v) => v,
            None => {
                return None;
            },
        };
        proof {
            lemma_hex_group_bound(s@.subrange(0, 8));
            lemma_hex_group_bound(s@.subrange(9, 13));
            lemma_hex_group_bound(s@.subrange(14, 18));
            lemma_hex_group_bound(s@.subrange(19, 23));
            lemma_hex_group_bound(s@.subrange(24, 36));
            reveal_with_fuel(pow16, 13);
        }
        let v = (g1 as u128) * 0x1000000000000000000000000 + (g2 as u128)
            * 0x100000000000000000000 + (g3 as u128) * 0x1_0000_0000_0000_0000 + (g4 as u128)
            * 0x1_0000_0000_0000 + (g5 as u128);
        Some(Uuid(v))
    }
}

/// Parse `len` hex digits at offset `start`, either case.
fn parse_group(s: &[u8], start: usize, len: usize) -> (r: Option<u64>)
    requires
        start + len <= s@.len(),
        len <= 12,
    ensures
        match r {
            Some(v) => all_hex(s@.subrange(start as int, start + len)) && v == hex_group_val(
                s@.subrange(start as int, start + len),
            ),
            None => !all_hex(s@.subrange(start as int, start + len)),
        },
{
    let ghost whole = s@.subrange(start as int, start + len as int);
    let slen = s.len();
    assert(s@.len() <= usize::MAX);
    let mut acc: u64 = 0;
    let mut i: usize = 0;
    while i < len
        invariant
            0 <= i <= len,
            len <= 12,
            start + len <= s@.len(),
            start + len <= usize::MAX,
            whole == s@.subrange(start as int, start + len as int),
            all_hex(s@.subrange(start as int, start + i)),
            acc == hex_group_val(s@.subrange(start as int, start + i)),
            acc < pow16(i as nat),
        decreases len - i,
    {
        let b = s[start + i];
        let d: u8 = if 48 <= b && b <= 57 {
            b - 48
        } else if 97 <= b && b <= 102 {
            b - 87
        } else if 65 <= b && b <= 70 {
            b - 55
        } else {
            proof {
                assert(s@.subrange(start as int, start + len as int)[i as int] == b);
                assert(!is_hex_byte(b));
            }
            return None;
        };
        proof {
            reveal_with_fuel(pow16, 13);
            assert(d == hex_val(b));
            assert(acc * 16 + d < pow16((i + 1) as nat));
        }
        acc = acc * 16 + (d as u64);
        proof {
            let prev = s@.subrange(start as int, start + i);
            let cur = s@.subrange(start as int, start + i + 1);
            assert(cur.drop_last() =~= prev);
            assert(cur.last() == b);
            assert(forall|j: int| 0 <= j < i + 1 ==> is_hex_byte(#[trigger] cur[j]));
        }
        i += 1;
    }
    proof {
        assert(s@.subrange(start as int, start + i) =~= whole);
    }
    Some(acc)
}

} // verus!
