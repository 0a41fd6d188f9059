//! The session-verification interface: the profile record the
//! collaborator returns, and the server-hash computation — a SHA-1
//! digest whose big-endian bytes are reinterpreted as a signed
//! two's-complement integer and rendered as a (possibly
//! negatively-signed) minimal lowercase hex string.
//!
//! The HTTP transport of the query is outside this crate; callers hand
//! the hash and username to it and hand the profile back.

use crate::strutil::ascii_to_string;
use crate::uuid::hex_digit_byte;
use vstd::arithmetic::div_mod::{lemma_fundamental_div_mod, lemma_fundamental_div_mod_converse};
use vstd::prelude::*;

verus! {

/// The authoritative account record of a verified session.
pub struct Profile {
    pub id: String,
    pub name: String,
}

/// What SHA-1 returns; a function of the input bytes alone.
pub uninterp spec fn sha1_of(data: Seq<u8>) -> Seq<u8>;

/// Relies on `openssl::hash::hash` with `MessageDigest::sha1`: the
/// 20-byte SHA-1 digest of the input, depending on the input alone.
#[verifier::external_body]
fn sha1_digest(data: &Vec<u8>) -> (r: Option<Vec<u8>>)
    ensures
        r matches Some(d) ==> d@ == sha1_of(data@) && d@.len() == 20,
{
    match openssl::hash::hash(openssl::hash::MessageDigest::sha1(), data.as_slice()) {
        Ok(d) => Some(d.to_vec()),
        Err(_) => None,
    }
}

/// Value of a big-endian byte string read as an unsigned integer.
pub open spec fn be_uint(d: Seq<u8>) -> nat
    decreases d.len(),
{
    if d.len() == 0 {
        0
    } else {
        (be_uint(d.drop_last()) * 256 + d.last()) as nat
    }
}

pub open spec fn pow256(n: nat) -> nat
    decreases n,
{
    if n == 0 {
        1
    } else {
        256 * pow256((n - 1) as nat)
    }
}

/// Value of a big-endian byte string read as a signed two's-complement
/// integer.
pub open spec fn be_signed(d: Seq<u8>) -> int {
    if d.len() > 0 && d[0] >= 128 {
        be_uint(d) - pow256(d.len())
    } else {
        be_uint(d) as int
    }
}

/// Minimal lowercase hex digits of a value: no leading zeros, and the
/// empty string for zero.
pub open spec fn hex_min_bytes(v: nat) -> Seq<u8>
    decreases v,
{
    if v == 0 {
        seq![]
    } else {
        hex_min_bytes(v / 16) + seq![hex_digit_byte(v % 16)]
    }
}

/// The ASCII rendering of a digest as a signed hex string: a minus
/// sign and the magnitude's minimal hex when the signed value is
/// negative, the minimal hex itself otherwise.
pub open spec fn spec_auth_ascii(d: Seq<u8>) -> Seq<u8> {
    if be_signed(d) < 0 {
        seq![45u8] + hex_min_bytes((-be_signed(d)) as nat)
    } else {
        hex_min_bytes(be_signed(d) as nat)
    }
}

proof fn lemma_be_uint_bound(d: Seq<u8>)
    ensures
        be_uint(d) < pow256(d.len()),
    decreases d.len(),
{
    if d.len() > 0 {
        lemma_be_uint_bound(d.drop_last());
    }
}

/// Appending one hex byte pair multiplies the prefix value by 256.
proof fn lemma_hex_min_step(v: nat, b: u8)
    requires
        v >= 1,
    ensures
        hex_min_bytes((v * 256 + b) as nat) == hex_min_bytes(v) + seq![
            hex_digit_byte(b as nat / 16),
            hex_digit_byte(b as nat % 16),
        ],
{
    let x = (v * 256 + b) as nat;
    lemma_fundamental_div_mod(b as int, 16);
    lemma_fundamental_div_mod_converse(
        x as int,
        16,
        (v * 16 + b as nat / 16) as int,
        b as int % 16,
    );
    assert(x as int / 16 == v * 16 + b as nat / 16);
    assert(x as int % 16 == b as nat % 16);
    let y = (v * 16 + b as nat / 16) as nat;
    lemma_fundamental_div_mod_converse(y as int, 16, v as int, b as int / 16);
    assert(y as int / 16 == v);
    assert(y as int % 16 == b as nat / 16);
    assert(x > 0);
    assert(y > 0);
    assert(hex_min_bytes(x) == hex_min_bytes(y) + seq![hex_digit_byte(b as nat % 16)]);
    assert(hex_min_bytes(y) == hex_min_bytes(v) + seq![hex_digit_byte(b as nat / 16)]);
    assert(hex_min_bytes(v) + seq![hex_digit_byte(b as nat / 16)] + seq![
        hex_digit_byte(b as nat % 16),
    ] =~= hex_min_bytes(v) + seq![hex_digit_byte(b as nat / 16), hex_digit_byte(b as nat % 16)]);
}

/// The minimal hex of one leading byte: one digit below 16, two above.
proof fn lemma_hex_min_byte(b: u8)
    requires
        b > 0,
    ensures
        b < 16 ==> hex_min_bytes(b as nat) == seq![hex_digit_byte(b as nat)],
        b >= 16 ==> hex_min_bytes(b as nat) == seq![
            hex_digit_byte(b as nat / 16),
            hex_digit_byte(b as nat % 16),
        ],
{
    if b < 16 {
        assert(hex_min_bytes(b as nat) == hex_min_bytes(b as nat / 16) + seq![
            hex_digit_byte(b as nat % 16),
        ]);
        assert(hex_min_bytes(b as nat) =~= seq![hex_digit_byte(b as nat)]);
    } else {
        assert(hex_min_bytes(b as nat) == hex_min_bytes(b as nat / 16) + seq![
            hex_digit_byte(b as nat % 16),
        ]);
        assert(hex_min_bytes(b as nat / 16) == hex_min_bytes(b as nat / 16 / 16) + seq![
            hex_digit_byte(b as nat / 16 % 16),
        ]);
        assert(b as nat / 16 / 16 == 0);
        assert(b as nat / 16 % 16 == b as nat / 16);
        assert(hex_min_bytes(b as nat) =~= seq![
            hex_digit_byte(b as nat / 16),
            hex_digit_byte(b as nat % 16),
        ]);
    }
}

/// Render the minimal hex of a big-endian unsigned byte string,
/// skipping leading zero bytes and the leading zero digit.
fn render_hex_min(m: &Vec<u8>) -> (r: Vec<u8>)
    ensures
        r@ == hex_min_bytes(be_uint(m@)),
        forall|i: int| 0 <= i < r@.len() ==> r@[i] < 128,
{
    let mut out: Vec<u8> = Vec::new();
    let mut started = false;
    let mut i: usize = 0;
    while i < m.len()
        invariant
            0 <= i <= m@.len(),
            started == (be_uint(m@.take(i as int)) > 0),
            out@ == hex_min_bytes(be_uint(m@.take(i as int))),
            forall|j: int| 0 <= j < out@.len() ==> out@[j] < 128,
        decreases m@.len() - i,
    {
        let b = m[i];
        let ghost prefix = m@.take(i as int);
        let ghost v = be_uint(prefix);
        proof {
            assert(m@.take(i + 1).drop_last() =~= prefix);
            assert(m@.take(i + 1).last() == b);
            assert(be_uint(m@.take(i + 1)) == v * 256 + b);
        }
        if !started {
            if b > 0 {
                started = true;
                if b >= 16 {
                    out.push(hex_digit(b / 16));
                }
                out.push(hex_digit(b % 16));
                proof {
                    lemma_hex_min_byte(b);
                    assert(out@ =~= hex_min_bytes(be_uint(m@.take(i + 1))));
                }
            }
        } else {
            out.push(hex_digit(b / 16));
            out.push(hex_digit(b % 16));
            proof {
                lemma_hex_min_step(v, b);
                assert(out@ =~= hex_min_bytes(be_uint(m@.take(i + 1))));
            }
        }
        i += 1;
    }
    proof {
        assert(m@.take(m@.len() as int) =~= m@);
    }
    out
}

/// One lowercase hex digit.
fn hex_digit(d: u8) -> (r: u8)
    requires
        d < 16,
    ensures
        r == hex_digit_byte(d as nat),
        r < 128,
{
    if d < 10 {
        48 + d
    } else {
        87 + d
    }
}

/// Two's-complement negate a big-endian byte string in place:
/// complement every byte, then add one. The result's unsigned value is
/// `pow256(len) - v`, with `v > 0` the unsigned value before negation.
fn negate_be(m: &mut Vec<u8>)
    requires
        old(m)@.len() > 0,
        old(m)@[0] > 0,
    ensures
        final(m)@.len() == old(m)@.len(),
        be_uint(final(m)@) == pow256(old(m)@.len()) - 1 - be_uint(old(m)@) + 1,
{
    let n = m.len();
    let mut i: usize = 0;
    while i < n
        invariant
            0 <= i <= n,
            n == m@.len(),
            m@.len() == old(m)@.len(),
            forall|j: int| 0 <= j < i ==> m@[j] == 255 - old(m)@[j],
            forall|j: int| i <= j < n ==> m@[j] == old(m)@[j],
        decreases n - i,
    {
        let b = m[i];
        m.set(i, 255 - b);
        i += 1;
    }
    let ghost comp = m@;
    proof {
        lemma_complement_value(old(m)@, comp);
    }
    // add one, propagating the carry from the least significant byte;
    // the first byte is below 255 after complementing, so the carry
    // always stops.
    let mut k: usize = n;
    while k > 0
        invariant
            0 <= k <= n,
            n == m@.len(),
            n == old(m)@.len(),
            comp.len() == n,
            comp[0] < 255,
            forall|j: int| 0 <= j < k ==> #[trigger] m@[j] == comp[j],
            forall|j: int| k <= j < n ==> #[trigger] m@[j] == 0,
            forall|j: int| k <= j < n ==> #[trigger] comp[j] == 255,
            be_uint(comp) == pow256(n as nat) - 1 - be_uint(old(m)@),
        decreases k,
    {
        let b = m[k - 1];
        proof {
            assert(m@[k - 1] == comp[k - 1]);
        }
        if b == 255 {
            m.set(k - 1, 0);
            proof {
                assert forall|j: int| k - 1 <= j < n implies #[trigger] m@[j] == 0 by {
                    if j == k - 1 {
                        assert(m@[j] == 0);
                    }
                }
                assert(comp[k - 1] == 255);
            }
            k -= 1;
        } else {
            m.set(k - 1, b + 1);
            proof {
                assert(m@[k - 1] == comp[k - 1] + 1);
                assert forall|j: int| 0 <= j < k - 1 implies m@[j] == comp[j] by {}
                lemma_increment_at(comp, m@, (k - 1) as int);
                assert(be_uint(m@) == be_uint(comp) + 1);
            }
            return ;
        }
    }
    proof {
        // the carry cannot run past the first byte
        assert(comp[0] < 255);
        assert(false);
    }
}

/// Complementing every byte maps the value v to pow256(len) - 1 - v.
proof fn lemma_complement_value(orig: Seq<u8>, comp: Seq<u8>)
    requires
        comp.len() == orig.len(),
        forall|j: int| 0 <= j < orig.len() ==> comp[j] == 255 - orig[j],
    ensures
        be_uint(comp) == pow256(orig.len()) - 1 - be_uint(orig),
    decreases orig.len(),
{
    if orig.len() > 0 {
        assert(comp.drop_last().len() == orig.drop_last().len());
        lemma_complement_value(orig.drop_last(), comp.drop_last());
    }
}

/// On the final carry stop the whole value has increased by exactly one.
proof fn lemma_increment_at(comp: Seq<u8>, cur: Seq<u8>, idx: int)
    requires
        comp.len() == cur.len(),
        0 <= idx < comp.len(),
        comp[idx] < 255,
        cur[idx] == comp[idx] + 1,
        forall|j: int| 0 <= j < idx ==> cur[j] == comp[j],
        forall|j: int| idx < j < comp.len() ==> cur[j] == 0 && comp[j] == 255,
    ensures
        be_uint(cur) == be_uint(comp) + 1,
{
    let t = (comp.len() - idx - 1) as nat;
    assert(comp.take(idx + 1).drop_last() =~= comp.take(idx));
    assert(cur.take(idx + 1).drop_last() =~= cur.take(idx));
    assert(cur.take(idx) =~= comp.take(idx));
    lemma_all_255_suffix(comp, idx + 1);
    lemma_all_zero_suffix(cur, idx + 1);
    let a = be_uint(comp.take(idx + 1));
    assert(be_uint(cur.take(idx + 1)) == a + 1);
    assert((a + 1) * pow256(t) == a * pow256(t) + pow256(t)) by (nonlinear_arith);
}

/// A string whose bytes past `k` are all 255 has value
/// `prefix * pow256(tail) + pow256(tail) - 1`.
proof fn lemma_all_255_suffix(s: Seq<u8>, k: int)
    requires
        0 <= k <= s.len(),
        forall|j: int| k <= j < s.len() ==> s[j] == 255,
    ensures
        be_uint(s) == be_uint(s.take(k)) * pow256((s.len() - k) as nat) + pow256(
            (s.len() - k) as nat,
        ) - 1,
    decreases s.len() - k,
{
    if k == s.len() {
        assert(s.take(k) =~= s);
        assert(pow256((s.len() - k) as nat) == 1);
        assert(be_uint(s) * 1 == be_uint(s)) by (nonlinear_arith);
        assert(be_uint(s) == be_uint(s.take(k)) * pow256((s.len() - k) as nat) + pow256(
            (s.len() - k) as nat,
        ) - 1);
    } else {
        assert(s.drop_last().take(k) =~= s.take(k));
        assert forall|j: int| k <= j < s.drop_last().len() implies s.drop_last()[j] == 255 by {
            assert(s.drop_last()[j] == s[j]);
        }
        lemma_all_255_suffix(s.drop_last(), k);
        let t = (s.len() - 1 - k) as nat;
        let a = be_uint(s.take(k)) as int;
        let p = pow256(t) as int;
        assert(s.last() == 255);
        assert(be_uint(s) == be_uint(s.drop_last()) * 256 + 255);
        assert(be_uint(s.drop_last()) == a * p + p - 1);
        assert((a * p + p - 1) * 256 == a * (p * 256) + p * 256 - 256) by (nonlinear_arith);
        assert(pow256(t) * 256 == pow256(t + 1)) by {
            lemma_pow256_step(t);
        }
        assert(be_uint(s) == a * pow256(t + 1) + pow256(t + 1) - 1);
        assert((s.len() - k) as nat == t + 1);
        assert(be_uint(s) == be_uint(s.take(k)) * pow256((s.len() - k) as nat) + pow256(
            (s.len() - k) as nat,
        ) - 1);
    }
}

/// A string whose bytes past `k` are all zero has value
/// `prefix * pow256(tail)`.
proof fn lemma_all_zero_suffix(s: Seq<u8>, k: int)
    requires
        0 <= k <= s.len(),
        forall|j: int| k <= j < s.len() ==> s[j] == 0,
    ensures
        be_uint(s) == be_uint(s.take(k)) * pow256((s.len() - k) as nat),
    decreases s.len() - k,
{
    if k == s.len() {
        assert(s.take(k) =~= s);
        assert(pow256((s.len() - k) as nat) == 1);
        assert(be_uint(s) * 1 == be_uint(s)) by (nonlinear_arith);
        assert(be_uint(s) == be_uint(s.take(k)) * pow256((s.len() - k) as nat));
    } else {
        assert(s.drop_last().take(k) =~= s.take(k));
        assert forall|j: int| k <= j < s.drop_last().len() implies s.drop_last()[j] == 0 by {
            assert(s.drop_last()[j] == s[j]);
        }
        lemma_all_zero_suffix(s.drop_last(), k);
        let t = (s.len() - 1 - k) as nat;
        let a = be_uint(s.take(k)) as int;
        let p = pow256(t) as int;
        assert(s.last() == 0);
        assert(be_uint(s) == be_uint(s.drop_last()) * 256);
        assert(be_uint(s.drop_last()) == a * p);
        assert((a * p) * 256 == a * (p * 256)) by (nonlinear_arith);
        assert(pow256(t) * 256 == pow256(t + 1)) by {
            lemma_pow256_step(t);
        }
        assert(be_uint(s) == a * pow256(t + 1));
        assert((s.len() - k) as nat == t + 1);
        assert(be_uint(s) == be_uint(s.take(k)) * pow256((s.len() - k) as nat));
    }
}

proof fn lemma_pow256_step(t: nat)
    ensures
        pow256(t) * 256 == pow256(t + 1),
{
    assert(pow256(t + 1) == 256 * pow256(t));
}

/// Render a digest as the signed minimal hex string of its big-endian
/// two's-complement value.
pub fn auth_hex(digest: &Vec<u8>) -> (r: String)
    requires
        digest@.len() > 0,
    ensures
        vstd::utf8::encode_utf8(r@) == spec_auth_ascii(digest@),
{
    let ghost d = digest@;
    let mut m: Vec<u8> = Vec::new();
    let mut i: usize = 0;
    while i < digest.len()
        invariant
            0 <= i <= digest@.len(),
            m@ == digest@.take(i as int),
        decreases digest@.len() - i,
    {
        m.push(digest[i]);
        assert(m@ =~= digest@.take(i + 1));
        i += 1;
    }
    assert(m@ =~= d);
    let negative = m[0] >= 128;
    let mut out: Vec<u8> = Vec::new();
    if negative {
        assert(m@[0] >= 128);
        negate_be(&mut m);
        proof {
            lemma_be_uint_bound(d);
            assert(be_uint(m@) == pow256(d.len()) - be_uint(d));
            assert(be_signed(d) == be_uint(d) - pow256(d.len()));
            assert(be_uint(m@) == -be_signed(d));
        }
        out.push(45);
        let hex = render_hex_min(&m);
        out.extend_from_slice(hex.as_slice());
        proof {
            assert(out@ =~= seq![45u8] + hex_min_bytes((-be_signed(d)) as nat));
            assert(out@ =~= spec_auth_ascii(d));
        }
    } else {
        let hex = render_hex_min(&m);
        out.extend_from_slice(hex.as_slice());
        proof {
            assert(be_signed(d) == be_uint(d) as int);
            assert(out@ =~= spec_auth_ascii(d));
        }
    }
    assert(forall|j: int| 0 <= j < out@.len() ==> out@[j] < 128);
    ascii_to_string(out)
}

/// The server hash of a session: the signed hex of the SHA-1 digest of
/// `server_id ‖ shared_secret ‖ key`. `None` only if the digest
/// provider fails.
pub fn create_server_hash(server_id: &Vec<u8>, shared_secret: &Vec<u8>, key: &Vec<u8>) -> (r:
    Option<String>)
    ensures
        r matches Some(h) ==> vstd::utf8::encode_utf8(h@) == spec_auth_ascii(
            sha1_of(server_id@ + shared_secret@ + key@),
        ),
{
    let mut tmp: Vec<u8> = Vec::new();
    tmp.extend_from_slice(server_id.as_slice());
    tmp.extend_from_slice(shared_secret.as_slice());
    tmp.extend_from_slice(key.as_slice());
    assert(tmp@ =~= server_id@ + shared_secret@ + key@);
    let digest = match sha1_digest(&tmp) {
        Some(di) => di,
        None => {
            return None;
        },
    };
    Some(auth_hex(&digest))
}

} // verus!
