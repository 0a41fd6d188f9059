//! String helpers: equality by bytes, and rendering of ASCII byte
//! sequences into `String` values.

use vstd::prelude::*;

verus! {

/// Relies on `String::from_utf8`: succeeds exactly on valid UTF-8 and
/// yields the decoded character sequence.
#[verifier::external_body]
pub(crate) fn utf8_to_string(bytes: Vec<u8>) -> (r: Option<String>)
    ensures
        r matches Some(s) ==> vstd::utf8::valid_utf8(bytes@) && s@ == vstd::utf8::decode_utf8(
            bytes@,
        ),
        r is None ==> !vstd::utf8::valid_utf8(bytes@),
{
    match String::from_utf8(bytes) {
        Ok(s) => Some(s),
        Err(_) => None,
    }
}

/// String equality, decided by comparing UTF-8 bytes.
pub fn str_eq(a: &str, b: &str) -> (r: bool)
    ensures
        r == (a@ == b@),
{
    broadcast use vstd::utf8::encode_utf8_decode_utf8;

    let ab = a.as_bytes();
    let bb = b.as_bytes();
    if ab.len() != bb.len() {
        return false;
    }
    let mut i: usize = 0;
    while i < ab.len()
        invariant
            0 <= i <= ab@.len(),
            ab@.len() == bb@.len(),
            ab@ == vstd::utf8::encode_utf8(a@),
            bb@ == vstd::utf8::encode_utf8(b@),
            forall|j: int| 0 <= j < i ==> ab@[j] == bb@[j],
        decreases ab@.len() - i,
    {
        if ab[i] != bb[i] {
            proof {
                assert(vstd::utf8::encode_utf8(a@)[i as int] != vstd::utf8::encode_utf8(
                    b@,
                )[i as int]);
            }
            return false;
        }
        i += 1;
    }
    proof {
        assert(ab@ =~= bb@);
        assert(vstd::utf8::decode_utf8(vstd::utf8::encode_utf8(a@)) == a@);
        assert(vstd::utf8::decode_utf8(vstd::utf8::encode_utf8(b@)) == b@);
    }
    true
}

/// Build a `String` out of ASCII bytes; each byte becomes one character.
pub fn ascii_to_string(bytes: Vec<u8>) -> (r: String)
    requires
        forall|i: int| 0 <= i < bytes@.len() ==> bytes@[i] < 128,
    ensures
        r@ == Seq::new(bytes@.len(), |i: int| bytes@[i] as char),
        vstd::utf8::encode_utf8(r@) == bytes@,
{
    broadcast use vstd::utf8::encode_utf8_decode_utf8, vstd::utf8::is_ascii_chars_encode_utf8;

    let ghost chars = Seq::new(bytes@.len(), |i: int| bytes@[i] as char);
    proof {
        assert forall|i: int| 0 <= i < chars.len() implies '\0' <= #[trigger] chars[i]
            <= '\u{7f}' by {
            assert(bytes@[i] < 128);
            assert(chars[i] == bytes@[i] as char);
        }
        assert(vstd::utf8::is_ascii_chars(chars));
        assert forall|i: int| 0 <= i < chars.len() implies vstd::utf8::encode_utf8(chars)[i]
            == bytes@[i] by {
            assert(chars[i] as u8 == vstd::utf8::encode_utf8(chars)[i]);
        }
        assert(vstd::utf8::encode_utf8(chars) =~= bytes@);
    }
    match utf8_to_string(bytes) {
        Some(s) => {
            proof {
                assert(vstd::utf8::decode_utf8(vstd::utf8::encode_utf8(chars)) == chars);
            }
            s
        },
        None => {
            proof {
                broadcast use vstd::utf8::encode_utf8_valid_utf8;

                assert(false);
            }
            String::new()
        },
    }
}

} // verus!
