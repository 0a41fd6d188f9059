//! The cryptographic boundary: declarations of the RSA key and stream
//! cipher types, and the trusted calls into them. Nothing is promised
//! of a key's or a cipher's output — what the engine decides is proved
//! for every value those calls can return.

use crate::error::EngineError;
use vstd::prelude::*;

verus! {

#[verifier::external_type_specification]
#[verifier::external_body]
#[verifier::reject_recursive_types(T)]
pub struct ExRsa<T>(openssl::rsa::Rsa<T>);

#[verifier::external_type_specification]
#[verifier::external_body]
pub struct ExPrivate(openssl::pkey::Private);

#[verifier::external_type_specification]
#[verifier::external_body]
pub struct ExCrypter(openssl::symm::Crypter);

/// Relies on `Rsa::generate`: a fresh private key of the given modulus
/// size, or the provider's error.
#[verifier::external_body]
pub(crate) fn rsa_generate(bits: u32) -> (r: Option<
    openssl::rsa::Rsa<openssl::pkey::Private>,
>) {
    match openssl::rsa::Rsa::generate(bits) {
        Ok(k) => Some(k),
        Err(_) => None,
    }
}

/// Relies on `Rsa::public_key_to_der`: the DER encoding of the key's
/// public half.
#[verifier::external_body]
pub(crate) fn rsa_public_der(key: &openssl::rsa::Rsa<openssl::pkey::Private>) -> (r: Option<
    Vec<u8>,
>) {
    match key.public_key_to_der() {
        Ok(d) => Some(d),
        Err(_) => None,
    }
}

/// Relies on `RsaRef::private_decrypt` with PKCS#1 v1.5 padding. The
/// output buffer is sized to the key so the call cannot panic; inputs
/// above `i32::MAX` bytes are excluded for the same reason.
#[verifier::external_body]
pub(crate) fn rsa_private_decrypt_raw(
    key: &openssl::rsa::Rsa<openssl::pkey::Private>,
    data: &Vec<u8>,
) -> (r: Option<Vec<u8>>)
    requires
        data@.len() <= 0x7fff_ffff,
{
    let mut out = vec![0u8; key.size() as usize];
    match key.private_decrypt(data.as_slice(), &mut out, openssl::rsa::Padding::PKCS1) {
        Ok(n) => {
            out.truncate(n);
            Some(out)
        },
        Err(_) => None,
    }
}

/// Relies on `RsaRef::public_encrypt` with PKCS#1 v1.5 padding, sized
/// and bounded as for decryption.
#[verifier::external_body]
pub(crate) fn rsa_public_encrypt_raw(
    key: &openssl::rsa::Rsa<openssl::pkey::Private>,
    data: &Vec<u8>,
) -> (r: Option<Vec<u8>>)
    requires
        data@.len() <= 0x7fff_ffff,
{
    let mut out = vec![0u8; key.size() as usize];
    match key.public_encrypt(data.as_slice(), &mut out, openssl::rsa::Padding::PKCS1) {
        Ok(n) => {
            out.truncate(n);
            Some(out)
        },
        Err(_) => None,
    }
}

/// Relies on `Crypter::new` with AES-128-CFB8: a stream cipher keyed
/// and initialized with the same 16 bytes; a wrong-sized key is the
/// provider's error, not a panic, since the IV is always supplied.
#[verifier::external_body]
pub(crate) fn cipher_new(key: &Vec<u8>, encrypt: bool) -> (r: Option<openssl::symm::Crypter>) {
    let mode = if encrypt {
        openssl::symm::Mode::Encrypt
    } else {
        openssl::symm::Mode::Decrypt
    };
    match openssl::symm::Crypter::new(
        openssl::symm::Cipher::aes_128_cfb8(),
        mode,
        key.as_slice(),
        Some(key.as_slice()),
    ) {
        Ok(c) => Some(c),
        Err(_) => None,
    }
}

/// Relies on `Crypter::update`: feeds bytes through the stream cipher.
/// The output buffer leaves block-size headroom and stays under
/// `i32::MAX`, so the call cannot panic.
#[verifier::external_body]
pub(crate) fn cipher_update(c: &mut openssl::symm::Crypter, data: &Vec<u8>) -> (r: Option<
    Vec<u8>,
>)
    requires
        data@.len() + 16 <= 0x7fff_ffff,
{
    let mut out = vec![0u8; data.len() + 16];
    match c.update(data.as_slice(), &mut out) {
        Ok(n) => {
            out.truncate(n);
            Some(out)
        },
        Err(_) => None,
    }
}

/// Relies on `rand::fill` over the thread generator: four bytes of
/// fresh randomness; nothing can be promised of their values.
#[verifier::external_body]
pub(crate) fn random_challenge() -> (r: Vec<u8>)
    ensures
        r@.len() == 4,
{
    let mut buf = [0u8; 4];
    rand::fill(&mut buf[..]);
    buf.to_vec()
}

/// Encrypt with the key's public half; the result of a PKCS#1
/// encryption under a 1024-bit modulus is one 128-byte block.
pub fn rsa_encrypt(
    key: &openssl::rsa::Rsa<openssl::pkey::Private>,
    data: &Vec<u8>,
) -> (r: Result<Vec<u8>, EngineError>)
    ensures
        r matches Ok(v) ==> v@.len() == 128,
        r matches Err(e) ==> e == EngineError::DecryptFailed,
        data@.len() > 0x7fff_ffff ==> r is Err,
{
    if data.len() > 0x7fff_ffff {
        return Err(EngineError::DecryptFailed);
    }
    match rsa_public_encrypt_raw(key, data) {
        Some(v) => {
            if v.len() == 128 {
                Ok(v)
            } else {
                Err(EngineError::DecryptFailed)
            }
        },
        None => Err(EngineError::DecryptFailed),
    }
}

/// Decrypt with the private key; anything the provider rejects, or a
/// result beyond the 128-byte modulus, is a decryption failure.
pub fn rsa_decrypt(
    key: &openssl::rsa::Rsa<openssl::pkey::Private>,
    data: &Vec<u8>,
) -> (r: Result<Vec<u8>, EngineError>)
    ensures
        r matches Ok(v) ==> v@.len() <= 128,
        r matches Err(e) ==> e == EngineError::DecryptFailed,
        data@.len() > 0x7fff_ffff ==> r is Err,
{
    if data.len() > 0x7fff_ffff {
        return Err(EngineError::DecryptFailed);
    }
    match rsa_private_decrypt_raw(key, data) {
        Some(v) => {
            if v.len() <= 128 {
                Ok(v)
            } else {
                Err(EngineError::DecryptFailed)
            }
        },
        None => Err(EngineError::DecryptFailed),
    }
}

} // verus!
