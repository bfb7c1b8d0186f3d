//! Key derivation, authenticated decryption and UTF-8, as other crates and the
//! standard library compute them.
use aes_gcm::aead::Aead;
use aes_gcm::KeyInit;
use vstd::prelude::*;

verus! {

/// The bytes that PBKDF2 with HMAC-SHA512 derives: `length` of them, from a
/// password and a salt in `rounds` rounds.
pub uninterp spec fn pbkdf2_sha512(
    password: Seq<u8>,
    salt: Seq<u8>,
    rounds: u32,
    length: nat,
) -> Seq<u8>;

/// `pbkdf2::pbkdf2_hmac` with `sha2::Sha512`: fills the whole of `key` with
/// bytes derived from the other arguments and its length alone. Blocks of 64
/// bytes are numbered by a `u32` that starts at one, which bounds the length.
#[verifier::external_body]
pub(crate) fn pbkdf2_hmac_sha512(password: &[u8], salt: &[u8], rounds: u32, key: &mut Vec<u8>)
    requires
        old(key)@.len() <= 64 * 0xffff_ffff,
    ensures
        final(key)@ == pbkdf2_sha512(password@, salt@, rounds, old(key)@.len()),
        final(key)@.len() == old(key)@.len(),
{
    pbkdf2::pbkdf2_hmac::<sha2::Sha512>(password, salt, rounds, key);
}

/// The plaintext that AES-256-GCM opens from a ciphertext with its tag, under a
/// key, a nonce and associated data, or `None` where the tag does not match.
pub uninterp spec fn aes256_gcm_opened(
    key: Seq<u8>,
    nonce: Seq<u8>,
    ciphertext: Seq<u8>,
    associated: Seq<u8>,
) -> Option<Seq<u8>>;

/// `Aes256Gcm::new_from_slice` and then `Aead::decrypt`. Both lengths are fixed
/// by the cipher: the first call fails only for a key that is not 32 bytes, the
/// nonce must be 12 bytes. Decryption fails for less than a tag of 16 bytes and
/// drops the tag when it succeeds; its error always reads `aead::Error`.
#[verifier::external_body]
pub(crate) fn aes256_gcm_decrypt(
    key: &[u8],
    nonce: &[u8],
    ciphertext: &[u8],
    associated: &[u8],
) -> (r: Result<Vec<u8>, String>)
    requires
        key@.len() == 32,
        nonce@.len() == 12,
    ensures
        match r {
            Ok(v) => {
                &&& aes256_gcm_opened(key@, nonce@, ciphertext@, associated@) == Some(v@)
                &&& v@.len() + 16 == ciphertext@.len()
            },
            Err(e) => {
                &&& aes256_gcm_opened(key@, nonce@, ciphertext@, associated@) is None
                &&& e@ == "aead::Error"@
            },
        },
{
    let cipher = aes_gcm::Aes256Gcm::new_from_slice(key).map_err(|e| e.to_string())?;
    let payload = aes_gcm::aead::Payload { msg: ciphertext, aad: associated };
    cipher.decrypt(aes_gcm::Nonce::from_slice(nonce), payload).map_err(|e| e.to_string())
}

/// How the standard library describes why bytes are not UTF-8.
pub uninterp spec fn utf8_error_text(bytes: Seq<u8>) -> Seq<char>;

/// `String::from_utf8`: the text that the bytes encode. It fails exactly for
/// bytes that are not UTF-8, with an error whose text depends on the bytes.
#[verifier::external_body]
pub(crate) fn string_from_utf8(bytes: Vec<u8>) -> (r: Result<String, String>)
    ensures
        match r {
            Ok(s) => vstd::utf8::valid_utf8(bytes@) && s@ == vstd::utf8::decode_utf8(bytes@),
            Err(e) => !vstd::utf8::valid_utf8(bytes@) && e@ == utf8_error_text(bytes@),
        },
{
    String::from_utf8(bytes).map_err(|e| e.to_string())
}

} // verus!
