//! Calls into randomness, the clock, base64 and AES-GCM. Each function here
//! is trusted: its contract restates what the called library documents.
use vstd::prelude::*;
use crate::state::UtcInstant;
use aes_gcm::aead::{Aead, KeyInit};
use base64::Engine;
use rand::Rng;

verus! {

#[verifier::external_type_specification]
#[verifier::external_body]
pub struct ExDecodeError(base64::DecodeError);

#[verifier::external_type_specification]
#[verifier::external_body]
pub struct ExAeadError(aes_gcm::Error);

#[verifier::external_type_specification]
#[verifier::external_body]
pub struct ExFromUtf8Error(std::string::FromUtf8Error);

/// Standard-alphabet, padded base64 text of some bytes.
pub uninterp spec fn std_b64(bytes: Seq<u8>) -> Seq<char>;

/// Bytes that standard, padded base64 text decodes to, if it is well formed.
pub uninterp spec fn std_b64_decoded(text: Seq<char>) -> Option<Seq<u8>>;

/// URL-safe, padded base64 text of some bytes.
pub uninterp spec fn url_b64(bytes: Seq<u8>) -> Seq<char>;

/// Bytes that URL-safe, padded base64 text decodes to, if it is well formed.
pub uninterp spec fn url_b64_decoded(text: Seq<char>) -> Option<Seq<u8>>;

/// AES-256-GCM ciphertext (with its tag) of `plain` under `key` and `nonce`.
pub uninterp spec fn aes_gcm_sealed(key: Seq<u8>, nonce: Seq<u8>, plain: Seq<u8>) -> Seq<u8>;

/// Plaintext of an AES-256-GCM ciphertext, if its tag authenticates.
pub uninterp spec fn aes_gcm_opened(key: Seq<u8>, nonce: Seq<u8>, sealed: Seq<u8>) -> Option<
    Seq<u8>,
>;

/// Largest plaintext AES-GCM accepts, in bytes.
pub const AES_GCM_MAX_PLAIN: u64 = 0x10_0000_0000;

/// Relies on rand's `Rng::fill` over `thread_rng()`: 32 random bytes.
#[verifier::external_body]
pub(crate) fn random_challenge_bytes() -> (r: [u8; 32]) {
    let mut bytes = [0u8; 32];
    rand::thread_rng().fill(&mut bytes);
    bytes
}

/// Relies on rand's `Rng::gen` over `thread_rng()`: 12 random bytes.
#[verifier::external_body]
pub(crate) fn random_aead_nonce() -> (r: [u8; 12]) {
    rand::thread_rng().gen::<[u8; 12]>()
}

/// Relies on chrono's `Utc::now`: the current instant, split into seconds
/// and nanoseconds by `timestamp` and `timestamp_subsec_nanos`.
#[verifier::external_body]
pub(crate) fn utc_now() -> (r: UtcInstant) {
    let now = chrono::Utc::now();
    UtcInstant { secs: now.timestamp(), nanos: now.timestamp_subsec_nanos() }
}

/// Relies on `base64::encode`: standard padded base64 of the bytes.
#[verifier::external_body]
#[allow(deprecated)]
pub(crate) fn std_b64_encode(bytes: &[u8; 32]) -> (r: String)
    ensures
        r@ == std_b64(bytes@),
{
    base64::encode(bytes)
}

/// Relies on `base64::decode`: the bytes of well-formed standard base64,
/// an error otherwise.
#[verifier::external_body]
#[allow(deprecated)]
pub(crate) fn std_b64_decode(text: &str) -> (r: Result<Vec<u8>, base64::DecodeError>)
    ensures
        match r {
            Ok(v) => std_b64_decoded(text@) == Some(v@),
            Err(_) => std_b64_decoded(text@) is None,
        },
{
    base64::decode(text)
}

/// Relies on `URL_SAFE.encode` of base64: URL-safe padded base64 of the
/// bytes, which `URL_SAFE.decode` turns back into the same bytes.
#[verifier::external_body]
pub(crate) fn url_b64_encode(bytes: &Vec<u8>) -> (r: String)
    ensures
        r@ == url_b64(bytes@),
        url_b64_decoded(r@) == Some(bytes@),
{
    base64::engine::general_purpose::URL_SAFE.encode(bytes)
}

/// Relies on `URL_SAFE.decode` of base64: the bytes of well-formed URL-safe
/// base64, an error otherwise.
#[verifier::external_body]
pub(crate) fn url_b64_decode(text: &str) -> (r: Result<Vec<u8>, base64::DecodeError>)
    ensures
        match r {
            Ok(v) => url_b64_decoded(text@) == Some(v@),
            Err(_) => url_b64_decoded(text@) is None,
        },
{
    base64::engine::general_purpose::URL_SAFE.decode(text)
}

/// Relies on `Aead::encrypt` of `Aes256Gcm`: it fails only on a plaintext
/// longer than the AES-GCM limit, and `Aead::decrypt` with the same key and
/// nonce gives the plaintext back.
#[verifier::external_body]
pub(crate) fn aes_gcm_encrypt(key: &[u8; 32], nonce: &[u8; 12], plain: &[u8]) -> (r: Result<
    Vec<u8>,
    aes_gcm::Error,
>)
    ensures
        plain@.len() <= AES_GCM_MAX_PLAIN ==> r is Ok,
        match r {
            Ok(c) => c@ == aes_gcm_sealed(key@, nonce@, plain@) && aes_gcm_opened(
                key@,
                nonce@,
                c@,
            ) == Some(plain@),
            Err(_) => true,
        },
{
    let cipher = aes_gcm::Aes256Gcm::new(&(*key).into());
    cipher.encrypt(aes_gcm::Nonce::from_slice(nonce), plain)
}

/// Relies on `Aead::decrypt` of `Aes256Gcm`: the plaintext when the tag
/// authenticates, an error otherwise. `Nonce::from_slice` needs 12 bytes.
#[verifier::external_body]
pub(crate) fn aes_gcm_decrypt(key: &[u8; 32], nonce: &[u8], sealed: &[u8]) -> (r: Result<
    Vec<u8>,
    aes_gcm::Error,
>)
    requires
        nonce@.len() == 12,
    ensures
        match r {
            Ok(p) => aes_gcm_opened(key@, nonce@, sealed@) == Some(p@),
            Err(_) => aes_gcm_opened(key@, nonce@, sealed@) is None,
        },
{
    let cipher = aes_gcm::Aes256Gcm::new(&(*key).into());
    cipher.decrypt(aes_gcm::Nonce::from_slice(nonce), sealed)
}

/// Relies on `String::from_utf8`: the text when the bytes are valid UTF-8,
/// an error otherwise.
#[verifier::external_body]
pub(crate) fn string_from_utf8(bytes: Vec<u8>) -> (r: Result<String, std::string::FromUtf8Error>)
    ensures
        match r {
            Ok(s) => vstd::utf8::valid_utf8(bytes@) && s@ == vstd::utf8::decode_utf8(bytes@),
            Err(_) => !vstd::utf8::valid_utf8(bytes@),
        },
{
    String::from_utf8(bytes)
}

} // verus!
