use vstd::prelude::*;
use vstd::utf8::{decode_utf8, encode_utf8, valid_utf8};
use crate::platform::{
    aes_gcm_decrypt, aes_gcm_encrypt, aes_gcm_opened, aes_gcm_sealed, random_aead_nonce,
    string_from_utf8, url_b64, url_b64_decode, url_b64_decoded, url_b64_encode, AES_GCM_MAX_PLAIN,
};

verus! {

/// Bytes of the random value that leads every room-key token.
pub const TOKEN_NONCE_LEN: usize = 12;

/// How a key-exchange request failed.
#[derive(Clone, Copy, Debug, PartialEq, Eq, Structural)]
pub enum StatusCode {
    /// The request was missing its input or the token was malformed.
    BadRequest,
    /// Sealing or opening failed on the server's side.
    InternalServerError,
}

impl StatusCode {
    /// The HTTP status number of this failure.
    pub fn as_u16(&self) -> (r: u16)
        ensures
            r == (match self {
                StatusCode::BadRequest => 400u16,
                StatusCode::InternalServerError => 500u16,
            }),
    {
        match self {
            StatusCode::BadRequest => 400,
            StatusCode::InternalServerError => 500,
        }
    }
}

/// Body of a successful "encrypt-key" request.
#[derive(Debug)]
pub struct EncryptResponse {
    pub token: String,
}

/// Query of a "decrypt-key" request.
#[derive(Debug)]
pub struct DecryptQuery {
    pub token: String,
}

/// Body of a successful "decrypt-key" request.
#[derive(Debug)]
pub struct DecryptResponse {
    pub key: String,
}

/// The token that seals `room_key` under `server_key` with the random value
/// `nonce`: the nonce, then the AES-GCM ciphertext of the key's UTF-8 bytes,
/// in URL-safe base64.
pub open spec fn sealed_token(server_key: Seq<u8>, nonce: Seq<u8>, room_key: Seq<char>) -> Seq<
    char,
> {
    url_b64(nonce + aes_gcm_sealed(server_key, nonce, encode_utf8(room_key)))
}

/// What opening `token` under `server_key` yields: the room key, or the
/// failure for a malformed token (not base64, or shorter than the nonce)
/// and for one that does not authenticate or is not UTF-8 text.
pub open spec fn opened_key(server_key: Seq<u8>, token: Seq<char>) -> Result<
    Seq<char>,
    StatusCode,
> {
    match url_b64_decoded(token) {
        None => Err(StatusCode::BadRequest),
        Some(bytes) => if bytes.len() < TOKEN_NONCE_LEN {
            Err(StatusCode::BadRequest)
        } else {
            match aes_gcm_opened(
                server_key,
                bytes.subrange(0, TOKEN_NONCE_LEN as int),
                bytes.subrange(TOKEN_NONCE_LEN as int, bytes.len() as int),
            ) {
                None => Err(StatusCode::InternalServerError),
                Some(plain) => if valid_utf8(plain) {
                    Ok(decode_utf8(plain))
                } else {
                    Err(StatusCode::InternalServerError)
                },
            }
        },
    }
}

/// Seals `room_key` with the given random value. It fails only when the
/// key is longer than AES-GCM accepts; the token it gives opens to the key.
pub fn seal_room_key_with_nonce(server_key: &[u8; 32], nonce: &[u8; 12], room_key: &str) -> (r:
    Result<String, StatusCode>)
    ensures
        match r {
            Ok(t) => t@ == sealed_token(server_key@, nonce@, room_key@) && opened_key(
                server_key@,
                t@,
            ) == Ok::<Seq<char>, StatusCode>(room_key@),
            Err(e) => e == StatusCode::InternalServerError && encode_utf8(room_key@).len()
                > AES_GCM_MAX_PLAIN,
        },
{
    let plain = room_key.as_bytes();
    match aes_gcm_encrypt(server_key, nonce, plain) {
        Ok(mut sealed) => {
            let ghost sealed_bytes = sealed@;
            let mut combined: Vec<u8> = Vec::new();
            let mut i: usize = 0;
            while i < TOKEN_NONCE_LEN
                invariant
                    i <= TOKEN_NONCE_LEN,
                    combined@ == nonce@.subrange(0, i as int),
                decreases TOKEN_NONCE_LEN - i,
            {
                combined.push(nonce[i]);
                i = i + 1;
                assert(combined@ =~= nonce@.subrange(0, i as int));
            }
            assert(nonce@.subrange(0, 12) =~= nonce@);
            combined.append(&mut sealed);
            let token = url_b64_encode(&combined);
            proof {
                let b = combined@;
                assert(b.subrange(0, 12) =~= nonce@);
                assert(b.subrange(12, b.len() as int) =~= sealed_bytes);
                vstd::utf8::encode_utf8_valid_utf8(room_key@);
                vstd::utf8::encode_utf8_decode_utf8(room_key@);
            }
            Ok(token)
        },
        Err(_) => Err(StatusCode::InternalServerError),
    }
}

/// Seals `room_key` with a fresh random value.
pub fn seal_room_key(server_key: &[u8; 32], room_key: &str) -> (r: Result<String, StatusCode>)
    ensures
        match r {
            Ok(t) => (exists|nonce: Seq<u8>|
                nonce.len() == TOKEN_NONCE_LEN && t@ == #[trigger] sealed_token(
                    server_key@,
                    nonce,
                    room_key@,
                )) && opened_key(server_key@, t@) == Ok::<Seq<char>, StatusCode>(room_key@),
            Err(e) => e == StatusCode::InternalServerError && encode_utf8(room_key@).len()
                > AES_GCM_MAX_PLAIN,
        },
{
    let nonce = random_aead_nonce();
    seal_room_key_with_nonce(server_key, &nonce, room_key)
}

/// Opens a token made by sealing, giving back the room key.
pub fn open_room_key(server_key: &[u8; 32], token: &str) -> (r: Result<String, StatusCode>)
    ensures
        match r {
            Ok(s) => opened_key(server_key@, token@) == Ok::<Seq<char>, StatusCode>(s@),
            Err(e) => opened_key(server_key@, token@) == Err::<Seq<char>, StatusCode>(e),
        },
{
    let combined = match url_b64_decode(token) {
        Ok(bytes) => bytes,
        Err(_) => {
            return Err(StatusCode::BadRequest);
        },
    };
    if combined.len() < TOKEN_NONCE_LEN {
        return Err(StatusCode::BadRequest);
    }
    let (nonce, sealed) = combined.as_slice().split_at(TOKEN_NONCE_LEN);
    let plain = match aes_gcm_decrypt(server_key, nonce, sealed) {
        Ok(p) => p,
        Err(_) => {
            return Err(StatusCode::InternalServerError);
        },
    };
    match string_from_utf8(plain) {
        Ok(s) => Ok(s),
        Err(_) => Err(StatusCode::InternalServerError),
    }
}

/// Handles "encrypt-key": seals the `key` parameter, which must be present.
pub fn encrypt_room_key(server_key: &[u8; 32], key: Option<String>) -> (r: Result<
    EncryptResponse,
    StatusCode,
>)
    ensures
        key is None ==> r == Err::<EncryptResponse, StatusCode>(StatusCode::BadRequest),
        match key {
            None => true,
            Some(k) => match r {
                Ok(resp) => (exists|nonce: Seq<u8>|
                    nonce.len() == TOKEN_NONCE_LEN && resp.token@ == #[trigger] sealed_token(
                        server_key@,
                        nonce,
                        k@,
                    )) && opened_key(server_key@, resp.token@) == Ok::<Seq<char>, StatusCode>(
                    k@,
                ),
                Err(e) => e == StatusCode::InternalServerError && encode_utf8(k@).len()
                    > AES_GCM_MAX_PLAIN,
            },
        },
{
    match key {
        None => Err(StatusCode::BadRequest),
        Some(k) => match seal_room_key(server_key, k.as_str()) {
            Ok(token) => Ok(EncryptResponse { token }),
            Err(e) => Err(e),
        },
    }
}

/// Handles "decrypt-key": opens the token of the query.
pub fn decrypt_room_key(server_key: &[u8; 32], params: DecryptQuery) -> (r: Result<
    DecryptResponse,
    StatusCode,
>)
    ensures
        match r {
            Ok(resp) => opened_key(server_key@, params.token@) == Ok::<Seq<char>, StatusCode>(
                resp.key@,
            ),
            Err(e) => opened_key(server_key@, params.token@) == Err::<Seq<char>, StatusCode>(e),
        },
{
    match open_room_key(server_key, params.token.as_str()) {
        Ok(key) => Ok(DecryptResponse { key }),
        Err(e) => Err(e),
    }
}

} // verus!
