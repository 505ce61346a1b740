use aes_gcm::aead::{Aead, KeyInit};
use base64::Engine;
use room_relay::routes::{
    decrypt_room_key, encrypt_room_key, open_room_key, seal_room_key, seal_room_key_with_nonce,
    DecryptQuery, StatusCode,
};

const SERVER_KEY: [u8; 32] = *b"0123456789abcdef0123456789abcdef";

fn url_b64(bytes: &[u8]) -> String {
    base64::engine::general_purpose::URL_SAFE.encode(bytes)
}

#[test]
fn seal_with_nonce_matches_layout() {
    let nonce = [9u8; 12];
    let token = seal_room_key_with_nonce(&SERVER_KEY, &nonce, "room-key").unwrap();
    let cipher = aes_gcm::Aes256Gcm::new(&SERVER_KEY.into());
    let sealed = cipher.encrypt(aes_gcm::Nonce::from_slice(&nonce), b"room-key".as_ref()).unwrap();
    let mut combined = nonce.to_vec();
    combined.extend(sealed);
    assert_eq!(token, url_b64(&combined));
    assert_ne!(token, "room-key");
    assert_eq!(open_room_key(&SERVER_KEY, &token).unwrap(), "room-key");
}

#[test]
fn seal_then_open_round_trip() {
    for key in ["", "k", "secret", "a longer key with spaces", "ключ-🔑"] {
        let token = seal_room_key(&SERVER_KEY, key).unwrap();
        assert_eq!(open_room_key(&SERVER_KEY, &token).unwrap(), key);
    }
}

#[test]
fn two_seals_differ() {
    let a = seal_room_key(&SERVER_KEY, "secret").unwrap();
    let b = seal_room_key(&SERVER_KEY, "secret").unwrap();
    assert_ne!(a, b);
}

#[test]
fn encrypt_then_decrypt_key() {
    let resp = encrypt_room_key(&SERVER_KEY, Some("secret".to_string())).unwrap();
    let out = decrypt_room_key(&SERVER_KEY, DecryptQuery { token: resp.token }).unwrap();
    assert_eq!(out.key, "secret");
}

#[test]
fn encrypt_without_key_is_bad_request() {
    let err = encrypt_room_key(&SERVER_KEY, None).unwrap_err();
    assert_eq!(err, StatusCode::BadRequest);
    assert_eq!(err.as_u16(), 400);
}

#[test]
fn decrypt_garbage_is_bad_request() {
    let err = decrypt_room_key(&SERVER_KEY, DecryptQuery { token: "garbage".to_string() })
        .unwrap_err();
    assert_eq!(err, StatusCode::BadRequest);
    assert_eq!(err.as_u16(), 400);
}

#[test]
fn decrypt_short_token_is_bad_request() {
    let token = url_b64(&[1u8; 11]);
    assert_eq!(open_room_key(&SERVER_KEY, &token).unwrap_err(), StatusCode::BadRequest);
}

#[test]
fn decrypt_tampered_token_is_server_error() {
    let token = seal_room_key_with_nonce(&SERVER_KEY, &[3u8; 12], "secret").unwrap();
    let mut bytes = base64::engine::general_purpose::URL_SAFE.decode(&token).unwrap();
    let last = bytes.len() - 1;
    bytes[last] ^= 1;
    let err = open_room_key(&SERVER_KEY, &url_b64(&bytes)).unwrap_err();
    assert_eq!(err, StatusCode::InternalServerError);
    assert_eq!(err.as_u16(), 500);
}

#[test]
fn decrypt_with_other_key_is_server_error() {
    let token = seal_room_key(&SERVER_KEY, "secret").unwrap();
    let other = [5u8; 32];
    assert_eq!(open_room_key(&other, &token).unwrap_err(), StatusCode::InternalServerError);
}

#[test]
fn decrypt_non_text_plaintext_is_server_error() {
    let nonce = [4u8; 12];
    let cipher = aes_gcm::Aes256Gcm::new(&SERVER_KEY.into());
    let sealed = cipher.encrypt(aes_gcm::Nonce::from_slice(&nonce), [0xffu8, 0xfe].as_ref()).unwrap();
    let mut combined = nonce.to_vec();
    combined.extend(sealed);
    let err = open_room_key(&SERVER_KEY, &url_b64(&combined)).unwrap_err();
    assert_eq!(err, StatusCode::InternalServerError);
}
