use aes::Aes128;
use base64::Engine;
use cbc::cipher::block_padding::Pkcs7;
use cbc::cipher::{BlockDecryptMut, BlockEncryptMut, KeyIvInit};
use tapo_proto::passthrough::{check_error, sha1_hex, LoginStep, LoginVariant, PassthroughClient, Reply};
use rsa::pkcs1::EncodeRsaPrivateKey;
use rsa::{Pkcs1v15Encrypt, RsaPrivateKey, RsaPublicKey};
use tapo_proto::TapoError;

const B64: base64::engine::general_purpose::GeneralPurpose =
    base64::engine::general_purpose::STANDARD;

fn secret() -> Vec<u8> {
    (0u8..32).collect()
}

fn device_encrypt(pt: &[u8]) -> String {
    let s = secret();
    let key: [u8; 16] = s[..16].try_into().unwrap();
    let iv: [u8; 16] = s[16..32].try_into().unwrap();
    let ct = cbc::Encryptor::<Aes128>::new(&key.into(), &iv.into()).encrypt_padded_vec_mut::<Pkcs7>(pt);
    B64.encode(ct)
}

fn device_decrypt(b64: &str) -> Vec<u8> {
    let s = secret();
    let key: [u8; 16] = s[..16].try_into().unwrap();
    let iv: [u8; 16] = s[16..32].try_into().unwrap();
    let ct = B64.decode(b64).unwrap();
    cbc::Decryptor::<Aes128>::new(&key.into(), &iv.into()).decrypt_padded_vec_mut::<Pkcs7>(&ct).unwrap()
}

fn client() -> PassthroughClient {
    PassthroughClient::from_secret("192.168.1.226", "TP_SESSIONID=C".to_string(), Some(secret())).unwrap()
}

#[test]
fn secure_envelope_roundtrip() {
    let mut c = client();
    assert_eq!(c.host(), "192.168.1.226");
    assert_eq!(c.cookie(), "TP_SESSIONID=C");
    let inner = br#"{"method":"get_device_info"}"#;
    let (request, path) = c.begin_secure(inner);
    assert_eq!(path, "/app");
    assert_eq!(device_decrypt(&request), inner);
    let reply = Reply { error_code: Some(0), value: Some(device_encrypt(b"{\"result\":{}}")) };
    assert_eq!(c.finish_secure(200, Some(reply)).unwrap(), b"{\"result\":{}}");
    c.set_token("ABC".to_string());
    let (_, path) = c.begin_secure(b"x");
    assert_eq!(path, "/app?token=ABC");
}

#[test]
fn secure_envelope_errors() {
    let c = client();
    match c.finish_secure(500, None) {
        Err(TapoError::RequestStatus(500)) => {}
        other => panic!("unexpected {:?}", other.err()),
    }
    match c.finish_secure(200, None) {
        Err(TapoError::InvalidPayload) => {}
        other => panic!("unexpected {:?}", other.err()),
    }
    match c.finish_secure(200, Some(Reply { error_code: Some(-1010), value: None })) {
        Err(TapoError::DeviceError(-1010)) => {}
        other => panic!("unexpected {:?}", other.err()),
    }
    match c.finish_secure(200, Some(Reply { error_code: None, value: None })) {
        Err(TapoError::InvalidPayload) => {}
        other => panic!("unexpected {:?}", other.err()),
    }
    match c.finish_secure(200, Some(Reply { error_code: None, value: Some("%%%".to_string()) })) {
        Err(TapoError::InvalidPayload) => {}
        other => panic!("unexpected {:?}", other.err()),
    }
    // Valid Base64 whose bytes are not a whole number of AES blocks.
    match c.finish_secure(200, Some(Reply { error_code: None, value: Some(B64.encode([1u8; 5])) })) {
        Err(TapoError::InvalidPayload) => {}
        other => panic!("unexpected {:?}", other.err()),
    }
}

#[test]
fn short_secret_is_rejected() {
    match PassthroughClient::from_secret("h", "c".to_string(), Some(vec![0u8; 31])) {
        Err(TapoError::InvalidPayload) => {}
        other => panic!("unexpected {:?}", other.err()),
    }
    match PassthroughClient::from_secret("h", "c".to_string(), None) {
        Err(TapoError::AuthMismatch) => {}
        other => panic!("unexpected {:?}", other.err()),
    }
}

#[test]
fn handshake_key_checks() {
    match PassthroughClient::handshake_key(403, None, None) {
        Err(TapoError::Handshake1Status(403)) => {}
        other => panic!("unexpected {:?}", other.err()),
    }
    match PassthroughClient::handshake_key(200, None, None) {
        Err(TapoError::MissingSessionCookie) => {}
        other => panic!("unexpected {:?}", other.err()),
    }
    match PassthroughClient::handshake_key(200, Some("c".into()), None) {
        Err(TapoError::InvalidPayload) => {}
        other => panic!("unexpected {:?}", other.err()),
    }
    match PassthroughClient::handshake_key(200, Some("c".into()), Some(Reply { error_code: Some(1003), value: None })) {
        Err(TapoError::DeviceError(1003)) => {}
        other => panic!("unexpected {:?}", other.err()),
    }
    let (cookie, key) = PassthroughClient::handshake_key(
        200,
        Some("TP_SESSIONID=K".into()),
        Some(Reply { error_code: Some(0), value: Some(B64.encode(b"encrypted")) }),
    )
    .unwrap();
    assert_eq!(cookie, "TP_SESSIONID=K");
    assert_eq!(key, b"encrypted");
}

#[test]
fn rsa_handshake_hands_over_the_session_key() {
    let mut rng = rand::thread_rng();
    let private_key = RsaPrivateKey::new(&mut rng, 512).unwrap();
    let public_key = RsaPublicKey::from(&private_key);
    let enc = public_key.encrypt(&mut rng, Pkcs1v15Encrypt, &secret()).unwrap();
    let der = private_key.to_pkcs1_der().unwrap();
    let der = der.as_bytes();
    let reply = Reply { error_code: None, value: Some(B64.encode(enc)) };
    let c = PassthroughClient::accept_handshake("h", 200, Some("TP_SESSIONID=R".into()), Some(reply), der)
        .unwrap();
    assert_eq!(c.cookie(), "TP_SESSIONID=R");
    assert_eq!(c.host(), "h");
    let (request, _) = c.begin_secure(b"hello");
    assert_eq!(device_decrypt(&request), b"hello");
    // A key the device did not encrypt for fails the handshake.
    let reply = Reply { error_code: None, value: Some(B64.encode([7u8; 64])) };
    match PassthroughClient::accept_handshake("h", 200, Some("c".into()), Some(reply), der) {
        Err(TapoError::AuthMismatch) => {}
        other => panic!("unexpected {:?}", other.err()),
    }
    // A secret shorter than key + IV is rejected.
    let short = public_key.encrypt(&mut rng, Pkcs1v15Encrypt, &[1u8; 20]).unwrap();
    let reply = Reply { error_code: None, value: Some(B64.encode(short)) };
    match PassthroughClient::accept_handshake("h", 200, Some("c".into()), Some(reply), der) {
        Err(TapoError::InvalidPayload) => {}
        other => panic!("unexpected {:?}", other.err()),
    }
    // A key encoding that does not parse fails as a mismatch.
    let enc = public_key.encrypt(&mut rng, Pkcs1v15Encrypt, &secret()).unwrap();
    let reply = Reply { error_code: None, value: Some(B64.encode(enc)) };
    match PassthroughClient::accept_handshake("h", 200, Some("c".into()), Some(reply), b"not a key") {
        Err(TapoError::AuthMismatch) => {}
        other => panic!("unexpected {:?}", other.err()),
    }
}

#[test]
fn handshake_reply_errors_are_reported() {
    let der = b"unused";
    match PassthroughClient::accept_handshake("h", 500, Some("c".into()), None, der) {
        Err(TapoError::Handshake1Status(500)) => {}
        other => panic!("unexpected {:?}", other.err()),
    }
    match PassthroughClient::accept_handshake("h", 200, None, None, der) {
        Err(TapoError::MissingSessionCookie) => {}
        other => panic!("unexpected {:?}", other.err()),
    }
    let reply = Reply { error_code: Some(1003), value: None };
    match PassthroughClient::accept_handshake("h", 200, Some("TP_SESSIONID=S".into()), Some(reply), der) {
        Err(TapoError::DeviceError(1003)) => {}
        other => panic!("unexpected {:?}", other.err()),
    }
    let reply = Reply { error_code: Some(0), value: None };
    match PassthroughClient::accept_handshake("h", 200, Some("c".into()), Some(reply), der) {
        Err(TapoError::InvalidPayload) => {}
        other => panic!("unexpected {:?}", other.err()),
    }
    let reply = Reply { error_code: None, value: Some("not base64!".into()) };
    match PassthroughClient::accept_handshake("h", 200, Some("c".into()), Some(reply), der) {
        Err(TapoError::InvalidPayload) => {}
        other => panic!("unexpected {:?}", other.err()),
    }
}

#[test]
fn login_steps() {
    match PassthroughClient::login_step(Ok(Some(Reply { error_code: Some(0), value: Some("TOK".into()) }))) {
        LoginStep::Token(t) => assert_eq!(t, "TOK"),
        _ => panic!("expected a token"),
    }
    match PassthroughClient::login_step(Ok(Some(Reply { error_code: Some(-1501), value: None }))) {
        LoginStep::Next(TapoError::DeviceError(-1501)) => {}
        _ => panic!("expected the next variant"),
    }
    match PassthroughClient::login_step(Ok(Some(Reply { error_code: None, value: None }))) {
        LoginStep::Next(TapoError::DeviceError(-1501)) => {}
        _ => panic!("expected the next variant"),
    }
    match PassthroughClient::login_step(Ok(None)) {
        LoginStep::Abort(TapoError::InvalidPayload) => {}
        _ => panic!("expected an abort"),
    }
    match PassthroughClient::login_step(Err(TapoError::RequestStatus(500))) {
        LoginStep::Next(TapoError::RequestStatus(500)) => {}
        _ => panic!("expected the next variant"),
    }
}

#[test]
fn device_error_codes() {
    assert!(check_error(None).is_ok());
    assert!(check_error(Some(0)).is_ok());
    match check_error(Some(-1012)) {
        Err(TapoError::DeviceError(-1012)) => {}
        other => panic!("unexpected {:?}", other.err()),
    }
}

#[test]
fn login_encodings_have_fixed_lengths() {
    assert_eq!(sha1_hex("").len(), 40);
    assert_eq!(sha1_hex("a much longer user name than forty characters, surely").len(), 40);
    let (un, pw) = LoginVariant::V2.encode("a@b.com", "secret");
    assert_eq!(un.len(), 56);
    assert_eq!(pw.len(), 56);
    assert_eq!(B64.decode(&pw).unwrap().len(), 40);
    let (un, pw) = LoginVariant::V1.encode("", "");
    assert_eq!(un.len(), 56);
    assert_eq!(pw, "");
}
