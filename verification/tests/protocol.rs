use base64::Engine;
use sha2::{Digest, Sha256};
use tapo_proto::http::{parse_response, split_host_port};
use tapo_proto::klap::{auth_hash, KlapSession};
use tapo_proto::passthrough::{sha1_hex, LoginVariant};
use tapo_proto::TapoError;

const B64: base64::engine::general_purpose::GeneralPurpose =
    base64::engine::general_purpose::STANDARD;

fn sha256(parts: &[&[u8]]) -> [u8; 32] {
    let mut h = Sha256::new();
    for p in parts {
        h.update(p);
    }
    h.finalize().into()
}

#[test]
fn parses_status_cookie_body() {
    let raw = b"HTTP/1.1 200 OK\r\nServer: SHIP 2.0\r\nSet-Cookie: TP_SESSIONID=ABC;TIMEOUT=86400\r\nContent-Length: 3\r\n\r\nabc";
    let r = parse_response(raw).unwrap();
    assert_eq!(r.status, 200);
    assert_eq!(r.set_cookie.as_deref(), Some("TP_SESSIONID=ABC"));
    assert_eq!(r.body, b"abc");
}

#[test]
fn host_port_split() {
    assert_eq!(split_host_port("1.2.3.4"), ("1.2.3.4".into(), 80));
    assert_eq!(split_host_port("1.2.3.4:8080"), ("1.2.3.4".into(), 8080));
}

#[test]
fn auth_hash_v2_vector() {
    let got = auth_hash("user", "pass");
    let u = sha256(&[b"user"]);
    let p = sha256(&[b"pass"]);
    let want = sha256(&[&u, &p]);
    assert_eq!(got, want);
    let hex: String = got.iter().map(|b| format!("{b:02x}")).collect();
    assert_eq!(hex.len(), 64);
}

#[test]
fn encrypt_decrypt_roundtrip() {
    let mut s = KlapSession::derive(&[1u8; 16], &[2u8; 16], &[3u8; 32]);
    let msg = br#"{"method":"get_device_info"}"#;
    let (payload, seq) = s.encrypt(msg);
    assert!(payload.len() > 32);
    let s2 = KlapSession::derive(&[1u8; 16], &[2u8; 16], &[3u8; 32]);
    let pt = s2.decrypt(&payload, seq).unwrap();
    assert_eq!(pt, msg);
}

#[test]
fn seq_increments_and_is_deterministic_iv() {
    let mut s = KlapSession::derive(&[9u8; 16], &[8u8; 16], &[7u8; 32]);
    let start = s.seq();
    let (_p1, q1) = s.encrypt(b"a");
    let (_p2, q2) = s.encrypt(b"b");
    assert_eq!(q1, start.wrapping_add(1));
    assert_eq!(q2, start.wrapping_add(2));
}

#[test]
fn sha1_hex_known_vector() {
    assert_eq!(sha1_hex("abc"), "a9993e364706816aba3e25717850c26c9cd0d89d");
}

#[test]
fn login_encoding_shapes() {
    let (un, pw) = LoginVariant::V1.encode("a@b.com", "secret");
    assert!(!un.is_empty() && !pw.is_empty());
    assert_eq!(B64.decode(pw).unwrap(), b"secret");
    let (_, pw2) = LoginVariant::V2.encode("a@b.com", "secret");
    assert_eq!(B64.decode(pw2).unwrap().len(), 40);
}

#[test]
fn transient_classification() {
    assert!(TapoError::NotConnected.is_transient());
    assert!(!TapoError::DeviceError(-1501).is_transient());
    assert!(!TapoError::AuthMismatch.is_transient());
}

#[test]
fn error_messages() {
    assert_eq!(
        TapoError::Handshake1Status(403).message(),
        "handshake1 failed: device returned status 403"
    );
    assert_eq!(
        TapoError::Handshake1Length(12).message(),
        "handshake1 failed: unexpected response length 12 (expected 48)"
    );
    assert_eq!(
        TapoError::AuthMismatch.message(),
        "handshake1 auth mismatch: the credentials do not match the ones the bulb was provisioned with (server_hash != local computed hash)"
    );
    assert_eq!(TapoError::DeviceError(-1501).message(), "device returned application error_code -1501");
    assert_eq!(TapoError::DeviceError(1003).message(), "device returned application error_code 1003");
    assert_eq!(
        TapoError::ResponseTooShort(5).message(),
        "response too short to contain signature + ciphertext (5 bytes)"
    );
    assert_eq!(TapoError::InvalidParam("x".to_string()).message(), "invalid parameter: x");
    let json_err = serde_json::from_slice::<serde_json::Value>(b"{").unwrap_err();
    let text = json_err.to_string();
    assert_eq!(
        TapoError::Json(json_err).message(),
        format!("JSON (de)serialization error: {text}")
    );
}
