use md5::Md5;
use sha1::Sha1;
use sha2::{Digest, Sha256};
use tapo_proto::http::RawResponse;
use tapo_proto::klap::{
    auth_hash_candidates, handshake2_payload, request_path, resolve_auth, KlapClient, KlapSession, Scheme,
};
use tapo_proto::TapoError;

fn sha256(data: &[u8]) -> Vec<u8> {
    Sha256::digest(data).to_vec()
}

fn cat(parts: &[&[u8]]) -> Vec<u8> {
    parts.concat()
}

#[test]
fn candidates_are_fourteen_in_documented_order() {
    let c = auth_hash_candidates("User", "pass");
    assert_eq!(c.len(), 14);
    let u = b"User".as_slice();
    let p = b"pass".as_slice();
    assert_eq!(c[0].0, "v2 sha256(sha256(u)+sha256(p))");
    assert_eq!(c[0].1, sha256(&cat(&[&sha256(u), &sha256(p)])));
    let s1u = Sha1::digest(u).to_vec();
    let s1p = Sha1::digest(p).to_vec();
    assert_eq!(c[1].1, sha256(&cat(&[&s1u, &s1p])));
    let m5u = Md5::digest(u).to_vec();
    let m5p = Md5::digest(p).to_vec();
    assert_eq!(c[2].1, sha256(&cat(&[&m5u, &m5p])));
    assert_eq!(c[3].1, sha256(&cat(&[u, p])));
    assert_eq!(c[4].1, Md5::digest(cat(&[&m5u, &m5p])).to_vec());
    assert_eq!(c[5].1, Sha1::digest(cat(&[&s1u, &s1p])).to_vec());
    // The second family is built from the lower-cased username.
    let lu = b"user".as_slice();
    assert_eq!(c[6].1, sha256(&cat(&[&sha256(lu), &sha256(p)])));
    assert_ne!(c[6].1, c[0].1);
    assert_eq!(c[12].0, "blank v2");
    assert_eq!(c[12].1, sha256(&cat(&[&sha256(b""), &sha256(b"")])));
    assert_eq!(c[13].0, "kasa-setup v2");
    assert_eq!(
        c[13].1,
        sha256(&cat(&[&sha256(b"kasa@tp-link.net"), &sha256(b"kasaSetup")]))
    );
}

fn firmware_auth_hash(u: &str, p: &str) -> Vec<u8> {
    let s1u = Sha1::digest(u.as_bytes()).to_vec();
    let s1p = Sha1::digest(p.as_bytes()).to_vec();
    sha256(&cat(&[&s1u, &s1p]))
}

#[test]
fn resolve_auth_picks_the_matching_scheme() {
    let local = [5u8; 16];
    let remote = [6u8; 16];
    let ah = firmware_auth_hash("a@b.com", "pw");
    let server = sha256(&cat(&[&local, &remote, &ah]));
    let (scheme, got, name) = resolve_auth("a@b.com", "pw", &local, &remote, &server).unwrap();
    assert_eq!(scheme, Scheme::V2);
    assert_eq!(got, ah);
    assert_eq!(name, "v2 sha256(sha1(u)+sha1(p))");
    // A KLAP v1 server hash (local || auth_hash) resolves under V1.
    let v1_server = sha256(&cat(&[&local, &ah]));
    let (scheme, got, _) = resolve_auth("a@b.com", "pw", &local, &remote, &v1_server).unwrap();
    assert_eq!(scheme, Scheme::V1);
    assert_eq!(got, ah);
    // Nothing is guessed when no candidate reproduces the hash.
    assert!(resolve_auth("a@b.com", "wrong", &local, &remote, &server).is_none());
}

#[test]
fn handshake2_payload_vectors() {
    let l = [1u8; 16];
    let r = [2u8; 16];
    let a = [3u8; 32];
    assert_eq!(handshake2_payload(Scheme::V2, &l, &r, &a).to_vec(), sha256(&cat(&[&r, &l, &a])));
    assert_eq!(handshake2_payload(Scheme::V1, &l, &r, &a).to_vec(), sha256(&cat(&[&r, &a])));
}

fn response(status: u16, cookie: Option<&str>, body: Vec<u8>) -> RawResponse {
    RawResponse { status, set_cookie: cookie.map(|c| c.to_string()), body }
}

#[test]
fn handshake1_errors() {
    let seed = [0u8; 16];
    match KlapClient::handshake1(&seed, response(403, None, vec![]), "u", "p") {
        Err(TapoError::Handshake1Status(403)) => {}
        other => panic!("unexpected {:?}", other.err()),
    }
    match KlapClient::handshake1(&seed, response(200, None, vec![0; 48]), "u", "p") {
        Err(TapoError::MissingSessionCookie) => {}
        other => panic!("unexpected {:?}", other.err()),
    }
    match KlapClient::handshake1(&seed, response(200, Some("TP_SESSIONID=1"), vec![0; 47]), "u", "p") {
        Err(TapoError::Handshake1Length(47)) => {}
        other => panic!("unexpected {:?}", other.err()),
    }
    match KlapClient::handshake1(&seed, response(200, Some("TP_SESSIONID=1"), vec![0; 48]), "u", "p") {
        Err(TapoError::AuthMismatch) => {}
        other => panic!("unexpected {:?}", other.err()),
    }
}

#[test]
fn full_klap_exchange_with_a_simulated_device() {
    let local = [11u8; 16];
    let remote = [22u8; 16];
    let ah = firmware_auth_hash("me@x.org", "secret");
    let server = sha256(&cat(&[&local, &remote, &ah]));
    let mut body = remote.to_vec();
    body.extend_from_slice(&server);
    let hs1 = KlapClient::handshake1(&local, response(200, Some("TP_SESSIONID=XYZ"), body), "me@x.org", "secret")
        .unwrap();
    assert_eq!(hs1.cookie, "TP_SESSIONID=XYZ");
    assert_eq!(hs1.auth_hash, ah);
    assert_eq!(hs1.payload.to_vec(), sha256(&cat(&[&remote, &local, &ah])));
    match KlapClient::handshake2("10.0.0.2", &local, KlapClient::handshake1(&local, response(200, Some("TP_SESSIONID=XYZ"), [remote.to_vec(), server.clone()].concat()), "me@x.org", "secret").unwrap(), 500) {
        Err(TapoError::Handshake2Status(500)) => {}
        other => panic!("unexpected {:?}", other.err()),
    }
    let mut client = KlapClient::handshake2("10.0.0.2", &local, hs1, 200).unwrap();
    assert_eq!(client.host(), "10.0.0.2");
    assert_eq!(client.cookie(), "TP_SESSIONID=XYZ");
    let hex: String = ah.iter().map(|b| format!("{b:02x}")).collect();
    assert_eq!(client.auth_hash_hex(), hex);

    // The device derives the same session from the same seeds.
    let mut device = KlapSession::derive(&local, &remote, &ah);
    let request = br#"{"method":"get_device_info"}"#;
    let (payload, seq) = client.begin_request(request);
    assert_eq!(device.decrypt(&payload, seq).unwrap(), request);
    let reply = br#"{"error_code":0}"#;
    let (reply_payload, device_seq) = device.encrypt(reply);
    assert_eq!(device_seq, seq);
    assert_eq!(client.finish_request(200, &reply_payload, seq).unwrap(), reply);
    match client.finish_request(404, &reply_payload, seq) {
        Err(TapoError::RequestStatus(404)) => {}
        other => panic!("unexpected {:?}", other.err()),
    }
}

#[test]
fn session_derivation_vectors() {
    let l = [1u8; 16];
    let r = [2u8; 16];
    let a = [3u8; 32];
    let iv_full = sha256(&cat(&[b"iv", &l, &r, &a]));
    let s = KlapSession::derive(&l, &r, &a);
    let start = i32::from_be_bytes([iv_full[28], iv_full[29], iv_full[30], iv_full[31]]);
    assert_eq!(s.seq(), start);
}

#[test]
fn encrypted_payload_layout() {
    let l = [4u8; 16];
    let r = [5u8; 16];
    let a = [6u8; 32];
    let mut s = KlapSession::derive(&l, &r, &a);
    let (payload, seq) = s.encrypt(b"0123456789abcdef");
    // 16 bytes of plaintext pad to 32 bytes of ciphertext after the signature.
    assert_eq!(payload.len(), 32 + 32);
    let sig_full = sha256(&cat(&[b"ldk", &l, &r, &a]));
    let ct = &payload[32..];
    let want = sha256(&cat(&[&sig_full[..28], &seq.to_be_bytes(), ct]));
    assert_eq!(&payload[..32], want.as_slice());
    // The ciphertext is not the plaintext.
    assert_ne!(&ct[..16], b"0123456789abcdef");
}

#[test]
fn decrypt_rejects_short_and_corrupt_payloads() {
    let s = KlapSession::derive(&[1u8; 16], &[2u8; 16], &[3u8; 32]);
    match s.decrypt(&[0u8; 31], 1) {
        Err(TapoError::ResponseTooShort(31)) => {}
        other => panic!("unexpected {:?}", other.err()),
    }
    match s.decrypt(&[0u8; 32 + 15], 1) {
        Err(TapoError::InvalidPayload) => {}
        other => panic!("unexpected {:?}", other.err()),
    }
}

#[test]
fn seq_advances_by_one_per_request() {
    let mut s = KlapSession::derive(&[0u8; 16], &[0u8; 16], &[0u8; 32]);
    let a = s.seq();
    let (_, q1) = s.encrypt(b"");
    assert_eq!(q1, a.wrapping_add(1));
    assert_eq!(s.seq(), q1);
}

#[test]
fn request_paths_carry_the_signed_sequence_number() {
    assert_eq!(request_path(0), "/app/request?seq=0");
    assert_eq!(request_path(1234), "/app/request?seq=1234");
    assert_eq!(request_path(-7), "/app/request?seq=-7");
    assert_eq!(request_path(i32::MIN), "/app/request?seq=-2147483648");
    assert_eq!(request_path(i32::MAX), "/app/request?seq=2147483647");
}

#[test]
fn candidate_hash_lengths() {
    let c = auth_hash_candidates("User", "pw");
    for (i, (_, h)) in c.iter().enumerate() {
        let want = match i {
            4 | 10 => 16,
            5 | 11 => 20,
            _ => 32,
        };
        assert_eq!(h.len(), want, "candidate {i}");
    }
}

#[test]
fn server_hash_of_wrong_length_never_matches() {
    let local = [1u8; 16];
    let remote = [2u8; 16];
    assert!(resolve_auth("u", "p", &local, &remote, &[0u8; 31]).is_none());
    assert!(resolve_auth("u", "p", &local, &remote, &[]).is_none());
    let md5_len = auth_hash_candidates("u", "p")[4].1.clone();
    assert!(resolve_auth("u", "p", &local, &remote, &md5_len).is_none());
}
