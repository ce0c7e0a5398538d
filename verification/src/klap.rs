//! TP-Link Tapo's KLAP v2 local protocol: credential hashing, the two-step
//! seed handshake, session key derivation and the signed AES-128-CBC request
//! channel. Every exchange is with the device on the LAN; the I/O itself is
//! performed by the caller, which hands the replies to the steps below.

use vstd::prelude::*;
use vstd::slice::slice_to_vec;
use vstd::string::StringExecFns;
use vstd::utf8::encode_utf8;

use crate::bytes::{be_bytes, be_bytes_spec, bytes_eq, concat2, concat3, concat4, from_be, from_be_spec, push_all};
use crate::crypto::{
    aes128_cbc_decrypt, aes128_cbc_encrypt, md5, sha1, sha256, spec_aes128_cbc_decrypt,
    spec_aes128_cbc_encrypt, spec_md5, spec_sha1, spec_sha256,
};
use crate::error::TapoError;
use crate::http::RawResponse;
use crate::text::{hex, hex_spec, signed_decimal, signed_decimal_spec, spec_to_lowercase, to_lowercase};

verus! {

/// `sha256( sha256(username) || sha256(password) )` over the UTF-8 bytes.
pub open spec fn auth_hash_spec(username: Seq<char>, password: Seq<char>) -> Seq<u8> {
    spec_sha256(spec_sha256(encode_utf8(username)) + spec_sha256(encode_utf8(password)))
}

/// The KLAP v2 `auth_hash = sha256( sha256(username) || sha256(password) )`.
pub fn auth_hash(username: &str, password: &str) -> (r: [u8; 32])
    ensures
        r@ == auth_hash_spec(username@, password@),
{
    let u = sha256(username.as_bytes());
    let p = sha256(password.as_bytes());
    let both = concat2(&u, &p);
    sha256(&both)
}

/// Whether the seed hashes mix in the remote seed (KLAP v2) or not (v1).
#[derive(Debug, Clone, Copy, PartialEq, Eq)]
pub enum Scheme {
    V2,
    V1,
}

/// The `server_hash` a device sends in handshake1 for a given scheme and auth hash.
pub open spec fn handshake1_expected_spec(scheme: Scheme, local: Seq<u8>, remote: Seq<u8>, ah: Seq<u8>) -> Seq<u8> {
    match scheme {
        Scheme::V2 => spec_sha256(local + remote + ah),
        Scheme::V1 => spec_sha256(local + ah),
    }
}

/// The client's handshake2 proof for a given scheme and auth hash.
pub open spec fn handshake2_payload_spec(scheme: Scheme, local: Seq<u8>, remote: Seq<u8>, ah: Seq<u8>) -> Seq<u8> {
    match scheme {
        Scheme::V2 => spec_sha256(remote + local + ah),
        Scheme::V1 => spec_sha256(remote + ah),
    }
}

fn handshake1_expected(scheme: Scheme, local: &[u8], remote: &[u8], ah: &[u8]) -> (r: [u8; 32])
    ensures
        r@ == handshake1_expected_spec(scheme, local@, remote@, ah@),
{
    match scheme {
        Scheme::V2 => sha256(&concat3(local, remote, ah)),
        Scheme::V1 => sha256(&concat2(local, ah)),
    }
}

/// The handshake2 payload that proves knowledge of the auth hash.
pub fn handshake2_payload(scheme: Scheme, local: &[u8], remote: &[u8], ah: &[u8]) -> (r: [u8; 32])
    ensures
        r@ == handshake2_payload_spec(scheme, local@, remote@, ah@),
{
    match scheme {
        Scheme::V2 => sha256(&concat3(remote, local, ah)),
        Scheme::V1 => sha256(&concat2(remote, ah)),
    }
}

/// The six credential-hash constructions seen across firmwares, for one
/// username/password encoding.
pub open spec fn hash_family(u: Seq<u8>, p: Seq<u8>) -> Seq<Seq<u8>> {
    seq![
        spec_sha256(spec_sha256(u) + spec_sha256(p)),
        spec_sha256(spec_sha1(u) + spec_sha1(p)),
        spec_sha256(spec_md5(u) + spec_md5(p)),
        spec_sha256(u + p),
        spec_md5(spec_md5(u) + spec_md5(p)),
        spec_sha1(spec_sha1(u) + spec_sha1(p)),
    ]
}

/// The bytes of `kasa@tp-link.net`, TP-Link's provisioning username.
pub open spec fn kasa_setup_user() -> Seq<u8> {
    seq![107u8, 97, 115, 97, 64, 116, 112, 45, 108, 105, 110, 107, 46, 110, 101, 116]
}

/// The bytes of `kasaSetup`, TP-Link's provisioning password.
pub open spec fn kasa_setup_password() -> Seq<u8> {
    seq![107u8, 97, 115, 97, 83, 101, 116, 117, 112]
}

/// Every auth-hash candidate, in the order they are tried: the six
/// constructions for the username as given, the six for its lower case, then
/// the blank-credential and the `kasa-setup` hashes.
pub open spec fn auth_candidates_spec(user: Seq<char>, pass: Seq<char>) -> Seq<Seq<u8>> {
    let p = encode_utf8(pass);
    hash_family(encode_utf8(user), p) + hash_family(encode_utf8(spec_to_lowercase(user)), p) + seq![
        spec_sha256(spec_sha256(Seq::<u8>::empty()) + spec_sha256(Seq::<u8>::empty())),
        spec_sha256(spec_sha256(kasa_setup_user()) + spec_sha256(kasa_setup_password())),
    ]
}

/// The label of the candidate at index `i` (for diagnostics).
pub open spec fn candidate_label(i: int) -> &'static str {
    if i == 12 {
        "blank v2"
    } else if i == 13 {
        "kasa-setup v2"
    } else if i % 6 == 0 {
        "v2 sha256(sha256(u)+sha256(p))"
    } else if i % 6 == 1 {
        "v2 sha256(sha1(u)+sha1(p))"
    } else if i % 6 == 2 {
        "v2 sha256(md5(u)+md5(p))"
    } else if i % 6 == 3 {
        "v2 sha256(u+p)"
    } else if i % 6 == 4 {
        "v1 md5(md5(u)+md5(p))"
    } else {
        "v1 sha1(sha1(u)+sha1(p))"
    }
}

/// The byte length of the candidate at index `i`: MD5 gives 16 bytes, SHA-1
/// 20 and SHA-256 32.
pub open spec fn candidate_len(i: int) -> nat {
    if i < 12 && i % 6 == 4 {
        16
    } else if i < 12 && i % 6 == 5 {
        20
    } else {
        32
    }
}

fn push_family(v: &mut Vec<(&'static str, Vec<u8>)>, ub: &[u8], pb: &[u8])
    requires
        old(v)@.len() % 6 == 0,
        old(v)@.len() <= 6,
    ensures
        final(v)@.len() == old(v)@.len() + 6,
        forall|i: int| 0 <= i < old(v)@.len() ==> #[trigger] final(v)@[i] == old(v)@[i],
        forall|i: int|
            old(v)@.len() <= i < old(v)@.len() + 6 ==> (#[trigger] final(v)@[i]).1@ == hash_family(
                ub@,
                pb@,
            )[i - old(v)@.len()] && final(v)@[i].0 == candidate_label(i) && final(v)@[i].1@.len()
                == candidate_len(i),
{
    let ghost n: int = v@.len() as int;
    let su = sha256(ub);
    let sp = sha256(pb);
    let h1 = sha256(&concat2(&su, &sp));
    v.push(("v2 sha256(sha256(u)+sha256(p))", slice_to_vec(&h1)));
    let s1u = sha1(ub);
    let s1p = sha1(pb);
    let h2 = sha256(&concat2(s1u.as_slice(), s1p.as_slice()));
    v.push(("v2 sha256(sha1(u)+sha1(p))", slice_to_vec(&h2)));
    let m5u = md5(ub);
    let m5p = md5(pb);
    let h3 = sha256(&concat2(m5u.as_slice(), m5p.as_slice()));
    v.push(("v2 sha256(md5(u)+md5(p))", slice_to_vec(&h3)));
    let h4 = sha256(&concat2(ub, pb));
    v.push(("v2 sha256(u+p)", slice_to_vec(&h4)));
    let h5 = md5(&concat2(m5u.as_slice(), m5p.as_slice()));
    v.push(("v1 md5(md5(u)+md5(p))", h5));
    let h6 = sha1(&concat2(s1u.as_slice(), s1p.as_slice()));
    v.push(("v1 sha1(sha1(u)+sha1(p))", h6));
    proof {
        let fam = hash_family(ub@, pb@);
        assert(v@[n + 0].1@ == fam[0]);
        assert(v@[n + 1].1@ == fam[1]);
        assert(v@[n + 2].1@ == fam[2]);
        assert(v@[n + 3].1@ == fam[3]);
        assert(v@[n + 4].1@ == fam[4]);
        assert(v@[n + 5].1@ == fam[5]);
    }
}

/// All credential-hash candidates for `user`/`pass`, labelled, in the order
/// `resolve_auth` tries them.
pub fn auth_hash_candidates(user: &str, pass: &str) -> (r: Vec<(&'static str, Vec<u8>)>)
    ensures
        r@.len() == 14,
        forall|i: int|
            0 <= i < 14 ==> (#[trigger] r@[i]).1@ == auth_candidates_spec(user@, pass@)[i] && r@[i].0
                == candidate_label(i) && r@[i].1@.len() == candidate_len(i),
{
    let mut v: Vec<(&'static str, Vec<u8>)> = Vec::new();
    let pb = pass.as_bytes();
    push_family(&mut v, user.as_bytes(), pb);
    let lower = to_lowercase(user);
    push_family(&mut v, lower.as_str().as_bytes(), pb);
    let empty: [u8; 0] = [];
    let blank_u = sha256(&empty);
    let blank_p = sha256(&empty);
    let blank = sha256(&concat2(&blank_u, &blank_p));
    proof {
        assert(empty@ =~= Seq::<u8>::empty());
    }
    v.push(("blank v2", slice_to_vec(&blank)));
    let ku = vec![107u8, 97, 115, 97, 64, 116, 112, 45, 108, 105, 110, 107, 46, 110, 101, 116];
    let kp = vec![107u8, 97, 115, 97, 83, 101, 116, 117, 112];
    proof {
        assert(ku@ =~= kasa_setup_user());
        assert(kp@ =~= kasa_setup_password());
    }
    let kasa = sha256(&concat2(&sha256(ku.as_slice()), &sha256(kp.as_slice())));
    v.push(("kasa-setup v2", slice_to_vec(&kasa)));
    proof {
        let spec = auth_candidates_spec(user@, pass@);
        assert forall|i: int| 0 <= i < 14 implies (#[trigger] v@[i]).1@ == spec[i] && v@[i].0
            == candidate_label(i) && v@[i].1@.len() == candidate_len(i) by {
            if i < 6 {
                assert(spec[i] == hash_family(encode_utf8(user@), encode_utf8(pass@))[i]);
                assert(v@[i].1@ == spec[i]);
                assert(v@[i].0 == candidate_label(i));
            } else if i < 12 {
                assert(spec[i] == hash_family(encode_utf8(spec_to_lowercase(user@)), encode_utf8(pass@))[i - 6]);
                assert(v@[i].1@ == spec[i]);
                assert(v@[i].0 == candidate_label(i));
            } else if i == 12 {
                assert(v@[i].1@ == spec[i]);
                assert(v@[i].0 == candidate_label(i));
            } else {
                assert(v@[i].1@ == spec[i]);
                assert(v@[i].0 == candidate_label(i));
            }
        }
    }
    v
}

/// The scheme tried at position `k` of the 28 (scheme, candidate) attempts.
pub open spec fn scheme_at(k: int) -> Scheme {
    if k < 14 {
        Scheme::V2
    } else {
        Scheme::V1
    }
}

/// Attempt `k` reproduces the device's `server_hash`.
pub open spec fn auth_attempt_matches(
    user: Seq<char>,
    pass: Seq<char>,
    local: Seq<u8>,
    remote: Seq<u8>,
    server_hash: Seq<u8>,
    k: int,
) -> bool {
    handshake1_expected_spec(scheme_at(k), local, remote, auth_candidates_spec(user, pass)[k % 14])
        == server_hash
}

/// The first attempt at or after `k` that reproduces the device's `server_hash`:
/// every candidate under KLAP v2 first, then every candidate under v1.
pub open spec fn first_auth_match(
    user: Seq<char>,
    pass: Seq<char>,
    local: Seq<u8>,
    remote: Seq<u8>,
    server_hash: Seq<u8>,
    k: int,
) -> Option<int>
    decreases 28 - k,
{
    if k < 0 || k >= 28 {
        None
    } else if auth_attempt_matches(user, pass, local, remote, server_hash, k) {
        Some(k)
    } else {
        first_auth_match(user, pass, local, remote, server_hash, k + 1)
    }
}

/// Resolves the (scheme, auth hash, label) whose handshake1 hash equals the
/// device's `server_hash`; the credentials are never guessed.
pub fn resolve_auth(user: &str, pass: &str, local: &[u8], remote: &[u8], server_hash: &[u8]) -> (r:
    Option<(Scheme, Vec<u8>, &'static str)>)
    ensures
        match first_auth_match(user@, pass@, local@, remote@, server_hash@, 0) {
            Some(k) => r matches Some(t) && t.0 == scheme_at(k) && t.1@ == auth_candidates_spec(
                user@,
                pass@,
            )[k % 14] && t.2 == candidate_label(k % 14),
            None => r is None,
        },
        server_hash@.len() != 32 ==> r is None,
{
    let cands = auth_hash_candidates(user, pass);
    let mut si: usize = 0;
    while si < 2
        invariant
            si <= 2,
            cands@.len() == 14,
            forall|i: int|
                0 <= i < 14 ==> (#[trigger] cands@[i]).1@ == auth_candidates_spec(user@, pass@)[i]
                    && cands@[i].0 == candidate_label(i),
            first_auth_match(user@, pass@, local@, remote@, server_hash@, 14 * si as int)
                == first_auth_match(user@, pass@, local@, remote@, server_hash@, 0),
        decreases 2 - si,
    {
        let scheme = if si == 0 {
            Scheme::V2
        } else {
            Scheme::V1
        };
        let mut j: usize = 0;
        while j < 14
            invariant
                si < 2,
                j <= 14,
                scheme == scheme_at(14 * si as int),
                cands@.len() == 14,
                forall|i: int|
                    0 <= i < 14 ==> (#[trigger] cands@[i]).1@ == auth_candidates_spec(user@, pass@)[i]
                        && cands@[i].0 == candidate_label(i),
                first_auth_match(user@, pass@, local@, remote@, server_hash@, 14 * si + j)
                    == first_auth_match(user@, pass@, local@, remote@, server_hash@, 0),
            decreases 14 - j,
        {
            let ghost k: int = 14 * si + j;
            proof {
                assert(scheme_at(k) == scheme);
                assert(k % 14 == j);
            }
            let expected = handshake1_expected(scheme, local, remote, cands[j].1.as_slice());
            if bytes_eq(&expected, server_hash) {
                return Some((scheme, slice_to_vec(cands[j].1.as_slice()), cands[j].0));
            }
            j = j + 1;
        }
        si = si + 1;
    }
    None
}

/// The byte labels of the three derived secrets: `lsk`, `iv` and `ldk`.
pub open spec fn label_lsk() -> Seq<u8> {
    seq![108u8, 115, 107]
}

pub open spec fn label_iv() -> Seq<u8> {
    seq![105u8, 118]
}

pub open spec fn label_ldk() -> Seq<u8> {
    seq![108u8, 100, 107]
}

/// `sha256(label || local_seed || remote_seed || auth_hash)`.
pub open spec fn derive_spec(label: Seq<u8>, local: Seq<u8>, remote: Seq<u8>, ah: Seq<u8>) -> Seq<u8> {
    spec_sha256(label + local + remote + ah)
}

/// The 16-byte IV of request `seq`: the 12-byte session IV, then `seq` big-endian.
pub open spec fn iv_seq_spec(iv: Seq<u8>, seq: i32) -> Seq<u8> {
    iv + be_bytes_spec(seq)
}

/// The ciphertext of request `seq`.
pub open spec fn request_ciphertext(key: Seq<u8>, iv: Seq<u8>, seq: i32, msg: Seq<u8>) -> Seq<u8> {
    spec_aes128_cbc_encrypt(key, iv_seq_spec(iv, seq), msg)
}

/// The signature of a request: `sha256(sig || seq big-endian || ciphertext)`.
pub open spec fn request_signature(sig: Seq<u8>, seq: i32, ct: Seq<u8>) -> Seq<u8> {
    spec_sha256(sig + be_bytes_spec(seq) + ct)
}

/// The body of encrypted request `seq`: `signature(32) || ciphertext`.
pub open spec fn request_payload(key: Seq<u8>, iv: Seq<u8>, sig: Seq<u8>, seq: i32, msg: Seq<u8>) -> Seq<u8> {
    let ct = request_ciphertext(key, iv, seq, msg);
    request_signature(sig, seq, ct) + ct
}

fn prefix_array<const N: usize>(s: &[u8]) -> (r: [u8; N])
    requires
        N <= s@.len(),
    ensures
        r@ == s@.subrange(0, N as int),
{
    let mut r: [u8; N] = vstd::array::array_fill_for_copy_types(0u8);
    for i in 0..N
        invariant
            N <= s@.len(),
            r@.len() == N,
            forall|k: int| 0 <= k < i ==> #[trigger] r@[k] == s@[k],
    {
        r[i] = s[i];
    }
    assert(r@ =~= s@.subrange(0, N as int));
    r
}

/// Symmetric session derived from the two seeds and the auth hash after a
/// successful handshake: the AES key, the IV prefix, the signing secret and
/// the request sequence number.
pub struct KlapSession {
    key: [u8; 16],
    iv: [u8; 12],
    sig: [u8; 28],
    seq: i32,
}

impl KlapSession {
    /// The AES-128 key.
    pub closed spec fn key_view(&self) -> Seq<u8> {
        self.key@
    }

    /// The 12-byte IV prefix.
    pub closed spec fn iv_view(&self) -> Seq<u8> {
        self.iv@
    }

    /// The 28-byte signing secret.
    pub closed spec fn sig_view(&self) -> Seq<u8> {
        self.sig@
    }

    /// The sequence number of the last request.
    pub closed spec fn seq_view(&self) -> i32 {
        self.seq
    }

    /// Derives the session: key = first 16 bytes of `sha256("lsk"..)`, IV =
    /// first 12 of `sha256("iv"..)`, whose last 4 bytes are the initial
    /// sequence number (big-endian), and signing secret = first 28 of
    /// `sha256("ldk"..)`.
    pub fn derive(local_seed: &[u8], remote_seed: &[u8], auth_hash: &[u8]) -> (r: Self)
        ensures
            r.key_view() == derive_spec(label_lsk(), local_seed@, remote_seed@, auth_hash@).subrange(0, 16),
            r.iv_view() == derive_spec(label_iv(), local_seed@, remote_seed@, auth_hash@).subrange(0, 12),
            r.sig_view() == derive_spec(label_ldk(), local_seed@, remote_seed@, auth_hash@).subrange(0, 28),
            ({
                let ivf = derive_spec(label_iv(), local_seed@, remote_seed@, auth_hash@);
                r.seq_view() == from_be_spec(ivf[28], ivf[29], ivf[30], ivf[31])
            }),
            r.key_view().len() == 16,
            r.iv_view().len() == 12,
            r.sig_view().len() == 28,
    {
        let lsk = vec![108u8, 115, 107];
        let ivl = vec![105u8, 118];
        let ldk = vec![108u8, 100, 107];
        proof {
            assert(lsk@ =~= label_lsk());
            assert(ivl@ =~= label_iv());
            assert(ldk@ =~= label_ldk());
        }
        let key_full = sha256(&concat4(lsk.as_slice(), local_seed, remote_seed, auth_hash));
        let key: [u8; 16] = prefix_array(&key_full);
        let iv_full = sha256(&concat4(ivl.as_slice(), local_seed, remote_seed, auth_hash));
        let iv: [u8; 12] = prefix_array(&iv_full);
        let seq = from_be(iv_full[28], iv_full[29], iv_full[30], iv_full[31]);
        let sig_full = sha256(&concat4(ldk.as_slice(), local_seed, remote_seed, auth_hash));
        let sig: [u8; 28] = prefix_array(&sig_full);
        KlapSession { key, iv, sig, seq }
    }

    /// The sequence number of the last request sent.
    pub fn seq(&self) -> (r: i32)
        ensures
            r == self.seq_view(),
    {
        self.seq
    }

    /// The 16-byte IV for request `seq`.
    fn iv_seq(&self, seq: i32) -> (r: [u8; 16])
        ensures
            r@ == iv_seq_spec(self.iv_view(), seq),
    {
        let be = be_bytes(seq);
        let mut v: Vec<u8> = Vec::new();
        push_all(&mut v, &self.iv);
        push_all(&mut v, &be);
        let r: [u8; 16] = prefix_array(v.as_slice());
        proof {
            assert(v@.subrange(0, 16) =~= v@);
        }
        r
    }

    /// Encrypts a request body. The sequence number advances by one
    /// (wrapping); the result is `(signature(32) || ciphertext, seq)`, where
    /// `seq` is the new number, to be sent as `?seq=`.
    pub fn encrypt(&mut self, msg: &[u8]) -> (r: (Vec<u8>, i32))
        ensures
            r.1 == old(self).seq_view().wrapping_add(1),
            final(self).seq_view() == r.1,
            final(self).key_view() == old(self).key_view(),
            final(self).iv_view() == old(self).iv_view(),
            final(self).sig_view() == old(self).sig_view(),
            r.0@ == request_payload(old(self).key_view(), old(self).iv_view(), old(self).sig_view(), r.1, msg@),
            r.0@.len() == 32 + 16 * (msg@.len() / 16 + 1),
            request_ciphertext(old(self).key_view(), old(self).iv_view(), r.1, msg@).len() == 16 * (
            msg@.len() / 16 + 1),
            r.0@.subrange(0, 32) == request_signature(
                old(self).sig_view(),
                r.1,
                request_ciphertext(old(self).key_view(), old(self).iv_view(), r.1, msg@),
            ),
            r.0@.subrange(32, r.0@.len() as int) == request_ciphertext(
                old(self).key_view(),
                old(self).iv_view(),
                r.1,
                msg@,
            ),
    {
        let seq = self.seq.wrapping_add(1);
        self.seq = seq;
        let iv = self.iv_seq(seq);
        let ct = aes128_cbc_encrypt(&self.key, &iv, msg);
        let be = be_bytes(seq);
        let signature = sha256(&concat3(&self.sig, &be, ct.as_slice()));
        let mut out: Vec<u8> = Vec::new();
        push_all(&mut out, &signature);
        push_all(&mut out, ct.as_slice());
        proof {
            assert(out@.subrange(0, 32) =~= signature@);
            assert(out@.subrange(32, out@.len() as int) =~= ct@);
        }
        (out, seq)
    }

    /// Decrypts a `signature(32) || ciphertext` response for `seq`. The
    /// signature is not checked. Any 32 bytes followed by the encryption of a
    /// message under this session and `seq` decrypt to that message, so the
    /// payload `encrypt` produced for `seq` decrypts to its message.
    pub fn decrypt(&self, msg: &[u8], seq: i32) -> (r: Result<Vec<u8>, TapoError>)
        ensures
            msg@.len() < 32 ==> (r matches Err(TapoError::ResponseTooShort(n)) && n == msg@.len()),
            msg@.len() >= 32 ==> match spec_aes128_cbc_decrypt(
                self.key_view(),
                iv_seq_spec(self.iv_view(), seq),
                msg@.subrange(32, msg@.len() as int),
            ) {
                Some(pt) => r matches Ok(v) && v@ == pt,
                None => r matches Err(TapoError::InvalidPayload),
            },
            forall|m: Seq<u8>|
                msg@.len() >= 32 && #[trigger] request_ciphertext(self.key_view(), self.iv_view(), seq, m)
                    == msg@.subrange(32, msg@.len() as int) ==> (r matches Ok(v) && v@ == m),
    {
        if msg.len() < 32 {
            return Err(TapoError::ResponseTooShort(msg.len()));
        }
        let n = msg.len();
        let ct = vstd::slice::slice_subrange(msg, 32, n);
        let iv = self.iv_seq(seq);
        match aes128_cbc_decrypt(&self.key, &iv, ct) {
            Some(pt) => Ok(pt),
            None => Err(TapoError::InvalidPayload),
        }
    }
}

/// The path an encrypted request `seq` is posted to: `/app/request?seq=<seq>`.
pub open spec fn request_path_spec(seq: i32) -> Seq<char> {
    "/app/request?seq="@ + signed_decimal_spec(seq as int)
}

/// The path to post encrypted request `seq` to.
pub fn request_path(seq: i32) -> (r: String)
    ensures
        r@ == request_path_spec(seq),
{
    let mut p = String::from_str("/app/request?seq=");
    let n = signed_decimal(seq as i64);
    p.append(n.as_str());
    p
}

/// What a successful handshake1 establishes: the session cookie, the
/// device's seed, the auth scheme and hash that reproduce its `server_hash`,
/// and the handshake2 payload to send back.
pub struct Handshake1 {
    pub cookie: String,
    pub remote_seed: Vec<u8>,
    pub scheme: Scheme,
    pub auth_hash: Vec<u8>,
    pub scheme_name: &'static str,
    pub payload: [u8; 32],
}

/// A connected KLAP client bound to one device on the LAN.
pub struct KlapClient {
    host: String,
    auth_hash: Vec<u8>,
    session: KlapSession,
    cookie: String,
}

impl KlapClient {
    pub closed spec fn host_view(&self) -> Seq<char> {
        self.host@
    }

    pub closed spec fn cookie_view(&self) -> Seq<char> {
        self.cookie@
    }

    pub closed spec fn auth_hash_view(&self) -> Seq<u8> {
        self.auth_hash@
    }

    pub closed spec fn session_view(&self) -> KlapSession {
        self.session
    }

    /// Checks the device's reply to handshake1 (`local_seed` was sent):
    /// status 200, a session cookie, a 48-byte body holding the remote seed and
    /// the server hash, and an auth candidate that reproduces that hash.
    pub fn handshake1(local_seed: &[u8; 16], resp: RawResponse, username: &str, password: &str) -> (r:
        Result<Handshake1, TapoError>)
        ensures
            resp.status != 200 ==> (r matches Err(TapoError::Handshake1Status(s)) && s == resp.status),
            resp.status == 200 && resp.set_cookie is None ==> (r matches Err(
                TapoError::MissingSessionCookie,
            )),
            resp.status == 200 && resp.set_cookie is Some && resp.body@.len() != 48 ==> (r matches Err(
                TapoError::Handshake1Length(n),
            ) && n == resp.body@.len()),
            resp.status == 200 && resp.set_cookie is Some && resp.body@.len() == 48 ==> ({
                let remote = resp.body@.subrange(0, 16);
                let server = resp.body@.subrange(16, 48);
                match first_auth_match(username@, password@, local_seed@, remote, server, 0) {
                    Some(k) => r matches Ok(h) && h.cookie@ == resp.set_cookie->0@ && h.remote_seed@
                        == remote && h.scheme == scheme_at(k) && h.auth_hash@ == auth_candidates_spec(
                        username@,
                        password@,
                    )[k % 14] && h.scheme_name == candidate_label(k % 14) && h.payload@
                        == handshake2_payload_spec(scheme_at(k), local_seed@, remote, h.auth_hash@),
                    None => r matches Err(TapoError::AuthMismatch),
                }
            }),
    {
        if resp.status != 200 {
            return Err(TapoError::Handshake1Status(resp.status));
        }
        let cookie = match resp.set_cookie {
            Some(c) => c,
            None => {
                return Err(TapoError::MissingSessionCookie);
            },
        };
        if resp.body.len() != 48 {
            return Err(TapoError::Handshake1Length(resp.body.len()));
        }
        let remote_seed = vstd::slice::slice_to_vec(vstd::slice::slice_subrange(resp.body.as_slice(), 0, 16));
        let server_hash = vstd::slice::slice_subrange(resp.body.as_slice(), 16, 48);
        match resolve_auth(username, password, local_seed, remote_seed.as_slice(), server_hash) {
            Some((scheme, auth_hash, scheme_name)) => {
                let payload = handshake2_payload(scheme, local_seed, remote_seed.as_slice(), auth_hash.as_slice());
                Ok(Handshake1 { cookie, remote_seed, scheme, auth_hash, scheme_name, payload })
            },
            None => Err(TapoError::AuthMismatch),
        }
    }

    /// Completes the connection once the device has answered handshake2 with
    /// `status`: on 200, the session is derived from both seeds and the auth hash.
    pub fn handshake2(host: &str, local_seed: &[u8; 16], hs1: Handshake1, status: u16) -> (r: Result<
        KlapClient,
        TapoError,
    >)
        ensures
            status != 200 ==> (r matches Err(TapoError::Handshake2Status(s)) && s == status),
            status == 200 ==> (r matches Ok(c) && c.host_view() == host@ && c.cookie_view() == hs1.cookie@
                && c.auth_hash_view() == hs1.auth_hash@ && ({
                let sess = c.session_view();
                &&& sess.key_view() == derive_spec(label_lsk(), local_seed@, hs1.remote_seed@, hs1.auth_hash@).subrange(0, 16)
                &&& sess.iv_view() == derive_spec(label_iv(), local_seed@, hs1.remote_seed@, hs1.auth_hash@).subrange(0, 12)
                &&& sess.sig_view() == derive_spec(label_ldk(), local_seed@, hs1.remote_seed@, hs1.auth_hash@).subrange(0, 28)
                &&& sess.seq_view() == ({
                    let ivf = derive_spec(label_iv(), local_seed@, hs1.remote_seed@, hs1.auth_hash@);
                    from_be_spec(ivf[28], ivf[29], ivf[30], ivf[31])
                })
            })),
    {
        if status != 200 {
            return Err(TapoError::Handshake2Status(status));
        }
        let session = KlapSession::derive(local_seed, hs1.remote_seed.as_slice(), hs1.auth_hash.as_slice());
        Ok(KlapClient { host: String::from_str(host), auth_hash: hs1.auth_hash, session, cookie: hs1.cookie })
    }

    /// The device address this client talks to.
    pub fn host(&self) -> (r: &str)
        ensures
            r@ == self.host_view(),
    {
        self.host.as_str()
    }

    /// The `TP_SESSIONID=...` cookie of the session.
    pub fn cookie(&self) -> (r: &str)
        ensures
            r@ == self.cookie_view(),
    {
        self.cookie.as_str()
    }

    /// The session.
    pub fn session(&self) -> (r: &KlapSession)
        ensures
            *r == self.session_view(),
    {
        &self.session
    }

    /// Encrypts a JSON-RPC request body for sending to `/app/request?seq=`.
    pub fn begin_request(&mut self, json: &[u8]) -> (r: (Vec<u8>, i32))
        ensures
            final(self).host_view() == old(self).host_view(),
            final(self).cookie_view() == old(self).cookie_view(),
            final(self).auth_hash_view() == old(self).auth_hash_view(),
            ({
                let s0 = old(self).session_view();
                let s1 = final(self).session_view();
                &&& r.1 == s0.seq_view().wrapping_add(1)
                &&& s1.seq_view() == r.1
                &&& s1.key_view() == s0.key_view()
                &&& s1.iv_view() == s0.iv_view()
                &&& s1.sig_view() == s0.sig_view()
                &&& r.0@ == request_payload(s0.key_view(), s0.iv_view(), s0.sig_view(), r.1, json@)
                &&& r.0@.len() == 32 + 16 * (json@.len() / 16 + 1)
                &&& r.0@.subrange(32, r.0@.len() as int) == request_ciphertext(
                    s0.key_view(),
                    s0.iv_view(),
                    r.1,
                    json@,
                )
            }),
    {
        self.session.encrypt(json)
    }

    /// Reads the device's answer to request `seq`: status 200, then the
    /// decrypted body.
    pub fn finish_request(&self, status: u16, body: &[u8], seq: i32) -> (r: Result<Vec<u8>, TapoError>)
        ensures
            status != 200 ==> (r matches Err(TapoError::RequestStatus(s)) && s == status),
            status == 200 && body@.len() < 32 ==> (r matches Err(TapoError::ResponseTooShort(n)) && n
                == body@.len()),
            status == 200 && body@.len() >= 32 ==> match spec_aes128_cbc_decrypt(
                self.session_view().key_view(),
                iv_seq_spec(self.session_view().iv_view(), seq),
                body@.subrange(32, body@.len() as int),
            ) {
                Some(pt) => r matches Ok(v) && v@ == pt,
                None => r matches Err(TapoError::InvalidPayload),
            },
    {
        if status != 200 {
            return Err(TapoError::RequestStatus(status));
        }
        self.session.decrypt(body, seq)
    }

    /// The connection's auth hash in lower-case hex (for diagnostics).
    pub fn auth_hash_hex(&self) -> (r: String)
        ensures
            r@ == hex_spec(self.auth_hash_view()),
    {
        hex(self.auth_hash.as_slice())
    }
}

/// The lower-cased-username family keeps the password exactly as given:
/// candidates 6 to 11 for `(user, pass)` are candidates 0 to 5 for
/// `(to_lowercase(user), pass)`. In particular candidate 0 is the KLAP v2
/// auth hash of the credentials as given and candidate 6 that of the
/// lower-cased username with the same password.
pub proof fn law_lowercase_family_keeps_password(user: Seq<char>, pass: Seq<char>)
    ensures
        auth_candidates_spec(user, pass).len() == 14,
        forall|j: int|
            0 <= j < 6 ==> #[trigger] auth_candidates_spec(user, pass)[6 + j] == auth_candidates_spec(
                spec_to_lowercase(user),
                pass,
            )[j],
        auth_candidates_spec(user, pass)[0] == auth_hash_spec(user, pass),
        auth_candidates_spec(user, pass)[6] == auth_hash_spec(spec_to_lowercase(user), pass),
{
}

/// The IV of request `seq` is the 12-byte session IV followed by `seq` in
/// big-endian order, and a request's ciphertext is AES-128-CBC under the
/// session key with exactly that IV.
pub proof fn law_request_iv_layout(key: Seq<u8>, iv: Seq<u8>, seq: i32, msg: Seq<u8>, v: Seq<u8>)
    requires
        iv.len() == 12,
        v.len() == 16,
        v.subrange(0, 12) == iv,
        v[12] as int * 16777216 + v[13] as int * 65536 + v[14] as int * 256 + v[15] as int == (seq as u32) as int,
    ensures
        iv_seq_spec(iv, seq) == v,
        request_ciphertext(key, iv, seq, msg) == spec_aes128_cbc_encrypt(key, v, msg),
{
    let w = iv_seq_spec(iv, seq);
    let u = seq as u32;
    let c0 = u / 16777216;
    let c1 = (u / 65536) % 256;
    let c2 = (u / 256) % 256;
    let c3 = u % 256;
    assert(c0 < 256);
    assert(c0 * 16777216 + c1 * 65536 + c2 * 256 + c3 == u);
    let (b0, b1, b2, b3) = (v[12] as int, v[13] as int, v[14] as int, v[15] as int);
    assert(b0 == c0 && b1 == c1 && b2 == c2 && b3 == c3) by (nonlinear_arith)
        requires
            0 <= b0 < 256,
            0 <= b1 < 256,
            0 <= b2 < 256,
            0 <= b3 < 256,
            c0 == u / 16777216,
            c1 == (u / 65536) % 256,
            c2 == (u / 256) % 256,
            c3 == u % 256,
            b0 * 16777216 + b1 * 65536 + b2 * 256 + b3 == u,
            0 <= u,
    ;
    assert forall|i: int| 0 <= i < 16 implies w[i] == v[i] by {
        if i < 12 {
            assert(v[i] == v.subrange(0, 12)[i]);
        }
    }
    assert(w =~= v);
}

proof fn lemma_first_auth_match(
    user: Seq<char>,
    pass: Seq<char>,
    local: Seq<u8>,
    remote: Seq<u8>,
    server_hash: Seq<u8>,
    i: int,
)
    requires
        0 <= i,
    ensures
        match first_auth_match(user, pass, local, remote, server_hash, i) {
            Some(k) => i <= k < 28 && auth_attempt_matches(user, pass, local, remote, server_hash, k)
                && forall|j: int|
                i <= j < k ==> !#[trigger] auth_attempt_matches(user, pass, local, remote, server_hash, j),
            None => forall|j: int|
                i <= j < 28 ==> !#[trigger] auth_attempt_matches(user, pass, local, remote, server_hash, j),
        },
    decreases 28 - i,
{
    if i < 28 && !auth_attempt_matches(user, pass, local, remote, server_hash, i) {
        lemma_first_auth_match(user, pass, local, remote, server_hash, i + 1);
    }
}

/// The auth scheme is never guessed: when resolution picks attempt `k`, that
/// attempt's handshake1 hash is exactly the device's `server_hash` and no
/// earlier attempt's is; when it picks none, no attempt reproduces it.
pub proof fn law_resolved_auth_reproduces_server_hash(
    user: Seq<char>,
    pass: Seq<char>,
    local: Seq<u8>,
    remote: Seq<u8>,
    server_hash: Seq<u8>,
)
    ensures
        match first_auth_match(user, pass, local, remote, server_hash, 0) {
            Some(k) => 0 <= k < 28 && handshake1_expected_spec(
                scheme_at(k),
                local,
                remote,
                auth_candidates_spec(user, pass)[k % 14],
            ) == server_hash && forall|j: int|
                0 <= j < k ==> !#[trigger] auth_attempt_matches(user, pass, local, remote, server_hash, j),
            None => forall|j: int|
                0 <= j < 28 ==> handshake1_expected_spec(
                    scheme_at(j),
                    local,
                    remote,
                    auth_candidates_spec(user, pass)[j % 14],
                ) != server_hash,
        },
{
    lemma_first_auth_match(user, pass, local, remote, server_hash, 0);
    if first_auth_match(user, pass, local, remote, server_hash, 0) is None {
        assert forall|j: int| 0 <= j < 28 implies handshake1_expected_spec(
            scheme_at(j),
            local,
            remote,
            auth_candidates_spec(user, pass)[j % 14],
        ) != server_hash by {
            assert(!auth_attempt_matches(user, pass, local, remote, server_hash, j));
        }
    }
}

/// Correct credentials are always accepted: when some attempt reproduces the
/// device's `server_hash`, resolution succeeds, with that attempt or an
/// earlier one.
pub proof fn law_matching_credentials_resolve(
    user: Seq<char>,
    pass: Seq<char>,
    local: Seq<u8>,
    remote: Seq<u8>,
    server_hash: Seq<u8>,
    k: int,
)
    requires
        0 <= k < 28,
        auth_attempt_matches(user, pass, local, remote, server_hash, k),
    ensures
        first_auth_match(user, pass, local, remote, server_hash, 0) matches Some(j) && j <= k,
{
    lemma_first_auth_match(user, pass, local, remote, server_hash, 0);
}

} // verus!
