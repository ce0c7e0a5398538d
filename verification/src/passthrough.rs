//! TP-Link Tapo's legacy "secure passthrough" local protocol: an RSA-1024 key
//! exchange hands the client an AES-128-CBC key and IV, requests travel
//! Base64-encoded inside a `securePassthrough` JSON envelope, and
//! `login_device` yields a token. The JSON and the network are handled by the
//! caller; this module holds the cryptography and the decisions.

use vstd::prelude::*;
use vstd::utf8::{encode_utf8, encode_utf8_decode_utf8, is_ascii_chars, is_ascii_chars_encode_utf8};

use crate::bytes::push_all;
use crate::crypto::{
    aes128_cbc_decrypt, aes128_cbc_encrypt, ascii_chars, base64_decode, base64_digit, base64_encode,
    base64_encode_spec, rsa_pkcs1_decrypt, sha1, spec_aes128_cbc_decrypt, spec_aes128_cbc_encrypt,
    spec_rsa_pkcs1_decrypt, spec_sha1,
};
use crate::error::TapoError;
use crate::text::{hex, hex_digit, hex_spec};

verus! {

/// Lower-case hex of the SHA-1 digest of the UTF-8 bytes of `input`.
pub open spec fn sha1_hex_spec(input: Seq<char>) -> Seq<char> {
    hex_spec(spec_sha1(encode_utf8(input)))
}

/// Lower-case hex SHA-1 of a string's UTF-8 bytes.
pub fn sha1_hex(input: &str) -> (r: String)
    ensures
        r@ == sha1_hex_spec(input@),
        r@.len() == 40,
        encode_utf8(r@).len() == 40,
{
    let digest = sha1(input.as_bytes());
    let r = hex(digest.as_slice());
    proof {
        lemma_hex_ascii(digest@);
    }
    r
}

/// Hex text is ASCII, so its UTF-8 encoding has one byte per character.
proof fn lemma_hex_ascii(b: Seq<u8>)
    ensures
        encode_utf8(hex_spec(b)).len() == 2 * b.len(),
{
    let h = hex_spec(b);
    assert(is_ascii_chars(h)) by {
        assert forall|i: int| 0 <= i < h.len() implies '\0' <= #[trigger] h[i] <= '\u{7f}' by {
            let v: int = if i % 2 == 0 { b[i / 2] as int / 16 } else { b[i / 2] as int % 16 };
            assert(0 <= v < 16);
            assert(h[i] == hex_digit(v));
        }
    }
    is_ascii_chars_encode_utf8(h);
}

/// Standard Base64 turns `n` bytes into `4 * ceil(n / 3)` characters.
proof fn lemma_base64_len(b: Seq<u8>)
    ensures
        base64_encode_spec(b).len() == 4 * ((b.len() + 2) / 3),
    decreases b.len(),
{
    if b.len() > 3 {
        lemma_base64_len(b.skip(3));
    }
}

/// Credential encodings the firmwares accept for `login_device`.
#[derive(Debug, Clone, Copy, PartialEq, Eq)]
pub enum LoginVariant {
    /// username = b64(hex(sha1(user))), password = b64(pass)
    V1,
    /// username = b64(hex(sha1(user))), password = b64(hex(sha1(pass)))
    V2,
}

/// Standard Base64 of the UTF-8 bytes of a string, as characters.
pub open spec fn b64_of_chars(s: Seq<char>) -> Seq<char> {
    ascii_chars(base64_encode_spec(encode_utf8(s)))
}

/// The `login_device` username and password for a variant.
pub open spec fn login_encoding_spec(variant: LoginVariant, user: Seq<char>, pass: Seq<char>) -> (Seq<char>, Seq<char>) {
    let un = b64_of_chars(sha1_hex_spec(user));
    let pw = match variant {
        LoginVariant::V1 => b64_of_chars(pass),
        LoginVariant::V2 => b64_of_chars(sha1_hex_spec(pass)),
    };
    (un, pw)
}

impl LoginVariant {
    /// The encoded `(username, password)` pair for `login_device`.
    pub fn encode(self, user: &str, pass: &str) -> (r: (String, String))
        ensures
            r.0@ == login_encoding_spec(self, user@, pass@).0,
            r.1@ == login_encoding_spec(self, user@, pass@).1,
            encode_utf8(sha1_hex_spec(user@)).len() == 40,
            r.0@.len() == 56,
            self is V2 ==> encode_utf8(sha1_hex_spec(pass@)).len() == 40 && r.1@.len() == 56,
    {
        let uh = sha1_hex(user);
        let un = base64_encode(uh.as_str().as_bytes());
        proof {
            lemma_base64_len(encode_utf8(uh@));
        }
        let pw = match self {
            LoginVariant::V1 => base64_encode(pass.as_bytes()),
            LoginVariant::V2 => {
                let ph = sha1_hex(pass);
                proof {
                    lemma_base64_len(encode_utf8(ph@));
                }
                base64_encode(ph.as_str().as_bytes())
            },
        };
        (un, pw)
    }
}

proof fn lemma_base64_digit_injective(a: int, b: int)
    requires
        0 <= a < 64,
        0 <= b < 64,
        base64_digit(a) == base64_digit(b),
    ensures
        a == b,
{
}

proof fn lemma_base64_digit_not_pad(a: int)
    requires
        0 <= a < 64,
    ensures
        base64_digit(a) != 61u8,
{
}

/// Standard Base64 is injective: two byte strings with the same encoding are equal.
proof fn lemma_base64_injective(b1: Seq<u8>, b2: Seq<u8>)
    requires
        base64_encode_spec(b1) == base64_encode_spec(b2),
    ensures
        b1 == b2,
    decreases b1.len(),
{
    let e = base64_encode_spec(b1);
    if b1.len() == 0 || b2.len() == 0 {
        if b1.len() != 0 {
            assert(e.len() >= 4);
        }
        if b2.len() != 0 {
            assert(base64_encode_spec(b2).len() >= 4);
        }
        assert(b1 =~= b2);
        return;
    }
    let x1 = b1[0] as int;
    let x2 = b2[0] as int;
    let y1 = if b1.len() > 1 { b1[1] as int } else { 0 };
    let y2 = if b2.len() > 1 { b2[1] as int } else { 0 };
    let z1 = if b1.len() > 2 { b1[2] as int } else { 0 };
    let z2 = if b2.len() > 2 { b2[2] as int } else { 0 };
    let e2 = base64_encode_spec(b2);
    assert(e[0] == base64_digit(x1 / 4));
    assert(e2[0] == base64_digit(x2 / 4));
    assert(e[1] == base64_digit((x1 % 4) * 16 + y1 / 16));
    assert(e2[1] == base64_digit((x2 % 4) * 16 + y2 / 16));
    assert(e[2] == if b1.len() > 1 { base64_digit((y1 % 16) * 4 + z1 / 64) } else { 61u8 });
    assert(e2[2] == if b2.len() > 1 { base64_digit((y2 % 16) * 4 + z2 / 64) } else { 61u8 });
    assert(e[3] == if b1.len() > 2 { base64_digit(z1 % 64) } else { 61u8 });
    assert(e2[3] == if b2.len() > 2 { base64_digit(z2 % 64) } else { 61u8 });
    lemma_base64_digit_injective(x1 / 4, x2 / 4);
    assert(0 <= (x1 % 4) * 16 + y1 / 16 < 64) by (nonlinear_arith)
        requires
            0 <= x1 < 256,
            0 <= y1 < 256,
    ;
    assert(0 <= (x2 % 4) * 16 + y2 / 16 < 64) by (nonlinear_arith)
        requires
            0 <= x2 < 256,
            0 <= y2 < 256,
    ;
    lemma_base64_digit_injective((x1 % 4) * 16 + y1 / 16, (x2 % 4) * 16 + y2 / 16);
    // The padding tells the lengths of the first group apart.
    if b1.len() > 1 {
        assert(0 <= (y1 % 16) * 4 + z1 / 64 < 64) by (nonlinear_arith)
            requires
                0 <= y1 < 256,
                0 <= z1 < 256,
        ;
        lemma_base64_digit_not_pad((y1 % 16) * 4 + z1 / 64);
    }
    if b2.len() > 1 {
        assert(0 <= (y2 % 16) * 4 + z2 / 64 < 64) by (nonlinear_arith)
            requires
                0 <= y2 < 256,
                0 <= z2 < 256,
        ;
        lemma_base64_digit_not_pad((y2 % 16) * 4 + z2 / 64);
    }
    if b1.len() > 2 {
        lemma_base64_digit_not_pad(z1 % 64);
    }
    if b2.len() > 2 {
        lemma_base64_digit_not_pad(z2 % 64);
    }
    assert((b1.len() > 1) == (b2.len() > 1));
    assert((b1.len() > 2) == (b2.len() > 2));
    assert(x1 == x2 && y1 / 16 == y2 / 16) by (nonlinear_arith)
        requires
            0 <= x1 < 256,
            0 <= x2 < 256,
            0 <= y1 < 256,
            0 <= y2 < 256,
            x1 / 4 == x2 / 4,
            (x1 % 4) * 16 + y1 / 16 == (x2 % 4) * 16 + y2 / 16,
    ;
    if b1.len() > 1 {
        lemma_base64_digit_injective((y1 % 16) * 4 + z1 / 64, (y2 % 16) * 4 + z2 / 64);
        assert(y1 == y2 && z1 / 64 == z2 / 64) by (nonlinear_arith)
            requires
                0 <= y1 < 256,
                0 <= y2 < 256,
                0 <= z1 < 256,
                0 <= z2 < 256,
                y1 / 16 == y2 / 16,
                (y1 % 16) * 4 + z1 / 64 == (y2 % 16) * 4 + z2 / 64,
        ;
    }
    if b1.len() > 2 {
        lemma_base64_digit_injective(z1 % 64, z2 % 64);
        assert(z1 == z2) by (nonlinear_arith)
            requires
                0 <= z1 < 256,
                0 <= z2 < 256,
                z1 / 64 == z2 / 64,
                z1 % 64 == z2 % 64,
        ;
    }
    if b1.len() > 3 {
        assert(b2.len() > 3) by {
            if b2.len() <= 3 {
                assert(e.len() == 4);
                assert(base64_encode_spec(b1.skip(3)).len() >= 4);
            }
        }
        let r1 = base64_encode_spec(b1.skip(3));
        let r2 = base64_encode_spec(b2.skip(3));
        assert(r1 =~= e.skip(4));
        assert(r2 =~= base64_encode_spec(b2).skip(4));
        lemma_base64_injective(b1.skip(3), b2.skip(3));
        assert forall|i: int| 0 <= i < b1.len() implies b1[i] == b2[i] by {
            if i >= 3 {
                assert(b1[i] == b1.skip(3)[i - 3]);
                assert(b2[i] == b2.skip(3)[i - 3]);
            }
        }
        assert(b1 =~= b2);
    } else {
        assert(b2.len() <= 3) by {
            if b2.len() > 3 {
                assert(base64_encode_spec(b2).len() == 4 + base64_encode_spec(b2.skip(3)).len());
                assert(base64_encode_spec(b2.skip(3)).len() >= 4);
            }
        }
        assert(b1 =~= b2);
    }
}

proof fn lemma_hex_digit_injective(a: int, b: int)
    requires
        0 <= a < 16,
        0 <= b < 16,
        hex_digit(a) == hex_digit(b),
    ensures
        a == b,
{
    let ca = hex_digit(a);
    let cb = hex_digit(b);
    assert(ca as u32 == cb as u32);
    if a < 10 {
        assert(ca as u32 == 48 + a);
    } else {
        assert(ca as u32 == 87 + a);
    }
    if b < 10 {
        assert(cb as u32 == 48 + b);
    } else {
        assert(cb as u32 == 87 + b);
    }
}

/// Lower-case hex is injective.
proof fn lemma_hex_injective(a: Seq<u8>, b: Seq<u8>)
    requires
        hex_spec(a) == hex_spec(b),
    ensures
        a == b,
{
    assert(a.len() == b.len()) by {
        assert(hex_spec(a).len() == 2 * a.len());
        assert(hex_spec(b).len() == 2 * b.len());
    }
    assert forall|i: int| 0 <= i < a.len() implies a[i] == b[i] by {
        let k = 2 * i;
        assert(k / 2 == i && k % 2 == 0 && (k + 1) / 2 == i && (k + 1) % 2 == 1);
        assert(hex_spec(a)[k] == hex_digit(a[i] as int / 16));
        assert(hex_spec(b)[k] == hex_digit(b[i] as int / 16));
        assert(hex_spec(a)[k + 1] == hex_digit(a[i] as int % 16));
        assert(hex_spec(b)[k + 1] == hex_digit(b[i] as int % 16));
        lemma_hex_digit_injective(a[i] as int / 16, b[i] as int / 16);
        lemma_hex_digit_injective(a[i] as int % 16, b[i] as int % 16);
        assert(a[i] == b[i]) by (nonlinear_arith)
            requires
                a[i] as int / 16 == b[i] as int / 16,
                a[i] as int % 16 == b[i] as int % 16,
        ;
    }
    assert(a =~= b);
}

/// Reading bytes as ASCII characters is injective.
proof fn lemma_ascii_chars_injective(a: Seq<u8>, b: Seq<u8>)
    requires
        ascii_chars(a) == ascii_chars(b),
    ensures
        a == b,
{
    assert(a.len() == ascii_chars(a).len() && b.len() == ascii_chars(b).len());
    assert forall|i: int| 0 <= i < a.len() implies a[i] == b[i] by {
        assert(ascii_chars(a)[i] == ascii_chars(b)[i]);
        assert(ascii_chars(a)[i] == a[i] as char);
        assert(ascii_chars(b)[i] == b[i] as char);
        assert((a[i] as char) as u8 == a[i]);
        assert((b[i] as char) as u8 == b[i]);
    }
    assert(a =~= b);
}

/// The V2 login password tells passwords apart as far as SHA-1 does: two
/// passwords whose SHA-1 digests differ get different V2 passwords, whoever
/// the user is.
pub proof fn law_v2_password_separates_passwords(user: Seq<char>, p1: Seq<char>, p2: Seq<char>)
    requires
        spec_sha1(encode_utf8(p1)) != spec_sha1(encode_utf8(p2)),
    ensures
        login_encoding_spec(LoginVariant::V2, user, p1).1 != login_encoding_spec(LoginVariant::V2, user, p2).1,
{
    let h1 = sha1_hex_spec(p1);
    let h2 = sha1_hex_spec(p2);
    if login_encoding_spec(LoginVariant::V2, user, p1).1 == login_encoding_spec(LoginVariant::V2, user, p2).1 {
        lemma_ascii_chars_injective(base64_encode_spec(encode_utf8(h1)), base64_encode_spec(encode_utf8(h2)));
        lemma_base64_injective(encode_utf8(h1), encode_utf8(h2));
        encode_utf8_decode_utf8(h1);
        encode_utf8_decode_utf8(h2);
        lemma_hex_injective(spec_sha1(encode_utf8(p1)), spec_sha1(encode_utf8(p2)));
    }
}

/// How the `login_device` credentials are built: the username depends on
/// the username alone and is the same for both variants; the password
/// depends on the password alone; the V2 password is the V1 encoding of the
/// password's SHA-1 hex, and it is built exactly as the username is (the
/// username for `(u, p)` is the V2 password for a password `u`).
pub proof fn law_login_encoding_roles(
    variant: LoginVariant,
    user: Seq<char>,
    other_user: Seq<char>,
    pass: Seq<char>,
    other_pass: Seq<char>,
)
    ensures
        login_encoding_spec(variant, user, pass).0 == login_encoding_spec(variant, user, other_pass).0,
        login_encoding_spec(variant, user, pass).0 == login_encoding_spec(LoginVariant::V1, user, pass).0,
        login_encoding_spec(variant, user, pass).1 == login_encoding_spec(variant, other_user, pass).1,
        login_encoding_spec(LoginVariant::V1, user, pass).1 == ascii_chars(base64_encode_spec(encode_utf8(pass))),
        login_encoding_spec(LoginVariant::V2, user, pass).1 == login_encoding_spec(
            LoginVariant::V1,
            user,
            sha1_hex_spec(pass),
        ).1,
        login_encoding_spec(LoginVariant::V2, user, pass).0 == login_encoding_spec(LoginVariant::V2, other_user, user).1,
{
}

/// The fields read from a JSON reply of the device: its `error_code` (when
/// an integer) and one string field of its `result` object (`key`,
/// `response` or `token`, depending on the reply).
pub struct Reply {
    pub error_code: Option<i64>,
    pub value: Option<String>,
}

/// A device-level `error_code`: absent or 0 is success.
pub fn check_error(code: Option<i64>) -> (r: Result<(), TapoError>)
    ensures
        match code {
            Some(c) => if c == 0 {
                r is Ok
            } else {
                r matches Err(TapoError::DeviceError(e)) && e == c
            },
            None => r is Ok,
        },
{
    match code {
        Some(c) => if c == 0 {
            Ok(())
        } else {
            Err(TapoError::DeviceError(c))
        },
        None => Ok(()),
    }
}

/// The bytes whose standard Base64 encoding is `data`, if there are any.
pub open spec fn base64_decoded(data: Seq<u8>) -> Option<Seq<u8>> {
    if exists|b: Seq<u8>| #[trigger] base64_encode_spec(b) == data {
        Some(choose|b: Seq<u8>| #[trigger] base64_encode_spec(b) == data)
    } else {
        None
    }
}

/// The request path: `/app`, with `?token=<token>` once logged in.
pub open spec fn request_path_spec(token: Option<Seq<char>>) -> Seq<char> {
    let base = seq!['/', 'a', 'p', 'p'];
    match token {
        Some(t) => base + seq!['?', 't', 'o', 'k', 'e', 'n', '='] + t,
        None => base,
    }
}

/// A session with a device speaking secure passthrough.
pub struct PassthroughClient {
    host: String,
    cookie: String,
    key: [u8; 16],
    iv: [u8; 16],
    token: Option<String>,
}

/// The outcome of one `login_device` attempt.
pub enum LoginStep {
    /// The device issued a session token.
    Token(String),
    /// The reply could not be read: the connection fails with this error.
    Abort(TapoError),
    /// This credential encoding failed with this error; the next may be tried.
    Next(TapoError),
}

impl PassthroughClient {
    pub closed spec fn host_view(&self) -> Seq<char> {
        self.host@
    }

    pub closed spec fn cookie_view(&self) -> Seq<char> {
        self.cookie@
    }

    pub closed spec fn key_view(&self) -> Seq<u8> {
        self.key@
    }

    pub closed spec fn iv_view(&self) -> Seq<u8> {
        self.iv@
    }

    pub closed spec fn token_view(&self) -> Option<Seq<char>> {
        match self.token {
            Some(t) => Some(t@),
            None => None,
        }
    }

    /// Checks the reply to the `handshake` request: status 200, a session
    /// cookie, a readable JSON reply without a device error, and a Base64
    /// `result.key`. The result is the cookie and the RSA-encrypted key bytes.
    pub fn handshake_key(status: u16, set_cookie: Option<String>, reply: Option<Reply>) -> (r: Result<
        (String, Vec<u8>),
        TapoError,
    >)
        ensures
            status != 200 ==> (r matches Err(TapoError::Handshake1Status(s)) && s == status),
            status == 200 && set_cookie is None ==> (r matches Err(TapoError::MissingSessionCookie)),
            status == 200 && set_cookie is Some && reply is None ==> (r matches Err(
                TapoError::InvalidPayload,
            )),
            status == 200 && set_cookie is Some && reply is Some ==> ({
                let rep = reply->0;
                match rep.error_code {
                    Some(c) if c != 0 => r matches Err(TapoError::DeviceError(e)) && e == c,
                    _ => match rep.value {
                        None => r matches Err(TapoError::InvalidPayload),
                        Some(k) => match base64_decoded(encode_utf8(k@)) {
                            Some(b) => r matches Ok(t) && t.0@ == set_cookie->0@ && t.1@ == b,
                            None => r matches Err(TapoError::InvalidPayload),
                        },
                    },
                }
            }),
    {
        if status != 200 {
            return Err(TapoError::Handshake1Status(status));
        }
        let cookie = match set_cookie {
            Some(c) => c,
            None => {
                return Err(TapoError::MissingSessionCookie);
            },
        };
        let rep = match reply {
            Some(rep) => rep,
            None => {
                return Err(TapoError::InvalidPayload);
            },
        };
        match check_error(rep.error_code) {
            Ok(()) => {},
            Err(e) => {
                return Err(e);
            },
        }
        let key_b64 = match rep.value {
            Some(k) => k,
            None => {
                return Err(TapoError::InvalidPayload);
            },
        };
        match base64_decode(key_b64.as_str().as_bytes()) {
            Some(enc_key) => {
                proof {
                    let data = encode_utf8(key_b64@);
                    let b = choose|b: Seq<u8>| #[trigger] base64_encode_spec(b) == data;
                    assert(base64_encode_spec(enc_key@) == data);
                    assert(base64_encode_spec(b) == data);
                }
                Ok((cookie, enc_key))
            },
            None => Err(TapoError::InvalidPayload),
        }
    }

    /// Builds the session from the decrypted handshake secret: its first 16
    /// bytes are the AES key and the next 16 the IV. A failed decryption means
    /// the device did not accept our key pair (`AuthMismatch`).
    pub fn from_secret(host: &str, cookie: String, secret: Option<Vec<u8>>) -> (r: Result<
        PassthroughClient,
        TapoError,
    >)
        ensures
            match secret {
                None => r matches Err(TapoError::AuthMismatch),
                Some(s) => if s@.len() < 32 {
                    r matches Err(TapoError::InvalidPayload)
                } else {
                    r matches Ok(c) && c.host_view() == host@ && c.cookie_view() == cookie@
                        && c.key_view() == s@.subrange(0, 16) && c.iv_view() == s@.subrange(16, 32)
                        && c.token_view() is None
                },
            },
    {
        let s = match secret {
            Some(s) => s,
            None => {
                return Err(TapoError::AuthMismatch);
            },
        };
        if s.len() < 32 {
            return Err(TapoError::InvalidPayload);
        }
        let key = crate::bytes::take16(s.as_slice(), 0);
        let iv = crate::bytes::take16(s.as_slice(), 16);
        Ok(PassthroughClient { host: String::from_str(host), cookie, key, iv, token: None })
    }

    /// Completes the RSA handshake: checks the reply as `handshake_key` does,
    /// decrypts the session secret with the private key whose PKCS#1 DER
    /// encoding is `private_key_der`, and builds the session from it as
    /// `from_secret` does.
    pub fn accept_handshake(
        host: &str,
        status: u16,
        set_cookie: Option<String>,
        reply: Option<Reply>,
        private_key_der: &[u8],
    ) -> (r: Result<PassthroughClient, TapoError>)
        ensures
            status != 200 ==> (r matches Err(TapoError::Handshake1Status(s)) && s == status),
            status == 200 && set_cookie is None ==> (r matches Err(TapoError::MissingSessionCookie)),
            status == 200 && set_cookie is Some && reply is None ==> (r matches Err(
                TapoError::InvalidPayload,
            )),
            status == 200 && set_cookie is Some && reply is Some ==> ({
                let rep = reply->0;
                match rep.error_code {
                    Some(c) if c != 0 => r matches Err(TapoError::DeviceError(e)) && e == c,
                    _ => match rep.value {
                        None => r matches Err(TapoError::InvalidPayload),
                        Some(k) => match base64_decoded(encode_utf8(k@)) {
                            None => r matches Err(TapoError::InvalidPayload),
                            Some(b) => match spec_rsa_pkcs1_decrypt(private_key_der@, b) {
                                None => r matches Err(TapoError::AuthMismatch),
                                Some(sec) => if sec.len() < 32 {
                                    r matches Err(TapoError::InvalidPayload)
                                } else {
                                    r matches Ok(c) && c.host_view() == host@ && c.cookie_view()
                                        == set_cookie->0@ && c.key_view() == sec.subrange(0, 16)
                                        && c.iv_view() == sec.subrange(16, 32) && c.token_view() is None
                                },
                            },
                        },
                    },
                }
            }),
    {
        let (cookie, enc_key) = match PassthroughClient::handshake_key(status, set_cookie, reply) {
            Ok(t) => t,
            Err(e) => {
                return Err(e);
            },
        };
        let secret = rsa_pkcs1_decrypt(private_key_der, enc_key.as_slice());
        PassthroughClient::from_secret(host, cookie, secret)
    }

    /// The device address of this session.
    pub fn host(&self) -> (r: &str)
        ensures
            r@ == self.host_view(),
    {
        self.host.as_str()
    }

    /// The session cookie.
    pub fn cookie(&self) -> (r: &str)
        ensures
            r@ == self.cookie_view(),
    {
        self.cookie.as_str()
    }

    /// Records the token `login_device` issued; later requests carry it.
    pub fn set_token(&mut self, token: String)
        ensures
            final(self).token_view() == Some(token@),
            final(self).host_view() == old(self).host_view(),
            final(self).cookie_view() == old(self).cookie_view(),
            final(self).key_view() == old(self).key_view(),
            final(self).iv_view() == old(self).iv_view(),
    {
        self.token = Some(token);
    }

    /// The encrypted, Base64-encoded `securePassthrough` request for `inner`,
    /// and the path to post it to.
    pub fn begin_secure(&self, inner: &[u8]) -> (r: (String, String))
        ensures
            r.0@ == ascii_chars(base64_encode_spec(spec_aes128_cbc_encrypt(self.key_view(), self.iv_view(), inner@))),
            r.1@ == request_path_spec(self.token_view()),
    {
        let ct = aes128_cbc_encrypt(&self.key, &self.iv, inner);
        let request = base64_encode(ct.as_slice());
        let mut path: Vec<u8> = vec![47u8, 97, 112, 112];
        match &self.token {
            Some(tok) => {
                let q: Vec<u8> = vec![63u8, 116, 111, 107, 101, 110, 61];
                push_all(&mut path, q.as_slice());
                let mut out = crate::text::ascii_string(path);
                out.append(tok.as_str());
                proof {
                    assert(out@ =~= request_path_spec(self.token_view()));
                }
                (request, out)
            },
            None => {
                let out = crate::text::ascii_string(path);
                proof {
                    assert(out@ =~= request_path_spec(self.token_view()));
                }
                (request, out)
            },
        }
    }

    /// Reads the reply to a `securePassthrough` request: status 200, a
    /// readable reply without device error, a Base64 `result.response`, and
    /// its AES decryption.
    pub fn finish_secure(&self, status: u16, reply: Option<Reply>) -> (r: Result<Vec<u8>, TapoError>)
        ensures
            status != 200 ==> (r matches Err(TapoError::RequestStatus(s)) && s == status),
            status == 200 && reply is None ==> (r matches Err(TapoError::InvalidPayload)),
            status == 200 && reply is Some ==> ({
                let rep = reply->0;
                match rep.error_code {
                    Some(c) if c != 0 => r matches Err(TapoError::DeviceError(e)) && e == c,
                    _ => match rep.value {
                        None => r matches Err(TapoError::InvalidPayload),
                        Some(v) => if exists|b: Seq<u8>| #[trigger] base64_encode_spec(b) == encode_utf8(v@) {
                            forall|ct: Seq<u8>| #[trigger] base64_encode_spec(ct) == encode_utf8(v@) ==> match spec_aes128_cbc_decrypt(
                                self.key_view(),
                                self.iv_view(),
                                ct,
                            ) {
                                Some(pt) => r matches Ok(out) && out@ == pt,
                                None => r matches Err(TapoError::InvalidPayload),
                            }
                        } else {
                            r matches Err(TapoError::InvalidPayload)
                        },
                    },
                }
            }),
            forall|pt: Seq<u8>|
                status == 200 && reply is Some && (reply->0.error_code is None || reply->0.error_code
                    == Some(0i64)) && reply->0.value is Some && encode_utf8(reply->0.value->0@)
                    == #[trigger] base64_encode_spec(spec_aes128_cbc_encrypt(self.key_view(), self.iv_view(), pt))
                    ==> (r matches Ok(out) && out@ == pt),
    {
        if status != 200 {
            return Err(TapoError::RequestStatus(status));
        }
        let rep = match reply {
            Some(rep) => rep,
            None => {
                return Err(TapoError::InvalidPayload);
            },
        };
        match check_error(rep.error_code) {
            Ok(()) => {},
            Err(e) => {
                return Err(e);
            },
        }
        let resp_b64 = match rep.value {
            Some(v) => v,
            None => {
                return Err(TapoError::InvalidPayload);
            },
        };
        let ct = match base64_decode(resp_b64.as_str().as_bytes()) {
            Some(ct) => ct,
            None => {
                return Err(TapoError::InvalidPayload);
            },
        };
        match aes128_cbc_decrypt(&self.key, &self.iv, ct.as_slice()) {
            Some(pt) => Ok(pt),
            None => Err(TapoError::InvalidPayload),
        }
    }

    /// Decides on one `login_device` attempt from the outcome of the request
    /// and its reply (`None` when the reply is not readable JSON).
    pub fn login_step(outcome: Result<Option<Reply>, TapoError>) -> (r: LoginStep)
        ensures
            match outcome {
                Err(_) => r is Next,
                Ok(None) => r matches LoginStep::Abort(TapoError::InvalidPayload),
                Ok(Some(rep)) => match rep.value {
                    Some(t) => r matches LoginStep::Token(s) && s@ == t@,
                    None => r matches LoginStep::Next(TapoError::DeviceError(c)) && c == (match rep.error_code {
                        Some(c) => c,
                        None => -1501i64,
                    }),
                },
            },
    {
        match outcome {
            Err(e) => LoginStep::Next(e),
            Ok(None) => LoginStep::Abort(TapoError::InvalidPayload),
            Ok(Some(rep)) => match rep.value {
                Some(t) => LoginStep::Token(t),
                None => LoginStep::Next(
                    TapoError::DeviceError(
                        match rep.error_code {
                            Some(c) => c,
                            None => -1501,
                        },
                    ),
                ),
            },
        }
    }
}

} // verus!
