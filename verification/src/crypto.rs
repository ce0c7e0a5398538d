//! The cryptographic primitives the protocols are built from: SHA-256, SHA-1,
//! MD5, AES-128-CBC with PKCS#7 padding, standard Base64 and RSA PKCS#1 v1.5
//! decryption. Each is a call into its RustCrypto / `base64` crate; the
//! contracts below are what those crates document.

use aes::Aes128;
use base64::Engine;
use cbc::cipher::block_padding::Pkcs7;
use cbc::cipher::{BlockDecryptMut, BlockEncryptMut, KeyIvInit};
use sha1::Sha1;
use sha2::{Digest, Sha256};
use md5::Md5;
use rsa::pkcs1::DecodeRsaPrivateKey;
use vstd::prelude::*;

verus! {

/// The SHA-256 digest of a byte string.
pub uninterp spec fn spec_sha256(data: Seq<u8>) -> Seq<u8>;

/// The SHA-1 digest of a byte string.
pub uninterp spec fn spec_sha1(data: Seq<u8>) -> Seq<u8>;

/// The MD5 digest of a byte string.
pub uninterp spec fn spec_md5(data: Seq<u8>) -> Seq<u8>;

/// AES-128 in CBC mode with PKCS#7 padding, as a function of key, IV and plaintext.
pub uninterp spec fn spec_aes128_cbc_encrypt(key: Seq<u8>, iv: Seq<u8>, plaintext: Seq<u8>) -> Seq<u8>;

/// AES-128-CBC decryption with PKCS#7 unpadding; `None` when the padding is invalid.
pub uninterp spec fn spec_aes128_cbc_decrypt(key: Seq<u8>, iv: Seq<u8>, ciphertext: Seq<u8>) -> Option<Seq<u8>>;

/// RSA PKCS#1 v1.5 decryption of `ciphertext` under the private key whose
/// PKCS#1 DER encoding is `key_der`; `None` when the key does not parse or the
/// decryption fails.
pub uninterp spec fn spec_rsa_pkcs1_decrypt(key_der: Seq<u8>, ciphertext: Seq<u8>) -> Option<Seq<u8>>;

/// `sha2::Sha256::digest`: the 32-byte SHA-256 digest of `data`.
#[verifier::external_body]
pub(crate) fn sha256(data: &[u8]) -> (r: [u8; 32])
    ensures
        r@ == spec_sha256(data@),
{
    Sha256::digest(data).into()
}

/// `sha1::Sha1::digest`: the 20-byte SHA-1 digest of `data`.
#[verifier::external_body]
pub(crate) fn sha1(data: &[u8]) -> (r: Vec<u8>)
    ensures
        r@ == spec_sha1(data@),
        r@.len() == 20,
{
    Sha1::digest(data).to_vec()
}

/// `md5::Md5::digest` (crate `md-5`): the 16-byte MD5 digest of `data`.
#[verifier::external_body]
pub(crate) fn md5(data: &[u8]) -> (r: Vec<u8>)
    ensures
        r@ == spec_md5(data@),
        r@.len() == 16,
{
    Md5::digest(data).to_vec()
}

/// `cbc::Encryptor<Aes128>::encrypt_padded_vec_mut::<Pkcs7>`: the ciphertext
/// is a function of key, IV and plaintext, and PKCS#7 padding always adds
/// between 1 and 16 bytes, up to the next multiple of the block size.
#[verifier::external_body]
pub(crate) fn aes128_cbc_encrypt(key: &[u8; 16], iv: &[u8; 16], plaintext: &[u8]) -> (r: Vec<u8>)
    ensures
        r@ == spec_aes128_cbc_encrypt(key@, iv@, plaintext@),
        r@.len() == (plaintext@.len() / 16 + 1) * 16,
{
    cbc::Encryptor::<Aes128>::new(&(*key).into(), &(*iv).into()).encrypt_padded_vec_mut::<Pkcs7>(plaintext)
}

/// The view of an optional byte vector.
pub open spec fn bytes_opt_view(o: Option<Vec<u8>>) -> Option<Seq<u8>> {
    match o {
        Some(v) => Some(v@),
        None => None,
    }
}

/// `cbc::Decryptor<Aes128>::decrypt_padded_vec_mut::<Pkcs7>`, with its error
/// mapped to `None`. The result is a function of key, IV and ciphertext, and a
/// ciphertext produced by the encryption above with the same key and IV
/// decrypts to the plaintext it was made from.
#[verifier::external_body]
pub(crate) fn aes128_cbc_decrypt(key: &[u8; 16], iv: &[u8; 16], ciphertext: &[u8]) -> (r: Option<Vec<u8>>)
    ensures
        bytes_opt_view(r) == spec_aes128_cbc_decrypt(key@, iv@, ciphertext@),
        forall|pt: Seq<u8>|
            #[trigger] spec_aes128_cbc_encrypt(key@, iv@, pt) == ciphertext@ ==> bytes_opt_view(r)
                == Some(pt),
{
    cbc::Decryptor::<Aes128>::new(&(*key).into(), &(*iv).into()).decrypt_padded_vec_mut::<Pkcs7>(ciphertext).ok()
}

/// The character of the standard Base64 alphabet for a 6-bit value.
pub open spec fn base64_digit(v: int) -> u8 {
    if v < 26 {
        (65 + v) as u8
    } else if v < 52 {
        (97 + v - 26) as u8
    } else if v < 62 {
        (48 + v - 52) as u8
    } else if v == 62 {
        43u8
    } else {
        47u8
    }
}

/// Standard Base64 (RFC 4648 alphabet, `=` padding) of a byte string, as ASCII bytes.
pub open spec fn base64_encode_spec(b: Seq<u8>) -> Seq<u8>
    decreases b.len(),
{
    if b.len() == 0 {
        seq![]
    } else {
        let x = b[0] as int;
        let y = if b.len() > 1 { b[1] as int } else { 0 };
        let z = if b.len() > 2 { b[2] as int } else { 0 };
        let c0 = base64_digit(x / 4);
        let c1 = base64_digit((x % 4) * 16 + y / 16);
        let c2 = if b.len() > 1 { base64_digit((y % 16) * 4 + z / 64) } else { 61u8 };
        let c3 = if b.len() > 2 { base64_digit(z % 64) } else { 61u8 };
        if b.len() <= 3 {
            seq![c0, c1, c2, c3]
        } else {
            seq![c0, c1, c2, c3] + base64_encode_spec(b.skip(3))
        }
    }
}

/// The characters of a byte string read as ASCII.
pub open spec fn ascii_chars(b: Seq<u8>) -> Seq<char> {
    Seq::new(b.len(), |i: int| b[i] as char)
}

/// `base64::engine::general_purpose::STANDARD.encode`: standard, padded Base64.
#[verifier::external_body]
pub(crate) fn base64_encode(data: &[u8]) -> (r: String)
    ensures
        r@ == ascii_chars(base64_encode_spec(data@)),
{
    base64::engine::general_purpose::STANDARD.encode(data)
}

/// `base64::engine::general_purpose::STANDARD.decode`, with its error mapped to
/// `None`. That engine accepts exactly the canonical padded encodings, so the
/// input decodes iff it is the encoding of some byte string, and then to that
/// byte string.
#[verifier::external_body]
pub(crate) fn base64_decode(data: &[u8]) -> (r: Option<Vec<u8>>)
    ensures
        r is Some <==> exists|b: Seq<u8>| #[trigger] base64_encode_spec(b) == data@,
        forall|b: Seq<u8>| #[trigger] base64_encode_spec(b) == data@ ==> bytes_opt_view(r) == Some(b),
{
    base64::engine::general_purpose::STANDARD.decode(data).ok()
}

/// `rsa::RsaPrivateKey::from_pkcs1_der`, then `decrypt` with
/// `Pkcs1v15Encrypt`, each error mapped to `None`. Parsing is deterministic
/// and `decrypt` uses no blinding, so the result is a function of the key
/// encoding and the ciphertext.
#[verifier::external_body]
pub(crate) fn rsa_pkcs1_decrypt(key_der: &[u8], ciphertext: &[u8]) -> (r: Option<Vec<u8>>)
    ensures
        bytes_opt_view(r) == spec_rsa_pkcs1_decrypt(key_der@, ciphertext@),
{
    let key = rsa::RsaPrivateKey::from_pkcs1_der(key_der).ok()?;
    key.decrypt(rsa::Pkcs1v15Encrypt, ciphertext).ok()
}

} // verus!
