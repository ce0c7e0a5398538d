use vstd::prelude::*;
use vstd::string::StringExecFns;

use crate::text::{decimal, decimal_spec, signed_decimal, signed_decimal_spec};

verus! {

/// The transport error type of the `reqwest` HTTP client.
#[verifier::external_type_specification]
#[verifier::external_body]
pub struct ExReqwestError(reqwest::Error);

/// The error type of `serde_json`.
#[verifier::external_type_specification]
#[verifier::external_body]
pub struct ExJsonError(serde_json::Error);

/// Errors that can occur while talking to a Tapo device over the local protocols.
#[derive(Debug)]
pub enum TapoError {
    Http(reqwest::Error),
    Json(serde_json::Error),
    Handshake1Status(u16),
    Handshake1Length(usize),
    AuthMismatch,
    Handshake2Status(u16),
    MissingSessionCookie,
    RequestStatus(u16),
    ResponseTooShort(usize),
    ResponseSignatureMismatch,
    InvalidPayload,
    DeviceError(i64),
    NotConnected,
    InvalidParam(String),
}

/// `s` begins with `p`.
pub open spec fn has_prefix(s: Seq<char>, p: Seq<char>) -> bool {
    p.len() <= s.len() && s.subrange(0, p.len() as int) == p
}

/// The `Display` text of a `reqwest` error. The text depends on what the
/// error holds, which is opaque here, so nothing is stated of it.
#[verifier::external_body]
fn reqwest_error_text(e: &reqwest::Error) -> String {
    e.to_string()
}

/// The `Display` text of a `serde_json` error. The text depends on what the
/// error holds, which is opaque here, so nothing is stated of it.
#[verifier::external_body]
fn json_error_text(e: &serde_json::Error) -> String {
    e.to_string()
}

/// `prefix` followed by `rest`.
fn joined(prefix: &str, rest: &str) -> (r: String)
    ensures
        r@ == prefix@ + rest@,
{
    let mut r = String::from_str(prefix);
    r.append(rest);
    r
}

/// `prefix`, then `middle`, then `suffix`.
fn joined3(prefix: &str, middle: &str, suffix: &str) -> (r: String)
    ensures
        r@ == prefix@ + middle@ + suffix@,
{
    let mut r = String::from_str(prefix);
    r.append(middle);
    r.append(suffix);
    r
}

impl TapoError {
    /// The user-facing message of the error. For `Http` and `Json` it is the
    /// stated prefix followed by the outside error's own text.
    pub fn message(&self) -> (r: String)
        ensures
            match self {
                TapoError::Http(_) => has_prefix(r@, "HTTP transport error: "@),
                TapoError::Json(_) => has_prefix(r@, "JSON (de)serialization error: "@),
                TapoError::Handshake1Status(s) => r@ == "handshake1 failed: device returned status "@
                    + decimal_spec(*s as nat),
                TapoError::Handshake1Length(n) => r@ == "handshake1 failed: unexpected response length "@
                    + decimal_spec(*n as nat) + " (expected 48)"@,
                TapoError::AuthMismatch => r@
                    == "handshake1 auth mismatch: the credentials do not match the ones the bulb was provisioned with (server_hash != local computed hash)"@,
                TapoError::Handshake2Status(s) => r@ == "handshake2 failed: device returned status "@
                    + decimal_spec(*s as nat),
                TapoError::MissingSessionCookie => r@
                    == "no TP_SESSIONID cookie returned by device during handshake1"@,
                TapoError::RequestStatus(s) => r@ == "encrypted request failed: device returned status "@
                    + decimal_spec(*s as nat),
                TapoError::ResponseTooShort(n) => r@
                    == "response too short to contain signature + ciphertext ("@ + decimal_spec(*n as nat)
                    + " bytes)"@,
                TapoError::ResponseSignatureMismatch => r@
                    == "response signature verification failed (possible session desync)"@,
                TapoError::InvalidPayload => r@ == "decrypted payload is not valid UTF-8 JSON"@,
                TapoError::DeviceError(c) => r@ == "device returned application error_code "@
                    + signed_decimal_spec(*c as int),
                TapoError::NotConnected => r@ == "session not established (call connect() first)"@,
                TapoError::InvalidParam(m) => r@ == "invalid parameter: "@ + m@,
            },
    {
        match self {
            TapoError::Http(e) => {
                let t = reqwest_error_text(e);
                let r = joined("HTTP transport error: ", t.as_str());
                assert(r@.subrange(0, "HTTP transport error: "@.len() as int) =~= "HTTP transport error: "@);
                r
            },
            TapoError::Json(e) => {
                let t = json_error_text(e);
                let r = joined("JSON (de)serialization error: ", t.as_str());
                assert(r@.subrange(0, "JSON (de)serialization error: "@.len() as int)
                    =~= "JSON (de)serialization error: "@);
                r
            },
            TapoError::Handshake1Status(s) => {
                let d = decimal(*s as u64);
                joined("handshake1 failed: device returned status ", d.as_str())
            },
            TapoError::Handshake1Length(n) => {
                let d = decimal(*n as u64);
                joined3("handshake1 failed: unexpected response length ", d.as_str(), " (expected 48)")
            },
            TapoError::AuthMismatch => String::from_str(
                "handshake1 auth mismatch: the credentials do not match the ones the bulb was provisioned with (server_hash != local computed hash)",
            ),
            TapoError::Handshake2Status(s) => {
                let d = decimal(*s as u64);
                joined("handshake2 failed: device returned status ", d.as_str())
            },
            TapoError::MissingSessionCookie => String::from_str(
                "no TP_SESSIONID cookie returned by device during handshake1",
            ),
            TapoError::RequestStatus(s) => {
                let d = decimal(*s as u64);
                joined("encrypted request failed: device returned status ", d.as_str())
            },
            TapoError::ResponseTooShort(n) => {
                let d = decimal(*n as u64);
                joined3("response too short to contain signature + ciphertext (", d.as_str(), " bytes)")
            },
            TapoError::ResponseSignatureMismatch => String::from_str(
                "response signature verification failed (possible session desync)",
            ),
            TapoError::InvalidPayload => String::from_str("decrypted payload is not valid UTF-8 JSON"),
            TapoError::DeviceError(c) => {
                let d = signed_decimal(*c);
                joined("device returned application error_code ", d.as_str())
            },
            TapoError::NotConnected => String::from_str("session not established (call connect() first)"),
            TapoError::InvalidParam(m) => joined("invalid parameter: ", m.as_str()),
        }
    }

    /// Transient errors are worth a single reconnect and retry.
    pub fn is_transient(&self) -> (r: bool)
        ensures
            r <==> (self is Http || self is RequestStatus || self is ResponseSignatureMismatch
                || self is NotConnected || self is InvalidPayload),
    {
        match self {
            TapoError::Http(_) => true,
            TapoError::RequestStatus(_) => true,
            TapoError::ResponseSignatureMismatch => true,
            TapoError::NotConnected => true,
            TapoError::InvalidPayload => true,
            _ => false,
        }
    }
}

} // verus!
