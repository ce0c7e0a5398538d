//! Local configuration: the device address and local credentials, the
//! embedded API server and the UI language. (Reading and writing the TOML
//! file is done by the application.)

use vstd::prelude::*;

use crate::device::Protocol;
use crate::error::TapoError;
use crate::text::chars_of;

verus! {

/// Where the device is and how to log in to it.
#[derive(Debug, Clone)]
pub struct DeviceConfig {
    /// IP or hostname (no scheme).
    pub host: String,
    /// Local device username.
    pub username: String,
    pub password: String,
    /// `"klap"`, `"passthrough"`, or absent for auto-detection.
    pub protocol: Option<String>,
}

impl Default for DeviceConfig {
    fn default() -> (r: Self)
        ensures
            r.host@ == "192.168.1.226"@,
            r.username@.len() == 0,
            r.password@.len() == 0,
            r.protocol is None,
    {
        DeviceConfig {
            host: String::from_str("192.168.1.226"),
            username: String::new(),
            password: String::new(),
            protocol: None,
        }
    }
}

/// The protocol a configuration names: exactly `klap` or `passthrough`;
/// anything else (or nothing) means auto-detection.
pub open spec fn protocol_setting(p: Option<Seq<char>>) -> Option<Protocol> {
    match p {
        Some(s) => if s == seq!['k', 'l', 'a', 'p'] {
            Some(Protocol::Klap)
        } else if s == seq!['p', 'a', 's', 's', 't', 'h', 'r', 'o', 'u', 'g', 'h'] {
            Some(Protocol::Passthrough)
        } else {
            None
        },
        None => None,
    }
}

fn chars_eq(a: &Vec<char>, b: &Vec<char>) -> (r: bool)
    ensures
        r == (a@ == b@),
{
    if a.len() != b.len() {
        return false;
    }
    let n = a.len();
    for i in 0..n
        invariant
            n == a@.len(),
            n == b@.len(),
            forall|k: int| 0 <= k < i ==> #[trigger] a@[k] == b@[k],
    {
        if a[i] != b[i] {
            return false;
        }
    }
    assert(a@ =~= b@);
    true
}

impl DeviceConfig {
    pub open spec fn protocol_view(&self) -> Option<Seq<char>> {
        match self.protocol {
            Some(s) => Some(s@),
            None => None,
        }
    }

    /// The protocol this configuration fixes, if any.
    pub fn parse_protocol(&self) -> (r: Option<Protocol>)
        ensures
            r == protocol_setting(self.protocol_view()),
    {
        match &self.protocol {
            Some(s) => {
                let cs = chars_of(s.as_str());
                let klap = vec!['k', 'l', 'a', 'p'];
                let pt = vec!['p', 'a', 's', 's', 't', 'h', 'r', 'o', 'u', 'g', 'h'];
                if chars_eq(&cs, &klap) {
                    Some(Protocol::Klap)
                } else if chars_eq(&cs, &pt) {
                    Some(Protocol::Passthrough)
                } else {
                    None
                }
            },
            None => None,
        }
    }

    /// A connection needs a username: without one the service fails at once.
    pub fn check_credentials(&self) -> (r: Result<(), TapoError>)
        ensures
            self.username@.len() == 0 ==> (r matches Err(TapoError::InvalidParam(m)) && m@
                == "credentials not configured (edit tapo-config.toml)"@),
            self.username@.len() > 0 ==> r is Ok,
    {
        if self.username.as_str().unicode_len() == 0 {
            return Err(
                TapoError::InvalidParam(String::from_str("credentials not configured (edit tapo-config.toml)")),
            );
        }
        Ok(())
    }
}

/// The embedded API server: whether it runs and where it listens.
#[derive(Debug, Clone)]
pub struct ApiConfig {
    pub enabled: bool,
    /// Bind address for the embedded API server.
    pub bind: String,
    pub port: u16,
}

impl Default for ApiConfig {
    fn default() -> (r: Self)
        ensures
            r.enabled,
            r.bind@ == "127.0.0.1"@,
            r.port == 7755,
    {
        ApiConfig { enabled: true, bind: String::from_str("127.0.0.1"), port: 7755 }
    }
}

/// The UI language: `"system"`, `"es"` or `"en"`.
#[derive(Debug, Clone)]
pub struct UiConfigFile {
    pub language: String,
}

impl Default for UiConfigFile {
    fn default() -> (r: Self)
        ensures
            r.language@ == "system"@,
    {
        UiConfigFile { language: String::from_str("system") }
    }
}

/// The default ambilight brightness ceiling.
pub fn default_max_bri() -> (r: u8)
    ensures
        r == 100,
{
    100
}

/// The default streaming mode: client-smoothed fading.
pub fn default_mode() -> (r: String)
    ensures
        r@ == "fade"@,
{
    String::from_str("fade")
}

/// The default screen-capture rate in frames per second.
pub fn default_fps() -> (r: u32)
    ensures
        r == 10,
{
    10
}

/// An optional setting with the empty string read as absent.
pub open spec fn non_empty(p: Option<Seq<char>>) -> Option<Seq<char>> {
    match p {
        Some(s) => if s.len() == 0 {
            None
        } else {
            Some(s)
        },
        None => None,
    }
}

/// `protocol.filter(|s| !s.is_empty())`: an empty protocol setting means
/// auto-detection.
pub fn normalize_protocol(protocol: Option<String>) -> (r: Option<String>)
    ensures
        match r {
            Some(s) => non_empty(match protocol {
                Some(p) => Some(p@),
                None => None,
            }) == Some(s@),
            None => non_empty(match protocol {
                Some(p) => Some(p@),
                None => None,
            }) is None,
        },
{
    match protocol {
        Some(s) => if s.as_str().unicode_len() == 0 {
            None
        } else {
            Some(s)
        },
        None => None,
    }
}

impl DeviceConfig {
    /// Whether new settings change the device or its credentials (and so
    /// need a fresh session): host, username, password or protocol differ,
    /// an empty protocol counting as none.
    pub fn changed_by(&self, host: &str, username: &str, password: &str, protocol: &Option<String>) -> (r: bool)
        ensures
            r == (self.host@ != host@ || self.username@ != username@ || self.password@ != password@
                || self.protocol_view() != non_empty(match protocol {
                Some(p) => Some(p@),
                None => None,
            })),
    {
        let h1 = chars_of(self.host.as_str());
        let h2 = chars_of(host);
        let u1 = chars_of(self.username.as_str());
        let u2 = chars_of(username);
        let p1 = chars_of(self.password.as_str());
        let p2 = chars_of(password);
        if !chars_eq(&h1, &h2) || !chars_eq(&u1, &u2) || !chars_eq(&p1, &p2) {
            return true;
        }
        let new_protocol: Option<Vec<char>> = match protocol {
            Some(p) => {
                let cs = chars_of(p.as_str());
                if cs.len() == 0 {
                    None
                } else {
                    Some(cs)
                }
            },
            None => None,
        };
        match (&self.protocol, &new_protocol) {
            (Some(a), Some(b)) => {
                let ca = chars_of(a.as_str());
                !chars_eq(&ca, b)
            },
            (None, None) => false,
            _ => true,
        }
    }
}

} // verus!
