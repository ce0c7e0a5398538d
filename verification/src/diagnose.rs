//! Connectivity diagnosis: from what a host answers to two unauthenticated
//! probes, decide why control might not work and say what to do about it.
//! (The probes themselves are sent by the application.)

use vstd::prelude::*;

verus! {

/// The outcome of a diagnosis.
#[derive(Debug, Clone, Copy, PartialEq, Eq, Structural)]
pub enum Verdict {
    /// Host unreachable on the LAN.
    Unreachable,
    /// KLAP firmware with the local API gated off (HTTP 403 on handshake1).
    /// The user must enable "Third-Party Services" in the Tapo app once.
    KlapGatedOff,
    /// KLAP available (handshake1 returns 200): should work with credentials.
    KlapReady,
    /// Legacy securePassthrough firmware (SHIP 2.0): should work with credentials.
    PassthroughReady,
    /// Reachable but matching no known pattern.
    Unknown,
}

/// What a host answered, the verdict and an actionable message.
#[derive(Debug, Clone)]
pub struct Diagnosis {
    pub host: String,
    pub reachable: bool,
    pub handshake1_status: Option<u16>,
    pub app_root_status: Option<u16>,
    pub verdict: Verdict,
    pub message: String,
}

/// The verdict for the probe results: reachable when either probe got an
/// answer; then handshake1 200 means KLAP ready, 403 KLAP gated off, and
/// otherwise an answering `/` means legacy passthrough.
pub open spec fn verdict_spec(app_root_status: Option<u16>, handshake1_status: Option<u16>) -> Verdict {
    let reachable = handshake1_status is Some || app_root_status is Some;
    if !reachable {
        Verdict::Unreachable
    } else if handshake1_status == Some(200u16) {
        Verdict::KlapReady
    } else if handshake1_status == Some(403u16) {
        Verdict::KlapGatedOff
    } else if app_root_status is Some {
        Verdict::PassthroughReady
    } else {
        Verdict::Unknown
    }
}

/// The diagnosis of `host` given the status of `GET /` and of an
/// unauthenticated `POST /app/handshake1` (`None` where no answer came).
pub fn diagnosis(host: &str, app_root_status: Option<u16>, handshake1_status: Option<u16>) -> (r: Diagnosis)
    ensures
        r.host@ == host@,
        r.reachable == (handshake1_status is Some || app_root_status is Some),
        r.handshake1_status == handshake1_status,
        r.app_root_status == app_root_status,
        r.verdict == verdict_spec(app_root_status, handshake1_status),
        r.verdict == Verdict::Unreachable ==> r.message@ == "No hay respuesta de "@ + host@
            + " en la LAN. Revisa IP/red/encendido."@,
        r.verdict == Verdict::KlapReady ==> r.message@ == "KLAP disponible (handshake1=200). Debería funcionar con credenciales correctas en tapo-config.toml."@,
        r.verdict == Verdict::KlapGatedOff ==> r.message@ == "KLAP presente pero la API local está DESACTIVADA (handshake1=403). Abre la app Tapo -> tu cuenta -> 'Servicios de terceros / Third-Party Compatibility' -> ACTIVAR. No hay forma software de evitar esto."@,
        r.verdict == Verdict::PassthroughReady ==> r.message@ == "Firmware legacy securePassthrough (handshake1 no-200 pero /app responde). Debería funcionar con credenciales correctas."@,
        r.verdict == Verdict::Unknown ==> r.message@ == "Dispositivo accesible pero patrón no reconocido."@,
{
    let reachable = handshake1_status.is_some() || app_root_status.is_some();
    let (verdict, message) = if !reachable {
        let mut m = String::from_str("No hay respuesta de ");
        m.append(host);
        m.append(" en la LAN. Revisa IP/red/encendido.");
        (Verdict::Unreachable, m)
    } else if handshake1_status == Some(200u16) {
        (Verdict::KlapReady, String::from_str("KLAP disponible (handshake1=200). Debería funcionar con credenciales correctas en tapo-config.toml."))
    } else if handshake1_status == Some(403u16) {
        (Verdict::KlapGatedOff, String::from_str("KLAP presente pero la API local está DESACTIVADA (handshake1=403). Abre la app Tapo -> tu cuenta -> 'Servicios de terceros / Third-Party Compatibility' -> ACTIVAR. No hay forma software de evitar esto."))
    } else if app_root_status.is_some() {
        (Verdict::PassthroughReady, String::from_str("Firmware legacy securePassthrough (handshake1 no-200 pero /app responde). Debería funcionar con credenciales correctas."))
    } else {
        (Verdict::Unknown, String::from_str("Dispositivo accesible pero patrón no reconocido."))
    };
    Diagnosis {
        host: String::from_str(host),
        reachable,
        handshake1_status,
        app_root_status,
        verdict,
        message,
    }
}

} // verus!
