//! The device-level API: which protocol a device speaks, the connected
//! device, and the JSON-RPC requests that change its state. A request is
//! decided here (validation, clamping, the fields it sets); the caller
//! serialises it and sends it over the session.

use vstd::prelude::*;
use vstd::utf8::{decode_utf8, encode_utf8, valid_utf8};

use crate::crypto::{base64_decode, base64_encode_spec};
use crate::error::TapoError;
use crate::klap::KlapClient;
use crate::passthrough::{check_error, PassthroughClient};
use crate::text::{decimal, decimal_spec, string_from_utf8};

verus! {

/// The JSON value type of `serde_json`.
#[verifier::external_type_specification]
#[verifier::external_body]
pub struct ExJsonValue(serde_json::Value);

/// Which local protocol a device speaks.
#[derive(Debug, Clone, Copy, PartialEq, Eq)]
pub enum Protocol {
    /// Newer SMART/Tapo firmware (`/app/handshake1` answers 200).
    Klap,
    /// Legacy `SHIP 2.0` securePassthrough (RSA + AES + token).
    Passthrough,
}

/// The protocol a device speaks, from the status of an unauthenticated
/// handshake1 probe: 200 means KLAP, anything else legacy passthrough.
pub fn protocol_from_probe(status: u16) -> (r: Protocol)
    ensures
        r == (if status == 200 {
            Protocol::Klap
        } else {
            Protocol::Passthrough
        }),
{
    if status == 200 {
        Protocol::Klap
    } else {
        Protocol::Passthrough
    }
}

/// The session a device is reached through.
pub enum Transport {
    Klap(KlapClient),
    Passthrough(PassthroughClient),
}

/// A connected Tapo device.
pub struct TapoDevice {
    transport: Transport,
    protocol: Protocol,
}

impl TapoDevice {
    pub closed spec fn protocol_view(&self) -> Protocol {
        self.protocol
    }

    pub closed spec fn transport_view(&self) -> Transport {
        self.transport
    }

    /// A device reached over a KLAP session.
    pub fn from_klap(client: KlapClient) -> (r: TapoDevice)
        ensures
            r.protocol_view() == Protocol::Klap,
            r.transport_view() == Transport::Klap(client),
    {
        TapoDevice { transport: Transport::Klap(client), protocol: Protocol::Klap }
    }

    /// A device reached over a passthrough session.
    pub fn from_passthrough(client: PassthroughClient) -> (r: TapoDevice)
        ensures
            r.protocol_view() == Protocol::Passthrough,
            r.transport_view() == Transport::Passthrough(client),
    {
        TapoDevice { transport: Transport::Passthrough(client), protocol: Protocol::Passthrough }
    }

    /// The protocol negotiated with the device.
    pub fn protocol(&self) -> (r: Protocol)
        ensures
            r == self.protocol_view(),
    {
        self.protocol
    }

    /// The session the device is reached through.
    pub fn transport(&self) -> (r: &Transport)
        ensures
            *r == self.transport_view(),
    {
        &self.transport
    }

    /// The session, for sending a request over it.
    pub fn transport_mut(&mut self) -> (r: &mut Transport)
        ensures
            *r == old(self).transport_view(),
            final(self).transport_view() == *final(r),
            final(self).protocol_view() == old(self).protocol_view(),
    {
        &mut self.transport
    }
}

/// The fields of a `set_device_info` request (absent fields are not sent).
#[derive(Debug, Clone, Copy, PartialEq, Eq)]
pub struct DeviceParams {
    pub brightness: Option<u8>,
    pub color_temp: Option<u16>,
    pub device_on: Option<bool>,
    pub dynamic_light_effect_enable: Option<u8>,
    pub hue: Option<u16>,
    pub saturation: Option<u8>,
}

/// Request parameters with every field absent.
pub open spec fn no_params() -> DeviceParams {
    DeviceParams {
        brightness: None,
        color_temp: None,
        device_on: None,
        dynamic_light_effect_enable: None,
        hue: None,
        saturation: None,
    }
}

fn empty_params() -> (r: DeviceParams)
    ensures
        r == no_params(),
{
    DeviceParams {
        brightness: None,
        color_temp: None,
        device_on: None,
        dynamic_light_effect_enable: None,
        hue: None,
        saturation: None,
    }
}

/// `v.clamp(lo, hi)`.
pub open spec fn clamp(v: int, lo: int, hi: int) -> int {
    if v < lo {
        lo
    } else if v > hi {
        hi
    } else {
        v
    }
}

/// The on-device rainbow rule `L1`: a blend (`bln`) through exactly 8 colour
/// stops `[brightness, hue, saturation, colour temperature]`, fading for
/// `change_time` ms between stops.
pub struct RainbowRule {
    pub change_time: u32,
    pub stops: Vec<[u32; 4]>,
}

fn invalid_param(prefix: &str, value: u64) -> (r: TapoError)
    ensures
        r matches TapoError::InvalidParam(m) && m@ == prefix@ + decimal_spec(value as nat),
{
    let mut m = String::from_str(prefix);
    let d = decimal(value);
    m.append(d.as_str());
    TapoError::InvalidParam(m)
}

impl TapoDevice {
    /// Turn the bulb on or off: `{"device_on": on}`.
    pub fn power_params(on: bool) -> (r: DeviceParams)
        ensures
            r == (DeviceParams { device_on: Some(on), ..no_params() }),
    {
        DeviceParams { device_on: Some(on), ..empty_params() }
    }

    /// Set brightness, which must be 1..=100; the bulb is switched on too.
    pub fn brightness_params(value: u8) -> (r: Result<DeviceParams, TapoError>)
        ensures
            1 <= value <= 100 ==> r == Ok::<DeviceParams, TapoError>(
                (DeviceParams { device_on: Some(true), brightness: Some(value), ..no_params() }),
            ),
            !(1 <= value <= 100) ==> (r matches Err(TapoError::InvalidParam(m)) && m@
                == "brightness must be 1..=100, got "@ + decimal_spec(value as nat)),
    {
        if !(1 <= value && value <= 100) {
            return Err(invalid_param("brightness must be 1..=100, got ", value as u64));
        }
        Ok(DeviceParams { device_on: Some(true), brightness: Some(value), ..empty_params() })
    }

    /// Hue, saturation and brightness in one request; out-of-range values are
    /// clamped (hue to 360, saturation to 100, brightness to 1..=100) and the
    /// colour temperature is cleared.
    pub fn color_brightness_params(hue: u16, saturation: u8, brightness: u8) -> (r: DeviceParams)
        ensures
            r == (DeviceParams {
                device_on: Some(true),
                hue: Some(clamp(hue as int, 0, 360) as u16),
                saturation: Some(clamp(saturation as int, 0, 100) as u8),
                color_temp: Some(0),
                brightness: Some(clamp(brightness as int, 1, 100) as u8),
                ..no_params()
            }),
    {
        let h = if hue > 360 {
            360
        } else {
            hue
        };
        let s = if saturation > 100 {
            100
        } else {
            saturation
        };
        let b = if brightness < 1 {
            1
        } else if brightness > 100 {
            100
        } else {
            brightness
        };
        DeviceParams {
            device_on: Some(true),
            hue: Some(h),
            saturation: Some(s),
            color_temp: Some(0),
            brightness: Some(b),
            ..empty_params()
        }
    }

    /// Hue (0..=360) and saturation (0..=100); the colour temperature is cleared.
    pub fn hue_saturation_params(hue: u16, saturation: u8) -> (r: Result<DeviceParams, TapoError>)
        ensures
            hue > 360 ==> (r matches Err(TapoError::InvalidParam(m)) && m@ == "hue must be 0..=360, got "@
                + decimal_spec(hue as nat)),
            hue <= 360 && saturation > 100 ==> (r matches Err(TapoError::InvalidParam(m)) && m@
                == "saturation must be 0..=100, got "@ + decimal_spec(saturation as nat)),
            hue <= 360 && saturation <= 100 ==> r == Ok::<DeviceParams, TapoError>(
                (DeviceParams {
                    device_on: Some(true),
                    hue: Some(hue),
                    saturation: Some(saturation),
                    color_temp: Some(0),
                    ..no_params()
                }),
            ),
    {
        if hue > 360 {
            return Err(invalid_param("hue must be 0..=360, got ", hue as u64));
        }
        if saturation > 100 {
            return Err(invalid_param("saturation must be 0..=100, got ", saturation as u64));
        }
        Ok(
            DeviceParams {
                device_on: Some(true),
                hue: Some(hue),
                saturation: Some(saturation),
                color_temp: Some(0),
                ..empty_params()
            },
        )
    }

    /// Colour temperature in kelvin, which must be 2500..=6500.
    pub fn color_temp_params(kelvin: u16) -> (r: Result<DeviceParams, TapoError>)
        ensures
            2500 <= kelvin <= 6500 ==> r == Ok::<DeviceParams, TapoError>(
                (DeviceParams { device_on: Some(true), color_temp: Some(kelvin), ..no_params() }),
            ),
            !(2500 <= kelvin <= 6500) ==> (r matches Err(TapoError::InvalidParam(m)) && m@
                == "color_temp must be 2500..=6500 K, got "@ + decimal_spec(kelvin as nat)),
    {
        if !(2500 <= kelvin && kelvin <= 6500) {
            return Err(invalid_param("color_temp must be 2500..=6500 K, got ", kelvin as u64));
        }
        Ok(DeviceParams { device_on: Some(true), color_temp: Some(kelvin), ..empty_params() })
    }

    /// The plain state set after stopping a dynamic effect: on, effect off.
    pub fn clear_effect_params() -> (r: DeviceParams)
        ensures
            r == (DeviceParams { device_on: Some(true), dynamic_light_effect_enable: Some(0), ..no_params() }),
    {
        DeviceParams { device_on: Some(true), dynamic_light_effect_enable: Some(0), ..empty_params() }
    }

    /// The rainbow rule for `set_rainbow_effect`: fade time clamped to
    /// 400..=8000 ms, brightness to 1..=100, and 8 stops whose hues step by 45
    /// degrees at full saturation.
    pub fn rainbow_rule(change_time_ms: u32, brightness: u8) -> (r: RainbowRule)
        ensures
            r.change_time == clamp(change_time_ms as int, 400, 8000),
            r.stops@.len() == 8,
            forall|i: int|
                0 <= i < 8 ==> (#[trigger] r.stops@[i])@ == seq![
                    clamp(brightness as int, 1, 100) as u32,
                    (45 * i) as u32,
                    100u32,
                    0u32,
                ],
    {
        let b: u32 = if brightness < 1 {
            1
        } else if brightness > 100 {
            100
        } else {
            brightness as u32
        };
        let mut stops: Vec<[u32; 4]> = Vec::new();
        let mut i: u32 = 0;
        while i < 8
            invariant
                i <= 8,
                b == clamp(brightness as int, 1, 100),
                stops@.len() == i,
                forall|k: int|
                    0 <= k < i ==> (#[trigger] stops@[k])@ == seq![b, (45 * k) as u32, 100u32, 0u32],
            decreases 8 - i,
        {
            let stop = [b, i * 45, 100, 0];
            assert(stop@ =~= seq![b, (45 * i) as u32, 100u32, 0u32]);
            stops.push(stop);
            i = i + 1;
        }
        let change_time = if change_time_ms < 400 {
            400
        } else if change_time_ms > 8000 {
            8000
        } else {
            change_time_ms
        };
        RainbowRule { change_time, stops }
    }

    /// Decides on a JSON-RPC reply: `None` means it was not readable JSON; an
    /// `error_code` other than 0 is a device error.
    pub fn rpc_status(reply: Option<Option<i64>>) -> (r: Result<(), TapoError>)
        ensures
            match reply {
                None => r matches Err(TapoError::InvalidPayload),
                Some(Some(c)) => if c == 0 {
                    r is Ok
                } else {
                    r matches Err(TapoError::DeviceError(e)) && e == c
                },
                Some(None) => r is Ok,
            },
    {
        match reply {
            None => Err(TapoError::InvalidPayload),
            Some(code) => check_error(code),
        }
    }
}

/// The friendly name shown for a stored `nickname`: Tapo stores it
/// Base64-encoded, so a non-empty nickname that is the Base64 of UTF-8 text
/// becomes that text; anything else is kept as it is.
pub open spec fn decoded_nickname(nickname: Seq<char>) -> Seq<char> {
    let b = encode_utf8(nickname);
    if nickname.len() > 0 && exists|x: Seq<u8>| #[trigger] base64_encode_spec(x) == b {
        let x = choose|x: Seq<u8>| #[trigger] base64_encode_spec(x) == b;
        if valid_utf8(x) {
            decode_utf8(x)
        } else {
            nickname
        }
    } else {
        nickname
    }
}

/// Decodes a device's Base64 nickname (see `decoded_nickname`).
pub fn decode_nickname(nickname: String) -> (r: String)
    ensures
        r@ == decoded_nickname(nickname@),
{
    if nickname.as_str().unicode_len() == 0 {
        return nickname;
    }
    match base64_decode(nickname.as_str().as_bytes()) {
        Some(bytes) => {
            proof {
                let b = encode_utf8(nickname@);
                let x = choose|x: Seq<u8>| #[trigger] base64_encode_spec(x) == b;
                assert(base64_encode_spec(bytes@) == b);
                assert(base64_encode_spec(x) == b);
            }
            match string_from_utf8(bytes) {
                Some(s) => s,
                None => nickname,
            }
        },
        None => nickname,
    }
}

/// The state a device reports through `get_device_info`.
pub struct DeviceInfo {
    pub device_id: String,
    pub model: String,
    pub fw_ver: String,
    pub hw_ver: String,
    pub mac: String,
    pub ip: String,
    pub device_on: bool,
    pub brightness: Option<u8>,
    pub hue: Option<u16>,
    pub saturation: Option<u8>,
    pub color_temp: Option<u16>,
    /// Friendly name (Base64-decoded once read, see `with_decoded_nickname`).
    pub nickname: String,
    /// Anything else the firmware reports, kept for diagnostics.
    pub extra: serde_json::Value,
}

impl DeviceInfo {
    /// The state with its nickname Base64-decoded, as `get_device_info` returns it.
    pub fn with_decoded_nickname(self) -> (r: DeviceInfo)
        ensures
            r.nickname@ == decoded_nickname(self.nickname@),
            r.device_id == self.device_id,
            r.model == self.model,
            r.fw_ver == self.fw_ver,
            r.hw_ver == self.hw_ver,
            r.mac == self.mac,
            r.ip == self.ip,
            r.device_on == self.device_on,
            r.brightness == self.brightness,
            r.hue == self.hue,
            r.saturation == self.saturation,
            r.color_temp == self.color_temp,
            r.extra == self.extra,
    {
        let DeviceInfo {
            device_id,
            model,
            fw_ver,
            hw_ver,
            mac,
            ip,
            device_on,
            brightness,
            hue,
            saturation,
            color_temp,
            nickname,
            extra,
        } = self;
        let nickname = decode_nickname(nickname);
        DeviceInfo {
            device_id,
            model,
            fw_ver,
            hw_ver,
            mac,
            ip,
            device_on,
            brightness,
            hue,
            saturation,
            color_temp,
            nickname,
            extra,
        }
    }
}

} // verus!
