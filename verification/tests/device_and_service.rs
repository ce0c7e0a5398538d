use tapo_proto::api::{binary_frame_color, color_choice, ColorChoice};
use tapo_proto::device::{decode_nickname, protocol_from_probe, DeviceParams, TapoDevice};
use tapo_proto::service::{next_sweep_hue, should_retry, transition_ms, AnimationDriver, EffectCommand};
use tapo_proto::{Protocol, TapoError};

fn params() -> DeviceParams {
    DeviceParams {
        brightness: None,
        color_temp: None,
        device_on: None,
        dynamic_light_effect_enable: None,
        hue: None,
        saturation: None,
    }
}

fn invalid_message(r: Result<DeviceParams, TapoError>) -> String {
    match r {
        Err(TapoError::InvalidParam(m)) => m,
        other => panic!("unexpected {:?}", other),
    }
}

#[test]
fn probe_status_selects_protocol() {
    assert_eq!(protocol_from_probe(200), Protocol::Klap);
    assert_eq!(protocol_from_probe(403), Protocol::Passthrough);
    assert_eq!(protocol_from_probe(400), Protocol::Passthrough);
}

#[test]
fn power_and_brightness_params() {
    assert_eq!(TapoDevice::power_params(false), DeviceParams { device_on: Some(false), ..params() });
    assert_eq!(
        TapoDevice::brightness_params(70).unwrap(),
        DeviceParams { device_on: Some(true), brightness: Some(70), ..params() }
    );
    assert_eq!(invalid_message(TapoDevice::brightness_params(0)), "brightness must be 1..=100, got 0");
    assert_eq!(invalid_message(TapoDevice::brightness_params(101)), "brightness must be 1..=100, got 101");
    assert!(TapoDevice::brightness_params(1).is_ok());
    assert!(TapoDevice::brightness_params(100).is_ok());
}

#[test]
fn colour_params_validate_and_clamp() {
    assert_eq!(
        TapoDevice::hue_saturation_params(360, 100).unwrap(),
        DeviceParams { device_on: Some(true), hue: Some(360), saturation: Some(100), color_temp: Some(0), ..params() }
    );
    assert_eq!(invalid_message(TapoDevice::hue_saturation_params(361, 200)), "hue must be 0..=360, got 361");
    assert_eq!(invalid_message(TapoDevice::hue_saturation_params(10, 101)), "saturation must be 0..=100, got 101");
    assert_eq!(
        TapoDevice::color_brightness_params(400, 150, 0),
        DeviceParams {
            device_on: Some(true),
            hue: Some(360),
            saturation: Some(100),
            color_temp: Some(0),
            brightness: Some(1),
            ..params()
        }
    );
    assert_eq!(TapoDevice::color_brightness_params(12, 34, 250).brightness, Some(100));
}

#[test]
fn colour_temperature_params() {
    assert_eq!(
        TapoDevice::color_temp_params(4000).unwrap(),
        DeviceParams { device_on: Some(true), color_temp: Some(4000), ..params() }
    );
    assert_eq!(invalid_message(TapoDevice::color_temp_params(2499)), "color_temp must be 2500..=6500 K, got 2499");
    assert_eq!(invalid_message(TapoDevice::color_temp_params(6501)), "color_temp must be 2500..=6500 K, got 6501");
}

#[test]
fn effect_params() {
    assert_eq!(
        TapoDevice::clear_effect_params(),
        DeviceParams { device_on: Some(true), dynamic_light_effect_enable: Some(0), ..params() }
    );
    let rule = TapoDevice::rainbow_rule(100, 0);
    assert_eq!(rule.change_time, 400);
    assert_eq!(rule.stops.len(), 8);
    for (i, stop) in rule.stops.iter().enumerate() {
        assert_eq!(*stop, [1, 45 * i as u32, 100, 0]);
    }
    assert_eq!(TapoDevice::rainbow_rule(9000, 100).change_time, 8000);
    assert_eq!(TapoDevice::rainbow_rule(1234, 50).stops[7], [50, 315, 100, 0]);
}

#[test]
fn rpc_reply_status() {
    assert!(TapoDevice::rpc_status(Some(None)).is_ok());
    assert!(TapoDevice::rpc_status(Some(Some(0))).is_ok());
    match TapoDevice::rpc_status(Some(Some(-1008))) {
        Err(TapoError::DeviceError(-1008)) => {}
        other => panic!("unexpected {:?}", other),
    }
    match TapoDevice::rpc_status(None) {
        Err(TapoError::InvalidPayload) => {}
        other => panic!("unexpected {:?}", other),
    }
}

#[test]
fn nickname_is_base64_decoded_when_possible() {
    assert_eq!(decode_nickname("SGVsbG8=".to_string()), "Hello");
    assert_eq!(decode_nickname("Q29sb3Jlcw==".to_string()), "Colores");
    assert_eq!(decode_nickname("not base64!".to_string()), "not base64!");
    assert_eq!(decode_nickname("".to_string()), "");
    // Base64 of bytes that are not UTF-8 is kept as it is.
    assert_eq!(decode_nickname("/w==".to_string()), "/w==");
}

#[test]
fn retries_only_first_transient_failure() {
    assert!(should_retry(0, &TapoError::RequestStatus(500)));
    assert!(should_retry(0, &TapoError::InvalidPayload));
    assert!(!should_retry(1, &TapoError::RequestStatus(500)));
    assert!(!should_retry(0, &TapoError::AuthMismatch));
    assert!(!should_retry(0, &TapoError::InvalidParam("x".into())));
}

#[test]
fn animation_speed_maps_to_fade_time() {
    assert_eq!(transition_ms(1), 4000);
    assert_eq!(transition_ms(0), 4000);
    assert_eq!(transition_ms(100), 400);
    assert_eq!(transition_ms(255), 400);
    assert_eq!(transition_ms(50), 2219);
}

#[test]
fn animation_driver_is_edge_triggered() {
    let mut d = AnimationDriver::new();
    assert_eq!(d.command(false, 1000), EffectCommand::Idle);
    assert_eq!(d.command(true, 1000), EffectCommand::Apply(1000));
    d.effect_applied(1000);
    assert_eq!(d.command(true, 1000), EffectCommand::Idle);
    assert_eq!(d.command(true, 50), EffectCommand::Apply(200));
    assert_eq!(d.command(true, 90000), EffectCommand::Apply(6000));
    assert_eq!(d.command(false, 1000), EffectCommand::Clear);
    d.effect_cleared();
    assert_eq!(d.command(false, 1000), EffectCommand::Idle);
    assert_eq!(d.pause_ms(true), 250);
    d.effect_rejected();
    assert_eq!(d.command(true, 1000), EffectCommand::Idle);
    assert!(d.sweeping(true));
    assert!(!d.sweeping(false));
    assert_eq!(d.pause_ms(true), 60);
    assert_eq!(next_sweep_hue(358), 1);
    assert_eq!(next_sweep_hue(0), 3);
}

#[test]
fn api_colour_requests() {
    assert_eq!(color_choice(Some(120), Some(100), Some(1), Some(2), Some(3)), ColorChoice::Hsv(120, 100));
    assert_eq!(color_choice(Some(120), None, Some(1), Some(2), Some(3)), ColorChoice::Rgb(1, 2, 3));
    assert_eq!(color_choice(None, Some(5), None, Some(2), Some(3)), ColorChoice::Invalid);
    assert_eq!(binary_frame_color(&[9, 8, 7, 6]), Some((9, 8, 7)));
    assert_eq!(binary_frame_color(&[9, 8]), None);
}

#[test]
fn fade_time_never_grows_with_speed() {
    let mut prev = transition_ms(0);
    for speed in 1..=255u8 {
        let t = transition_ms(speed);
        assert!(t <= prev, "speed {speed}: {t} > {prev}");
        prev = t;
    }
}
