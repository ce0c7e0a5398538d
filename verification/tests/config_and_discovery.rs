use tapo_proto::ambilight::{average_color, monitor_display_name, Ambilight};
use tapo_proto::config::{default_fps, default_max_bri, default_mode, normalize_protocol};
use tapo_proto::discover::{is_tapo_banner, klap_endpoint_status, octet_key, sort_by_last_octet, Discovered};
use tapo_proto::text::{decimal, hex};
use tapo_proto::{diagnosis, ApiConfig, DeviceConfig, Protocol, TapoError, UiConfigFile, Verdict};

#[test]
fn configuration_defaults() {
    let d = DeviceConfig::default();
    assert_eq!(d.host, "192.168.1.226");
    assert!(d.username.is_empty() && d.password.is_empty() && d.protocol.is_none());
    let a = ApiConfig::default();
    assert!(a.enabled);
    assert_eq!(a.bind, "127.0.0.1");
    assert_eq!(a.port, 7755);
    assert_eq!(UiConfigFile::default().language, "system");
    assert_eq!(default_mode(), "fade");
    assert_eq!(default_fps(), 10);
    assert_eq!(default_max_bri(), 100);
}

#[test]
fn protocol_setting_and_credentials() {
    let mut d = DeviceConfig::default();
    assert_eq!(d.parse_protocol(), None);
    d.protocol = Some("klap".into());
    assert_eq!(d.parse_protocol(), Some(Protocol::Klap));
    d.protocol = Some("passthrough".into());
    assert_eq!(d.parse_protocol(), Some(Protocol::Passthrough));
    d.protocol = Some("KLAP".into());
    assert_eq!(d.parse_protocol(), None);
    match d.check_credentials() {
        Err(TapoError::InvalidParam(m)) => assert_eq!(m, "credentials not configured (edit tapo-config.toml)"),
        other => panic!("unexpected {:?}", other),
    }
    d.username = "me".into();
    assert!(d.check_credentials().is_ok());
}

#[test]
fn device_change_detection() {
    let mut d = DeviceConfig::default();
    d.username = "u".into();
    d.password = "p".into();
    assert!(!d.changed_by("192.168.1.226", "u", "p", &None));
    assert!(!d.changed_by("192.168.1.226", "u", "p", &Some(String::new())));
    assert!(d.changed_by("192.168.1.226", "u", "p", &Some("klap".into())));
    assert!(d.changed_by("10.0.0.1", "u", "p", &None));
    assert!(d.changed_by("192.168.1.226", "u", "q", &None));
    d.protocol = Some("klap".into());
    assert!(!d.changed_by("192.168.1.226", "u", "p", &Some("klap".into())));
    assert_eq!(normalize_protocol(Some(String::new())), None);
    assert_eq!(normalize_protocol(Some("klap".into())), Some("klap".to_string()));
}

#[test]
fn unreachable_host_is_classified() {
    let d = diagnosis("192.0.2.123", None, None);
    assert!(!d.reachable);
    assert_eq!(d.verdict, Verdict::Unreachable);
    assert_eq!(d.message, "No hay respuesta de 192.0.2.123 en la LAN. Revisa IP/red/encendido.");
}

#[test]
fn diagnosis_verdicts() {
    assert_eq!(diagnosis("h", Some(200), Some(200)).verdict, Verdict::KlapReady);
    assert_eq!(diagnosis("h", None, Some(200)).verdict, Verdict::KlapReady);
    let gated = diagnosis("h", Some(200), Some(403));
    assert_eq!(gated.verdict, Verdict::KlapGatedOff);
    assert!(gated.message.starts_with("KLAP presente pero la API local está DESACTIVADA (handshake1=403)."));
    assert_eq!(diagnosis("h", Some(200), Some(400)).verdict, Verdict::PassthroughReady);
    assert_eq!(diagnosis("h", Some(200), None).verdict, Verdict::PassthroughReady);
    let unknown = diagnosis("h", None, Some(400));
    assert_eq!(unknown.verdict, Verdict::Unknown);
    assert_eq!(unknown.message, "Dispositivo accesible pero patrón no reconocido.");
    assert_eq!(
        diagnosis("h", Some(1), Some(200)).message,
        "KLAP disponible (handshake1=200). Debería funcionar con credenciales correctas en tapo-config.toml."
    );
}

#[test]
fn tapo_banner_detection() {
    assert!(is_tapo_banner(b"HTTP/1.1 200 OK\r\nServer: SHIP 2.0\r\n"));
    assert!(is_tapo_banner(b"HTTP/1.1 200 OK\r\nSERVER: ship\r\n"));
    assert!(!is_tapo_banner(b"HTTP/1.1 200 OK\r\nServer: nginx\r\n"));
    assert!(!is_tapo_banner(b""));
    assert!(klap_endpoint_status(200) && klap_endpoint_status(400) && klap_endpoint_status(403));
    assert!(!klap_endpoint_status(404));
}

#[test]
fn discovered_hosts_sort_stably_by_last_octet() {
    assert_eq!(octet_key("192.168.1.7"), 7);
    assert_eq!(octet_key("192.168.1.x"), 0);
    assert_eq!(octet_key("300"), 0);
    let found = vec![
        Discovered { ip: "10.0.0.20".into(), klap: true },
        Discovered { ip: "10.0.0.3".into(), klap: false },
        Discovered { ip: "bad".into(), klap: true },
        Discovered { ip: "10.0.1.3".into(), klap: true },
        Discovered { ip: "10.0.0.0".into(), klap: false },
    ];
    let sorted = sort_by_last_octet(found);
    let ips: Vec<&str> = sorted.iter().map(|d| d.ip.as_str()).collect();
    assert_eq!(ips, vec!["bad", "10.0.0.0", "10.0.0.3", "10.0.1.3", "10.0.0.20"]);
    assert!(!sorted[2].klap && sorted[3].klap);
}

#[test]
fn average_colour_of_frames() {
    assert_eq!(average_color(0, 10, &[255; 40]), (0, 0, 0));
    // Near-black pixels are skipped.
    let frame = [10u8, 10, 10, 255, 200, 100, 50, 255, 100, 50, 0, 255, 0, 0, 0, 255];
    assert_eq!(average_color(2, 2, &frame), (150, 75, 25));
    assert_eq!(average_color(1, 1, &[5, 5, 5, 255]), (0, 0, 0));
}

#[test]
fn monitor_names() {
    assert_eq!(monitor_display_name("", 0), "Display 1");
    assert_eq!(monitor_display_name("\\\\.\\DISPLAY2", 1), "Display 2");
    assert_eq!(monitor_display_name("DELL U2415", 3), "DELL U2415");
}

#[test]
fn ambilight_run_flag() {
    let a = Ambilight::new();
    assert!(!a.is_running());
    a.mark_running();
    assert!(a.is_running());
    a.stop();
    assert!(!a.is_running());
}

#[test]
fn hex_and_decimal_text() {
    assert_eq!(hex(&[0x00, 0xff, 0x1a]), "00ff1a");
    assert_eq!(hex(&[]), "");
    assert_eq!(decimal(0), "0");
    assert_eq!(decimal(1234567890123), "1234567890123");
}
