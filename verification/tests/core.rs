use airsonos2::config::{AirPlayConfig, Config, SonosConfig, StreamConfig, VolumeMode};
use airsonos2::ids::{
    allocate_rtsp_port, hwaddr_from_digest, stable_virtual_hwaddr, PortAllocationError, SessionId,
    ZoneId,
};
use airsonos2::net::{sonos_addr, IpAddr};
use airsonos2::paths::{is_pairing_file, join_path};
use airsonos2::text::{
    decimal_text, lower_text, parse_number, replace_text, signed_text, to_chars, trim_bounds,
};
use airsonos2::text_map::{order_text, TextMap, TextOrder};
use airsonos2::types::{
    build_endpoints, endpoint_identity_path, filter_zones, normalized_set, virtual_endpoint_for_zone,
    SonosZone,
};

fn zone(room_name: &str, visible: bool) -> SonosZone {
    SonosZone {
        id: ZoneId::new(&format!("RINCON_{room_name}")),
        room_name: room_name.to_owned(),
        ip: IpAddr::V4(0xC000_020A),
        model: "Sonos One".to_owned(),
        rincon_id: format!("RINCON_{room_name}"),
        is_visible_room: visible,
        is_group_coordinator: true,
    }
}

fn with_password(toml: &str) -> Config {
    let table: toml::Table = toml::from_str(toml).expect("valid config");
    let mut config = Config::default();
    config.airplay.rtsp_password = table["airplay"]
        .get("rtsp_password")
        .and_then(|value| value.as_str())
        .map(|value| value.to_owned());
    config
}

#[test]
fn config_defaults_match_public_interface() {
    let config = Config::default();

    assert_eq!(config.server.http_port, 7000);
    assert_eq!(config.airplay.pin, "3939");
    assert_eq!(config.airplay.advertised_model, "AudioAccessory5,1");
    assert_eq!(config.airplay.rtsp_password, None);
    assert_eq!(config.airplay.max_clients_per_zone, 10);
    assert_eq!(config.stream.codec, "mp3");
    assert_eq!(config.stream.mp3_bitrate_kbps, 320);
    assert_eq!(config.stream.startup_wait_ms(), 250);
    assert!(config.sonos.auto_discover);
    assert!(config.sonos.static_ips.is_empty());
    assert_eq!(config.diagnostics.metrics_addr, "0.0.0.0:9100");
    assert_eq!(config.sync.default_offset_ms, 0);
    assert_eq!(config.sync.multi_select_window_ms, 750);
    assert_eq!(config.sync.start_deadline_ms, 2_500);
    assert!(config.sync.startup_compensation);
    assert_eq!(config.sync.startup_sample_limit, 20);
    assert_eq!(config.sync.startup_min_samples, 3);
    assert_eq!(config.sync.startup_max_compensation_ms, 1_000);
    assert_eq!(config.sync.play_command_spread_warn_ms, 80);
}

#[test]
fn remaining_defaults() {
    let config = Config::default();
    assert_eq!(config.server.bind, IpAddr::V4(0));
    assert_eq!(config.server.state_dir, "/var/lib/airsonos2");
    assert_eq!(config.server.log_level, "info");
    assert_eq!(config.airplay.name_template, "{room} AirSonos2");
    assert_eq!(config.airplay.base_rtsp_port, 5000);
    assert_eq!(config.airplay.output_sample_rate, 48_000);
    assert_eq!(config.airplay.output_channels, 2);
    assert!(config.sonos.include_rooms.is_empty());
    assert!(config.sonos.exclude_rooms.is_empty());
    assert!(config.sonos.force_standalone_on_start);
    assert!(config.sonos.stop_on_disconnect);
    assert_eq!(config.sonos.volume_mode, VolumeMode::Sonos);
    assert_eq!(config.stream.prebuffer_ms, 500);
    assert!(config.stream.http_chunked);
    assert!(config.stream.icy_metadata);
    assert_eq!(config.stream.ffmpeg_path, "ffmpeg");
    assert_eq!(config.sync.zone_offsets_ms.len(), 0);
}

#[test]
fn startup_wait_follows_the_configuration() {
    let short = StreamConfig {
        prebuffer_ms: 100,
        ..StreamConfig::default()
    };
    assert_eq!(short.startup_wait_ms(), 100);
    let explicit = StreamConfig {
        startup_wait_ms: Some(900),
        ..StreamConfig::default()
    };
    assert_eq!(explicit.startup_wait_ms(), 900);
}

#[test]
fn airplay_rtsp_password_can_be_configured() {
    let config = with_password(
        r#"
            [airplay]
            rtsp_password = "secret"
            "#,
    );

    assert_eq!(config.airplay.rtsp_password.as_deref(), Some("secret"));
    assert_eq!(config.airplay.rtsp_password(), Some("secret"));
    assert!(config.airplay.rtsp_password_enabled());
}

#[test]
fn missing_or_empty_airplay_rtsp_password_is_disabled() {
    let missing = with_password("[airplay]\n");
    let empty = with_password("[airplay]\nrtsp_password = \"\"\n");

    assert_eq!(missing.airplay.rtsp_password, None);
    assert_eq!(missing.airplay.rtsp_password(), None);
    assert!(!missing.airplay.rtsp_password_enabled());
    assert_eq!(empty.airplay.rtsp_password.as_deref(), Some(""));
    assert_eq!(empty.airplay.rtsp_password(), None);
    assert!(!empty.airplay.rtsp_password_enabled());
}

#[test]
fn allocates_deterministic_ports() {
    assert_eq!(allocate_rtsp_port(5000, 0).expect("port"), 5000);
    assert_eq!(allocate_rtsp_port(5000, 5).expect("port"), 5005);
}

#[test]
fn detects_port_overflow() {
    assert!(matches!(
        allocate_rtsp_port(u16::MAX, 1),
        Err(PortAllocationError::Overflow { .. })
    ));
}

#[test]
fn port_overflow_is_described() {
    let error = allocate_rtsp_port(65_000, 600).expect_err("overflow");
    assert_eq!(
        error,
        PortAllocationError::Overflow {
            base: 65_000,
            index: 600
        }
    );
    assert_eq!(
        error.message(),
        "RTSP port allocation overflowed for base 65000 and index 600"
    );
    assert_eq!(allocate_rtsp_port(65_000, 535), Ok(u16::MAX));
    assert!(allocate_rtsp_port(0, usize::MAX).is_err());
}

#[test]
fn virtual_hwaddr_is_stable_and_locally_administered() {
    let zone = ZoneId::new("RINCON_123");

    let first = stable_virtual_hwaddr(&zone);
    let second = stable_virtual_hwaddr(&zone);

    assert_eq!(first, second);
    assert_eq!(first[0], 0x02);
}

#[test]
fn virtual_hwaddr_comes_from_the_digest() {
    // SHA-256 of "abc" begins with ba 78 16 bf 8f.
    assert_eq!(
        stable_virtual_hwaddr(&ZoneId::new("abc")),
        [0x02, 0xba, 0x78, 0x16, 0xbf, 0x8f]
    );
    let mut digest = [0_u8; 32];
    digest[0] = 7;
    digest[4] = 9;
    assert_eq!(hwaddr_from_digest(&digest), [0x02, 7, 0, 0, 0, 9]);
    assert_ne!(
        stable_virtual_hwaddr(&ZoneId::new("RINCON_1")),
        stable_virtual_hwaddr(&ZoneId::new("RINCON_2"))
    );
}

#[test]
fn session_ids_are_read_back() {
    let text = "67e55044-10b1-426f-9247-bb680e5fe0c8";
    let id = SessionId::parse(text).expect("uuid");
    assert_eq!(id.as_uuid(), 0x67e5_5044_10b1_426f_9247_bb68_0e5f_e0c8);
    assert_eq!(id.text(), text);
    for other in [
        "67E55044-10B1-426F-9247-BB680E5FE0C8",
        "67e5504410b1426f9247bb680e5fe0c8",
        "{67e55044-10b1-426f-9247-bb680e5fe0c8}",
        "urn:uuid:67e55044-10b1-426f-9247-bb680e5fe0c8",
    ] {
        assert_eq!(SessionId::parse(other).expect("uuid"), id);
    }
    for bad in ["", "nope", "67e55044-10b1-426f-9247-bb680e5fe0c", "g7e5504410b1426f9247bb680e5fe0c8"] {
        assert!(SessionId::parse(bad).is_err());
    }
    let fresh = SessionId::new();
    assert_ne!(fresh, SessionId::default());
    assert_eq!(SessionId::parse(&fresh.text()).expect("uuid"), fresh);
}

#[test]
fn addresses_have_their_usual_text() {
    assert_eq!(IpAddr::V4(0xC000_0204).text(), "192.0.2.4");
    assert_eq!(sonos_addr(IpAddr::V4(0xC000_0204)), "192.0.2.4:1400");
    let v6 = IpAddr::V6(0x2001_0db8_0000_0000_0000_0000_0000_0010);
    assert_eq!(v6.text(), "2001:db8::10");
    assert_eq!(sonos_addr(v6), "[2001:db8::10]:1400");
    assert_eq!(IpAddr::V6(0).text(), "::");
    assert_eq!(IpAddr::V6(1).text(), "::1");
    assert_eq!(IpAddr::V6(0xFFFF_C000_0204).text(), "::ffff:192.0.2.4");
    assert_eq!(
        IpAddr::V6(0x0001_0000_0000_0001_0000_0000_0000_0001).text(),
        "1:0:0:1::1"
    );
    assert!(IpAddr::V4(0).is_unspecified());
    assert!(IpAddr::V6(0).is_unspecified());
    assert!(!v6.is_unspecified());
    assert!(IpAddr::V4(u32::MAX).is_before(&IpAddr::V6(0)));
    assert!(!IpAddr::V6(0).is_before(&IpAddr::V6(0)));
}

#[test]
fn texts_are_read_and_written() {
    assert_eq!(decimal_text(0), "0");
    assert_eq!(decimal_text(u64::MAX), "18446744073709551615");
    assert_eq!(signed_text(-17), "-17");
    assert_eq!(signed_text(i32::MIN), "-2147483648");
    assert_eq!(lower_text("KüChE Z"), "küche z");
    assert_eq!(replace_text("{room} and {room}", "{room}", "A"), "A and A");
    assert_eq!(replace_text("aaa", "aa", "b"), "ba");
    let chars = to_chars("x +42 ");
    let (from, to) = trim_bounds(&chars, 1, chars.len());
    assert_eq!((from, to), (2, 5));
    assert_eq!(parse_number(&chars, from, to, 100), Some(42));
    assert_eq!(parse_number(&chars, from, to, 41), None);
    assert_eq!(parse_number(&chars, 0, to, 100), None);
    assert_eq!(parse_number(&chars, 0, 0, 100), None);
}

#[test]
fn text_maps_keep_their_keys_in_order() {
    let mut map = TextMap::new();
    map.insert("b".to_owned(), 1);
    map.insert("a".to_owned(), 2);
    map.insert("ab".to_owned(), 3);
    map.insert("b".to_owned(), 4);
    assert_eq!(map.len(), 3);
    assert_eq!(map.entry(0), &("a".to_owned(), 2));
    assert_eq!(map.entry(1), &("ab".to_owned(), 3));
    assert_eq!(map.entry(2), &("b".to_owned(), 4));
    assert_eq!(map.get("ab"), Some(&3));
    map.remove("ab");
    map.remove("missing");
    assert_eq!(map.get("ab"), None);
    assert_eq!(map.count(), 2);
    assert_eq!(order_text("a", "ab"), TextOrder::Before);
    assert_eq!(order_text("b", "ab"), TextOrder::After);
    assert_eq!(order_text("ä", "ä"), TextOrder::Same);
}

#[test]
fn paths_are_joined() {
    assert_eq!(join_path("/data", "pairings"), "/data/pairings");
    assert_eq!(join_path("/data/", "pairings"), "/data/pairings");
    assert_eq!(join_path("/data", "/etc"), "/etc");
    assert_eq!(join_path("", "pairings"), "pairings");
    assert!(is_pairing_file("RINCON_1.json"));
    assert!(!is_pairing_file("RINCON_1.json.tmp"));
    assert!(!is_pairing_file(".json"));
    assert!(!is_pairing_file("json"));
    assert!(!is_pairing_file(".."));
    assert_eq!(
        endpoint_identity_path("/data", "RINCON_1"),
        "/data/endpoints/RINCON_1.json"
    );
}

#[test]
fn filters_zones_by_visibility_include_and_exclude() {
    let zones = vec![
        zone("Kitchen", true),
        zone("Office", true),
        zone("Hidden", false),
    ];
    let config = SonosConfig {
        include_rooms: vec!["Kitchen".to_owned(), "Office".to_owned()],
        exclude_rooms: vec!["Office".to_owned()],
        ..SonosConfig::default()
    };

    let filtered = filter_zones(&zones, &config);

    assert_eq!(filtered.len(), 1);
    assert_eq!(filtered[0].room_name, "Kitchen");
}

#[test]
fn rooms_are_matched_whatever_their_case() {
    let zones = vec![zone("Kitchen", true), zone("Office", true)];
    let config = SonosConfig {
        exclude_rooms: vec!["KITCHEN".to_owned()],
        ..SonosConfig::default()
    };
    let filtered = filter_zones(&zones, &config);
    assert_eq!(filtered.len(), 1);
    assert_eq!(filtered[0].room_name, "Office");
    assert_eq!(
        normalized_set(&["A b".to_owned()]),
        vec!["a b".to_owned()]
    );
}

#[test]
fn builds_virtual_endpoint_with_stable_identity() {
    let zone = zone("Kitchen", true);
    let airplay = AirPlayConfig::default();

    let endpoint =
        virtual_endpoint_for_zone(&zone, 2, &airplay, "/tmp/airsonos2").expect("endpoint");

    assert_eq!(endpoint.display_name, "Kitchen AirSonos2");
    assert_eq!(endpoint.rtsp_port, 5002);
    assert!(endpoint.pairing_store_path.ends_with("RINCON_Kitchen.json"));
}

#[test]
fn endpoints_get_consecutive_ports() {
    let zones = vec![zone("Kitchen", true), zone("Office", true)];
    let mut airplay = AirPlayConfig::default();
    let endpoints = build_endpoints(&zones, &airplay, "/data").expect("endpoints");
    assert_eq!(endpoints[0].rtsp_port, 5000);
    assert_eq!(endpoints[1].rtsp_port, 5001);
    assert_eq!(
        endpoints[1].pairing_store_path,
        "/data/pairings/RINCON_Office.json"
    );
    airplay.base_rtsp_port = u16::MAX;
    assert!(build_endpoints(&zones, &airplay, "/data").is_err());
}
