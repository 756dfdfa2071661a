use airsonos2::cli::{
    calibration_plan, check_line, delay_line, pairing_files, pairing_line, zone_table_header,
    zone_table_row,
};
use airsonos2::config::{Config, SyncConfig};
use airsonos2::diagnostics::{CheckStatus, DoctorCheck};
use airsonos2::home_assistant::{
    HomeAssistantError, HomeAssistantOptions, HomeAssistantZoneOffset, HA_FFMPEG_PATH,
    HA_METRICS_ADDR, HA_STATE_DIR,
};
use airsonos2::ids::ZoneId;
use airsonos2::net::IpAddr;
use airsonos2::types::SonosZone;

#[test]
fn defaults_match_config_defaults_except_home_assistant_runtime_paths() {
    let config = HomeAssistantOptions::default()
        .to_config(&Vec::new())
        .expect("default options render");
    let defaults = Config::default();

    assert_eq!(config.server.bind, defaults.server.bind);
    assert_eq!(config.server.http_port, defaults.server.http_port);
    assert_eq!(config.server.log_level, defaults.server.log_level);
    assert_eq!(config.server.state_dir, HA_STATE_DIR);
    assert_eq!(config.airplay, defaults.airplay);
    assert_eq!(config.sonos, defaults.sonos);
    assert_eq!(config.stream.codec, defaults.stream.codec);
    assert_eq!(
        config.stream.mp3_bitrate_kbps,
        defaults.stream.mp3_bitrate_kbps
    );
    assert_eq!(config.stream.prebuffer_ms, defaults.stream.prebuffer_ms);
    assert_eq!(
        config.stream.startup_wait_ms,
        defaults.stream.startup_wait_ms
    );
    assert_eq!(config.stream.http_chunked, defaults.stream.http_chunked);
    assert_eq!(config.stream.icy_metadata, defaults.stream.icy_metadata);
    assert_eq!(config.stream.ffmpeg_path, HA_FFMPEG_PATH);
    assert_eq!(config.diagnostics.metrics_addr, HA_METRICS_ADDR);
    assert_eq!(config.sync, defaults.sync);
}

#[test]
fn empty_rtsp_password_becomes_none() {
    let options = HomeAssistantOptions {
        rtsp_password: String::new(),
        ..HomeAssistantOptions::default()
    };

    let config = options.to_config(&Vec::new()).expect("config");

    assert_eq!(config.airplay.rtsp_password, None);
    let set = HomeAssistantOptions {
        rtsp_password: "pw".to_owned(),
        ..HomeAssistantOptions::default()
    };
    let config = set.to_config(&Vec::new()).expect("config");
    assert_eq!(config.airplay.rtsp_password.as_deref(), Some("pw"));
}

#[test]
fn static_ips_parse_ipv4_and_ipv6() {
    let options = HomeAssistantOptions {
        static_ips: vec!["192.0.2.10".to_owned(), "2001:db8::10".to_owned()],
        ..HomeAssistantOptions::default()
    };
    let addresses = [
        IpAddr::V4(0xC000_020A),
        IpAddr::V6(0x2001_0db8_0000_0000_0000_0000_0000_0010),
    ];

    let config = options
        .to_config(&addresses.iter().map(|ip| Ok(*ip)).collect())
        .expect("config");

    assert_eq!(config.sonos.static_ips, addresses);
    let texts: Vec<String> = config.sonos.static_ips.iter().map(|ip| ip.text()).collect();
    assert_eq!(texts, options.static_ips);
}

#[test]
fn static_ips_reject_invalid_values() {
    let options = HomeAssistantOptions {
        static_ips: vec!["not an ip".to_owned()],
        stream_codec: "aac".to_owned(),
        ..HomeAssistantOptions::default()
    };

    let error = options
        .to_config(&vec![Err("invalid IP address syntax".to_owned())])
        .expect_err("invalid address");

    assert_eq!(
        error.message(),
        "invalid static IP address \"not an ip\": invalid IP address syntax"
    );
}

#[test]
fn stream_codec_accepts_mp3_and_wav_only() {
    for stream_codec in ["mp3", "wav"] {
        let options = HomeAssistantOptions {
            stream_codec: stream_codec.to_owned(),
            ..HomeAssistantOptions::default()
        };
        assert_eq!(
            options
                .to_config(&Vec::new())
                .expect("config")
                .stream
                .codec,
            stream_codec
        );
    }

    let options = HomeAssistantOptions {
        stream_codec: "aac".to_owned(),
        ..HomeAssistantOptions::default()
    };
    assert_eq!(
        options
            .to_config(&Vec::new())
            .expect_err("codec")
            .message(),
        "unsupported stream_codec \"aac\"; expected mp3 or wav"
    );
}

fn offset(zone: &str, offset_ms: i64) -> HomeAssistantZoneOffset {
    HomeAssistantZoneOffset {
        zone: zone.to_owned(),
        offset_ms,
    }
}

#[test]
fn zone_offsets_become_sync_zone_offsets_ms() {
    let options = HomeAssistantOptions {
        zone_offsets: vec![offset("Kitchen", 120), offset("Office", -40)],
        ..HomeAssistantOptions::default()
    };

    let config = options.to_config(&Vec::new()).expect("config");

    assert_eq!(config.sync.zone_offsets_ms.get("Kitchen"), Some(&120));
    assert_eq!(config.sync.zone_offsets_ms.get("Office"), Some(&-40));
}

#[test]
fn the_last_offset_of_a_zone_counts() {
    let options = HomeAssistantOptions {
        zone_offsets: vec![offset("Kitchen", 1), offset("Kitchen", 2)],
        ..HomeAssistantOptions::default()
    };
    let config = options.to_config(&Vec::new()).expect("config");
    assert_eq!(config.sync.zone_offsets_ms.get("Kitchen"), Some(&2));
    assert_eq!(config.sync.zone_offsets_ms.len(), 1);
    let nameless = HomeAssistantOptions {
        zone_offsets: vec![offset("Kitchen", 1), offset("", 2)],
        ..HomeAssistantOptions::default()
    };
    let error = nameless.to_config(&Vec::new()).expect_err("empty zone");
    assert_eq!(error, HomeAssistantError::EmptyZone);
    assert_eq!(
        error.message(),
        "zone_offsets entries must include a non-empty zone"
    );
}

#[test]
fn tables_are_aligned() {
    assert_eq!(
        zone_table_header(),
        format!("{:<24} {:<15} {:<28} {:<8} Model", "Room", "IP", "RINCON", "Coord")
    );
    let zone = SonosZone {
        id: ZoneId::new("RINCON_1"),
        room_name: "Küche".to_owned(),
        ip: IpAddr::V4(0xC000_020A),
        model: "One".to_owned(),
        rincon_id: "RINCON_000000000000000000000000001".to_owned(),
        is_visible_room: true,
        is_group_coordinator: false,
    };
    assert_eq!(
        zone_table_row(&zone),
        format!(
            "{:<24} {:<15} {:<28} {:<8} {}",
            zone.room_name, "192.0.2.10", zone.rincon_id, false, zone.model
        )
    );
    let check = DoctorCheck {
        name: "ffmpeg encoder".to_owned(),
        status: CheckStatus::Warn,
        detail: "ok".to_owned(),
    };
    assert_eq!(
        check_line(&check),
        format!("{:>4}  {:<36} {}", "WARN", "ffmpeg encoder", "ok")
    );
}

#[test]
fn pairing_files_are_listed_in_order() {
    let names = ["b.json", "a.txt", "a.json", ".json", "c"]
        .iter()
        .map(|name| name.to_string())
        .collect();
    assert_eq!(pairing_files(&names), ["a.json", "b.json"]);
    assert_eq!(
        pairing_line("/data/pairings/a.json", 3),
        "/data/pairings/a.json: 3 stored client key(s)"
    );
}

#[test]
fn calibration_uses_the_configured_offsets() {
    let mut config = SyncConfig {
        default_offset_ms: 50,
        ..SyncConfig::default()
    };
    config.zone_offsets_ms.insert("Kitchen".to_owned(), 120);
    let zones = vec!["Office".to_owned(), "Kitchen".to_owned(), "Office".to_owned()];
    let lines: Vec<String> = calibration_plan(&zones, &config)
        .expect("plan")
        .iter()
        .map(delay_line)
        .collect();
    assert_eq!(lines, ["Kitchen: delay 0 ms", "Office: delay 70 ms"]);
    assert!(calibration_plan(&Vec::new(), &config).is_none());
}
