use airsonos2::config::{AirPlayConfig, Config, SonosConfig};
use airsonos2::diagnostics::{
    check_ffmpeg, check_metrics_port, check_player, check_rtsp_ports, check_sonos_reachability,
    check_tcp_port, doctor_report, players_found, zone_rtsp_ports, CheckStatus, DiscoveryProbe, DoctorCheck, DoctorError,
    DoctorReport, FfmpegProbe, MetricsProbe, PortProbe, ReachProbe, RtspProbe,
};
use airsonos2::ids::{PortAllocationError, ZoneId};
use airsonos2::net::IpAddr;
use airsonos2::types::SonosZone;

fn zone(room_name: &str, visible: bool) -> SonosZone {
    SonosZone {
        id: ZoneId::new(&format!("RINCON_{room_name}")),
        room_name: room_name.to_owned(),
        ip: IpAddr::V4(0xC000_020A),
        model: "Sonos One".to_owned(),
        rincon_id: format!("RINCON_{room_name}"),
        is_visible_room: visible,
        is_group_coordinator: true,
    }
}

fn check(name: &str, status: CheckStatus) -> DoctorCheck {
    DoctorCheck {
        name: name.to_owned(),
        status,
        detail: String::new(),
    }
}

#[test]
fn derives_exact_rtsp_ports_for_filtered_zones() {
    let zones = vec![
        zone("Kitchen", true),
        zone("Hidden", false),
        zone("Office", true),
        zone("Bedroom", true),
    ];
    let config = Config {
        sonos: SonosConfig {
            exclude_rooms: vec!["Office".to_owned()],
            ..SonosConfig::default()
        },
        ..Config::default()
    };

    let ports = zone_rtsp_ports(&zones, &config);

    let base = config.airplay.base_rtsp_port;
    assert_eq!(ports.len(), 2);
    assert_eq!(ports[0].0, "Kitchen");
    assert_eq!(*ports[0].1.as_ref().expect("port"), base);
    assert_eq!(ports[1].0, "Bedroom");
    assert_eq!(*ports[1].1.as_ref().expect("port"), base + 1);
}

#[test]
fn rtsp_port_overflow_is_reported_per_zone() {
    let zones = vec![zone("Kitchen", true), zone("Office", true)];
    let config = Config {
        airplay: AirPlayConfig {
            base_rtsp_port: u16::MAX,
            ..AirPlayConfig::default()
        },
        ..Config::default()
    };

    let ports = zone_rtsp_ports(&zones, &config);

    assert_eq!(ports.len(), 2);
    assert!(ports[0].1.is_ok());
    assert!(ports[1].1.is_err());
}

#[test]
fn invalid_metrics_addr_fails_the_metrics_check() {
    let check = check_metrics_port(
        "not-an-addr",
        MetricsProbe::Invalid {
            error: "invalid socket address syntax".to_owned(),
        },
    );

    assert_eq!(check.status, CheckStatus::Fail);
    assert!(check.detail.contains("not-an-addr"));
    assert_eq!(
        check.detail,
        "invalid diagnostics.metrics_addr \"not-an-addr\": invalid socket address syntax"
    );
}

#[test]
fn doctor_report_treats_warnings_as_nonfatal() {
    let report = DoctorReport {
        checks: vec![
            check("pass", CheckStatus::Pass),
            check("warn", CheckStatus::Warn),
        ],
    };

    assert!(report.ok());
}

#[test]
fn doctor_report_fails_when_any_check_fails() {
    let report = DoctorReport {
        checks: vec![check("fail", CheckStatus::Fail)],
    };

    assert!(!report.ok());
}

#[test]
fn encoder_checks_quote_the_first_line() {
    let said = |stdout: &[u8]| {
        check_ffmpeg(FfmpegProbe::Succeeded {
            stdout: stdout.to_vec(),
        })
    };
    assert_eq!(said(b"ffmpeg version 6\r\nbuilt").detail, "ffmpeg version 6");
    assert_eq!(said(b"one").detail, "one");
    assert_eq!(said(b"\nx").detail, "");
    assert_eq!(said(b"").detail, "ffmpeg responded");
    assert_eq!(said(b"").status, CheckStatus::Pass);
    let exited = check_ffmpeg(FfmpegProbe::Exited {
        status: "exit status: 1".to_owned(),
    });
    assert_eq!(exited.status, CheckStatus::Fail);
    assert_eq!(exited.detail, "ffmpeg exited with status exit status: 1");
    let failed = check_ffmpeg(FfmpegProbe::Failed {
        error: "gone".to_owned(),
    });
    assert_eq!(failed.name, "ffmpeg encoder");
    assert_eq!(failed.detail, "gone");
}

#[test]
fn port_checks_name_the_address() {
    let free = check_tcp_port("HTTP stream port", IpAddr::V4(0), 7000, PortProbe::Available);
    assert_eq!(free.detail, "0.0.0.0:7000 is available");
    let taken = check_metrics_port(
        "[::1]:9100",
        MetricsProbe::Addr {
            ip: IpAddr::V6(1),
            port: 9100,
            probe: PortProbe::Failed {
                error: "in use".to_owned(),
            },
        },
    );
    assert_eq!(taken.name, "diagnostics metrics port");
    assert_eq!(taken.status, CheckStatus::Fail);
    assert_eq!(taken.detail, "[::1]:9100 is not available: in use");
}

#[test]
fn rtsp_checks_cover_every_room() {
    let none = check_rtsp_ports(IpAddr::V4(0), Vec::new());
    assert_eq!(none.len(), 1);
    assert_eq!(
        none[0].detail,
        "skipped: no visible Sonos rooms matched the current configuration"
    );
    let checks = check_rtsp_ports(
        IpAddr::V4(0),
        vec![
            (
                "Kitchen".to_owned(),
                RtspProbe::Port {
                    port: 5000,
                    probe: PortProbe::Available,
                },
            ),
            (
                "Office".to_owned(),
                RtspProbe::Unallocated {
                    error: PortAllocationError::Overflow { base: 1, index: 2 },
                },
            ),
        ],
    );
    assert_eq!(checks[0].name, "virtual AirPlay RTSP port: Kitchen");
    assert_eq!(checks[0].status, CheckStatus::Pass);
    assert_eq!(checks[1].status, CheckStatus::Fail);
    assert_eq!(
        checks[1].detail,
        "RTSP port allocation overflowed for base 1 and index 2"
    );
}

#[test]
fn players_are_checked() {
    let kitchen = zone("Kitchen", true);
    let ok = check_player(&kitchen, ReachProbe::Connected);
    assert_eq!(ok.name, "Sonos SOAP reachability: Kitchen");
    assert_eq!(ok.detail, "192.0.2.10:1400 accepted TCP connection");
    let refused = check_player(
        &kitchen,
        ReachProbe::Failed {
            error: "refused".to_owned(),
        },
    );
    assert_eq!(refused.detail, "refused");
    let late = check_player(&kitchen, ReachProbe::TimedOut);
    assert_eq!(late.status, CheckStatus::Fail);
    assert_eq!(late.detail, "timed out connecting to port 1400");
}

fn report(discovery: DiscoveryProbe) -> DoctorReport {
    doctor_report(
        check("a", CheckStatus::Pass),
        check("b", CheckStatus::Pass),
        check("c", CheckStatus::Pass),
        discovery,
    )
}

fn names(report: &DoctorReport) -> Vec<&str> {
    report.checks.iter().map(|c| c.name.as_str()).collect()
}

#[test]
fn reports_hold_all_checks_in_order() {
    let found = report(DiscoveryProbe::Found {
        count: 2,
        rtsp: vec![check("r", CheckStatus::Pass)],
        reachability: vec![check("s", CheckStatus::Pass)],
    });
    assert_eq!(
        names(&found),
        [
            "a",
            "b",
            "c",
            "Sonos discovery",
            "r",
            "s",
            "mDNS AirPlay visibility",
            "AirPlay timing UDP reachability"
        ]
    );
    assert_eq!(found.checks[3].detail, "found 2 Sonos zone(s)");
    assert!(found.ok());
    let none = report(DiscoveryProbe::Found {
        count: 0,
        rtsp: Vec::new(),
        reachability: Vec::new(),
    });
    assert_eq!(none.checks[3].status, CheckStatus::Warn);
    assert_eq!(none.checks[4].detail, "skipped: no Sonos zones discovered");
    assert!(none.ok());
    let failed = report(DiscoveryProbe::Failed {
        error: "no network".to_owned(),
    });
    assert_eq!(failed.checks[3].detail, "no network");
    assert_eq!(failed.checks[4].detail, "skipped: Sonos discovery failed");
    assert!(!failed.ok());
    assert_eq!(
        DoctorError::Internal("x".to_owned()).message(),
        "failed to run doctor: x"
    );
}

#[test]
fn every_found_player_is_checked() {
    let zones = vec![
        zone("Kitchen", true),
        zone("Hidden", false),
        zone("Office", true),
    ];
    let reached = check_sonos_reachability(
        &zones,
        vec![
            ReachProbe::Connected,
            ReachProbe::TimedOut,
            ReachProbe::Connected,
        ],
    );
    let statuses: Vec<CheckStatus> = reached.iter().map(|check| check.status).collect();
    assert_eq!(
        statuses,
        [CheckStatus::Pass, CheckStatus::Fail, CheckStatus::Pass]
    );
    assert_eq!(reached[1].name, "Sonos SOAP reachability: Hidden");
    assert!(check_sonos_reachability(&[], Vec::new()).is_empty());

    let mut config = Config::default();
    config.airplay.base_rtsp_port = u16::MAX;
    let found = players_found(
        &zones,
        &config,
        vec![PortProbe::Available],
        vec![
            ReachProbe::Connected,
            ReachProbe::TimedOut,
            ReachProbe::Connected,
        ],
    );
    let DiscoveryProbe::Found {
        count,
        rtsp,
        reachability,
    } = found
    else {
        panic!("players were found");
    };
    assert_eq!(count, 3);
    assert_eq!(reachability, reached);
    assert_eq!(rtsp.len(), 2);
    assert_eq!(rtsp[0].name, "virtual AirPlay RTSP port: Kitchen");
    assert_eq!(rtsp[0].detail, "0.0.0.0:65535 is available");
    assert_eq!(rtsp[1].name, "virtual AirPlay RTSP port: Office");
    assert_eq!(rtsp[1].status, CheckStatus::Fail);
}

#[test]
fn rooms_that_are_not_bridged_have_no_port() {
    let zones = vec![zone("Hidden", false)];
    let found = players_found(
        &zones,
        &Config::default(),
        Vec::new(),
        vec![ReachProbe::Connected],
    );
    let report = report(found);
    assert_eq!(
        names(&report)[3..6],
        [
            "Sonos discovery",
            "virtual AirPlay RTSP ports",
            "Sonos SOAP reachability: Hidden"
        ]
    );
}
