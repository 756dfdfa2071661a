//! Checking an installation.

use vstd::prelude::*;
use vstd::string::StringExecFns;

use crate::config::Config;
use crate::ids;
use crate::ids::PortAllocationError;
use crate::net;
use crate::net::IpAddr;
use crate::sequences;
use crate::text;
use crate::types;
use crate::types::{filter_zones, virtual_endpoint_for_zone, SonosZone};

verus! {

/// What the checks of an installation found.
#[derive(Debug, PartialEq, Eq)]
pub struct DoctorReport {
    pub checks: Vec<DoctorCheck>,
}

/// What one check found.
#[derive(Debug, PartialEq, Eq)]
pub struct DoctorCheck {
    pub name: String,
    pub status: CheckStatus,
    pub detail: String,
}

/// How a check went.
#[derive(Clone, Copy, Debug, PartialEq, Eq, Structural)]
pub enum CheckStatus {
    Pass,
    Warn,
    Fail,
}

/// Why the checks could not be made.
#[derive(Debug, PartialEq, Eq)]
pub enum DoctorError {
    Internal(String),
}

impl DoctorError {
    /// The error in words.
    pub fn message(&self) -> (r: String)
        ensures
            match self {
                DoctorError::Internal(words) => r@ == "failed to run doctor: "@ + words@,
            },
    {
        match self {
            DoctorError::Internal(words) => {
                let mut r = "failed to run doctor: ".to_owned();
                r.append(words.as_str());
                r
            },
        }
    }
}

/// A check by its contents.
pub struct CheckState {
    pub name: Seq<char>,
    pub status: CheckStatus,
    pub detail: Seq<char>,
}

impl View for DoctorCheck {
    type V = CheckState;

    open spec fn view(&self) -> CheckState {
        CheckState { name: self.name@, status: self.status, detail: self.detail@ }
    }
}

/// The checks by their contents.
pub open spec fn check_states(checks: Seq<DoctorCheck>) -> Seq<CheckState> {
    checks.map_values(|c: DoctorCheck| c@)
}

impl DoctorReport {
    /// Whether no check failed; warnings are no failures.
    pub fn ok(&self) -> (r: bool)
        ensures
            r == forall|i: int|
                0 <= i < self.checks@.len() ==> (#[trigger] self.checks@[i]).status
                    != CheckStatus::Fail,
    {
        let mut i: usize = 0;
        while i < self.checks.len()
            invariant
                i <= self.checks@.len(),
                forall|j: int|
                    0 <= j < i ==> (#[trigger] self.checks@[j]).status != CheckStatus::Fail,
            decreases self.checks@.len() - i,
        {
            if self.checks[i].status == CheckStatus::Fail {
                return false;
            }
            i = i + 1;
        }
        true
    }
}

// ---------------------------------------------------------------------------
// Checks
// ---------------------------------------------------------------------------
/// What came of running the encoder.
#[derive(Debug)]
pub enum FfmpegProbe {
    Succeeded { stdout: Vec<u8> },
    Exited { status: String },
    Failed { error: String },
}

/// The first line of a text, without the line's end.
pub open spec fn first_line(s: Seq<char>) -> Seq<char> {
    match text::find_char_from(s, '\n', 0) {
        Some(i) => if i > 0 && s[i - 1] == '\r' {
            s.take(i - 1)
        } else {
            s.take(i)
        },
        None => s,
    }
}

/// The check of the encoder.
pub open spec fn ffmpeg_state(probe: FfmpegProbe) -> CheckState {
    let (status, detail) = match probe {
        FfmpegProbe::Succeeded { stdout } => {
            let said = text::lossy_text(stdout@);
            (
                CheckStatus::Pass,
                if said.len() == 0 {
                    "ffmpeg responded"@
                } else {
                    first_line(said)
                },
            )
        },
        FfmpegProbe::Exited { status } => (
            CheckStatus::Fail,
            "ffmpeg exited with status "@ + status@,
        ),
        FfmpegProbe::Failed { error } => (CheckStatus::Fail, error@),
    };
    CheckState { name: "ffmpeg encoder"@, status, detail }
}

/// The check of the encoder: it passes with the first line that the encoder says.
pub fn check_ffmpeg(probe: FfmpegProbe) -> (r: DoctorCheck)
    ensures
        r@ == ffmpeg_state(probe),
{
    let name = "ffmpeg encoder".to_owned();
    match probe {
        FfmpegProbe::Succeeded { stdout } => {
            let said = text::read_lossy(stdout.as_slice());
            let detail = if said.as_str().is_empty() {
                "ffmpeg responded".to_owned()
            } else {
                first_line_of(said.as_str())
            };
            DoctorCheck { name, status: CheckStatus::Pass, detail }
        },
        FfmpegProbe::Exited { status } => {
            let mut detail = "ffmpeg exited with status ".to_owned();
            detail.append(status.as_str());
            DoctorCheck { name, status: CheckStatus::Fail, detail }
        },
        FfmpegProbe::Failed { error } => DoctorCheck {
            name,
            status: CheckStatus::Fail,
            detail: error,
        },
    }
}

fn first_line_of(s: &str) -> (r: String)
    ensures
        r@ == first_line(s@),
{
    let chars = text::to_chars(s);
    let end: usize = match text::find_char(&chars, '\n', 0) {
        Some(i) => if i > 0 && chars[i - 1] == '\r' {
            i - 1
        } else {
            i
        },
        None => chars.len(),
    };
    assert(chars@.subrange(0, end as int) =~= chars@.take(end as int));
    assert(chars@.take(chars@.len() as int) =~= chars@);
    text::slice_text(&chars, 0, end)
}

/// What came of listening on a port.
#[derive(Debug)]
pub enum PortProbe {
    Available,
    Failed { error: String },
}

/// The check of a port.
pub open spec fn port_state(name: Seq<char>, bind: IpAddr, port: u16, probe: PortProbe) -> CheckState {
    let addr = bind.with_port(port);
    match probe {
        PortProbe::Available => CheckState {
            name,
            status: CheckStatus::Pass,
            detail: addr + " is available"@,
        },
        PortProbe::Failed { error } => CheckState {
            name,
            status: CheckStatus::Fail,
            detail: addr + " is not available: "@ + error@,
        },
    }
}

/// The check of a port.
pub fn check_tcp_port(name: &str, bind: IpAddr, port: u16, probe: PortProbe) -> (r: DoctorCheck)
    ensures
        r@ == port_state(name@, bind, port, probe),
{
    let mut detail = bind.socket_text(port);
    let status: CheckStatus = match probe {
        PortProbe::Available => {
            detail.append(" is available");
            CheckStatus::Pass
        },
        PortProbe::Failed { error } => {
            detail.append(" is not available: ");
            detail.append(error.as_str());
            CheckStatus::Fail
        },
    };
    DoctorCheck { name: name.to_owned(), status, detail }
}

/// What came of the address that metrics are offered at.
#[derive(Debug)]
pub enum MetricsProbe {
    Addr { ip: IpAddr, port: u16, probe: PortProbe },
    Invalid { error: String },
}

/// The check of the address that metrics are offered at.
pub open spec fn metrics_state(metrics_addr: Seq<char>, probe: MetricsProbe) -> CheckState {
    match probe {
        MetricsProbe::Addr { ip, port, probe } => port_state(
            "diagnostics metrics port"@,
            ip,
            port,
            probe,
        ),
        MetricsProbe::Invalid { error } => CheckState {
            name: "diagnostics metrics port"@,
            status: CheckStatus::Fail,
            detail: "invalid diagnostics.metrics_addr "@ + text::quoted(metrics_addr) + ": "@
                + error@,
        },
    }
}

/// The check of the address that metrics are offered at.
pub fn check_metrics_port(metrics_addr: &str, probe: MetricsProbe) -> (r: DoctorCheck)
    ensures
        r@ == metrics_state(metrics_addr@, probe),
{
    match probe {
        MetricsProbe::Addr { ip, port, probe } => check_tcp_port(
            "diagnostics metrics port",
            ip,
            port,
            probe,
        ),
        MetricsProbe::Invalid { error } => {
            let mut detail = "invalid diagnostics.metrics_addr ".to_owned();
            let addr = text::quote(metrics_addr);
            detail.append(addr.as_str());
            detail.append(": ");
            detail.append(error.as_str());
            DoctorCheck {
                name: "diagnostics metrics port".to_owned(),
                status: CheckStatus::Fail,
                detail,
            }
        },
    }
}

/// The check of the RTSP ports where it was left out for a reason.
pub open spec fn skipped_state(reason: Seq<char>) -> CheckState {
    CheckState {
        name: "virtual AirPlay RTSP ports"@,
        status: CheckStatus::Warn,
        detail: "skipped: "@ + reason,
    }
}

/// The check of the RTSP ports where it was left out for a reason.
pub fn rtsp_ports_skipped_check(reason: &str) -> (r: DoctorCheck)
    ensures
        r@ == skipped_state(reason@),
{
    let mut detail = "skipped: ".to_owned();
    detail.append(reason);
    DoctorCheck {
        name: "virtual AirPlay RTSP ports".to_owned(),
        status: CheckStatus::Warn,
        detail,
    }
}

/// The zones that are bridged.
pub open spec fn bridged(zones: Seq<SonosZone>, config: Config) -> Seq<SonosZone> {
    zones.filter(|zone: SonosZone| types::zone_selected(zone, config.sonos))
}

/// The RTSP port of each bridged zone, or why it has none, as the service
/// allocates them.
pub fn zone_rtsp_ports(zones: &[SonosZone], config: &Config) -> (r: Vec<
    (String, Result<u16, PortAllocationError>),
>)
    ensures
        ({
            let chosen = bridged(zones@, *config);
            &&& r@.len() == chosen.len()
            &&& forall|i: int|
                0 <= i < r@.len() ==> {
                    &&& (#[trigger] r@[i]).0@ == chosen[i].room_name@
                    &&& r@[i].1 == ids::rtsp_port(config.airplay.base_rtsp_port, i as usize)
                }
        }),
{
    let chosen = filter_zones(zones, &config.sonos);
    let mut r: Vec<(String, Result<u16, PortAllocationError>)> = Vec::new();
    let mut i: usize = 0;
    while i < chosen.len()
        invariant
            i <= chosen@.len(),
            r@.len() == i,
            forall|j: int|
                0 <= j < i ==> {
                    &&& (#[trigger] r@[j]).0@ == chosen@[j].room_name@
                    &&& r@[j].1 == ids::rtsp_port(config.airplay.base_rtsp_port, j as usize)
                },
        decreases chosen@.len() - i,
    {
        let port: Result<u16, PortAllocationError> = match virtual_endpoint_for_zone(
            &chosen[i],
            i,
            &config.airplay,
            config.server.state_dir.as_str(),
        ) {
            Ok(endpoint) => Ok(endpoint.rtsp_port),
            Err(error) => Err(error),
        };
        r.push((chosen[i].room_name.clone(), port));
        i = i + 1;
    }
    r
}

/// What came of a zone's RTSP port.
#[derive(Debug)]
pub enum RtspProbe {
    Port { port: u16, probe: PortProbe },
    Unallocated { error: PortAllocationError },
}

/// The check of a zone's RTSP port.
pub open spec fn rtsp_state(room_name: Seq<char>, bind: IpAddr, probe: RtspProbe) -> CheckState {
    let name = "virtual AirPlay RTSP port: "@ + room_name;
    match probe {
        RtspProbe::Port { port, probe } => port_state(name, bind, port, probe),
        RtspProbe::Unallocated { error } => CheckState {
            name,
            status: CheckStatus::Fail,
            detail: error.words(),
        },
    }
}

/// The check of a zone's RTSP port.
pub fn check_rtsp_port(room_name: &str, bind: IpAddr, probe: RtspProbe) -> (r: DoctorCheck)
    ensures
        r@ == rtsp_state(room_name@, bind, probe),
{
    let mut name = "virtual AirPlay RTSP port: ".to_owned();
    name.append(room_name);
    match probe {
        RtspProbe::Port { port, probe } => check_tcp_port(name.as_str(), bind, port, probe),
        RtspProbe::Unallocated { error } => DoctorCheck {
            name,
            status: CheckStatus::Fail,
            detail: error.message(),
        },
    }
}

/// The checks of the RTSP ports of the bridged zones: one for each, in their
/// order, or that there is none.
pub fn check_rtsp_ports(bind: IpAddr, probes: Vec<(String, RtspProbe)>) -> (r: Vec<DoctorCheck>)
    ensures
        probes@.len() == 0 ==> check_states(r@) == seq![
            skipped_state("no visible Sonos rooms matched the current configuration"@),
        ],
        probes@.len() > 0 ==> r@.len() == probes@.len() && forall|i: int|
            0 <= i < r@.len() ==> (#[trigger] r@[i])@ == rtsp_state(
                probes@[i].0@,
                bind,
                probes@[i].1,
            ),
{
    let mut r: Vec<DoctorCheck> = Vec::new();
    if probes.len() == 0 {
        r.push(
            rtsp_ports_skipped_check("no visible Sonos rooms matched the current configuration"),
        );
        assert(check_states(r@) =~= seq![
            skipped_state("no visible Sonos rooms matched the current configuration"@),
        ]);
        return r;
    }
    let ghost all = probes@;
    let mut rest: Vec<(String, RtspProbe)> = probes;
    while rest.len() > 0
        invariant
            r@.len() + rest@.len() == all.len(),
            rest@ == all.skip(r@.len() as int),
            forall|i: int|
                0 <= i < r@.len() ==> (#[trigger] r@[i])@ == rtsp_state(all[i].0@, bind, all[i].1),
        decreases rest@.len(),
    {
        let ghost n = r@.len() as int;
        assert(all.skip(n)[0] == all[n]);
        let (room_name, probe): (String, RtspProbe) = rest.remove(0);
        r.push(check_rtsp_port(room_name.as_str(), bind, probe));
        assert(rest@ =~= all.skip(n + 1));
    }
    r
}

/// What came of connecting to a player.
#[derive(Debug)]
pub enum ReachProbe {
    Connected,
    Failed { error: String },
    TimedOut,
}

/// The check of a player.
pub open spec fn reach_state(room_name: Seq<char>, ip: IpAddr, probe: ReachProbe) -> CheckState {
    let (status, detail) = match probe {
        ReachProbe::Connected => (
            CheckStatus::Pass,
            ip.with_port(net::SONOS_PORT) + " accepted TCP connection"@,
        ),
        ReachProbe::Failed { error } => (CheckStatus::Fail, error@),
        ReachProbe::TimedOut => (CheckStatus::Fail, "timed out connecting to port 1400"@),
    };
    CheckState { name: "Sonos SOAP reachability: "@ + room_name, status, detail }
}

/// The check of a player.
pub fn check_player(zone: &SonosZone, probe: ReachProbe) -> (r: DoctorCheck)
    ensures
        r@ == reach_state(zone.room_name@, zone.ip, probe),
{
    let mut name = "Sonos SOAP reachability: ".to_owned();
    name.append(zone.room_name.as_str());
    match probe {
        ReachProbe::Connected => {
            let mut detail = net::sonos_addr(zone.ip);
            detail.append(" accepted TCP connection");
            DoctorCheck { name, status: CheckStatus::Pass, detail }
        },
        ReachProbe::Failed { error } => DoctorCheck {
            name,
            status: CheckStatus::Fail,
            detail: error,
        },
        ReachProbe::TimedOut => DoctorCheck {
            name,
            status: CheckStatus::Fail,
            detail: "timed out connecting to port 1400".to_owned(),
        },
    }
}

/// The checks of players: one for each, in their order.
pub fn check_sonos_reachability(zones: &[SonosZone], probes: Vec<ReachProbe>) -> (r: Vec<
    DoctorCheck,
>)
    requires
        probes@.len() == zones@.len(),
    ensures
        r@.len() == zones@.len(),
        forall|i: int|
            0 <= i < r@.len() ==> (#[trigger] r@[i])@ == reach_state(
                zones@[i].room_name@,
                zones@[i].ip,
                probes@[i],
            ),
{
    let ghost all = probes@;
    let mut rest: Vec<ReachProbe> = probes;
    let mut r: Vec<DoctorCheck> = Vec::new();
    let mut i: usize = 0;
    while i < zones.len()
        invariant
            i <= zones@.len(),
            all.len() == zones@.len(),
            r@.len() == i,
            rest@ == all.skip(i as int),
            forall|j: int|
                0 <= j < i ==> (#[trigger] r@[j])@ == reach_state(
                    zones@[j].room_name@,
                    zones@[j].ip,
                    all[j],
                ),
        decreases zones@.len() - i,
    {
        assert(all.skip(i as int)[0] == all[i as int]);
        let probe: ReachProbe = rest.remove(0);
        r.push(check_player(&zones[i], probe));
        i = i + 1;
        assert(rest@ =~= all.skip(i as int));
    }
    r
}

// ---------------------------------------------------------------------------
// The report
// ---------------------------------------------------------------------------
/// What came of looking for players.
#[derive(Debug)]
pub enum DiscoveryProbe {
    /// So many were found, and these are the checks of their ports and of
    /// themselves.
    Found { count: usize, rtsp: Vec<DoctorCheck>, reachability: Vec<DoctorCheck> },
    /// None could be looked for.
    Failed { error: String },
}

/// How many of the bridged zones get an RTSP port: all of them, as long as
/// there are ports.
pub open spec fn zones_with_port(zones: Seq<SonosZone>, config: Config) -> int {
    let room = 0x1_0000 - config.airplay.base_rtsp_port;
    if bridged(zones, config).len() < room {
        bridged(zones, config).len() as int
    } else {
        room
    }
}

/// What came of the RTSP port of a bridged zone: what its probe says, where it
/// has a port.
pub open spec fn rtsp_probe_of(config: Config, i: int, probes: Seq<PortProbe>) -> RtspProbe {
    match ids::rtsp_port(config.airplay.base_rtsp_port, i as usize) {
        Ok(port) => RtspProbe::Port { port, probe: probes[i] },
        Err(error) => RtspProbe::Unallocated { error },
    }
}

/// What came of the RTSP port of each bridged zone, in their order. There is a
/// probe for each zone that has a port.
fn rtsp_probes(zones: &[SonosZone], config: &Config, probes: Vec<PortProbe>) -> (r: Vec<
    (String, RtspProbe),
>)
    requires
        probes@.len() == zones_with_port(zones@, *config),
    ensures
        r@.len() == bridged(zones@, *config).len(),
        forall|i: int|
            0 <= i < r@.len() ==> {
                &&& (#[trigger] r@[i]).0@ == bridged(zones@, *config)[i].room_name@
                &&& r@[i].1 == rtsp_probe_of(*config, i, probes@)
            },
{
    let ghost all = probes@;
    let ghost chosen = bridged(zones@, *config);
    let mut rest: Vec<PortProbe> = probes;
    let mut ports = zone_rtsp_ports(zones, config);
    let ghost listed = ports@;
    let total: usize = ports.len();
    let mut r: Vec<(String, RtspProbe)> = Vec::new();
    assert(all.skip(0) =~= all);
    assert(listed.skip(0) =~= listed);
    while ports.len() > 0
        invariant
            all.len() == zones_with_port(zones@, *config),
            chosen == bridged(zones@, *config),
            listed.len() == chosen.len(),
            listed.len() == total,
            forall|i: int|
                0 <= i < listed.len() ==> {
                    &&& (#[trigger] listed[i]).0@ == chosen[i].room_name@
                    &&& listed[i].1 == ids::rtsp_port(config.airplay.base_rtsp_port, i as usize)
                },
            r@.len() + ports@.len() == listed.len(),
            ports@ == listed.skip(r@.len() as int),
            rest@ == all.skip(if r@.len() < all.len() { r@.len() as int } else { all.len() as int }),
            forall|i: int|
                0 <= i < r@.len() ==> {
                    &&& (#[trigger] r@[i]).0@ == chosen[i].room_name@
                    &&& r@[i].1 == rtsp_probe_of(*config, i, all)
                },
        decreases ports@.len(),
    {
        let ghost n = r@.len() as int;
        assert(listed.skip(n)[0] == listed[n]);
        let (room_name, port): (String, Result<u16, PortAllocationError>) = ports.remove(0);
        let probe: RtspProbe = match port {
            Ok(port) => {
                assert(n < all.len());
                assert(all.skip(n)[0] == all[n]);
                let probe: PortProbe = rest.remove(0);
                assert(rest@ =~= all.skip(n + 1));
                RtspProbe::Port { port, probe }
            },
            Err(error) => RtspProbe::Unallocated { error },
        };
        r.push((room_name, probe));
        assert(ports@ =~= listed.skip(n + 1));
    }
    r
}

/// What came of looking for players that were found: how many there are, the
/// checks of the RTSP ports of the bridged ones, and the check of each. There is
/// a probe for each bridged zone that has a port, and one for each player.
pub fn players_found(
    zones: &[SonosZone],
    config: &Config,
    ports: Vec<PortProbe>,
    players: Vec<ReachProbe>,
) -> (r: DiscoveryProbe)
    requires
        ports@.len() == zones_with_port(zones@, *config),
        players@.len() == zones@.len(),
    ensures
        r matches DiscoveryProbe::Found { count, rtsp, reachability } && {
            let chosen = bridged(zones@, *config);
            &&& count == zones@.len()
            &&& chosen.len() == 0 ==> check_states(rtsp@) == seq![
                skipped_state("no visible Sonos rooms matched the current configuration"@),
            ]
            &&& chosen.len() > 0 ==> rtsp@.len() == chosen.len()
            &&& chosen.len() > 0 ==> forall|i: int|
                0 <= i < rtsp@.len() ==> (#[trigger] rtsp@[i])@ == rtsp_state(
                    chosen[i].room_name@,
                    config.server.bind,
                    rtsp_probe_of(*config, i, ports@),
                )
            &&& reachability@.len() == zones@.len()
            &&& forall|i: int|
                0 <= i < reachability@.len() ==> (#[trigger] reachability@[i])@ == reach_state(
                    zones@[i].room_name@,
                    zones@[i].ip,
                    players@[i],
                )
        },
{
    let probes = rtsp_probes(zones, config, ports);
    DiscoveryProbe::Found {
        count: zones.len(),
        rtsp: check_rtsp_ports(config.server.bind, probes),
        reachability: check_sonos_reachability(zones, players),
    }
}

/// The checks of what was found of players.
pub open spec fn discovery_states(probe: DiscoveryProbe) -> Seq<CheckState> {
    match probe {
        DiscoveryProbe::Found { count, rtsp, reachability } => if count == 0 {
            seq![
                CheckState {
                    name: "Sonos discovery"@,
                    status: CheckStatus::Warn,
                    detail: "no Sonos zones responded within 2 seconds"@,
                },
                skipped_state("no Sonos zones discovered"@),
            ]
        } else {
            seq![
                CheckState {
                    name: "Sonos discovery"@,
                    status: CheckStatus::Pass,
                    detail: "found "@ + text::decimal(count as nat) + " Sonos zone(s)"@,
                },
            ] + check_states(rtsp@) + check_states(reachability@)
        },
        DiscoveryProbe::Failed { error } => seq![
            CheckState { name: "Sonos discovery"@, status: CheckStatus::Fail, detail: error@ },
            skipped_state("Sonos discovery failed"@),
        ],
    }
}

/// The checks that cannot be made from here.
pub open spec fn manual_states() -> Seq<CheckState> {
    seq![
        CheckState {
            name: "mDNS AirPlay visibility"@,
            status: CheckStatus::Warn,
            detail: "requires a second host or iOS device to verify _airplay._tcp and _raop._tcp visibility"@,
        },
        CheckState {
            name: "AirPlay timing UDP reachability"@,
            status: CheckStatus::Warn,
            detail: "receiver stack does not expose a local-only deterministic timing probe"@,
        },
    ]
}

/// The report of all checks, in their order.
pub fn doctor_report(
    ffmpeg: DoctorCheck,
    http_port: DoctorCheck,
    metrics_port: DoctorCheck,
    discovery: DiscoveryProbe,
) -> (r: DoctorReport)
    ensures
        check_states(r.checks@) == seq![ffmpeg@, http_port@, metrics_port@] + discovery_states(
            discovery,
        ) + manual_states(),
{
    let mut checks: Vec<DoctorCheck> = Vec::new();
    let ghost mut states: Seq<CheckState> = seq![ffmpeg@, http_port@, metrics_port@];
    checks.push(ffmpeg);
    checks.push(http_port);
    checks.push(metrics_port);
    assert(check_states(checks@) =~= states);
    let ghost found = discovery_states(discovery);
    let name = "Sonos discovery".to_owned();
    match discovery {
        DiscoveryProbe::Found { count, rtsp, reachability } => {
            if count == 0 {
                checks.push(
                    DoctorCheck {
                        name,
                        status: CheckStatus::Warn,
                        detail: "no Sonos zones responded within 2 seconds".to_owned(),
                    },
                );
                checks.push(rtsp_ports_skipped_check("no Sonos zones discovered"));
                assert(check_states(checks@) =~= states + found);
            } else {
                let mut detail = "found ".to_owned();
                let digits = text::decimal_text(count as u64);
                detail.append(digits.as_str());
                detail.append(" Sonos zone(s)");
                checks.push(DoctorCheck { name, status: CheckStatus::Pass, detail });
                let mut rtsp: Vec<DoctorCheck> = rtsp;
                let mut reachability: Vec<DoctorCheck> = reachability;
                checks.append(&mut rtsp);
                checks.append(&mut reachability);
                assert(check_states(checks@) =~= states + found);
            }
        },
        DiscoveryProbe::Failed { error } => {
            checks.push(DoctorCheck { name, status: CheckStatus::Fail, detail: error });
            checks.push(rtsp_ports_skipped_check("Sonos discovery failed"));
            assert(check_states(checks@) =~= states + found);
        },
    }
    checks.push(
        DoctorCheck {
            name: "mDNS AirPlay visibility".to_owned(),
            status: CheckStatus::Warn,
            detail: "requires a second host or iOS device to verify _airplay._tcp and _raop._tcp visibility".to_owned(),
        },
    );
    checks.push(
        DoctorCheck {
            name: "AirPlay timing UDP reachability".to_owned(),
            status: CheckStatus::Warn,
            detail: "receiver stack does not expose a local-only deterministic timing probe".to_owned(),
        },
    );
    assert(check_states(checks@) =~= states + found + manual_states());
    DoctorReport { checks }
}

// ---------------------------------------------------------------------------
// Laws
// ---------------------------------------------------------------------------
/// A report is fine unless a check failed; warnings do not count.
pub proof fn reports_fail_with_their_checks(report: &DoctorReport, r: bool, i: int)
    requires
        call_ensures(DoctorReport::ok, (report,), r),
        0 <= i < report.checks@.len(),
    ensures
        report.checks@[i].status == CheckStatus::Fail ==> !r,
        (forall|k: int|
            0 <= k < report.checks@.len() ==> (#[trigger] report.checks@[k]).status
                == CheckStatus::Pass || report.checks@[k].status == CheckStatus::Warn) ==> r,
{
}

/// The first line of a text ends before its first line break, with the carriage
/// return before that left out; a text of one line is its first line.
pub proof fn first_lines_end_at_the_break(line: Seq<char>, rest: Seq<char>)
    requires
        !line.contains('\n'),
    ensures
        first_line(line) == line,
        line.len() == 0 || line.last() != '\r' ==> first_line(line + seq!['\n'] + rest) == line,
        first_line(line + seq!['\r', '\n'] + rest) == line,
{
    text::lemma_find_char(line, '\n', 0);
    match text::find_char_from(line, '\n', 0) {
        Some(i) => {
            assert(line.contains(line[i]));
        },
        None => {},
    }
    let n = line.len() as int;
    assert forall|j: int| 0 <= j < n implies line[j] != '\n' by {
        assert(line.contains(line[j]));
    }
    let s = line + seq!['\n'] + rest;
    text::lemma_find_char_at(s, '\n', 0, n);
    assert(s.take(n) =~= line);
    if n > 0 {
        assert(s[n - 1] == line.last());
    }
    let t = line + seq!['\r', '\n'] + rest;
    assert(t[n] == '\r' && t[n + 1] == '\n');
    text::lemma_find_char_at(t, '\n', 0, n + 1);
    assert(t.take(n) =~= line);
}

/// The encoder passes where it ran and ended well, with the first line that it
/// said, and fails else, with the reason.
pub proof fn encoders_pass_where_they_ran(probe: FfmpegProbe, r: DoctorCheck)
    requires
        call_ensures(check_ffmpeg, (probe,), r),
    ensures
        r.status == CheckStatus::Pass <==> probe is Succeeded,
        r.status == CheckStatus::Fail <==> !(probe is Succeeded),
        r.name@ == "ffmpeg encoder"@,
        probe matches FfmpegProbe::Succeeded { stdout } ==> {
            let said = text::lossy_text(stdout@);
            &&& said.len() > 0 ==> r.detail@ == first_line(said)
            &&& said.len() == 0 ==> r.detail@ == "ffmpeg responded"@
        },
        probe matches FfmpegProbe::Failed { error } ==> r.detail@ == error@,
        probe matches FfmpegProbe::Exited { status } ==> r.detail@ == "ffmpeg exited with status "@
            + status@,
{
}

/// A port passes where it can be listened on and fails where it cannot, under the
/// name that was given and with its address in front.
pub proof fn ports_pass_where_they_are_free(
    name: &str,
    bind: IpAddr,
    port: u16,
    probe: PortProbe,
    r: DoctorCheck,
)
    requires
        call_ensures(check_tcp_port, (name, bind, port, probe), r),
    ensures
        r.name@ == name@,
        r.status == CheckStatus::Pass <==> probe is Available,
        r.status == CheckStatus::Fail <==> probe is Failed,
        bind.with_port(port).is_prefix_of(r.detail@),
        probe matches PortProbe::Failed { error } ==> error@.is_suffix_of(r.detail@),
{
    let addr = bind.with_port(port);
    assert(addr =~= r.detail@.take(addr.len() as int));
    if let PortProbe::Failed { error } = probe {
        assert(error@ =~= r.detail@.skip(r.detail@.len() - error@.len()));
    }
}

/// The port of the metrics is checked like any other; an address that is none
/// fails.
pub proof fn metrics_need_an_address(metrics_addr: &str, probe: MetricsProbe, r: DoctorCheck)
    requires
        call_ensures(check_metrics_port, (metrics_addr, probe), r),
    ensures
        r.name@ == "diagnostics metrics port"@,
        probe is Invalid ==> r.status == CheckStatus::Fail,
        probe matches MetricsProbe::Addr { ip, port, probe: inner } ==> (r.status
            == CheckStatus::Pass <==> inner is Available) && ip.with_port(port).is_prefix_of(
            r.detail@,
        ),
{
    if let MetricsProbe::Addr { ip, port, probe: inner } = probe {
        let addr = ip.with_port(port);
        assert(addr =~= r.detail@.take(addr.len() as int));
    }
}

/// A player passes where it accepts a connection and fails where it does not, or
/// not in time, under the name of its room.
pub proof fn players_pass_where_they_answer(zone: &SonosZone, probe: ReachProbe, r: DoctorCheck)
    requires
        call_ensures(check_player, (zone, probe), r),
    ensures
        r.name@ == "Sonos SOAP reachability: "@ + zone.room_name@,
        r.status == CheckStatus::Pass <==> probe is Connected,
        r.status == CheckStatus::Fail <==> !(probe is Connected),
        probe matches ReachProbe::Failed { error } ==> r.detail@ == error@,
{
}

/// The players are checked one by one, in the order of the zones.
pub proof fn players_are_checked_in_order(
    zones: &[SonosZone],
    probes: Vec<ReachProbe>,
    r: Vec<DoctorCheck>,
    i: int,
)
    requires
        probes@.len() == zones@.len(),
        call_ensures(check_sonos_reachability, (zones, probes), r),
        0 <= i < zones@.len(),
    ensures
        r@.len() == zones@.len(),
        r@[i].status == CheckStatus::Pass <==> probes@[i] is Connected,
        r@[i].name@ == "Sonos SOAP reachability: "@ + zones@[i].room_name@,
{
    assert(r@[i]@ == reach_state(zones@[i].room_name@, zones@[i].ip, probes@[i]));
}

/// Every bridged zone is to have a port, as many above the base as its place.
pub proof fn bridged_zones_have_ports(
    zones: &[SonosZone],
    config: &Config,
    r: Vec<(String, Result<u16, PortAllocationError>)>,
    filtered: Vec<SonosZone>,
    i: int,
)
    requires
        call_ensures(zone_rtsp_ports, (zones, config), r),
        call_ensures(types::filter_zones, (zones, &config.sonos), filtered),
        0 <= i < r@.len() <= usize::MAX,
    ensures
        r@.len() == filtered@.len(),
        r@[i].0@ == filtered@[i].room_name@,
        r@[i].1 is Ok <==> config.airplay.base_rtsp_port + i <= 0xffff,
        r@[i].1 matches Ok(port) ==> port == config.airplay.base_rtsp_port + i,
{
    assert(bridged(zones@, *config) == filtered@);
    assert(r@[i].0@ == bridged(zones@, *config)[i].room_name@);
}

/// The ports of the zones are checked one by one; without any, a warning says so.
pub proof fn zone_ports_are_checked_in_order(
    bind: IpAddr,
    probes: Vec<(String, RtspProbe)>,
    r: Vec<DoctorCheck>,
    i: int,
)
    requires
        call_ensures(check_rtsp_ports, (bind, probes), r),
    ensures
        probes@.len() == 0 ==> r@.len() == 1 && r@[0].status == CheckStatus::Warn,
        probes@.len() > 0 ==> r@.len() == probes@.len(),
        0 <= i < probes@.len() ==> {
            &&& r@[i].name@ == "virtual AirPlay RTSP port: "@ + probes@[i].0@
            &&& probes@[i].1 is Unallocated ==> r@[i].status == CheckStatus::Fail
            &&& probes@[i].1 matches RtspProbe::Port { port, probe } ==> (r@[i].status
                == CheckStatus::Pass <==> probe is Available)
        },
{
    if probes@.len() == 0 {
        assert(check_states(r@).len() == 1);
        assert(check_states(r@)[0] == r@[0]@);
    }
    if 0 <= i < probes@.len() {
        assert(r@[i]@ == rtsp_state(probes@[i].0@, bind, probes@[i].1));
    }
}

/// A report lists the encoder, the two ports, what was found of the players, and
/// last the two checks that are left to be made by hand, which only warn.
pub proof fn reports_list_all_checks(
    ffmpeg: DoctorCheck,
    http_port: DoctorCheck,
    metrics_port: DoctorCheck,
    discovery: DiscoveryProbe,
    r: DoctorReport,
)
    requires
        call_ensures(doctor_report, (ffmpeg, http_port, metrics_port, discovery), r),
    ensures
        ({
            let checks = r.checks@;
            let n = checks.len() as int;
            &&& n >= 7
            &&& checks[0]@ == ffmpeg@
            &&& checks[1]@ == http_port@
            &&& checks[2]@ == metrics_port@
            &&& checks[3].name@ == "Sonos discovery"@
            &&& checks[n - 2].status == CheckStatus::Warn
            &&& checks[n - 1].status == CheckStatus::Warn
            &&& discovery is Failed ==> n == 7 && checks[3].status == CheckStatus::Fail
                && checks[4].status == CheckStatus::Warn
            &&& discovery matches DiscoveryProbe::Found { count, rtsp, reachability } ==> {
                &&& count == 0 ==> n == 7 && checks[3].status == CheckStatus::Warn
                    && checks[4].status == CheckStatus::Warn
                &&& count > 0 && rtsp@.len() + reachability@.len() > 0 ==> {
                    &&& checks[3].status == CheckStatus::Pass
                    &&& n == 6 + rtsp@.len() + reachability@.len()
                    &&& forall|i: int|
                        0 <= i < rtsp@.len() ==> (#[trigger] rtsp@[i])@ == checks[4 + i]@
                    &&& forall|i: int|
                        0 <= i < reachability@.len() ==> (#[trigger] reachability@[i])@ == checks[4
                            + rtsp@.len() + i]@
                }
            }
        }) || (discovery matches DiscoveryProbe::Found { count, rtsp, reachability } && count > 0
            && rtsp@.len() + reachability@.len() == 0),
{
    let checks = r.checks@;
    let states = check_states(checks);
    let found = discovery_states(discovery);
    let n = checks.len() as int;
    assert(states == seq![ffmpeg@, http_port@, metrics_port@] + found + manual_states());
    assert forall|k: int| 0 <= k < n implies #[trigger] states[k] == checks[k]@ by {}
    assert(states.len() == n);
    assert(n == 3 + found.len() + 2);
    assert(states[0] == ffmpeg@ && states[1] == http_port@ && states[2] == metrics_port@);
    assert(states[n - 2] == manual_states()[0] && states[n - 1] == manual_states()[1]);
    assert(found.len() > 0);
    assert(states[3] == found[0]);
    if found.len() > 1 {
        assert(states[4] == found[1]);
    }
    if let DiscoveryProbe::Found { count, rtsp, reachability } = discovery {
        if count > 0 {
            assert(found.len() == 1 + rtsp@.len() + reachability@.len());
            assert forall|i: int| 0 <= i < rtsp@.len() implies (#[trigger] rtsp@[i])@ == checks[4
                + i]@ by {
                assert(check_states(rtsp@)[i] == rtsp@[i]@);
                assert(found[1 + i] == rtsp@[i]@);
                assert(states[4 + i] == found[1 + i]);
            }
            assert forall|i: int| 0 <= i < reachability@.len() implies (#[trigger] reachability@[i])@
                == checks[4 + rtsp@.len() + i]@ by {
                assert(check_states(reachability@)[i] == reachability@[i]@);
                assert(found[1 + rtsp@.len() + i] == reachability@[i]@);
                assert(states[4 + rtsp@.len() + i] == found[1 + rtsp@.len() + i]);
            }
        }
    }
}

/// Where players were found, every zone is counted and its player checked; every
/// bridged zone has its port checked, and fails where no port is left for it.
pub proof fn found_players_are_all_checked(
    zones: &[SonosZone],
    config: &Config,
    ports: Vec<PortProbe>,
    players: Vec<ReachProbe>,
    r: DiscoveryProbe,
    filtered: Vec<SonosZone>,
    i: int,
)
    requires
        ports@.len() == zones_with_port(zones@, *config),
        players@.len() == zones@.len(),
        zones@.len() <= usize::MAX,
        call_ensures(players_found, (zones, config, ports, players), r),
        call_ensures(types::filter_zones, (zones, &config.sonos), filtered),
    ensures
        r matches DiscoveryProbe::Found { count, rtsp, reachability } && {
            &&& count == zones@.len()
            &&& reachability@.len() == zones@.len()
            &&& 0 <= i < zones@.len() ==> (reachability@[i].status == CheckStatus::Pass
                <==> players@[i] is Connected)
            &&& filtered@.len() > 0 ==> rtsp@.len() == filtered@.len()
            &&& filtered@.len() == 0 ==> rtsp@.len() == 1 && rtsp@[0].status == CheckStatus::Warn
            &&& 0 <= i < filtered@.len() && config.airplay.base_rtsp_port + i <= 0xffff ==> (
            rtsp@[i].status == CheckStatus::Pass <==> ports@[i] is Available)
            &&& 0 <= i < filtered@.len() && config.airplay.base_rtsp_port + i > 0xffff
                ==> rtsp@[i].status == CheckStatus::Fail
        },
{
    assert(bridged(zones@, *config) == filtered@);
    sequences::lemma_filter_keeps(
        zones@,
        |zone: SonosZone| types::zone_selected(zone, config.sonos),
    );
    if let DiscoveryProbe::Found { count, rtsp, reachability } = r {
        if 0 <= i < zones@.len() {
            assert(reachability@[i]@ == reach_state(
                zones@[i].room_name@,
                zones@[i].ip,
                players@[i],
            ));
        }
        if 0 <= i < filtered@.len() {
            assert(rtsp@[i]@ == rtsp_state(
                filtered@[i].room_name@,
                config.server.bind,
                rtsp_probe_of(*config, i, ports@),
            ));
        }
        if filtered@.len() == 0 {
            assert(check_states(rtsp@).len() == 1);
            assert(check_states(rtsp@)[0] == rtsp@[0]@);
        }
    }
}

/// The ports to be probed are those of the bridged zones that get one.
pub proof fn ports_are_probed_while_they_last(zones: Seq<SonosZone>, config: Config, i: int)
    requires
        0 <= i < bridged(zones, config).len(),
    ensures
        i < zones_with_port(zones, config) <==> config.airplay.base_rtsp_port + i <= 0xffff,
        zones_with_port(zones, config) <= bridged(zones, config).len(),
{
}

/// What was not checked is reported as a warning, with the reason.
pub proof fn skipped_checks_only_warn(reason: &str, r: DoctorCheck)
    requires
        call_ensures(rtsp_ports_skipped_check, (reason,), r),
    ensures
        r.status == CheckStatus::Warn,
        reason@.is_suffix_of(r.detail@),
{
    assert(reason@ =~= r.detail@.skip(r.detail@.len() - reason@.len()));
}

} // verus!
