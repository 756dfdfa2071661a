//! The configuration of the service.

use vstd::prelude::*;

use crate::net::IpAddr;
use crate::text_map::TextMap;

verus! {

/// The whole configuration.
#[derive(Debug, PartialEq, Eq)]
pub struct Config {
    pub server: ServerConfig,
    pub airplay: AirPlayConfig,
    pub sonos: SonosConfig,
    pub stream: StreamConfig,
    pub diagnostics: DiagnosticsConfig,
    pub sync: SyncConfig,
}

/// Where the service listens and keeps its state.
#[derive(Debug, PartialEq, Eq)]
pub struct ServerConfig {
    pub bind: IpAddr,
    pub http_port: u16,
    pub state_dir: String,
    pub log_level: String,
}

/// How the virtual AirPlay endpoints present themselves.
#[derive(Debug, PartialEq, Eq)]
pub struct AirPlayConfig {
    pub name_template: String,
    pub advertised_model: String,
    pub pin: String,
    pub rtsp_password: Option<String>,
    pub base_rtsp_port: u16,
    pub output_sample_rate: u32,
    pub output_channels: u8,
    pub max_clients_per_zone: usize,
}

/// Which Sonos rooms are bridged, and how they are controlled.
#[derive(Debug, PartialEq, Eq)]
pub struct SonosConfig {
    pub auto_discover: bool,
    pub static_ips: Vec<IpAddr>,
    pub include_rooms: Vec<String>,
    pub exclude_rooms: Vec<String>,
    pub force_standalone_on_start: bool,
    pub stop_on_disconnect: bool,
    pub volume_mode: VolumeMode,
}

/// Where the volume of a session is applied.
#[derive(Clone, Copy, Debug, PartialEq, Eq, Structural)]
pub enum VolumeMode {
    Sonos,
}

/// How the live streams are encoded and served.
#[derive(Debug, PartialEq, Eq)]
pub struct StreamConfig {
    pub codec: String,
    pub mp3_bitrate_kbps: u16,
    pub prebuffer_ms: u64,
    pub startup_wait_ms: Option<u64>,
    pub http_chunked: bool,
    pub icy_metadata: bool,
    pub ffmpeg_path: String,
}

/// Where diagnostics are offered.
#[derive(Debug, PartialEq, Eq)]
pub struct DiagnosticsConfig {
    pub metrics_addr: String,
}

/// How rooms that start together are kept in step.
#[derive(Debug, PartialEq, Eq)]
pub struct SyncConfig {
    pub default_offset_ms: i64,
    pub multi_select_window_ms: u64,
    pub start_deadline_ms: u64,
    pub startup_compensation: bool,
    pub startup_sample_limit: usize,
    pub startup_min_samples: usize,
    pub startup_max_compensation_ms: u64,
    pub play_command_spread_warn_ms: u64,
    pub zone_offsets_ms: TextMap<i64>,
}

impl ServerConfig {
    /// The configuration that stands where nothing is configured.
    pub open spec fn is_default(self) -> bool {
        &&& self.bind == IpAddr::V4(0)
        &&& self.http_port == 7000
        &&& self.state_dir@ == "/var/lib/airsonos2"@
        &&& self.log_level@ == "info"@
    }
}

impl Default for ServerConfig {
    fn default() -> (r: Self)
        ensures
            r.is_default(),
    {
        ServerConfig {
            bind: IpAddr::V4(0),
            http_port: 7000,
            state_dir: "/var/lib/airsonos2".to_owned(),
            log_level: "info".to_owned(),
        }
    }
}

impl AirPlayConfig {
    /// The configuration that stands where nothing is configured.
    pub open spec fn is_default(self) -> bool {
        &&& self.name_template@ == "{room} AirSonos2"@
        &&& self.advertised_model@ == "AudioAccessory5,1"@
        &&& self.pin@ == "3939"@
        &&& self.rtsp_password is None
        &&& self.base_rtsp_port == 5000
        &&& self.output_sample_rate == 48_000
        &&& self.output_channels == 2
        &&& self.max_clients_per_zone == 10
    }

    /// The password that clients have to give: a configured, non-empty one.
    pub open spec fn password(self) -> Option<Seq<char>> {
        match self.rtsp_password {
            Some(p) => if p@.len() > 0 {
                Some(p@)
            } else {
                None
            },
            None => None,
        }
    }

    /// The password that clients have to give, if any.
    pub fn rtsp_password(&self) -> (r: Option<&str>)
        ensures
            match r {
                Some(p) => self.password() == Some(p@),
                None => self.password() is None,
            },
    {
        match &self.rtsp_password {
            Some(p) => if p.as_str().is_empty() {
                None
            } else {
                Some(p.as_str())
            },
            None => None,
        }
    }

    /// Whether clients have to give a password.
    pub fn rtsp_password_enabled(&self) -> (r: bool)
        ensures
            r == (self.password() is Some),
    {
        self.rtsp_password().is_some()
    }
}

impl Default for AirPlayConfig {
    fn default() -> (r: Self)
        ensures
            r.is_default(),
    {
        AirPlayConfig {
            name_template: "{room} AirSonos2".to_owned(),
            advertised_model: "AudioAccessory5,1".to_owned(),
            pin: "3939".to_owned(),
            rtsp_password: None,
            base_rtsp_port: 5000,
            output_sample_rate: 48_000,
            output_channels: 2,
            max_clients_per_zone: 10,
        }
    }
}

impl SonosConfig {
    /// The configuration that stands where nothing is configured.
    pub open spec fn is_default(self) -> bool {
        &&& self.auto_discover
        &&& self.static_ips@.len() == 0
        &&& self.include_rooms@.len() == 0
        &&& self.exclude_rooms@.len() == 0
        &&& self.force_standalone_on_start
        &&& self.stop_on_disconnect
        &&& self.volume_mode == VolumeMode::Sonos
    }
}

impl Default for SonosConfig {
    fn default() -> (r: Self)
        ensures
            r.is_default(),
    {
        SonosConfig {
            auto_discover: true,
            static_ips: Vec::new(),
            include_rooms: Vec::new(),
            exclude_rooms: Vec::new(),
            force_standalone_on_start: true,
            stop_on_disconnect: true,
            volume_mode: VolumeMode::Sonos,
        }
    }
}

impl Default for VolumeMode {
    fn default() -> (r: Self)
        ensures
            r == VolumeMode::Sonos,
    {
        VolumeMode::Sonos
    }
}

impl StreamConfig {
    /// The configuration that stands where nothing is configured.
    pub open spec fn is_default(self) -> bool {
        &&& self.codec@ == "mp3"@
        &&& self.mp3_bitrate_kbps == 320
        &&& self.prebuffer_ms == 500
        &&& self.startup_wait_ms is None
        &&& self.http_chunked
        &&& self.icy_metadata
        &&& self.ffmpeg_path@ == "ffmpeg"@
    }

    /// How long a start waits for the player to connect: the configured time,
    /// or else the prebuffer time, but no more than a quarter of a second.
    pub open spec fn startup_wait(self) -> u64 {
        match self.startup_wait_ms {
            Some(ms) => ms,
            None => if self.prebuffer_ms < 250 {
                self.prebuffer_ms
            } else {
                250
            },
        }
    }

    /// How long a start waits for the player to connect.
    pub fn startup_wait_ms(&self) -> (r: u64)
        ensures
            r == self.startup_wait(),
    {
        match self.startup_wait_ms {
            Some(ms) => ms,
            None => if self.prebuffer_ms < 250 {
                self.prebuffer_ms
            } else {
                250
            },
        }
    }
}

impl Default for StreamConfig {
    fn default() -> (r: Self)
        ensures
            r.is_default(),
    {
        StreamConfig {
            codec: "mp3".to_owned(),
            mp3_bitrate_kbps: 320,
            prebuffer_ms: 500,
            startup_wait_ms: None,
            http_chunked: true,
            icy_metadata: true,
            ffmpeg_path: "ffmpeg".to_owned(),
        }
    }
}

impl DiagnosticsConfig {
    /// The configuration that stands where nothing is configured.
    pub open spec fn is_default(self) -> bool {
        self.metrics_addr@ == "0.0.0.0:9100"@
    }
}

impl Default for DiagnosticsConfig {
    fn default() -> (r: Self)
        ensures
            r.is_default(),
    {
        DiagnosticsConfig { metrics_addr: "0.0.0.0:9100".to_owned() }
    }
}

impl SyncConfig {
    /// The configuration that stands where nothing is configured.
    pub open spec fn is_default(self) -> bool {
        &&& self.default_offset_ms == 0
        &&& self.multi_select_window_ms == 750
        &&& self.start_deadline_ms == 2_500
        &&& self.startup_compensation
        &&& self.startup_sample_limit == 20
        &&& self.startup_min_samples == 3
        &&& self.startup_max_compensation_ms == 1_000
        &&& self.play_command_spread_warn_ms == 80
        &&& self.zone_offsets_ms@ == Map::<Seq<char>, i64>::empty()
    }
}

impl Default for SyncConfig {
    fn default() -> (r: Self)
        ensures
            r.is_default(),
    {
        SyncConfig {
            default_offset_ms: 0,
            multi_select_window_ms: 750,
            start_deadline_ms: 2_500,
            startup_compensation: true,
            startup_sample_limit: 20,
            startup_min_samples: 3,
            startup_max_compensation_ms: 1_000,
            play_command_spread_warn_ms: 80,
            zone_offsets_ms: TextMap::new(),
        }
    }
}

impl Config {
    /// The configuration that stands where nothing is configured.
    pub open spec fn is_default(self) -> bool {
        &&& self.server.is_default()
        &&& self.airplay.is_default()
        &&& self.sonos.is_default()
        &&& self.stream.is_default()
        &&& self.diagnostics.is_default()
        &&& self.sync.is_default()
    }
}

impl Default for Config {
    fn default() -> (r: Self)
        ensures
            r.is_default(),
    {
        Config {
            server: ServerConfig::default(),
            airplay: AirPlayConfig::default(),
            sonos: SonosConfig::default(),
            stream: StreamConfig::default(),
            diagnostics: DiagnosticsConfig::default(),
            sync: SyncConfig::default(),
        }
    }
}

// ---------------------------------------------------------------------------
// Laws
// ---------------------------------------------------------------------------
/// A player is awaited for the configured time or else for as long as is buffered,
/// but then for a quarter of a second at most.
pub proof fn players_are_awaited_for_a_quarter_second(config: &StreamConfig, r: u64)
    requires
        call_ensures(StreamConfig::startup_wait_ms, (config,), r),
    ensures
        config.startup_wait_ms matches Some(ms) ==> r == ms,
        config.startup_wait_ms is None ==> r <= 250 && r <= config.prebuffer_ms && (r == 250 || r
            == config.prebuffer_ms),
{
}

/// An empty password is none.
pub proof fn empty_passwords_are_none(config: &AirPlayConfig, r: Option<&str>, enabled: bool)
    requires
        call_ensures(AirPlayConfig::rtsp_password, (config,), r),
        call_ensures(AirPlayConfig::rtsp_password_enabled, (config,), enabled),
    ensures
        enabled <==> r is Some,
        r is Some <==> config.rtsp_password is Some && config.rtsp_password->0@.len() > 0,
        r matches Some(p) ==> p@ == config.rtsp_password->0@,
{
}

/// What holds where nothing is configured.
pub proof fn what_is_not_configured(config: Config)
    requires
        call_ensures(<Config as Default>::default, (), config),
    ensures
        config.server.bind == IpAddr::V4(0),
        config.server.http_port == 7000,
        config.server.state_dir@ == "/var/lib/airsonos2"@,
        config.server.log_level@ == "info"@,
        config.airplay.name_template@ == "{room} AirSonos2"@,
        config.airplay.advertised_model@ == "AudioAccessory5,1"@,
        config.airplay.pin@ == "3939"@,
        config.airplay.rtsp_password is None,
        config.airplay.base_rtsp_port == 5000,
        config.airplay.output_sample_rate == 48_000,
        config.airplay.output_channels == 2,
        config.airplay.max_clients_per_zone == 10,
        config.sonos.auto_discover && config.sonos.force_standalone_on_start
            && config.sonos.stop_on_disconnect,
        config.sonos.static_ips@.len() == 0 && config.sonos.include_rooms@.len() == 0
            && config.sonos.exclude_rooms@.len() == 0,
        config.sonos.volume_mode == VolumeMode::Sonos,
        config.stream.codec@ == "mp3"@,
        config.stream.mp3_bitrate_kbps == 320,
        config.stream.prebuffer_ms == 500,
        config.stream.startup_wait_ms is None,
        config.stream.http_chunked && config.stream.icy_metadata,
        config.stream.ffmpeg_path@ == "ffmpeg"@,
        config.diagnostics.metrics_addr@ == "0.0.0.0:9100"@,
        config.sync.default_offset_ms == 0,
        config.sync.multi_select_window_ms == 750,
        config.sync.start_deadline_ms == 2_500,
        config.sync.startup_compensation,
        config.sync.startup_sample_limit == 20,
        config.sync.startup_min_samples == 3,
        config.sync.startup_max_compensation_ms == 1_000,
        config.sync.play_command_spread_warn_ms == 80,
        config.sync.zone_offsets_ms@.dom() == Set::<Seq<char>>::empty(),
{
}

} // verus!
