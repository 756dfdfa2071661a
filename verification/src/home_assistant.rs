//! The options of the Home Assistant app, and the configuration they stand for.

use vstd::prelude::*;
use vstd::string::StringExecFns;

use crate::config::Config;
use crate::net::IpAddr;
use crate::text;
use crate::text_map::TextMap;

verus! {

/// Where the app keeps its state.
pub const HA_STATE_DIR: &'static str = "/data";

/// Where the app's encoder is.
pub const HA_FFMPEG_PATH: &'static str = "/usr/bin/ffmpeg";

/// Where the app offers metrics.
pub const HA_METRICS_ADDR: &'static str = "0.0.0.0:9100";

/// The port of the app's HTTP server.
pub const HA_HTTP_PORT: u16 = 7000;

/// The options of the app.
#[derive(Debug, PartialEq, Eq)]
pub struct HomeAssistantOptions {
    pub log_level: String,
    pub run_doctor_on_start: bool,
    pub name_template: String,
    pub advertised_model: String,
    pub pin: String,
    pub rtsp_password: String,
    pub base_rtsp_port: u16,
    pub output_sample_rate: u32,
    pub output_channels: u8,
    pub max_clients_per_zone: usize,
    pub auto_discover: bool,
    pub static_ips: Vec<String>,
    pub include_rooms: Vec<String>,
    pub exclude_rooms: Vec<String>,
    pub force_standalone_on_start: bool,
    pub stop_on_disconnect: bool,
    pub stream_codec: String,
    pub mp3_bitrate_kbps: u16,
    pub prebuffer_ms: u64,
    pub startup_wait_ms: Option<u64>,
    pub default_offset_ms: i64,
    pub multi_select_window_ms: u64,
    pub start_deadline_ms: u64,
    pub startup_compensation: bool,
    pub startup_sample_limit: usize,
    pub startup_min_samples: usize,
    pub startup_max_compensation_ms: u64,
    pub play_command_spread_warn_ms: u64,
    pub zone_offsets: Vec<HomeAssistantZoneOffset>,
}

/// The playback offset of a zone.
#[derive(Debug, PartialEq, Eq)]
pub struct HomeAssistantZoneOffset {
    pub zone: String,
    pub offset_ms: i64,
}

/// Why options stand for no configuration.
#[derive(Debug, PartialEq, Eq)]
pub enum HomeAssistantError {
    /// An address is none, for the given reason.
    InvalidStaticIp { value: String, reason: String },
    /// The codec is not supported.
    UnsupportedCodec { codec: String },
    /// An offset is of no zone.
    EmptyZone,
}

impl HomeAssistantError {
    /// The error in words.
    pub open spec fn words(self) -> Seq<char> {
        match self {
            HomeAssistantError::InvalidStaticIp { value, reason } => "invalid static IP address "@
                + text::quoted(value@) + ": "@ + reason@,
            HomeAssistantError::UnsupportedCodec { codec } => "unsupported stream_codec "@
                + text::quoted(codec@) + "; expected mp3 or wav"@,
            HomeAssistantError::EmptyZone => "zone_offsets entries must include a non-empty zone"@,
        }
    }

    /// The error in words.
    pub fn message(&self) -> (r: String)
        ensures
            r@ == self.words(),
    {
        match self {
            HomeAssistantError::InvalidStaticIp { value, reason } => {
                let mut r = "invalid static IP address ".to_owned();
                let quoted = text::quote(value.as_str());
                r.append(quoted.as_str());
                r.append(": ");
                r.append(reason.as_str());
                r
            },
            HomeAssistantError::UnsupportedCodec { codec } => {
                let mut r = "unsupported stream_codec ".to_owned();
                let quoted = text::quote(codec.as_str());
                r.append(quoted.as_str());
                r.append("; expected mp3 or wav");
                r
            },
            HomeAssistantError::EmptyZone => {
                "zone_offsets entries must include a non-empty zone".to_owned()
            },
        }
    }
}

impl HomeAssistantOptions {
    /// The options that stand where none are given: those of the configuration.
    pub open spec fn is_default(self) -> bool {
        &&& self.log_level@ == "info"@
        &&& !self.run_doctor_on_start
        &&& self.name_template@ == "{room} AirSonos2"@
        &&& self.advertised_model@ == "AudioAccessory5,1"@
        &&& self.pin@ == "3939"@
        &&& self.rtsp_password@ == ""@
        &&& self.base_rtsp_port == 5000
        &&& self.output_sample_rate == 48_000
        &&& self.output_channels == 2
        &&& self.max_clients_per_zone == 10
        &&& self.auto_discover
        &&& self.static_ips@.len() == 0
        &&& self.include_rooms@.len() == 0
        &&& self.exclude_rooms@.len() == 0
        &&& self.force_standalone_on_start
        &&& self.stop_on_disconnect
        &&& self.stream_codec@ == "mp3"@
        &&& self.mp3_bitrate_kbps == 320
        &&& self.prebuffer_ms == 500
        &&& self.startup_wait_ms is None
        &&& self.default_offset_ms == 0
        &&& self.multi_select_window_ms == 750
        &&& self.start_deadline_ms == 2_500
        &&& self.startup_compensation
        &&& self.startup_sample_limit == 20
        &&& self.startup_min_samples == 3
        &&& self.startup_max_compensation_ms == 1_000
        &&& self.play_command_spread_warn_ms == 80
        &&& self.zone_offsets@.len() == 0
    }
}

impl Default for HomeAssistantOptions {
    fn default() -> (r: Self)
        ensures
            r.is_default(),
    {
        let config = Config::default();
        HomeAssistantOptions {
            log_level: config.server.log_level,
            run_doctor_on_start: false,
            name_template: config.airplay.name_template,
            advertised_model: config.airplay.advertised_model,
            pin: config.airplay.pin,
            rtsp_password: match config.airplay.rtsp_password {
                Some(password) => password,
                None => "".to_owned(),
            },
            base_rtsp_port: config.airplay.base_rtsp_port,
            output_sample_rate: config.airplay.output_sample_rate,
            output_channels: config.airplay.output_channels,
            max_clients_per_zone: config.airplay.max_clients_per_zone,
            auto_discover: config.sonos.auto_discover,
            static_ips: Vec::new(),
            include_rooms: config.sonos.include_rooms,
            exclude_rooms: config.sonos.exclude_rooms,
            force_standalone_on_start: config.sonos.force_standalone_on_start,
            stop_on_disconnect: config.sonos.stop_on_disconnect,
            stream_codec: config.stream.codec,
            mp3_bitrate_kbps: config.stream.mp3_bitrate_kbps,
            prebuffer_ms: config.stream.prebuffer_ms,
            startup_wait_ms: config.stream.startup_wait_ms,
            default_offset_ms: config.sync.default_offset_ms,
            multi_select_window_ms: config.sync.multi_select_window_ms,
            start_deadline_ms: config.sync.start_deadline_ms,
            startup_compensation: config.sync.startup_compensation,
            startup_sample_limit: config.sync.startup_sample_limit,
            startup_min_samples: config.sync.startup_min_samples,
            startup_max_compensation_ms: config.sync.startup_max_compensation_ms,
            play_command_spread_warn_ms: config.sync.play_command_spread_warn_ms,
            zone_offsets: Vec::new(),
        }
    }
}

// ---------------------------------------------------------------------------
// The parts of the configuration
// ---------------------------------------------------------------------------
/// A password, where it is not empty.
pub fn non_empty_password(password: &str) -> (r: Option<String>)
    ensures
        match r {
            Some(p) => password@.len() > 0 && p@ == password@,
            None => password@.len() == 0,
        },
{
    if password.is_empty() {
        None
    } else {
        Some(password.to_owned())
    }
}

/// Whether all addresses up to a position could be read.
pub open spec fn readable(ips: Seq<Result<IpAddr, String>>, n: int) -> bool {
    forall|i: int| 0 <= i < n ==> (#[trigger] ips[i]) is Ok
}

/// The addresses that texts stand for, as far as each could be read: all of
/// them, or the failure of the first that could not.
pub fn parse_static_ips(values: &Vec<String>, ips: &Vec<Result<IpAddr, String>>) -> (r: Result<
    Vec<IpAddr>,
    HomeAssistantError,
>)
    requires
        ips@.len() == values@.len(),
    ensures
        match r {
            Ok(addresses) => addresses@.len() == ips@.len() && forall|i: int|
                0 <= i < ips@.len() ==> (#[trigger] ips@[i]) == Ok::<IpAddr, String>(addresses@[i]),
            Err(error) => exists|i: int|
                0 <= i < ips@.len() && readable(ips@, i) && (#[trigger] ips@[i] matches Err(reason)
                    && error == (HomeAssistantError::InvalidStaticIp { value: values@[i], reason })),
        },
{
    let mut addresses: Vec<IpAddr> = Vec::new();
    let mut i: usize = 0;
    while i < ips.len()
        invariant
            i <= ips@.len(),
            ips@.len() == values@.len(),
            addresses@.len() == i,
            readable(ips@, i as int),
            forall|j: int|
                0 <= j < i ==> (#[trigger] ips@[j]) == Ok::<IpAddr, String>(addresses@[j]),
        decreases ips@.len() - i,
    {
        match &ips[i] {
            Ok(ip) => addresses.push(*ip),
            Err(reason) => {
                assert(ips@[i as int] is Err);
                return Err(
                    HomeAssistantError::InvalidStaticIp {
                        value: values[i].clone(),
                        reason: reason.clone(),
                    },
                );
            },
        }
        i = i + 1;
    }
    Ok(addresses)
}

/// A codec, where it is supported.
pub fn validate_stream_codec(codec: &String) -> (r: Result<String, HomeAssistantError>)
    ensures
        match r {
            Ok(c) => (codec@ == "mp3"@ || codec@ == "wav"@) && c == *codec,
            Err(error) => codec@ != "mp3"@ && codec@ != "wav"@ && error == (
            HomeAssistantError::UnsupportedCodec { codec: *codec }),
        },
{
    if text::same_text(codec.as_str(), "mp3") || text::same_text(codec.as_str(), "wav") {
        Ok(codec.clone())
    } else {
        Err(HomeAssistantError::UnsupportedCodec { codec: codec.clone() })
    }
}

/// The offsets by zone: of a zone with several the last one.
pub open spec fn offsets_of(values: Seq<HomeAssistantZoneOffset>) -> Map<Seq<char>, i64>
    decreases values.len(),
{
    if values.len() == 0 {
        Map::empty()
    } else {
        offsets_of(values.drop_last()).insert(values.last().zone@, values.last().offset_ms)
    }
}

/// Whether every offset is of a zone.
pub open spec fn zones_named(values: Seq<HomeAssistantZoneOffset>) -> bool {
    forall|i: int| 0 <= i < values.len() ==> (#[trigger] values[i]).zone@.len() > 0
}

/// The offsets by zone, where every one is of a zone.
pub fn zone_offsets_map(values: &Vec<HomeAssistantZoneOffset>) -> (r: Result<
    TextMap<i64>,
    HomeAssistantError,
>)
    ensures
        match r {
            Ok(offsets) => zones_named(values@) && offsets@ == offsets_of(values@),
            Err(error) => !zones_named(values@) && error is EmptyZone,
        },
{
    let mut offsets: TextMap<i64> = TextMap::new();
    let mut i: usize = 0;
    assert(values@.take(0) =~= Seq::empty());
    while i < values.len()
        invariant
            i <= values@.len(),
            zones_named(values@.take(i as int)),
            offsets@ == offsets_of(values@.take(i as int)),
        decreases values@.len() - i,
    {
        proof {
            let next = values@.take(i + 1);
            assert(next.drop_last() =~= values@.take(i as int));
            assert(next.last() == values@[i as int]);
        }
        if values[i].zone.as_str().is_empty() {
            assert(values@[i as int].zone@.len() == 0);
            return Err(HomeAssistantError::EmptyZone);
        }
        offsets.insert(values[i].zone.clone(), values[i].offset_ms);
        assert(zones_named(values@.take(i + 1))) by {
            assert forall|j: int| 0 <= j < i + 1 implies (#[trigger] values@.take(
                i + 1,
            )[j]).zone@.len() > 0 by {
                if j < i {
                    assert(values@.take(i as int)[j].zone@.len() > 0);
                }
            }
        }
        i = i + 1;
    }
    assert(values@.take(i as int) =~= values@);
    Ok(offsets)
}

fn copy_texts(values: &Vec<String>) -> (r: Vec<String>)
    ensures
        r@ == values@,
{
    let mut r: Vec<String> = Vec::new();
    let mut i: usize = 0;
    while i < values.len()
        invariant
            i <= values@.len(),
            r@ == values@.take(i as int),
        decreases values@.len() - i,
    {
        r.push(values[i].clone());
        assert(r@ =~= values@.take(i + 1));
        i = i + 1;
    }
    assert(r@ =~= values@);
    r
}

impl HomeAssistantOptions {
    /// Whether a configuration is the one that the options stand for: what the
    /// options say, at the paths and ports of the app, and what is configured by
    /// default elsewhere.
    pub open spec fn stands_for(self, config: Config) -> bool {
        &&& config.server.bind == IpAddr::V4(0)
        &&& config.server.http_port == HA_HTTP_PORT
        &&& config.server.state_dir@ == HA_STATE_DIR@
        &&& config.server.log_level == self.log_level
        &&& config.airplay.name_template == self.name_template
        &&& config.airplay.advertised_model == self.advertised_model
        &&& config.airplay.pin == self.pin
        &&& match config.airplay.rtsp_password {
            Some(p) => self.rtsp_password@.len() > 0 && p@ == self.rtsp_password@,
            None => self.rtsp_password@.len() == 0,
        }
        &&& config.airplay.base_rtsp_port == self.base_rtsp_port
        &&& config.airplay.output_sample_rate == self.output_sample_rate
        &&& config.airplay.output_channels == self.output_channels
        &&& config.airplay.max_clients_per_zone == self.max_clients_per_zone
        &&& config.sonos.auto_discover == self.auto_discover
        &&& config.sonos.static_ips@.len() == self.static_ips@.len()
        &&& config.sonos.include_rooms@ == self.include_rooms@
        &&& config.sonos.exclude_rooms@ == self.exclude_rooms@
        &&& config.sonos.force_standalone_on_start == self.force_standalone_on_start
        &&& config.sonos.stop_on_disconnect == self.stop_on_disconnect
        &&& config.sonos.volume_mode is Sonos
        &&& config.stream.codec == self.stream_codec
        &&& config.stream.mp3_bitrate_kbps == self.mp3_bitrate_kbps
        &&& config.stream.prebuffer_ms == self.prebuffer_ms
        &&& config.stream.startup_wait_ms == self.startup_wait_ms
        &&& config.stream.http_chunked
        &&& config.stream.icy_metadata
        &&& config.stream.ffmpeg_path@ == HA_FFMPEG_PATH@
        &&& config.diagnostics.metrics_addr@ == HA_METRICS_ADDR@
        &&& config.sync.default_offset_ms == self.default_offset_ms
        &&& config.sync.multi_select_window_ms == self.multi_select_window_ms
        &&& config.sync.start_deadline_ms == self.start_deadline_ms
        &&& config.sync.startup_compensation == self.startup_compensation
        &&& config.sync.startup_sample_limit == self.startup_sample_limit
        &&& config.sync.startup_min_samples == self.startup_min_samples
        &&& config.sync.startup_max_compensation_ms == self.startup_max_compensation_ms
        &&& config.sync.play_command_spread_warn_ms == self.play_command_spread_warn_ms
        &&& config.sync.zone_offsets_ms@ == offsets_of(self.zone_offsets@)
    }

    /// The configuration that the options stand for. `ips` is what each of the
    /// static addresses was read as, or why it could not be.
    pub fn to_config(&self, ips: &Vec<Result<IpAddr, String>>) -> (r: Result<
        Config,
        HomeAssistantError,
    >)
        requires
            ips@.len() == self.static_ips@.len(),
        ensures
            match r {
                Ok(config) => {
                    &&& self.stands_for(config)
                    &&& self.stream_codec@ == "mp3"@ || self.stream_codec@ == "wav"@
                    &&& zones_named(self.zone_offsets@)
                    &&& forall|i: int|
                        0 <= i < ips@.len() ==> (#[trigger] ips@[i]) == Ok::<IpAddr, String>(
                            config.sonos.static_ips@[i],
                        )
                },
                Err(error) => match error {
                    HomeAssistantError::InvalidStaticIp { .. } => exists|i: int|
                        0 <= i < ips@.len() && readable(ips@, i) && (#[trigger] ips@[i] matches Err(
                            reason,
                        ) && error == (HomeAssistantError::InvalidStaticIp {
                            value: self.static_ips@[i],
                            reason,
                        })),
                    HomeAssistantError::UnsupportedCodec { codec } => {
                        &&& readable(ips@, ips@.len() as int)
                        &&& codec == self.stream_codec
                        &&& codec@ != "mp3"@ && codec@ != "wav"@
                    },
                    HomeAssistantError::EmptyZone => {
                        &&& readable(ips@, ips@.len() as int)
                        &&& self.stream_codec@ == "mp3"@ || self.stream_codec@ == "wav"@
                        &&& !zones_named(self.zone_offsets@)
                    },
                },
            },
    {
        let mut config = Config::default();
        config.server.http_port = HA_HTTP_PORT;
        config.server.state_dir = HA_STATE_DIR.to_owned();
        config.server.log_level = self.log_level.clone();
        config.airplay.name_template = self.name_template.clone();
        config.airplay.advertised_model = self.advertised_model.clone();
        config.airplay.pin = self.pin.clone();
        config.airplay.rtsp_password = non_empty_password(self.rtsp_password.as_str());
        config.airplay.base_rtsp_port = self.base_rtsp_port;
        config.airplay.output_sample_rate = self.output_sample_rate;
        config.airplay.output_channels = self.output_channels;
        config.airplay.max_clients_per_zone = self.max_clients_per_zone;
        config.sonos.auto_discover = self.auto_discover;
        config.sonos.static_ips =
        match parse_static_ips(&self.static_ips, ips) {
            Ok(addresses) => addresses,
            Err(error) => return Err(error),
        };
        config.sonos.include_rooms = copy_texts(&self.include_rooms);
        config.sonos.exclude_rooms = copy_texts(&self.exclude_rooms);
        config.sonos.force_standalone_on_start = self.force_standalone_on_start;
        config.sonos.stop_on_disconnect = self.stop_on_disconnect;
        config.stream.codec =
        match validate_stream_codec(&self.stream_codec) {
            Ok(codec) => codec,
            Err(error) => return Err(error),
        };
        config.stream.mp3_bitrate_kbps = self.mp3_bitrate_kbps;
        config.stream.prebuffer_ms = self.prebuffer_ms;
        config.stream.startup_wait_ms = self.startup_wait_ms;
        config.stream.ffmpeg_path = HA_FFMPEG_PATH.to_owned();
        config.diagnostics.metrics_addr = HA_METRICS_ADDR.to_owned();
        config.sync.default_offset_ms = self.default_offset_ms;
        config.sync.multi_select_window_ms = self.multi_select_window_ms;
        config.sync.start_deadline_ms = self.start_deadline_ms;
        config.sync.startup_compensation = self.startup_compensation;
        config.sync.startup_sample_limit = self.startup_sample_limit;
        config.sync.startup_min_samples = self.startup_min_samples;
        config.sync.startup_max_compensation_ms = self.startup_max_compensation_ms;
        config.sync.play_command_spread_warn_ms = self.play_command_spread_warn_ms;
        config.sync.zone_offsets_ms =
        match zone_offsets_map(&self.zone_offsets) {
            Ok(offsets) => offsets,
            Err(error) => return Err(error),
        };
        Ok(config)
    }
}

/// The default options stand for the default configuration, but for the paths
/// of the app.
pub proof fn default_options_stand_for_the_default_configuration(
    options: HomeAssistantOptions,
    config: Config,
)
    requires
        options.is_default(),
        options.stands_for(config),
    ensures
        config.server.bind == IpAddr::V4(0),
        config.server.http_port == 7000,
        config.server.log_level@ == "info"@,
        config.airplay.is_default(),
        config.sonos.is_default(),
        config.sync.is_default(),
        config.diagnostics.is_default(),
        config.stream.codec@ == "mp3"@,
        config.stream.mp3_bitrate_kbps == 320,
        config.stream.prebuffer_ms == 500,
        config.stream.startup_wait_ms is None,
        config.stream.http_chunked,
        config.stream.icy_metadata,
{
    reveal_strlit("");
    assert(options.rtsp_password@ =~= Seq::<char>::empty());
    assert(offsets_of(options.zone_offsets@) =~= Map::<Seq<char>, i64>::empty());
}

// ---------------------------------------------------------------------------
// What callers see
// ---------------------------------------------------------------------------
/// Of several offsets for one zone the last one counts; a zone without any has
/// none.
pub proof fn the_last_offset_counts(values: Seq<HomeAssistantZoneOffset>, zone: Seq<char>, i: int)
    requires
        -1 <= i < values.len(),
        forall|k: int| i < k < values.len() ==> (#[trigger] values[k]).zone@ != zone,
        i >= 0 ==> values[i].zone@ == zone,
    ensures
        i >= 0 ==> offsets_of(values).dom().contains(zone) && offsets_of(values)[zone]
            == values[i].offset_ms,
        i == -1 ==> !offsets_of(values).dom().contains(zone),
    decreases values.len(),
{
    if values.len() > 0 && i < values.len() - 1 {
        assert(values[values.len() - 1].zone@ != zone);
        the_last_offset_counts(values.drop_last(), zone, i);
    }
}

/// Offsets are taken over where every one of them names a zone.
pub proof fn offsets_need_their_zones(
    values: &Vec<HomeAssistantZoneOffset>,
    r: Result<TextMap<i64>, HomeAssistantError>,
    zone: Seq<char>,
    i: int,
)
    requires
        call_ensures(zone_offsets_map, (values,), r),
        0 <= i < values@.len(),
        forall|k: int| i < k < values@.len() ==> (#[trigger] values@[k]).zone@ != zone,
        values@[i].zone@ == zone,
    ensures
        zone.len() == 0 ==> (r matches Err(HomeAssistantError::EmptyZone)),
        r matches Ok(offsets) ==> offsets@.dom().contains(zone) && offsets@[zone]
            == values@[i].offset_ms,
{
    the_last_offset_counts(values@, zone, i);
}

/// Every option is found in the configuration at its place; what is not an option
/// has its fixed value there.
pub proof fn options_are_found_in_the_configuration(
    options: &HomeAssistantOptions,
    ips: &Vec<Result<IpAddr, String>>,
    config: Config,
    i: int,
)
    requires
        ips@.len() == options.static_ips@.len(),
        call_ensures(
            HomeAssistantOptions::to_config,
            (options, ips),
            Ok::<Config, HomeAssistantError>(config),
        ),
    ensures
        config.server.bind == IpAddr::V4(0),
        config.server.http_port == 7000,
        config.server.state_dir@ == "/data"@,
        config.server.log_level@ == options.log_level@,
        config.airplay.name_template@ == options.name_template@,
        config.airplay.advertised_model@ == options.advertised_model@,
        config.airplay.pin@ == options.pin@,
        config.airplay.rtsp_password is Some <==> options.rtsp_password@.len() > 0,
        config.airplay.rtsp_password matches Some(p) ==> p@ == options.rtsp_password@,
        config.airplay.base_rtsp_port == options.base_rtsp_port,
        config.airplay.output_sample_rate == options.output_sample_rate,
        config.airplay.output_channels == options.output_channels,
        config.airplay.max_clients_per_zone == options.max_clients_per_zone,
        config.sonos.auto_discover == options.auto_discover,
        config.sonos.include_rooms@ == options.include_rooms@,
        config.sonos.exclude_rooms@ == options.exclude_rooms@,
        config.sonos.force_standalone_on_start == options.force_standalone_on_start,
        config.sonos.stop_on_disconnect == options.stop_on_disconnect,
        config.sonos.volume_mode is Sonos,
        config.sonos.static_ips@.len() == options.static_ips@.len(),
        0 <= i < ips@.len() ==> (ips@[i] matches Ok(ip) && config.sonos.static_ips@[i] == ip),
        config.stream.codec@ == options.stream_codec@,
        config.stream.codec@ == "mp3"@ || config.stream.codec@ == "wav"@,
        config.stream.mp3_bitrate_kbps == options.mp3_bitrate_kbps,
        config.stream.prebuffer_ms == options.prebuffer_ms,
        config.stream.startup_wait_ms == options.startup_wait_ms,
        config.stream.http_chunked && config.stream.icy_metadata,
        config.stream.ffmpeg_path@ == "/usr/bin/ffmpeg"@,
        config.diagnostics.metrics_addr@ == "0.0.0.0:9100"@,
        config.sync.default_offset_ms == options.default_offset_ms,
        config.sync.multi_select_window_ms == options.multi_select_window_ms,
        config.sync.start_deadline_ms == options.start_deadline_ms,
        config.sync.startup_compensation == options.startup_compensation,
        config.sync.startup_sample_limit == options.startup_sample_limit,
        config.sync.startup_min_samples == options.startup_min_samples,
        config.sync.startup_max_compensation_ms == options.startup_max_compensation_ms,
        config.sync.play_command_spread_warn_ms == options.play_command_spread_warn_ms,
        forall|k: int|
            0 <= k < options.zone_offsets@.len() ==> (#[trigger] options.zone_offsets@[k]).zone@.len()
                > 0,
{
}

/// The options are refused for the first address that is none, or else for a
/// codec that is not known, or else for an offset without a zone; and for nothing
/// else.
pub proof fn options_are_refused_for_their_first_fault(
    options: &HomeAssistantOptions,
    ips: &Vec<Result<IpAddr, String>>,
    r: Result<Config, HomeAssistantError>,
    i: int,
)
    requires
        ips@.len() == options.static_ips@.len(),
        call_ensures(HomeAssistantOptions::to_config, (options, ips), r),
    ensures
        0 <= i < ips@.len() && ips@[i] is Err && (forall|k: int|
            0 <= k < i ==> (#[trigger] ips@[k]) is Ok) ==> (r matches Err(
            HomeAssistantError::InvalidStaticIp { value, reason },
        ) && value == options.static_ips@[i] && ips@[i] == Err::<IpAddr, String>(reason)),
        (forall|k: int| 0 <= k < ips@.len() ==> (#[trigger] ips@[k]) is Ok)
            && options.stream_codec@ != "mp3"@ && options.stream_codec@ != "wav"@ ==> (r matches Err(
            HomeAssistantError::UnsupportedCodec { codec },
        ) && codec@ == options.stream_codec@),
        (forall|k: int| 0 <= k < ips@.len() ==> (#[trigger] ips@[k]) is Ok) && (
        options.stream_codec@ == "mp3"@ || options.stream_codec@ == "wav"@) ==> (r is Ok
            <==> forall|k: int|
            0 <= k < options.zone_offsets@.len() ==> (#[trigger] options.zone_offsets@[k]).zone@.len()
                > 0),
{
    match r {
        Err(HomeAssistantError::InvalidStaticIp { value, reason }) => {
            let k = choose|k: int|
                0 <= k < ips@.len() && readable(ips@, k) && (#[trigger] ips@[k] matches Err(why)
                    && r->Err_0 == (HomeAssistantError::InvalidStaticIp {
                    value: options.static_ips@[k],
                    reason: why,
                }));
            if 0 <= i < ips@.len() && ips@[i] is Err && (forall|j: int|
                0 <= j < i ==> (#[trigger] ips@[j]) is Ok) {
                assert(k == i) by {
                    if k < i {
                        assert(ips@[k] is Ok);
                    }
                    if i < k {
                        assert(ips@[i] is Ok);
                    }
                }
            }
        },
        _ => {},
    }
}

/// The options that hold where none is given.
pub proof fn what_is_not_given(options: HomeAssistantOptions)
    requires
        call_ensures(<HomeAssistantOptions as Default>::default, (), options),
    ensures
        options.log_level@ == "info"@,
        !options.run_doctor_on_start,
        options.name_template@ == "{room} AirSonos2"@,
        options.advertised_model@ == "AudioAccessory5,1"@,
        options.pin@ == "3939"@,
        options.rtsp_password@ == ""@,
        options.base_rtsp_port == 5000,
        options.output_sample_rate == 48_000,
        options.output_channels == 2,
        options.max_clients_per_zone == 10,
        options.auto_discover && options.force_standalone_on_start && options.stop_on_disconnect,
        options.static_ips@.len() == 0 && options.include_rooms@.len() == 0
            && options.exclude_rooms@.len() == 0 && options.zone_offsets@.len() == 0,
        options.stream_codec@ == "mp3"@,
        options.mp3_bitrate_kbps == 320,
        options.prebuffer_ms == 500,
        options.startup_wait_ms is None,
        options.default_offset_ms == 0,
        options.multi_select_window_ms == 750,
        options.start_deadline_ms == 2_500,
        options.startup_compensation,
        options.startup_sample_limit == 20,
        options.startup_min_samples == 3,
        options.startup_max_compensation_ms == 1_000,
        options.play_command_spread_warn_ms == 80,
{
}

/// An empty password is none, any other is kept; the known codecs are kept, any
/// other is refused and named.
pub proof fn passwords_and_codecs_are_checked(
    password: &str,
    kept: Option<String>,
    codec: &String,
    checked: Result<String, HomeAssistantError>,
)
    requires
        call_ensures(non_empty_password, (password,), kept),
        call_ensures(validate_stream_codec, (codec,), checked),
    ensures
        kept is None <==> password@.len() == 0,
        kept matches Some(p) ==> p@ == password@,
        checked is Ok <==> codec@ == "mp3"@ || codec@ == "wav"@,
        checked matches Ok(c) ==> c@ == codec@,
        checked matches Err(error) ==> (error matches HomeAssistantError::UnsupportedCodec {
            codec: named,
        } && named@ == codec@),
{
}

} // verus!
