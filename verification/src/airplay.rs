//! The AirPlay side: what a receiver tells of its sessions, and the clients
//! that are paired with it.

use std::collections::BTreeMap;

use vstd::prelude::*;

use crate::config::AirPlayConfig;
use crate::ids::{SessionId, ZoneId};
use crate::net::IpAddr;
use crate::text_map;
use crate::text_map::TextMap;
use crate::types::{PcmFormat, PcmFrame, VirtualAirPlayEndpoint};

verus! {

/// What an AirPlay receiver tells. Levels are the bit patterns of 32-bit floats.
#[derive(Debug)]
pub enum AirPlayEvent {
    SessionStarted { session_id: SessionId, zone_id: ZoneId, format: PcmFormat },
    Pcm { session_id: SessionId, zone_id: ZoneId, frame: PcmFrame },
    PlaybackState { session_id: SessionId, zone_id: ZoneId, playing: bool },
    Flushed { session_id: SessionId, zone_id: ZoneId },
    Volume { zone_id: ZoneId, airplay_db: u32, sonos_volume: u8 },
    SessionStopped { session_id: SessionId, zone_id: ZoneId },
    /// The buffered audio stream closed while playback was paused.
    StreamEndedWhilePaused { session_id: SessionId, zone_id: ZoneId },
    ClientConnected { zone_id: ZoneId, addr: String },
    ClientDisconnected { zone_id: ZoneId, addr: String },
    Error { zone_id: ZoneId, message: String },
}

// ---------------------------------------------------------------------------
// Volume
// ---------------------------------------------------------------------------
/// The bit pattern of -144.0, the level of silence.
pub const SILENCE_DB: u32 = 0xC310_0000;

/// The volume that a zone reports, as the bit pattern of a 32-bit float.
#[derive(Clone, Copy, Debug, PartialEq, Eq, Structural)]
pub struct ZoneVolumeState {
    volume_db: u32,
}

/// Whether a 32-bit float is finite: its exponent is not the greatest one.
pub open spec fn finite_bits(bits: u32) -> bool {
    (bits / 0x80_0000) % 0x100 != 0xFF
}

impl View for ZoneVolumeState {
    type V = u32;

    closed spec fn view(&self) -> u32 {
        self.volume_db
    }
}

impl ZoneVolumeState {
    /// The state with an initial volume.
    pub fn new(initial_volume_db: u32) -> (r: Self)
        ensures
            r@ == initial_volume_db,
    {
        ZoneVolumeState { volume_db: initial_volume_db }
    }

    /// Sets the volume; one that is not finite is silence.
    pub fn set_volume_db(&mut self, volume_db: u32)
        ensures
            final(self)@ == (if finite_bits(volume_db) {
                volume_db
            } else {
                SILENCE_DB
            }),
    {
        self.volume_db =
        if (volume_db / 0x80_0000) % 0x100 != 0xFF {
            volume_db
        } else {
            SILENCE_DB
        };
    }

    /// The volume.
    pub fn volume_db(&self) -> (r: u32)
        ensures
            r == self@,
    {
        self.volume_db
    }
}

// ---------------------------------------------------------------------------
// Endpoints
// ---------------------------------------------------------------------------
/// How the receiver of an endpoint is set up.
#[derive(Debug, PartialEq, Eq)]
pub struct EndpointSettings {
    pub name: String,
    pub model: String,
    pub hwaddr: [u8; 6],
    pub pin: String,
    pub password: Option<String>,
    pub bind_addr: IpAddr,
    pub port: u16,
    pub output_sample_rate: u32,
    pub output_max_channels: u8,
    pub max_clients: usize,
}

/// How the receiver of an endpoint is set up: after the endpoint where it is
/// its own, after the configuration elsewhere, with a password only where a
/// non-empty one is configured.
pub fn endpoint_settings(
    endpoint: &VirtualAirPlayEndpoint,
    config: &AirPlayConfig,
    bind_addr: IpAddr,
) -> (r: EndpointSettings)
    ensures
        r.name@ == endpoint.display_name@,
        r.model@ == config.advertised_model@,
        r.hwaddr == endpoint.persisted_hwaddr,
        r.pin@ == config.pin@,
        match r.password {
            Some(p) => config.password() == Some(p@),
            None => config.password() is None,
        },
        r.bind_addr == bind_addr,
        r.port == endpoint.rtsp_port,
        r.output_sample_rate == config.output_sample_rate,
        r.output_max_channels == config.output_channels,
        r.max_clients == config.max_clients_per_zone,
{
    let password: Option<String> = match config.rtsp_password() {
        Some(p) => Some(p.to_owned()),
        None => None,
    };
    EndpointSettings {
        name: endpoint.display_name.clone(),
        model: config.advertised_model.clone(),
        hwaddr: endpoint.persisted_hwaddr,
        pin: config.pin.clone(),
        password,
        bind_addr,
        port: endpoint.rtsp_port,
        output_sample_rate: config.output_sample_rate,
        output_max_channels: config.output_channels,
        max_clients: config.max_clients_per_zone,
    }
}

// ---------------------------------------------------------------------------
// Sessions
// ---------------------------------------------------------------------------
/// Why the audio of a session stopped.
#[derive(Clone, Copy, Debug, PartialEq, Eq, Structural)]
pub enum StopReason {
    Teardown,
    StreamEnded,
    StreamEndedWhilePaused,
}

/// The receiver of a zone. At most one of its sessions is the active one.
#[derive(Debug)]
pub struct BridgeAudioHandler {
    pub zone_id: ZoneId,
    pub volume_state: ZoneVolumeState,
    pub active_session: Option<SessionId>,
}

/// A session of a receiver.
#[derive(Debug)]
pub struct BridgeAudioSession {
    pub session_id: SessionId,
    pub zone_id: ZoneId,
    pub format: PcmFormat,
    pub stop_notified: bool,
}

impl BridgeAudioHandler {
    /// The receiver of a zone before any session.
    pub fn new(zone_id: ZoneId, volume_state: ZoneVolumeState) -> (r: Self)
        ensures
            r == (BridgeAudioHandler { zone_id, volume_state, active_session: None }),
    {
        BridgeAudioHandler { zone_id, volume_state, active_session: None }
    }

    /// Starts a session under the given identifier, which becomes the active one.
    pub fn open_session(&mut self, session_id: SessionId, format: PcmFormat) -> (r: (
        AirPlayEvent,
        BridgeAudioSession,
    ))
        ensures
            *final(self) == (BridgeAudioHandler {
                active_session: Some(session_id),
                ..*old(self)
            }),
            r.0 == (AirPlayEvent::SessionStarted { session_id, zone_id: old(self).zone_id, format }),
            r.1 == (BridgeAudioSession {
                session_id,
                zone_id: old(self).zone_id,
                format,
                stop_notified: false,
            }),
    {
        self.active_session = Some(session_id);
        (
            AirPlayEvent::SessionStarted { session_id, zone_id: self.zone_id.clone(), format },
            BridgeAudioSession {
                session_id,
                zone_id: self.zone_id.clone(),
                format,
                stop_notified: false,
            },
        )
    }

    /// Starts a session under a random identifier, which becomes the active one.
    pub fn audio_init(&mut self, format: PcmFormat) -> (r: (AirPlayEvent, BridgeAudioSession))
        ensures
            *final(self) == (BridgeAudioHandler {
                active_session: Some(r.1.session_id),
                ..*old(self)
            }),
            r.0 == (AirPlayEvent::SessionStarted {
                session_id: r.1.session_id,
                zone_id: old(self).zone_id,
                format,
            }),
            r.1 == (BridgeAudioSession {
                session_id: r.1.session_id,
                zone_id: old(self).zone_id,
                format,
                stop_notified: false,
            }),
    {
        let session_id = SessionId::new();
        self.open_session(session_id, format)
    }

    /// Playback went on or paused: what the active session, if any, tells.
    pub fn on_playback_rate(&self, playing: bool) -> (r: Option<AirPlayEvent>)
        ensures
            r == match self.active_session {
                Some(session_id) => Some(
                    AirPlayEvent::PlaybackState { session_id, zone_id: self.zone_id, playing },
                ),
                None => None,
            },
    {
        match self.active_session {
            Some(session_id) => Some(
                AirPlayEvent::PlaybackState { session_id, zone_id: self.zone_id.clone(), playing },
            ),
            None => None,
        }
    }

    /// The client set a volume, which corresponds to the given Sonos volume.
    pub fn on_volume(&mut self, airplay_db: u32, sonos_volume: u8) -> (r: AirPlayEvent)
        ensures
            final(self).volume_state@ == (if finite_bits(airplay_db) {
                airplay_db
            } else {
                SILENCE_DB
            }),
            final(self).zone_id == old(self).zone_id,
            final(self).active_session == old(self).active_session,
            r == (AirPlayEvent::Volume { zone_id: old(self).zone_id, airplay_db, sonos_volume }),
    {
        self.volume_state.set_volume_db(airplay_db);
        AirPlayEvent::Volume { zone_id: self.zone_id.clone(), airplay_db, sonos_volume }
    }

    /// The volume that is reported to clients.
    pub fn current_volume_db(&self) -> (r: u32)
        ensures
            r == self.volume_state@,
    {
        self.volume_state.volume_db()
    }

    /// A client connected.
    pub fn on_client_connected(&self, addr: &str) -> (r: AirPlayEvent)
        ensures
            r is ClientConnected,
            r->ClientConnected_zone_id == self.zone_id,
            r->ClientConnected_addr@ == addr@,
    {
        AirPlayEvent::ClientConnected { zone_id: self.zone_id.clone(), addr: addr.to_owned() }
    }

    /// A client disconnected.
    pub fn on_client_disconnected(&self, addr: &str) -> (r: AirPlayEvent)
        ensures
            r is ClientDisconnected,
            r->ClientDisconnected_zone_id == self.zone_id,
            r->ClientDisconnected_addr@ == addr@,
    {
        AirPlayEvent::ClientDisconnected { zone_id: self.zone_id.clone(), addr: addr.to_owned() }
    }

    /// The receiver failed.
    pub fn on_error(&self, message: &str) -> (r: AirPlayEvent)
        ensures
            r is Error,
            r->Error_zone_id == self.zone_id,
            r->message@ == message@,
    {
        AirPlayEvent::Error { zone_id: self.zone_id.clone(), message: message.to_owned() }
    }
}

/// The active session once a session is over.
pub open spec fn without_session(active: Option<SessionId>, over: SessionId) -> Option<SessionId> {
    if active == Some(over) {
        None
    } else {
        active
    }
}

impl BridgeAudioSession {
    /// Audio came in at a time.
    pub fn audio_process(&self, samples: Vec<u32>, now: u64) -> (r: AirPlayEvent)
        ensures
            r == (AirPlayEvent::Pcm {
                session_id: self.session_id,
                zone_id: self.zone_id,
                frame: PcmFrame {
                    sample_rate: self.format.sample_rate,
                    channels: self.format.channels,
                    samples_f32_interleaved: samples,
                    presentation_time: Some(now),
                },
            }),
    {
        AirPlayEvent::Pcm {
            session_id: self.session_id,
            zone_id: self.zone_id.clone(),
            frame: PcmFrame {
                sample_rate: self.format.sample_rate,
                channels: self.format.channels,
                samples_f32_interleaved: samples,
                presentation_time: Some(now),
            },
        }
    }

    /// The client flushed its audio.
    pub fn audio_flush(&self) -> (r: AirPlayEvent)
        ensures
            r == (AirPlayEvent::Flushed { session_id: self.session_id, zone_id: self.zone_id }),
    {
        AirPlayEvent::Flushed { session_id: self.session_id, zone_id: self.zone_id.clone() }
    }

    /// The audio stopped. Only the first stop is told. Where the stream merely
    /// ended while paused, the session stays the active one.
    pub fn audio_stopped(&mut self, active: &mut Option<SessionId>, reason: StopReason) -> (r:
        Option<AirPlayEvent>)
        ensures
            *final(self) == (BridgeAudioSession { stop_notified: true, ..*old(self) }),
            *final(active) == (if old(self).stop_notified || reason
                == StopReason::StreamEndedWhilePaused {
                *old(active)
            } else {
                without_session(*old(active), old(self).session_id)
            }),
            r == (if old(self).stop_notified {
                None
            } else if reason == StopReason::StreamEndedWhilePaused {
                Some(
                    AirPlayEvent::StreamEndedWhilePaused {
                        session_id: old(self).session_id,
                        zone_id: old(self).zone_id,
                    },
                )
            } else {
                Some(
                    AirPlayEvent::SessionStopped {
                        session_id: old(self).session_id,
                        zone_id: old(self).zone_id,
                    },
                )
            }),
    {
        if self.stop_notified {
            return None;
        }
        self.stop_notified = true;
        match reason {
            StopReason::StreamEndedWhilePaused => Some(
                AirPlayEvent::StreamEndedWhilePaused {
                    session_id: self.session_id,
                    zone_id: self.zone_id.clone(),
                },
            ),
            StopReason::Teardown | StopReason::StreamEnded => Some(self.stopped(active)),
        }
    }

    /// The session goes away. Where no stop was told, this is one.
    pub fn closed(&mut self, active: &mut Option<SessionId>) -> (r: Option<AirPlayEvent>)
        ensures
            *final(self) == (BridgeAudioSession { stop_notified: true, ..*old(self) }),
            *final(active) == (if old(self).stop_notified {
                *old(active)
            } else {
                without_session(*old(active), old(self).session_id)
            }),
            r == (if old(self).stop_notified {
                None
            } else {
                Some(
                    AirPlayEvent::SessionStopped {
                        session_id: old(self).session_id,
                        zone_id: old(self).zone_id,
                    },
                )
            }),
    {
        if self.stop_notified {
            return None;
        }
        self.stop_notified = true;
        Some(self.stopped(active))
    }

    fn stopped(&self, active: &mut Option<SessionId>) -> (r: AirPlayEvent)
        ensures
            *final(active) == without_session(*old(active), self.session_id),
            r == (AirPlayEvent::SessionStopped {
                session_id: self.session_id,
                zone_id: self.zone_id,
            }),
    {
        if let Some(id) = *active {
            if id == self.session_id {
                *active = None;
            }
        }
        AirPlayEvent::SessionStopped { session_id: self.session_id, zone_id: self.zone_id.clone() }
    }
}

// ---------------------------------------------------------------------------
// Pairings
// ---------------------------------------------------------------------------
#[verifier::external_type_specification]
#[verifier::external_body]
pub struct ExJsonError(serde_json::Error);

/// Why a pairing store failed.
#[derive(Debug)]
pub enum PairingStoreError {
    Io(String),
    Json(serde_json::Error),
    Poisoned,
}

/// Why an AirPlay endpoint failed.
#[derive(Debug)]
pub enum AirPlayError {
    Shairplay(String),
    PairingStore { path: String, source: PairingStoreError },
}

/// The keys of paired clients by device, kept in a file.
#[derive(Debug)]
pub struct FilePairingStore {
    path: String,
    keys: TextMap<[u8; 32]>,
}

/// What `serde_json::from_str` reads as a `BTreeMap<String, [u8; 32]>` from a
/// text, or nothing where it fails.
pub uninterp spec fn json_keys(contents: Seq<char>) -> Option<Map<Seq<char>, [u8; 32]>>;

/// What `serde_json::to_string_pretty` writes for a `BTreeMap<String, [u8; 32]>`.
pub uninterp spec fn keys_json(keys: Map<Seq<char>, [u8; 32]>) -> Seq<char>;

/// `serde_json::from_str`, into a `BTreeMap<String, [u8; 32]>`: it fails or
/// gives the entries, which a `BTreeMap` hands out by ascending keys.
#[verifier::external_body]
fn read_keys(contents: &str) -> (r: Result<Vec<(String, [u8; 32])>, serde_json::Error>)
    ensures
        match r {
            Ok(entries) => text_map::keys_ordered(entries@) && json_keys(contents@) == Some(
                text_map::entries_map(entries@),
            ),
            Err(_) => json_keys(contents@) is None,
        },
{
    let keys: BTreeMap<String, [u8; 32]> = serde_json::from_str(contents)?;
    Ok(keys.into_iter().collect())
}

/// `serde_json::to_string_pretty`, of a `BTreeMap<String, [u8; 32]>`. It fails
/// only where a value refuses to be written or a key is no string. What it
/// writes is read back as the same entries, also with white space behind it.
#[verifier::external_body]
fn write_keys(entries: Vec<(String, [u8; 32])>) -> (r: Result<String, serde_json::Error>)
    requires
        text_map::keys_ordered(entries@),
    ensures
        r is Ok,
        r->Ok_0@ == keys_json(text_map::entries_map(entries@)),
        json_keys(r->Ok_0@ + "\n"@) == Some(text_map::entries_map(entries@)),
{
    let keys: BTreeMap<String, [u8; 32]> = entries.into_iter().collect();
    serde_json::to_string_pretty(&keys)
}

impl View for FilePairingStore {
    type V = Map<Seq<char>, [u8; 32]>;

    closed spec fn view(&self) -> Map<Seq<char>, [u8; 32]> {
        self.keys@
    }
}

impl FilePairingStore {
    /// The file in which the keys are kept.
    pub closed spec fn file(self) -> Seq<char> {
        self.path@
    }

    /// The store with the contents of its file; a missing file holds no keys.
    pub fn load(path: &str, contents: Option<&str>) -> (r: Result<Self, AirPlayError>)
        ensures
            match r {
                Ok(store) => store.file() == path@ && match contents {
                    Some(c) => json_keys(c@) == Some(store@),
                    None => store@ == Map::<Seq<char>, [u8; 32]>::empty(),
                },
                Err(error) => contents is Some && json_keys(contents->0@) is None && match error {
                    AirPlayError::PairingStore { path: p, source } => p@ == path@
                        && source is Json,
                    _ => false,
                },
            },
    {
        let keys: TextMap<[u8; 32]> = match contents {
            None => TextMap::new(),
            Some(contents) => match read_keys(contents) {
                Ok(entries) => TextMap::from_entries(entries),
                Err(error) => {
                    return Err(
                        AirPlayError::PairingStore {
                            path: path.to_owned(),
                            source: PairingStoreError::Json(error),
                        },
                    );
                },
            },
        };
        Ok(FilePairingStore { path: path.to_owned(), keys })
    }

    /// The file in which the keys are kept.
    pub fn path(&self) -> (r: &str)
        ensures
            r@ == self.file(),
    {
        self.path.as_str()
    }

    /// The number of keys.
    pub fn key_count(&self) -> (r: Result<usize, AirPlayError>)
        ensures
            r is Ok,
            self@.dom().finite(),
            r->Ok_0 == self@.dom().len(),
    {
        Ok(self.keys.count())
    }

    /// The key of a device.
    pub fn get(&self, device_id: &str) -> (r: Option<[u8; 32]>)
        ensures
            r == (if self@.dom().contains(device_id@) {
                Some(self@[device_id@])
            } else {
                None
            }),
    {
        match self.keys.get(device_id) {
            Some(key) => Some(*key),
            None => None,
        }
    }

    /// What the file holds once it is written: the keys and a line end.
    pub fn file_contents(&self) -> (r: Result<String, PairingStoreError>)
        ensures
            r is Ok,
            r->Ok_0@ == keys_json(self@) + "\n"@,
            json_keys(r->Ok_0@) == Some(self@),
    {
        let entries = self.keys.to_entries();
        match write_keys(entries) {
            Ok(json) => {
                let mut contents = json;
                contents.push('\n');
                proof {
                    reveal_strlit("\n");
                    assert(contents@ =~= json@ + "\n"@);
                }
                Ok(contents)
            },
            Err(error) => Err(PairingStoreError::Json(error)),
        }
    }

    /// Stores the key of a device and gives what the file is to hold.
    pub fn put(&mut self, device_id: &str, public_key: [u8; 32]) -> (r: Result<
        String,
        PairingStoreError,
    >)
        ensures
            final(self).file() == old(self).file(),
            final(self)@ == old(self)@.insert(device_id@, public_key),
            r is Ok,
            r->Ok_0@ == keys_json(final(self)@) + "\n"@,
            json_keys(r->Ok_0@) == Some(final(self)@),
    {
        self.keys.insert(device_id.to_owned(), public_key);
        self.file_contents()
    }

    /// Forgets the key of a device and gives what the file is to hold.
    pub fn remove(&mut self, device_id: &str) -> (r: Result<String, PairingStoreError>)
        ensures
            final(self).file() == old(self).file(),
            final(self)@ == old(self)@.remove(device_id@),
            r is Ok,
            r->Ok_0@ == keys_json(final(self)@) + "\n"@,
            json_keys(r->Ok_0@) == Some(final(self)@),
    {
        self.keys.remove(device_id);
        self.file_contents()
    }
}

// ---------------------------------------------------------------------------
// What callers see
// ---------------------------------------------------------------------------
/// A level that is no number, or an infinite one, is taken for silence; every
/// other level is kept bit by bit. Such levels have all bits of the exponent set.
pub proof fn only_numbers_are_levels(
    state: &mut ZoneVolumeState,
    level: u32,
    later: &ZoneVolumeState,
    r: u32,
)
    requires
        call_ensures(ZoneVolumeState::set_volume_db, (state, level), ()),
        later@ == final(state)@,
        call_ensures(ZoneVolumeState::volume_db, (later,), r),
    ensures
        level & 0x7f80_0000 != 0x7f80_0000 ==> r == level,
        level & 0x7f80_0000 == 0x7f80_0000 ==> r == 0xC310_0000,
{
    assert((level & 0x7f80_0000 == 0x7f80_0000) <==> (level / 0x80_0000) % 0x100 == 0xFF) by (
    bit_vector);
}

/// A handler knows the session that it opened last, and tells of its playback; it
/// has nothing to tell before.
pub proof fn playback_is_told_of_the_open_session(
    handler: &mut BridgeAudioHandler,
    session_id: SessionId,
    format: PcmFormat,
    opened: (AirPlayEvent, BridgeAudioSession),
    later: &BridgeAudioHandler,
    playing: bool,
    told: Option<AirPlayEvent>,
    fresh: &BridgeAudioHandler,
    before: Option<AirPlayEvent>,
)
    requires
        call_ensures(BridgeAudioHandler::open_session, (handler, session_id, format), opened),
        *later == *final(handler),
        call_ensures(BridgeAudioHandler::on_playback_rate, (later, playing), told),
        fresh.active_session is None,
        call_ensures(BridgeAudioHandler::on_playback_rate, (fresh, playing), before),
    ensures
        opened.0 matches AirPlayEvent::SessionStarted { session_id: i, zone_id: z, format: f } && i
            == session_id && z == old(handler).zone_id && f == format,
        opened.1.session_id == session_id,
        opened.1.zone_id == old(handler).zone_id,
        opened.1.format == format,
        !opened.1.stop_notified,
        told matches Some(AirPlayEvent::PlaybackState { session_id: i, zone_id: z, playing: p }) && i
            == session_id && z == old(handler).zone_id && p == playing,
        before is None,
        final(handler).zone_id == old(handler).zone_id,
        final(handler).volume_state == old(handler).volume_state,
{
}

/// The end of a session is told once, by whatever comes first, and the handler
/// then has no session open, unless it has opened another.
pub proof fn ends_are_told_once(
    session: &mut BridgeAudioSession,
    active: &mut Option<SessionId>,
    first: Option<AirPlayEvent>,
    again: &mut BridgeAudioSession,
    still: &mut Option<SessionId>,
    second: Option<AirPlayEvent>,
    reason: StopReason,
)
    requires
        call_ensures(BridgeAudioSession::closed, (session, active), first),
        *old(again) == *final(session),
        *old(still) == *final(active),
        call_ensures(BridgeAudioSession::audio_stopped, (again, still, reason), second),
    ensures
        !old(session).stop_notified ==> (first matches Some(
            AirPlayEvent::SessionStopped { session_id, zone_id },
        ) && session_id == old(session).session_id && zone_id == old(session).zone_id),
        old(session).stop_notified ==> first is None,
        second is None,
        *final(still) == *final(active),
        !old(session).stop_notified && *old(active) == Some(old(session).session_id) ==> *final(active) is None,
        *old(active) != Some(old(session).session_id) ==> *final(active) == *old(active),
{
}

/// Audio that stops is told as the end of the session, or, where it ended during
/// a pause, as that, which leaves the session open.
pub proof fn stops_are_told_by_their_reason(
    session: &mut BridgeAudioSession,
    active: &mut Option<SessionId>,
    reason: StopReason,
    r: Option<AirPlayEvent>,
)
    requires
        call_ensures(BridgeAudioSession::audio_stopped, (session, active, reason), r),
        !old(session).stop_notified,
    ensures
        final(session).stop_notified,
        reason == StopReason::StreamEndedWhilePaused ==> (r matches Some(
            AirPlayEvent::StreamEndedWhilePaused { session_id, zone_id },
        ) && session_id == old(session).session_id && zone_id == old(session).zone_id),
        reason == StopReason::StreamEndedWhilePaused ==> *final(active) == *old(active),
        reason != StopReason::StreamEndedWhilePaused ==> (r matches Some(
            AirPlayEvent::SessionStopped { session_id, zone_id },
        ) && session_id == old(session).session_id && zone_id == old(session).zone_id),
        reason != StopReason::StreamEndedWhilePaused && *old(active) == Some(
            old(session).session_id,
        ) ==> *final(active) is None,
{
}

/// Audio is told in the format of its session, as it came and at its time.
pub proof fn audio_is_told_as_it_came(
    session: &BridgeAudioSession,
    samples: Vec<u32>,
    now: u64,
    r: AirPlayEvent,
    flushed: AirPlayEvent,
)
    requires
        call_ensures(BridgeAudioSession::audio_process, (session, samples, now), r),
        call_ensures(BridgeAudioSession::audio_flush, (session,), flushed),
    ensures
        r matches AirPlayEvent::Pcm { session_id, zone_id, frame } && {
            &&& session_id == session.session_id
            &&& zone_id == session.zone_id
            &&& frame.sample_rate == session.format.sample_rate
            &&& frame.channels == session.format.channels
            &&& frame.samples_f32_interleaved == samples
            &&& frame.presentation_time == Some(now)
        },
        flushed matches AirPlayEvent::Flushed { session_id, zone_id } && session_id
            == session.session_id && zone_id == session.zone_id,
{
}

/// A change of the volume is told as it came, and reported from then on.
pub proof fn volumes_are_told_and_reported(
    handler: &mut BridgeAudioHandler,
    level: u32,
    volume: u8,
    r: AirPlayEvent,
    later: &BridgeAudioHandler,
    reported: u32,
)
    requires
        call_ensures(BridgeAudioHandler::on_volume, (handler, level, volume), r),
        *later == *final(handler),
        call_ensures(BridgeAudioHandler::current_volume_db, (later,), reported),
    ensures
        r matches AirPlayEvent::Volume { zone_id, airplay_db, sonos_volume } && zone_id
            == old(handler).zone_id && airplay_db == level && sonos_volume == volume,
        level & 0x7f80_0000 != 0x7f80_0000 ==> reported == level,
        level & 0x7f80_0000 == 0x7f80_0000 ==> reported == 0xC310_0000,
        final(handler).active_session == old(handler).active_session,
{
    assert((level & 0x7f80_0000 == 0x7f80_0000) <==> (level / 0x80_0000) % 0x100 == 0xFF) by (
    bit_vector);
}

/// A receiver is set up as its endpoint and the configuration say; an empty
/// password is none.
pub proof fn receivers_are_set_up_as_configured(
    endpoint: &VirtualAirPlayEndpoint,
    config: &AirPlayConfig,
    bind_addr: IpAddr,
    r: EndpointSettings,
)
    requires
        call_ensures(endpoint_settings, (endpoint, config, bind_addr), r),
    ensures
        r.name@ == endpoint.display_name@,
        r.port == endpoint.rtsp_port,
        r.hwaddr == endpoint.persisted_hwaddr,
        r.model@ == config.advertised_model@,
        r.pin@ == config.pin@,
        r.bind_addr == bind_addr,
        r.output_sample_rate == config.output_sample_rate,
        r.output_max_channels == config.output_channels,
        r.max_clients == config.max_clients_per_zone,
        r.password is Some <==> config.rtsp_password is Some && config.rtsp_password->0@.len() > 0,
        r.password matches Some(p) ==> p@ == config.rtsp_password->0@,
{
}

/// A key that was stored is found again under its device, and the file that is
/// written for it holds all keys.
pub proof fn stored_keys_are_found(
    store: &mut FilePairingStore,
    device_id: &str,
    key: [u8; 32],
    written: Result<String, PairingStoreError>,
    later: &FilePairingStore,
    wanted: &str,
    found: Option<[u8; 32]>,
)
    requires
        call_ensures(FilePairingStore::put, (store, device_id, key), written),
        later@ == final(store)@,
        call_ensures(FilePairingStore::get, (later, wanted), found),
    ensures
        wanted@ == device_id@ ==> found == Some(key),
        wanted@ != device_id@ && old(store)@.dom().contains(wanted@) ==> found == Some(
            old(store)@[wanted@],
        ),
        wanted@ != device_id@ && !old(store)@.dom().contains(wanted@) ==> found is None,
        written matches Ok(contents) && json_keys(contents@) == Some(final(store)@),
        final(store).file() == old(store).file(),
{
}

/// What a store wrote is what a store that is loaded from it holds.
pub proof fn written_keys_are_loaded(
    store: &FilePairingStore,
    written: String,
    path: &str,
    contents: &str,
    loaded: Result<FilePairingStore, AirPlayError>,
)
    requires
        call_ensures(
            FilePairingStore::file_contents,
            (store,),
            Ok::<String, PairingStoreError>(written),
        ),
        contents@ == written@,
        call_ensures(FilePairingStore::load, (path, Some(contents)), loaded),
    ensures
        loaded matches Ok(same) && same@ == store@ && same.file() == path@,
{
}

/// A key that was removed is found no more; a store without a file is empty.
pub proof fn removed_keys_are_gone(
    store: &mut FilePairingStore,
    device_id: &str,
    written: Result<String, PairingStoreError>,
    later: &FilePairingStore,
    wanted: &str,
    found: Option<[u8; 32]>,
    path: &str,
    fresh: Result<FilePairingStore, AirPlayError>,
)
    requires
        call_ensures(FilePairingStore::remove, (store, device_id), written),
        later@ == final(store)@,
        call_ensures(FilePairingStore::get, (later, wanted), found),
        call_ensures(FilePairingStore::load, (path, None::<&str>), fresh),
    ensures
        wanted@ == device_id@ ==> found is None,
        wanted@ != device_id@ && old(store)@.dom().contains(wanted@) ==> found == Some(
            old(store)@[wanted@],
        ),
        fresh matches Ok(empty) && empty@.dom() == Set::<Seq<char>>::empty() && empty.file()
            == path@,
{
}

/// What happens to the clients of a zone is told with the zone and as it came.
pub proof fn clients_are_told_with_their_zone(
    handler: &BridgeAudioHandler,
    addr: &str,
    message: &str,
    connected: AirPlayEvent,
    disconnected: AirPlayEvent,
    failed: AirPlayEvent,
)
    requires
        call_ensures(BridgeAudioHandler::on_client_connected, (handler, addr), connected),
        call_ensures(BridgeAudioHandler::on_client_disconnected, (handler, addr), disconnected),
        call_ensures(BridgeAudioHandler::on_error, (handler, message), failed),
    ensures
        connected matches AirPlayEvent::ClientConnected { zone_id, addr: a } && zone_id
            == handler.zone_id && a@ == addr@,
        disconnected matches AirPlayEvent::ClientDisconnected { zone_id, addr: a } && zone_id
            == handler.zone_id && a@ == addr@,
        failed matches AirPlayEvent::Error { zone_id, message: m } && zone_id == handler.zone_id
            && m@ == message@,
{
}

} // verus!
