use airsonos2::airplay::{
    endpoint_settings, AirPlayError, AirPlayEvent, BridgeAudioHandler, BridgeAudioSession,
    FilePairingStore, PairingStoreError, StopReason, ZoneVolumeState, SILENCE_DB,
};
use airsonos2::config::AirPlayConfig;
use airsonos2::ids::{SessionId, ZoneId};
use airsonos2::net::IpAddr;
use airsonos2::types::{PcmFormat, VirtualAirPlayEndpoint};

fn format() -> PcmFormat {
    PcmFormat {
        sample_rate: 48_000,
        channels: 2,
        bits: 32,
    }
}

fn session(session_id: SessionId) -> BridgeAudioSession {
    BridgeAudioSession {
        session_id,
        zone_id: ZoneId::new("RINCON_TEST"),
        format: format(),
        stop_notified: false,
    }
}

#[test]
fn missing_pairing_store_loads_as_empty() {
    let store = FilePairingStore::load("missing.json", None).expect("missing store loads");

    assert_eq!(store.key_count().expect("count"), 0);
    assert!(store.get("ios-device-id").is_none());
    assert_eq!(store.path(), "missing.json");
}

#[test]
fn put_persists_key_and_reload_returns_it() {
    let path = "pairings.json";
    let key = [7; 32];

    let mut store = FilePairingStore::load(path, None).expect("store loads");
    let contents = store.put("ios-device-id", key).expect("contents");

    let reloaded = FilePairingStore::load(path, Some(&contents)).expect("store reloads");

    assert_eq!(reloaded.get("ios-device-id"), Some(key));
    assert_eq!(reloaded.key_count().expect("count"), 1);
}

#[test]
fn remove_deletes_key_and_persists_deletion() {
    let path = "pairings.json";
    let key = [9; 32];

    let mut store = FilePairingStore::load(path, None).expect("store loads");
    store.put("ios-device-id", key).expect("contents");
    let contents = store.remove("ios-device-id").expect("contents");

    let reloaded = FilePairingStore::load(path, Some(&contents)).expect("store reloads");

    assert!(reloaded.get("ios-device-id").is_none());
    assert_eq!(reloaded.key_count().expect("count"), 0);
}

#[test]
fn invalid_json_returns_error() {
    let error = FilePairingStore::load("pairings.json", Some("{not json"))
        .expect_err("invalid json should fail");

    assert!(matches!(error, AirPlayError::PairingStore { .. }));
}

#[test]
fn invalid_key_length_returns_error() {
    let error = FilePairingStore::load("pairings.json", Some(r#"{"ios-device-id":[1,2,3]}"#))
        .expect_err("invalid key should fail");

    assert!(matches!(
        error,
        AirPlayError::PairingStore {
            source: PairingStoreError::Json(_),
            ..
        }
    ));
}

#[test]
fn pairing_files_hold_the_keys_in_order() {
    let mut store = FilePairingStore::load("p", Some("{}")).expect("store");
    store.put("b\"\n", [2; 32]).expect("contents");
    let contents = store.put("a", [1; 32]).expect("contents");
    assert!(contents.starts_with("{\n  \"a\": [\n    1,\n"));
    assert!(contents.ends_with("]\n}\n"));
    assert_eq!(store.file_contents().expect("contents"), contents);
    let reloaded = FilePairingStore::load("p", Some(&contents)).expect("store");
    assert_eq!(reloaded.get("b\"\n"), Some([2; 32]));
    assert_eq!(reloaded.get("a"), Some([1; 32]));
}

#[test]
fn audio_stopped_while_paused_keeps_session_alive() {
    let session_id = SessionId::new();
    let mut active_session = Some(session_id);
    let mut session = session(session_id);

    let event = session
        .audio_stopped(&mut active_session, StopReason::StreamEndedWhilePaused)
        .expect("paused stream end event");
    let late = session.closed(&mut active_session);

    assert!(matches!(event, AirPlayEvent::StreamEndedWhilePaused { .. }));
    assert!(late.is_none());
    assert_eq!(active_session, Some(session_id));
}

#[test]
fn audio_stopped_teardown_does_not_emit_session_stopped_on_drop() {
    let session_id = SessionId::new();
    let mut active_session = Some(session_id);
    let mut session = session(session_id);

    let event = session
        .audio_stopped(&mut active_session, StopReason::Teardown)
        .expect("session stopped event");
    let late = session.closed(&mut active_session);

    assert!(matches!(event, AirPlayEvent::SessionStopped { .. }));
    assert!(late.is_none());
    assert_eq!(active_session, None);
}

#[test]
fn audio_flush_emits_flushed_not_session_stopped() {
    let session = session(SessionId::new());

    let event = session.audio_flush();

    assert!(matches!(event, AirPlayEvent::Flushed { .. }));
}

#[test]
fn sessions_stop_only_themselves() {
    let other = SessionId::new();
    let mut active = Some(other);
    let mut stopped = session(SessionId::new());
    assert!(stopped
        .audio_stopped(&mut active, StopReason::StreamEnded)
        .is_some());
    assert!(stopped
        .audio_stopped(&mut active, StopReason::Teardown)
        .is_none());
    assert_eq!(active, Some(other));
    let mut dropped = session(other);
    assert!(matches!(
        dropped.closed(&mut active),
        Some(AirPlayEvent::SessionStopped { .. })
    ));
    assert_eq!(active, None);
}

#[test]
fn handlers_speak_for_the_active_session() {
    let mut handler = BridgeAudioHandler::new(ZoneId::new("Z"), ZoneVolumeState::new(0));
    assert!(handler.on_playback_rate(true).is_none());
    let (event, session) = handler.audio_init(format());
    assert!(matches!(event, AirPlayEvent::SessionStarted { .. }));
    assert_eq!(handler.active_session, Some(session.session_id));
    assert!(matches!(
        handler.on_playback_rate(false),
        Some(AirPlayEvent::PlaybackState { playing: false, session_id, .. })
            if session_id == session.session_id
    ));
    let newer = SessionId::new();
    handler.open_session(newer, format());
    assert_eq!(handler.active_session, Some(newer));
    assert!(matches!(
        session.audio_process(vec![1, 2], 77),
        AirPlayEvent::Pcm { frame, .. }
            if frame.presentation_time == Some(77) && frame.sample_rate == 48_000
    ));
    assert!(matches!(
        handler.on_client_connected("1.2.3.4:5"),
        AirPlayEvent::ClientConnected { addr, .. } if addr == "1.2.3.4:5"
    ));
    assert!(matches!(
        handler.on_client_disconnected("x"),
        AirPlayEvent::ClientDisconnected { addr, .. } if addr == "x"
    ));
    assert!(matches!(
        handler.on_error("bad"),
        AirPlayEvent::Error { message, .. } if message == "bad"
    ));
}

#[test]
fn volumes_that_are_no_numbers_are_silence() {
    assert_eq!(f32::from_bits(SILENCE_DB), -144.0);
    let mut state = ZoneVolumeState::new((-3.5_f32).to_bits());
    assert_eq!(f32::from_bits(state.volume_db()), -3.5);
    for bad in [f32::NAN, f32::INFINITY, f32::NEG_INFINITY] {
        state.set_volume_db(0);
        state.set_volume_db(bad.to_bits());
        assert_eq!(f32::from_bits(state.volume_db()), -144.0);
    }
    for good in [0.0, -0.0, f32::MIN, f32::MAX, f32::MIN_POSITIVE, -20.25] {
        state.set_volume_db(good.to_bits());
        assert_eq!(state.volume_db(), good.to_bits());
    }
    let mut handler = BridgeAudioHandler::new(ZoneId::new("Z"), state);
    let event = handler.on_volume((-10.0_f32).to_bits(), 32);
    assert!(matches!(event, AirPlayEvent::Volume { sonos_volume: 32, .. }));
    assert_eq!(f32::from_bits(handler.current_volume_db()), -10.0);
}

#[test]
fn receivers_are_set_up_from_endpoint_and_configuration() {
    let endpoint = VirtualAirPlayEndpoint {
        zone_id: ZoneId::new("Z"),
        display_name: "Kitchen AirSonos2".to_owned(),
        rtsp_port: 5001,
        persisted_hwaddr: [2, 1, 2, 3, 4, 5],
        pairing_store_path: "/data/pairings/Z.json".to_owned(),
    };
    let mut config = AirPlayConfig::default();
    let settings = endpoint_settings(&endpoint, &config, IpAddr::V4(0));
    assert_eq!(settings.name, "Kitchen AirSonos2");
    assert_eq!(settings.model, "AudioAccessory5,1");
    assert_eq!(settings.hwaddr, [2, 1, 2, 3, 4, 5]);
    assert_eq!(settings.pin, "3939");
    assert_eq!(settings.password, None);
    assert_eq!(settings.port, 5001);
    assert_eq!(settings.output_sample_rate, 48_000);
    assert_eq!(settings.output_max_channels, 2);
    assert_eq!(settings.max_clients, 10);
    config.rtsp_password = Some("pw".to_owned());
    let settings = endpoint_settings(&endpoint, &config, IpAddr::V4(1));
    assert_eq!(settings.password.as_deref(), Some("pw"));
    assert_eq!(settings.bind_addr, IpAddr::V4(1));
}
