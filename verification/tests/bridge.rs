use airsonos2::airplay::AirPlayEvent;
use airsonos2::bridge::{
    downstream_retry_delay, should_restart_downstream_for_play, sync_cohort_should_start,
    BridgeError, BridgeRuntime, EventOutcome, SyncCohort,
};
use airsonos2::bridge_state::{
    BridgeAction, DownstreamLifecycle, DownstreamPlan, DownstreamRetry, DownstreamStartOutcome,
    DownstreamStartResult, PreparedDownstream, SonosStreamPrepare, DOWNSTREAM_RETRY_BASE_MS,
    DOWNSTREAM_RETRY_MAX_MS, PAUSED_SESSION_GRACE_SECS,
};
use airsonos2::config::Config;
use airsonos2::downstream::{
    finish_play, plan_stream, play_outcome, plays_were_slow, stream_url_for_zone, PlayReply,
    PrepareAction, PrepareReply, PrepareStage, PrepareTask, ReplyOutcome, StreamPlanError,
};
use airsonos2::ids::{SessionId, ZoneId};
use airsonos2::net::IpAddr;
use airsonos2::session_map::SessionMap;
use airsonos2::stream::LiveStream;
use airsonos2::sync::ZoneStartupTiming;
use airsonos2::text_map::TextMap;
use airsonos2::types::{EncoderState, PcmFormat, PcmFrame, SonosZone, StreamCodec, StreamSession};
use bytes::Bytes;

const MS: u64 = 1_000_000;

fn runtime() -> BridgeRuntime {
    BridgeRuntime::new(Config::default(), TextMap::new(), TextMap::new())
}

fn runtime_with_zone() -> BridgeRuntime {
    let mut sonos = TextMap::new();
    sonos.insert("RINCON_TEST".to_owned(), zone());
    let mut volumes = TextMap::new();
    volumes.insert("RINCON_TEST".to_owned(), ());
    BridgeRuntime::new(Config::default(), sonos, volumes)
}

fn zone() -> SonosZone {
    SonosZone {
        id: zone_id(),
        room_name: "Kitchen".to_owned(),
        ip: IpAddr::V4(0xC000_0201),
        model: "One".to_owned(),
        rincon_id: "RINCON_TEST".to_owned(),
        is_visible_room: true,
        is_group_coordinator: false,
    }
}

fn format() -> PcmFormat {
    PcmFormat {
        sample_rate: 44_100,
        channels: 2,
        bits: 16,
    }
}

fn zone_id() -> ZoneId {
    ZoneId::new("RINCON_TEST")
}

fn live_stream_for(session_id: SessionId, zone_id: ZoneId, codec: StreamCodec) -> LiveStream {
    LiveStream::new(StreamSession {
        session_id,
        zone_id,
        codec,
        generation: 1,
        local_url: "http://127.0.0.1:7000/streams/test.wav".to_owned(),
        encoder_state: EncoderState::Starting,
    })
}

fn prepared_downstream(
    session_id: SessionId,
    zone_id: ZoneId,
    codec: StreamCodec,
) -> PreparedDownstream {
    PreparedDownstream {
        session_id,
        zone_id,
        generation: 1,
        cohort_id: 0,
        lifecycle: 0,
        zone_room_name: "Kitchen".to_owned(),
        codec,
        timing: ZoneStartupTiming {
            subscriber_connect_ms: Some(100),
            ..ZoneStartupTiming::default()
        },
    }
}

fn lifecycle(id: u64) -> DownstreamLifecycle {
    DownstreamLifecycle {
        id,
        cancelled: false,
    }
}

fn cohort(now: u64, sessions: Vec<SessionId>) -> SyncCohort {
    SyncCohort {
        id: 1,
        opened_at: now,
        window_deadline: (now + 750 * MS) as u128,
        start_deadline: (now + 2_500 * MS) as u128,
        sessions,
        prepared: SessionMap::new(),
    }
}

fn cohort_with_single_prepared_session(now: u64) -> SyncCohort {
    let session_id = SessionId::new();
    let mut cohort = cohort(now, vec![session_id]);
    cohort.prepared.insert(
        session_id,
        prepared_downstream(session_id, zone_id(), StreamCodec::Mp3),
    );
    cohort
}

/// The anchor that the bridge asked for, if any, set on a stream.
fn anchor(runtime: &mut BridgeRuntime, stream: &mut LiveStream) {
    for action in runtime.take_actions() {
        if let BridgeAction::SetAnchor { at, .. } = action {
            stream.set_playback_anchor(at);
        }
    }
}

#[test]
fn single_prepared_session_waits_for_multi_select_window() {
    let now = 5 * MS;
    let cohort = cohort_with_single_prepared_session(now);

    assert!(!sync_cohort_should_start(&cohort, now));
    assert!(!sync_cohort_should_start(&cohort, now + 700 * MS));
}

#[test]
fn single_prepared_session_starts_once_window_closes() {
    let now = 5 * MS;
    let cohort = cohort_with_single_prepared_session(now);

    assert!(sync_cohort_should_start(&cohort, now + 750 * MS));
}

#[test]
fn expired_start_deadline_does_not_bypass_multi_select_window() {
    let now = 5 * MS;
    let mut cohort = cohort_with_single_prepared_session(now);
    cohort.start_deadline = (now + 500 * MS) as u128;

    assert!(!sync_cohort_should_start(&cohort, now + 500 * MS));
}

#[test]
fn mixed_preparation_waits_until_deadline() {
    let now = 5 * MS;
    let first = SessionId::new();
    let mut cohort = cohort(now, vec![first, SessionId::new()]);
    cohort.prepared.insert(
        first,
        prepared_downstream(first, zone_id(), StreamCodec::Mp3),
    );

    assert!(!sync_cohort_should_start(&cohort, now + 800 * MS));
    assert!(sync_cohort_should_start(&cohort, now + 2_500 * MS));
}

#[test]
fn unprepared_cohort_waits_for_start_deadline() {
    let now = 5 * MS;
    let cohort = cohort(now, vec![SessionId::new()]);

    assert!(!sync_cohort_should_start(&cohort, now + 800 * MS));
    assert!(sync_cohort_should_start(&cohort, now + 2_500 * MS));
}

#[test]
fn replacement_cohort_does_not_drain_unprepared_predecessor() {
    let mut runtime = runtime();
    let first = SessionId::new();
    let first_id = runtime.add_session_to_sync_cohort(first, 10);
    runtime.sync_cohorts.last_mut().expect("cohort").window_deadline = 10;
    let second = SessionId::new();
    let second_id = runtime.add_session_to_sync_cohort(second, 10);
    assert_ne!(first_id, second_id);
    assert_eq!(runtime.sync_cohorts.len(), 2);
}

#[test]
fn late_preparation_stays_with_its_original_cohort() {
    let mut runtime = runtime();
    let first = SessionId::new();
    let first_zone = zone_id();
    runtime.downstream_generations.insert(first, 1);
    runtime.desired_playback.insert(first, true);
    runtime.downstream_lifecycles.insert(first, lifecycle(7));
    let first_id = runtime.add_session_to_sync_cohort(first, 10);
    runtime.sync_cohorts.last_mut().expect("cohort").window_deadline = 10;
    let second = SessionId::new();
    let second_id = runtime.add_session_to_sync_cohort(second, 10);
    runtime.sync_cohorts[0].window_deadline = (10 + 1_000 * MS) as u128;

    let mut prepared = prepared_downstream(first, first_zone, StreamCodec::Mp3);
    prepared.cohort_id = first_id;
    prepared.lifecycle = 7;
    runtime.handle_prepared_downstream(prepared, 10);

    assert_ne!(first_id, second_id);
    assert!(runtime.sync_cohorts[0].prepared.get(first).is_some());
    assert_eq!(runtime.sync_cohorts[1].prepared.len(), 0);
}

#[test]
fn deadline_retries_unprepared_members_instead_of_abandoning_them() {
    let mut runtime = runtime();
    let unprepared_id = SessionId::new();
    runtime.sessions.insert(unprepared_id, zone_id());
    runtime.desired_playback.insert(unprepared_id, true);
    runtime.downstream_generations.insert(unprepared_id, 4);
    runtime
        .downstream_lifecycles
        .insert(unprepared_id, lifecycle(0));
    let now = 10_000 * MS;
    runtime.sync_cohorts.push(SyncCohort {
        id: 1,
        opened_at: now - 3_000 * MS,
        window_deadline: (now - 2_000 * MS) as u128,
        start_deadline: (now - 1_000 * MS) as u128,
        sessions: vec![unprepared_id],
        prepared: SessionMap::new(),
    });

    runtime.maybe_start_sync_cohorts(now);

    assert!(runtime.sync_cohorts.is_empty());
    assert_eq!(runtime.downstream_generations.get(unprepared_id), Some(&5));
    assert!(runtime.downstream_reset_needed.contains(unprepared_id));
    assert!(runtime.downstream_retry_tasks.contains(unprepared_id));
    runtime.cancel_downstream_retry(unprepared_id);
    assert!(!runtime.downstream_retry_tasks.contains(unprepared_id));
}

#[test]
fn cohort_creation_and_joining_within_multi_select_window() {
    let mut runtime = runtime();
    let first = SessionId::new();
    let second = SessionId::new();

    let first_id = runtime.add_session_to_sync_cohort(first, 0);
    let second_id = runtime.add_session_to_sync_cohort(second, 700 * MS);

    assert_eq!(first_id, second_id);
    assert_eq!(
        runtime.sync_cohorts.first().expect("cohort").sessions,
        vec![first, second]
    );
    assert_eq!(runtime.add_session_to_sync_cohort(first, 0), first_id);
    assert_eq!(runtime.sync_cohorts[0].sessions.len(), 2);
    let wakes: Vec<u64> = runtime
        .take_actions()
        .into_iter()
        .filter_map(|action| match action {
            BridgeAction::WakeCohorts { after_ms } => Some(after_ms),
            _ => None,
        })
        .collect();
    assert_eq!(wakes, vec![750, 2_500]);
    assert_ne!(runtime.add_session_to_sync_cohort(first, 750 * MS), first_id);
}

#[test]
fn pause_marks_session_as_needing_downstream_reset() {
    let mut runtime = runtime();
    let session_id = SessionId::new();
    runtime.sessions.insert(session_id, zone_id());
    runtime.desired_playback.insert(session_id, true);
    runtime.downstream_generations.insert(session_id, 1);
    runtime.downstream_lifecycles.insert(session_id, lifecycle(3));
    let cohort_id = runtime.add_session_to_sync_cohort(session_id, 0);
    let mut prepared = prepared_downstream(session_id, zone_id(), StreamCodec::Mp3);
    prepared.cohort_id = cohort_id;
    prepared.lifecycle = 3;
    runtime
        .sync_cohorts
        .first_mut()
        .expect("cohort")
        .prepared
        .insert(session_id, prepared);

    assert!(runtime
        .set_playback_state(session_id, zone_id(), false)
        .is_none());

    assert_eq!(runtime.desired_playback.get(session_id), Some(&false));
    assert!(runtime.downstream_reset_needed.contains(session_id));
    assert!(runtime.sync_cohorts.is_empty());
    assert_eq!(runtime.downstream_generations.get(session_id), Some(&2));
    assert!(runtime
        .take_actions()
        .iter()
        .any(|action| matches!(action, BridgeAction::CancelLifecycle { lifecycle: 3 })));
}

#[test]
fn play_after_pause_requests_downstream_reset() {
    assert!(should_restart_downstream_for_play(Some(false), true));
}

#[test]
fn duplicate_play_retries_when_downstream_reset_is_still_needed() {
    assert!(should_restart_downstream_for_play(Some(true), true));
    assert!(!should_restart_downstream_for_play(Some(true), false));
}

#[test]
fn wav_streams_receive_compensated_anchors() {
    let mut runtime = runtime();
    runtime.config.stream.codec = "wav".to_owned();
    runtime
        .config
        .sync
        .zone_offsets_ms
        .insert("Kitchen".to_owned(), 80);
    let session_id = SessionId::new();
    let prepared = prepared_downstream(session_id, zone_id(), StreamCodec::Wav);
    let mut live_stream = live_stream_for(session_id, zone_id(), StreamCodec::Wav);

    runtime.apply_sync_anchors(&vec![prepared], 1_000 * MS);
    anchor(&mut runtime, &mut live_stream);

    assert!(live_stream.timing().playback_anchor_at.is_some());
    assert_eq!(
        live_stream.timing().playback_anchor_at,
        Some((1_200 * MS) as u128)
    );
}

#[test]
fn mp3_streams_do_not_use_sample_anchors() {
    let mut runtime = runtime();
    let session_id = SessionId::new();
    let prepared = prepared_downstream(session_id, zone_id(), StreamCodec::Mp3);
    let mut live_stream = live_stream_for(session_id, zone_id(), StreamCodec::Mp3);

    runtime.apply_sync_anchors(&vec![prepared], 0);
    anchor(&mut runtime, &mut live_stream);

    assert!(live_stream.timing().playback_anchor_at.is_none());
}

#[test]
fn anchors_make_up_for_slow_rooms() {
    let mut runtime = runtime();
    runtime.startup_estimator = airsonos2::sync::StartupDelayEstimator::new(20, 1);
    let (slow, fast) = (ZoneId::new("SLOW"), ZoneId::new("FAST"));
    for (zone, ms) in [(&slow, 400), (&fast, 100)] {
        let timing = ZoneStartupTiming {
            play_ms: Some(ms),
            ..ZoneStartupTiming::default()
        };
        runtime.startup_estimator.record(zone, &timing);
    }
    let prepared = vec![
        prepared_downstream(SessionId::new(), slow, StreamCodec::Wav),
        prepared_downstream(SessionId::new(), fast, StreamCodec::Wav),
    ];
    runtime.apply_sync_anchors(&prepared, 0);
    let anchors: Vec<u128> = runtime
        .take_actions()
        .into_iter()
        .filter_map(|action| match action {
            BridgeAction::SetAnchor { at, .. } => Some(at),
            _ => None,
        })
        .collect();
    assert_eq!(anchors, vec![120 * MS as u128, 420 * MS as u128]);
    runtime.config.sync.startup_compensation = false;
    runtime.apply_sync_anchors(&prepared, 0);
    assert!(matches!(
        runtime.take_actions()[1],
        BridgeAction::SetAnchor { at: 120_000_000, .. }
    ));
}

#[test]
fn slow_play_does_not_block_ingestion_and_drops_preplay_audio() {
    let mut runtime = runtime();
    let session_id = SessionId::new();
    let mut live_stream = live_stream_for(session_id, zone_id(), StreamCodec::Mp3);
    live_stream.hold_delivery();
    live_stream.on_subscriber_connected(0);
    let prepared = prepared_downstream(session_id, zone_id(), StreamCodec::Mp3);

    runtime.play_prepared_downstreams(vec![prepared], 0);
    let mut actions = runtime.take_actions().into_iter();
    let Some(BridgeAction::Play { prepared }) = actions.next() else {
        panic!("play");
    };
    assert!(matches!(
        actions.next(),
        Some(BridgeAction::DispatchPlays { warn_ms: 80 })
    ));
    assert!(live_stream
        .publish(Bytes::from_static(b"stale"), 1)
        .is_none());

    let (outcome, timing) = play_outcome(prepared.timing, PlayReply::Accepted, 200);
    let (open, result) = finish_play(prepared, outcome, timing, false);
    assert!(open);
    assert_eq!(result.outcome, DownstreamStartOutcome::Started);
    live_stream.open_delivery();
    let live = live_stream.publish(Bytes::from_static(b"live"), 2);
    assert_eq!(&live.expect("live audio")[..], b"live");
}

fn result(
    session_id: SessionId,
    generation: u64,
    outcome: DownstreamStartOutcome,
) -> DownstreamStartResult {
    DownstreamStartResult {
        session_id,
        zone_id: zone_id(),
        generation,
        outcome,
        timing: None,
    }
}

#[test]
fn successful_current_downstream_result_clears_reset_marker() {
    let mut runtime = runtime();
    let session_id = SessionId::new();
    runtime.downstream_generations.insert(session_id, 3);
    runtime.downstream_reset_needed.insert(session_id);
    runtime.desired_playback.insert(session_id, true);
    runtime.downstream_retry_attempts.insert(session_id, 2);

    runtime.handle_downstream_start_result(result(
        session_id,
        3,
        DownstreamStartOutcome::Started,
    ));

    assert!(!runtime.downstream_reset_needed.contains(session_id));
    assert!(runtime.downstream_retry_attempts.get(session_id).is_none());
}

#[test]
fn failed_current_downstream_result_keeps_reset_and_schedules_retry() {
    let mut runtime = runtime();
    let session_id = SessionId::new();
    runtime.downstream_generations.insert(session_id, 4);
    runtime.desired_playback.insert(session_id, true);

    runtime.handle_downstream_start_result(result(session_id, 4, DownstreamStartOutcome::Failed));

    assert!(runtime.downstream_reset_needed.contains(session_id));
    assert!(runtime.downstream_retry_tasks.contains(session_id));
    runtime.handle_downstream_start_result(result(session_id, 4, DownstreamStartOutcome::Failed));
    runtime.cancel_downstream_retry(session_id);
    let delays: Vec<u64> = runtime
        .take_actions()
        .into_iter()
        .filter_map(|action| match action {
            BridgeAction::ScheduleRetry {
                after_ms,
                generation: 4,
                ..
            } => Some(after_ms),
            _ => None,
        })
        .collect();
    assert_eq!(delays, vec![500, 1_000]);
}

#[test]
fn stale_downstream_result_is_ignored() {
    let mut runtime = runtime();
    let session_id = SessionId::new();
    runtime.downstream_generations.insert(session_id, 5);
    runtime.downstream_reset_needed.insert(session_id);
    runtime.desired_playback.insert(session_id, true);

    runtime.handle_downstream_start_result(result(
        session_id,
        4,
        DownstreamStartOutcome::Started,
    ));

    assert!(runtime.downstream_reset_needed.contains(session_id));
}

#[test]
fn stale_prepared_downstream_is_ignored() {
    let mut runtime = runtime();
    let session_id = SessionId::new();
    runtime.downstream_generations.insert(session_id, 2);
    let cohort_id = runtime.add_session_to_sync_cohort(session_id, 0);

    let mut prepared = prepared_downstream(session_id, zone_id(), StreamCodec::Mp3);
    prepared.generation = 1;
    prepared.cohort_id = cohort_id;
    runtime.handle_prepared_downstream(prepared, 0);

    assert_eq!(
        runtime.sync_cohorts.first().expect("cohort").prepared.len(),
        0
    );
}

#[test]
fn same_zone_connection_disconnect_keeps_audio_session_valid() {
    let mut runtime = runtime();
    let kept = SessionId::new();
    let kept_zone = zone_id();
    let cohort_id = runtime.add_session_to_sync_cohort(kept, 0);
    runtime.sessions.insert(kept, kept_zone.clone());
    runtime.downstream_generations.insert(kept, 1);
    runtime.desired_playback.insert(kept, true);

    let outcome = runtime.handle_event(AirPlayEvent::ClientDisconnected {
        zone_id: kept_zone,
        addr: "127.0.0.1:1".to_owned(),
    });

    assert!(matches!(outcome, EventOutcome::Done));
    assert_eq!(runtime.downstream_generations.get(kept), Some(&1));
    assert!(runtime
        .sync_cohorts
        .iter()
        .any(|cohort| cohort.id == cohort_id));
}

#[test]
fn removed_member_late_prepare_cannot_start_standalone() {
    let mut runtime = runtime();
    let session_id = SessionId::new();
    runtime.sessions.insert(session_id, zone_id());
    runtime.downstream_generations.insert(session_id, 1);
    runtime.desired_playback.insert(session_id, true);
    let cohort_id = runtime.add_session_to_sync_cohort(session_id, 0);
    runtime.invalidate_prepared_downstream(session_id);
    runtime.take_actions();
    let mut prepared = prepared_downstream(session_id, zone_id(), StreamCodec::Mp3);
    prepared.cohort_id = cohort_id;
    runtime.handle_prepared_downstream(prepared, 10_000 * MS);

    assert!(runtime.sync_cohorts.is_empty());
    assert!(runtime.take_actions().is_empty());
}

#[test]
fn late_stream_ended_while_desired_playback_true_is_ignored() {
    let mut runtime = runtime();
    let session_id = SessionId::new();
    runtime.sessions.insert(session_id, zone_id());
    runtime.desired_playback.insert(session_id, true);

    runtime.handle_event(AirPlayEvent::StreamEndedWhilePaused {
        session_id,
        zone_id: zone_id(),
    });

    assert!(!runtime.downstream_reset_needed.contains(session_id));
    assert!(!runtime.paused_cleanup_tasks.contains(session_id));
}

#[test]
fn stop_clears_session_downstream_state_and_tasks() {
    let mut runtime = runtime();
    let session_id = SessionId::new();
    runtime.sessions.insert(session_id, zone_id());
    runtime.session_formats.insert(session_id, format());
    runtime.desired_playback.insert(session_id, true);
    runtime.downstream_generations.insert(session_id, 8);
    runtime.downstream_reset_needed.insert(session_id);
    runtime.schedule_paused_cleanup(session_id);
    runtime.playback_tasks.insert(session_id);

    runtime.stop_session(session_id, None);

    assert!(runtime.sessions.get(session_id).is_none());
    assert!(runtime.session_formats.get(session_id).is_none());
    assert!(runtime.desired_playback.get(session_id).is_none());
    assert_eq!(runtime.downstream_generations.get(session_id), Some(&9));
    assert!(!runtime.downstream_reset_needed.contains(session_id));
    assert!(!runtime.paused_cleanup_tasks.contains(session_id));
    assert!(!runtime.playback_tasks.contains(session_id));
}

#[test]
fn retry_delay_backs_off_to_maximum() {
    assert_eq!(downstream_retry_delay(0), DOWNSTREAM_RETRY_BASE_MS);
    assert_eq!(downstream_retry_delay(1), DOWNSTREAM_RETRY_BASE_MS * 2);
    assert_eq!(downstream_retry_delay(8), DOWNSTREAM_RETRY_MAX_MS);
    assert_eq!(downstream_retry_delay(3), 4_000);
    assert_eq!(downstream_retry_delay(4), 5_000);
    assert_eq!(downstream_retry_delay(u32::MAX), 5_000);
}

fn begin(runtime: &mut BridgeRuntime, session_id: SessionId, now: u64) -> SonosStreamPrepare {
    let plan = runtime
        .begin_session(session_id, zone_id(), format())
        .expect("plan");
    runtime.session_started(plan, StreamCodec::Wav, now);
    take_start(runtime)
}

fn take_start(runtime: &mut BridgeRuntime) -> SonosStreamPrepare {
    runtime
        .take_actions()
        .into_iter()
        .find_map(|action| match action {
            BridgeAction::StartPrepare { start } => Some(start),
            _ => None,
        })
        .expect("preparation")
}

fn prepared_from(start: SonosStreamPrepare) -> PreparedDownstream {
    PreparedDownstream {
        session_id: start.session_id,
        zone_id: start.zone_id,
        generation: start.generation,
        cohort_id: start.cohort_id,
        lifecycle: start.lifecycle,
        zone_room_name: start.zone.room_name,
        codec: start.codec,
        timing: ZoneStartupTiming::default(),
    }
}

#[test]
fn a_session_is_prepared_and_played() {
    let mut runtime = runtime_with_zone();
    let session_id = SessionId::new();
    let start = begin(&mut runtime, session_id, 0);
    assert_eq!(start.generation, 1);
    assert!(start.force_standalone_on_start);
    assert!(runtime.encoders.contains(session_id));
    assert!(runtime.playback_tasks.contains(session_id));

    runtime.handle_prepared_downstream(prepared_from(start), 100 * MS);
    assert!(runtime.take_actions().is_empty());
    runtime.maybe_start_sync_cohorts(750 * MS);
    let actions = runtime.take_actions();
    assert!(matches!(
        actions[0],
        BridgeAction::SetAnchor { generation: 1, at, .. } if at == (870 * MS) as u128
    ));
    assert!(matches!(actions[1], BridgeAction::Play { .. }));
    assert!(matches!(actions[2], BridgeAction::DispatchPlays { .. }));
}

#[test]
fn pausing_and_playing_makes_the_stream_anew() {
    let mut runtime = runtime_with_zone();
    let session_id = SessionId::new();
    let first = prepared_from(begin(&mut runtime, session_id, 0));
    assert!(runtime
        .set_playback_state(session_id, zone_id(), false)
        .is_none());
    assert!(runtime
        .take_actions()
        .iter()
        .any(|action| matches!(action, BridgeAction::StopForPause { .. })));
    let plan = runtime
        .set_playback_state(session_id, zone_id(), true)
        .expect("plan");
    assert_eq!(plan.generation, 3);
    let actions = runtime.take_actions();
    assert!(actions
        .iter()
        .any(|action| matches!(action, BridgeAction::ShutdownEncoder { .. })));
    assert!(actions
        .iter()
        .any(|action| matches!(action, BridgeAction::RemoveStream { .. })));
    runtime.downstream_restarted(plan, StreamCodec::Wav, 1_000 * MS);
    let second = take_start(&mut runtime);
    assert!(!second.force_standalone_on_start);
    assert!(!runtime.prepared_downstream_is_current(&first));
    assert!(runtime.prepared_downstream_is_current(&prepared_from(second)));
    // Told to play again, it only waits: nothing has to be made anew once the
    // start is reported.
    runtime.handle_downstream_start_result(result(
        session_id,
        3,
        DownstreamStartOutcome::Started,
    ));
    assert!(runtime
        .set_playback_state(session_id, zone_id(), true)
        .is_none());
    assert!(runtime
        .set_playback_state(SessionId::new(), zone_id(), true)
        .is_none());
}

#[test]
fn retries_restart_what_is_still_needed() {
    let mut runtime = runtime_with_zone();
    let session_id = SessionId::new();
    begin(&mut runtime, session_id, 0);
    runtime.handle_downstream_start_result(result(session_id, 1, DownstreamStartOutcome::Failed));
    let retry = |generation| DownstreamRetry {
        session_id,
        zone_id: zone_id(),
        generation,
    };
    assert!(runtime.handle_downstream_retry(retry(0)).is_none());
    let plan = runtime.handle_downstream_retry(retry(1)).expect("plan");
    assert_eq!(plan.generation, 2);
    assert!(runtime.handle_downstream_retry(retry(1)).is_none());
    runtime.handle_downstream_start_result(result(
        session_id,
        2,
        DownstreamStartOutcome::Cancelled,
    ));
    assert!(runtime.downstream_reset_needed.contains(session_id));
}

#[test]
fn zones_have_one_session() {
    let mut runtime = runtime_with_zone();
    let first = SessionId::new();
    begin(&mut runtime, first, 0);
    let second = SessionId::new();
    assert_eq!(runtime.sessions_to_replace(second, &zone_id()), vec![first]);
    assert!(runtime.sessions_to_replace(first, &zone_id()).is_empty());
    runtime.stop_session(first, Some(zone_id()));
    assert!(runtime
        .take_actions()
        .iter()
        .any(|action| matches!(action, BridgeAction::StopPlayer { .. })));
    assert!(runtime.sessions_to_replace(second, &zone_id()).is_empty());
    assert_eq!(
        runtime
            .begin_session(second, ZoneId::new("other"), format())
            .expect_err("no player"),
        BridgeError::NoSonosClient {
            zone_id: ZoneId::new("other")
        }
    );
}

#[test]
fn paused_sessions_expire() {
    let mut runtime = runtime_with_zone();
    let session_id = SessionId::new();
    begin(&mut runtime, session_id, 0);
    assert!(!runtime.expire_paused_session(session_id));
    runtime.set_playback_state(session_id, zone_id(), false);
    runtime.handle_event(AirPlayEvent::StreamEndedWhilePaused {
        session_id,
        zone_id: zone_id(),
    });
    assert!(runtime.take_actions().iter().any(|action| matches!(
        action,
        BridgeAction::SchedulePausedCleanup {
            after_secs: PAUSED_SESSION_GRACE_SECS,
            ..
        }
    )));
    assert!(runtime.expire_paused_session(session_id));
    assert!(runtime.sessions.get(session_id).is_none());
    assert!(!runtime.expire_paused_session(session_id));
}

#[test]
fn events_become_actions() {
    let mut runtime = runtime_with_zone();
    let session_id = SessionId::new();
    let frame = || PcmFrame {
        sample_rate: 44_100,
        channels: 2,
        samples_f32_interleaved: vec![1],
        presentation_time: None,
    };
    let pcm = |frame| AirPlayEvent::Pcm {
        session_id,
        zone_id: zone_id(),
        frame,
    };
    runtime.handle_event(pcm(frame()));
    assert!(runtime.take_actions().is_empty());
    begin(&mut runtime, session_id, 0);
    runtime.handle_event(pcm(frame()));
    runtime.handle_event(AirPlayEvent::Volume {
        zone_id: zone_id(),
        airplay_db: 0,
        sonos_volume: 44,
    });
    runtime.handle_event(AirPlayEvent::Volume {
        zone_id: ZoneId::new("other"),
        airplay_db: 0,
        sonos_volume: 44,
    });
    runtime.handle_event(AirPlayEvent::ClientConnected {
        zone_id: zone_id(),
        addr: "x".to_owned(),
    });
    runtime.handle_event(AirPlayEvent::Error {
        zone_id: zone_id(),
        message: "x".to_owned(),
    });
    runtime.handle_event(AirPlayEvent::Flushed {
        session_id,
        zone_id: zone_id(),
    });
    let actions = runtime.take_actions();
    assert!(matches!(&actions[0], BridgeAction::WriteFrame { frame: f, .. } if *f == frame()));
    assert!(matches!(actions[1], BridgeAction::SetVolume { volume: 44, .. }));
    assert!(matches!(actions[2], BridgeAction::RefreshVolume { .. }));
    assert!(matches!(actions[3], BridgeAction::ArmAnchor { .. }));
    assert_eq!(actions.len(), 4);
    assert!(!runtime.downstream_reset_needed.contains(session_id));
    assert!(matches!(
        runtime.handle_event(AirPlayEvent::SessionStarted {
            session_id,
            zone_id: zone_id(),
            format: format(),
        }),
        EventOutcome::StartSession { .. }
    ));
    runtime.handle_event(AirPlayEvent::SessionStopped {
        session_id,
        zone_id: zone_id(),
    });
    assert!(!runtime.encoders.contains(session_id));
}

#[test]
fn shutdown_stops_everything() {
    let mut runtime = runtime_with_zone();
    let session_id = SessionId::new();
    begin(&mut runtime, session_id, 0);
    assert_eq!(runtime.shutdown(), vec![session_id]);
    assert!(runtime.encoders.to_vec().is_empty());
    assert!(runtime.shutdown().is_empty());
}

fn prepare_start(codec: StreamCodec, force: bool) -> SonosStreamPrepare {
    SonosStreamPrepare {
        session_id: SessionId::new(),
        zone_id: zone_id(),
        generation: 4,
        cohort_id: 5,
        lifecycle: 6,
        zone: zone(),
        codec,
        force_standalone_on_start: force,
    }
}

fn reply(outcome: ReplyOutcome, now: u64) -> PrepareReply {
    PrepareReply {
        outcome,
        cancelled: false,
        now,
        subscriber_connected_at: Some(30 * MS),
        first_served_at: None,
    }
}

#[test]
fn players_are_prepared_step_by_step() {
    let config = Config::default();
    let start = prepare_start(StreamCodec::Wav, true);
    let (mut task, action) =
        PrepareTask::begin(start, "http://x/s.wav?gen=4".to_owned(), &config.stream, 0);
    assert!(matches!(action, PrepareAction::BecomeStandalone));
    let action = task.advance(reply(ReplyOutcome::Done, 10 * MS));
    assert!(matches!(
        action,
        PrepareAction::SetUri { url, title }
            if url == "http://x/s.wav?gen=4" && title == "Kitchen AirSonos2"
    ));
    let action = task.advance(reply(ReplyOutcome::Done, 20 * MS));
    assert!(matches!(action, PrepareAction::WaitForSubscriber { timeout_ms: 250 }));
    let action = task.advance(reply(ReplyOutcome::Done, 40 * MS));
    assert!(matches!(action, PrepareAction::WaitUntilReady { timeout_ms: 500 }));
    let action = task.advance(reply(ReplyOutcome::Done, 51 * MS));
    let PrepareAction::Prepared { prepared } = action else {
        panic!("prepared");
    };
    assert_eq!(prepared.generation, 4);
    assert_eq!(prepared.cohort_id, 5);
    assert_eq!(prepared.lifecycle, 6);
    assert_eq!(
        prepared.timing,
        ZoneStartupTiming {
            set_uri_ms: Some(41),
            subscriber_connect_ms: Some(20),
            first_bytes_ms: None,
            play_ms: None,
        }
    );
    assert_eq!(task.stage, PrepareStage::Over);
    assert!(matches!(
        task.advance(reply(ReplyOutcome::Done, 0)),
        PrepareAction::End
    ));
}

#[test]
fn preparations_fail_or_end_in_silence() {
    let config = Config::default();
    let begin = |force| {
        PrepareTask::begin(
            prepare_start(StreamCodec::Mp3, force),
            String::new(),
            &config.stream,
            0,
        )
    };
    for force in [true, false] {
        let (mut task, _) = begin(force);
        let action = task.advance(reply(ReplyOutcome::Failed, 1));
        assert!(matches!(
            action,
            PrepareAction::Fail { result }
                if result.outcome == DownstreamStartOutcome::Failed && result.generation == 4
        ));
        let (mut task, _) = begin(force);
        let mut late = reply(ReplyOutcome::Failed, 1);
        late.cancelled = true;
        assert!(matches!(task.advance(late), PrepareAction::End));
        let (mut task, _) = begin(force);
        assert!(matches!(
            task.advance(reply(ReplyOutcome::Cancelled, 1)),
            PrepareAction::End
        ));
    }
    let (mut task, action) = begin(false);
    assert!(matches!(action, PrepareAction::SetUri { .. }));
    task.advance(reply(ReplyOutcome::Done, 1));
    let mut cancelled = reply(ReplyOutcome::Done, 2);
    cancelled.cancelled = true;
    assert!(matches!(task.advance(cancelled), PrepareAction::End));
    let (mut task, _) = begin(false);
    task.advance(reply(ReplyOutcome::Done, 1));
    assert!(matches!(
        task.advance(reply(ReplyOutcome::Done, 2)),
        PrepareAction::Prepared { .. }
    ));
}

#[test]
fn plays_are_judged() {
    let timing = ZoneStartupTiming::default();
    let measured = ZoneStartupTiming {
        play_ms: Some(12),
        ..timing
    };
    for reply in [PlayReply::Accepted, PlayReply::TimedOut] {
        assert_eq!(
            play_outcome(timing, reply, 12),
            (DownstreamStartOutcome::Started, measured)
        );
    }
    assert_eq!(
        play_outcome(timing, PlayReply::Failed, 12),
        (DownstreamStartOutcome::Failed, timing)
    );
    assert_eq!(
        play_outcome(timing, PlayReply::Cancelled, 12),
        (DownstreamStartOutcome::Cancelled, timing)
    );
    let prepared = || prepared_downstream(SessionId::new(), zone_id(), StreamCodec::Mp3);
    let started = DownstreamStartOutcome::Started;
    assert!(finish_play(prepared(), started, timing, false).0);
    assert!(!finish_play(prepared(), started, timing, true).0);
    assert!(!finish_play(prepared(), DownstreamStartOutcome::Failed, timing, false).0);
    assert!(!plays_were_slow(0, 80 * MS, 80));
    assert!(plays_were_slow(0, 81 * MS, 80));
}

#[test]
fn stream_urls_name_session_and_generation() {
    let mut config = Config::default();
    let session_id = SessionId::parse("67e55044-10b1-426f-9247-bb680e5fe0c8").expect("uuid");
    let player = IpAddr::V4(0xC000_0201);
    let facing = IpAddr::V4(0xC000_0202);
    let url = stream_url_for_zone(&config, Some(facing), player, session_id, StreamCodec::Wav, 3);
    assert_eq!(
        url.expect("url"),
        "http://192.0.2.2:7000/streams/67e55044-10b1-426f-9247-bb680e5fe0c8.wav?gen=3"
    );
    let url = stream_url_for_zone(&config, None, player, session_id, StreamCodec::Mp3, 3);
    assert!(url.expect("url").starts_with("http://192.0.2.1:7000/streams/"));
    config.server.bind = IpAddr::V4(0xC000_0203);
    let plan = DownstreamPlan {
        session_id,
        zone_id: zone_id(),
        zone: zone(),
        format: format(),
        generation: 9,
        lifecycle: 0,
    };
    let session = plan_stream(&config, &plan, Some(facing)).expect("stream");
    assert_eq!(session.codec, StreamCodec::Mp3);
    assert_eq!(session.generation, 9);
    assert_eq!(session.encoder_state, EncoderState::Starting);
    assert_eq!(
        session.local_url,
        "http://192.0.2.3:7000/streams/67e55044-10b1-426f-9247-bb680e5fe0c8.mp3?gen=9"
    );
    config.server.bind = IpAddr::V6(1);
    let error = plan_stream(&config, &plan, None).expect_err("no brackets");
    assert!(matches!(error, StreamPlanError::Url(_)));
    assert_eq!(error.message(), "invalid stream URL");
    config.stream.codec = "flac".to_owned();
    assert!(matches!(
        plan_stream(&config, &plan, None),
        Err(StreamPlanError::UnsupportedCodec { .. })
    ));
}

#[test]
fn sessions_join_the_cohort_that_is_open() {
    let mut runtime = runtime();
    let ids: Vec<SessionId> = (0..3).map(|_| SessionId::new()).collect();
    let first = runtime.add_session_to_sync_cohort(ids[0], 0);
    assert_eq!(runtime.add_session_to_sync_cohort(ids[1], 749 * MS), first);
    let later = runtime.add_session_to_sync_cohort(ids[2], 750 * MS);
    assert_ne!(later, first);
    assert_eq!(runtime.sync_cohorts[0].sessions, vec![ids[0], ids[1]]);
    assert_eq!(runtime.sync_cohorts[1].sessions, vec![ids[2]]);
}

#[test]
fn cohorts_start_one_after_the_other() {
    let mut runtime = runtime();
    let (first, second) = (SessionId::new(), SessionId::new());
    let mut late = cohort(0, vec![first]);
    late.start_deadline = (10_000 * MS) as u128;
    runtime.sync_cohorts.push(late);
    let mut ready = cohort(1_000 * MS, vec![second]);
    ready.id = 2;
    ready.prepared.insert(
        second,
        prepared_downstream(second, zone_id(), StreamCodec::Mp3),
    );
    runtime.sync_cohorts.push(ready);

    runtime.maybe_start_sync_cohorts(5_000 * MS);
    assert_eq!(runtime.sync_cohorts.len(), 2);
    assert!(runtime.take_actions().is_empty());

    runtime.maybe_start_sync_cohorts(10_000 * MS);
    assert!(runtime.sync_cohorts.is_empty());
    let plays: Vec<SessionId> = runtime
        .take_actions()
        .into_iter()
        .filter_map(|action| match action {
            BridgeAction::Play { prepared } => Some(prepared.session_id),
            _ => None,
        })
        .collect();
    assert_eq!(plays, vec![second]);
    assert!(runtime.downstream_reset_needed.contains(first));
    assert!(!runtime.downstream_reset_needed.contains(second));
}

#[test]
fn started_cohorts_lose_no_member() {
    let mut runtime = runtime();
    let (ready, late) = (SessionId::new(), SessionId::new());
    for id in [ready, late] {
        runtime.sessions.insert(id, zone_id());
        runtime.desired_playback.insert(id, true);
    }
    let mut members = cohort(0, vec![late, ready]);
    members.prepared.insert(
        ready,
        prepared_downstream(ready, zone_id(), StreamCodec::Wav),
    );
    runtime.sync_cohorts.push(members);
    runtime.maybe_start_sync_cohorts(2_500 * MS);
    assert!(runtime.downstream_retry_tasks.contains(late));
    assert!(!runtime.downstream_retry_tasks.contains(ready));
    let actions = runtime.take_actions();
    assert!(matches!(
        actions[0],
        BridgeAction::ScheduleRetry { session_id, after_ms: 500, .. } if session_id == late
    ));
    assert!(matches!(
        actions[1],
        BridgeAction::SetAnchor { session_id, .. } if session_id == ready
    ));
    assert_eq!(actions.len(), 4);
}

#[test]
fn a_session_ends_without_the_others() {
    let mut sonos = TextMap::new();
    for name in ["A", "B"] {
        sonos.insert(name.to_owned(), zone());
    }
    let mut runtime = BridgeRuntime::new(Config::default(), sonos, TextMap::new());
    let (one, two) = (SessionId::new(), SessionId::new());
    for (id, name) in [(one, "A"), (two, "B")] {
        let plan = runtime
            .begin_session(id, ZoneId::new(name), format())
            .expect("plan");
        runtime.session_started(plan, StreamCodec::Mp3, 0);
    }
    runtime.take_actions();
    runtime.stop_session(one, Some(ZoneId::new("B")));
    let actions = runtime.take_actions();
    assert!(matches!(
        actions.last(),
        Some(BridgeAction::StopPlayer { zone_id }) if zone_id.as_str() == "A"
    ));
    let stops = actions
        .iter()
        .filter(|action| matches!(action, BridgeAction::StopPlayer { .. }))
        .count();
    assert_eq!(stops, 1);
    assert_eq!(runtime.sync_cohorts.len(), 1);
    assert_eq!(runtime.sync_cohorts[0].sessions, vec![two]);
    assert!(runtime.encoders.contains(two));
    assert_eq!(runtime.downstream_generations.get(two), Some(&1));

    runtime.config.sonos.stop_on_disconnect = false;
    runtime.stop_session(two, None);
    assert!(!runtime
        .take_actions()
        .iter()
        .any(|action| matches!(action, BridgeAction::StopPlayer { .. })));
}

#[test]
fn rooms_that_lead_their_group_leave_it_too() {
    let mut sonos = TextMap::new();
    let coordinator = SonosZone {
        is_group_coordinator: true,
        ..zone()
    };
    sonos.insert("RINCON_TEST".to_owned(), coordinator);
    let mut runtime = BridgeRuntime::new(Config::default(), sonos, TextMap::new());
    let session_id = SessionId::new();
    let start = begin(&mut runtime, session_id, 0);
    assert!(start.zone.is_group_coordinator);
    assert!(start.force_standalone_on_start);
    let (mut task, action) =
        PrepareTask::begin(start, "http://x/".to_owned(), &runtime.config.stream, 0);
    assert!(matches!(action, PrepareAction::BecomeStandalone));
    assert!(matches!(
        task.advance(reply(ReplyOutcome::Done, 1)),
        PrepareAction::SetUri { .. }
    ));

    // A stream that is made anew does not take the room out of its group again.
    runtime.set_playback_state(session_id, zone_id(), false);
    let plan = runtime
        .set_playback_state(session_id, zone_id(), true)
        .expect("plan");
    runtime.take_actions();
    runtime.downstream_restarted(plan, StreamCodec::Wav, 0);
    assert!(!take_start(&mut runtime).force_standalone_on_start);

    runtime.config.sonos.force_standalone_on_start = false;
    let start = begin(&mut runtime, SessionId::new(), 0);
    assert!(!start.force_standalone_on_start);
}

#[test]
fn a_new_session_replaces_the_one_of_its_zone() {
    let mut sonos = TextMap::new();
    for name in ["RINCON_TEST", "B"] {
        sonos.insert(name.to_owned(), zone());
    }
    let mut runtime = BridgeRuntime::new(Config::default(), sonos, TextMap::new());
    let (old, kept, new) = (SessionId::new(), SessionId::new(), SessionId::new());
    begin(&mut runtime, old, 0);
    let plan = runtime
        .begin_session(kept, ZoneId::new("B"), format())
        .expect("plan");
    runtime.session_started(plan, StreamCodec::Mp3, 0);
    for session_id in runtime.sessions_to_replace(new, &zone_id()) {
        runtime.stop_session(session_id, Some(zone_id()));
    }
    let start = begin(&mut runtime, new, 0);
    assert_eq!(start.generation, 1);
    assert!(runtime.sessions.get(old).is_none());
    assert_eq!(runtime.sessions.get(new), Some(&zone_id()));
    assert_eq!(runtime.sessions.get(kept), Some(&ZoneId::new("B")));
    assert_eq!(runtime.desired_playback.get(new), Some(&true));
    assert!(runtime.encoders.contains(new) && runtime.encoders.contains(kept));

    // Under its own name it starts again with a higher number.
    assert!(runtime.sessions_to_replace(new, &zone_id()).is_empty());
    assert_eq!(begin(&mut runtime, new, 0).generation, 3);

    let stranger = SessionId::new();
    assert!(runtime
        .begin_session(stranger, ZoneId::new("C"), format())
        .is_err());
    assert!(runtime.sessions.get(stranger).is_none());
}
