//! What the bridge does on what it is told, as its callers see it.

use vstd::arithmetic::power2;
use vstd::prelude::*;

use crate::airplay::AirPlayEvent;
use crate::bridge;
use crate::bridge::{BridgeError, BridgeRuntime, EventOutcome, SyncCohort};
use crate::bridge_laws;
use crate::bridge_state;
use crate::bridge_state::{
    BridgeAction, CohortState, DownstreamLifecycle, DownstreamPlan, DownstreamRetry,
    DownstreamStartOutcome, DownstreamStartResult, PreparedDownstream, SessionState,
};
use crate::cohort_laws;
use crate::config::Config;
use crate::ids::{SessionId, ZoneId};
use crate::session_laws;
use crate::text_map::TextMap;
use crate::types::{PcmFormat, PcmFrame, SonosZone, StreamCodec};

verus! {

// ---------------------------------------------------------------------------
// Events
// ---------------------------------------------------------------------------
/// Audio goes to the encoder of its session, as it came, and nowhere where the
/// session has none.
pub proof fn audio_goes_to_the_encoder(
    bridge: &mut BridgeRuntime,
    session_id: SessionId,
    zone_id: ZoneId,
    frame: PcmFrame,
    r: EventOutcome,
)
    requires
        call_ensures(
            BridgeRuntime::handle_event,
            (bridge, AirPlayEvent::Pcm { session_id, zone_id, frame }),
            r,
        ),
    ensures
        r is Done,
        final(bridge)@.session(session_id) == old(bridge)@.session(session_id),
        final(bridge)@.outbox == old(bridge)@.outbox + session_laws::one_if(
            old(bridge)@.session(session_id).encoder,
            BridgeAction::WriteFrame { session_id, frame },
        ),
{
}

/// A change of the volume is passed on to the player of its zone, as it came, and
/// nowhere where the zone has none.
pub proof fn volumes_go_to_the_player(
    bridge: &mut BridgeRuntime,
    zone_id: ZoneId,
    airplay_db: u32,
    sonos_volume: u8,
    r: EventOutcome,
)
    requires
        call_ensures(
            BridgeRuntime::handle_event,
            (bridge, AirPlayEvent::Volume { zone_id, airplay_db, sonos_volume }),
            r,
        ),
    ensures
        r is Done,
        final(bridge)@.sessions == old(bridge)@.sessions,
        final(bridge)@.sync_cohorts == old(bridge)@.sync_cohorts,
        final(bridge)@.outbox == old(bridge)@.outbox + session_laws::one_if(
            old(bridge)@.zones.dom().contains(zone_id@),
            BridgeAction::SetVolume { zone_id, volume: sonos_volume },
        ),
{
}

/// When a client connects, the volume of its zone is read anew, where the zone
/// has a player and reports its volume.
pub proof fn connecting_refreshes_the_volume(
    bridge: &mut BridgeRuntime,
    zone_id: ZoneId,
    addr: String,
    r: EventOutcome,
)
    requires
        call_ensures(
            BridgeRuntime::handle_event,
            (bridge, AirPlayEvent::ClientConnected { zone_id, addr }),
            r,
        ),
    ensures
        r is Done,
        final(bridge)@.sessions == old(bridge)@.sessions,
        final(bridge)@.outbox == old(bridge)@.outbox + session_laws::one_if(
            old(bridge)@.zones.dom().contains(zone_id@) && old(bridge)@.volumes.contains(zone_id@),
            BridgeAction::RefreshVolume { zone_id },
        ),
{
}

/// That a client leaves or that something went wrong changes nothing, and a new
/// session is first handed back, as it was announced.
pub proof fn other_events_change_nothing(
    left: &mut BridgeRuntime,
    failed: &mut BridgeRuntime,
    announced: &mut BridgeRuntime,
    session_id: SessionId,
    zone_id: ZoneId,
    words: String,
    format: PcmFormat,
    after_left: EventOutcome,
    after_failed: EventOutcome,
    after_announced: EventOutcome,
)
    requires
        call_ensures(
            BridgeRuntime::handle_event,
            (left, AirPlayEvent::ClientDisconnected { zone_id, addr: words }),
            after_left,
        ),
        call_ensures(
            BridgeRuntime::handle_event,
            (failed, AirPlayEvent::Error { zone_id, message: words }),
            after_failed,
        ),
        call_ensures(
            BridgeRuntime::handle_event,
            (announced, AirPlayEvent::SessionStarted { session_id, zone_id, format }),
            after_announced,
        ),
    ensures
        after_left is Done && final(left)@ == old(left)@,
        after_failed is Done && final(failed)@ == old(failed)@,
        final(announced)@ == old(announced)@,
        after_announced matches EventOutcome::StartSession { session_id: i, zone_id: z, format: f }
            && i == session_id && z == zone_id && f == format,
{
}

/// A session that is told to pause is stopped, and no new stream is planned.
pub proof fn told_to_pause_it_stops(
    bridge: &mut BridgeRuntime,
    session_id: SessionId,
    zone_id: ZoneId,
    r: EventOutcome,
)
    requires
        call_ensures(
            BridgeRuntime::handle_event,
            (bridge, AirPlayEvent::PlaybackState { session_id, zone_id, playing: false }),
            r,
        ),
    ensures
        r is Done,
        old(bridge)@.session(session_id).zone is Some ==> session_laws::is_pause(
            old(bridge)@,
            final(bridge)@,
            session_id,
            zone_id,
        ),
        old(bridge)@.session(session_id).zone is None ==> final(bridge)@ == old(bridge)@,
{
    if old(bridge)@.sessions.dom().contains(session_id) {
        session_laws::pausing_stops_the_player(old(bridge)@, session_id, zone_id);
    }
}

/// A session that is told to play after a pause, or whose stream is to be made
/// anew, gets a plan for a new stream, where its zone has a player and its format
/// is known. One that plays already gets none.
pub proof fn told_to_play_it_starts_anew(
    bridge: &mut BridgeRuntime,
    session_id: SessionId,
    zone_id: ZoneId,
    r: EventOutcome,
)
    requires
        call_ensures(
            BridgeRuntime::handle_event,
            (bridge, AirPlayEvent::PlaybackState { session_id, zone_id, playing: true }),
            r,
        ),
    ensures
        ({
            let known = old(bridge)@.session(session_id);
            let anew = known.zone is Some && (known.playing == Some(false) || known.reset_needed);
            let possible = known.format is Some && old(bridge)@.zones.dom().contains(zone_id@);
            &&& anew ==> session_laws::is_play_anew(
                old(bridge)@,
                final(bridge)@,
                session_id,
                zone_id,
            )
            &&& !anew && known.zone is Some ==> session_laws::is_play_on(
                old(bridge)@,
                final(bridge)@,
                session_id,
                zone_id,
            )
            &&& known.zone is None ==> final(bridge)@ == old(bridge)@
            &&& anew && possible ==> (r matches EventOutcome::Restart { plan } && is_plan_for(
                final(bridge)@.session(session_id),
                old(bridge)@.zones,
                session_id,
                zone_id,
                known.format->0,
                plan,
            ))
            &&& !(anew && possible) ==> r is Done
        }),
{
    let s = old(bridge)@;
    let known = s.session(session_id);
    if known.zone is Some {
        if known.playing == Some(false) || known.reset_needed {
            session_laws::playing_again_makes_the_stream_anew(s, session_id, zone_id);
            lemma_zones_stay(s, session_id, zone_id);
        } else {
            session_laws::playing_twice_changes_nothing(s, session_id, zone_id);
        }
    }
}

proof fn lemma_zones_stay(s: bridge_state::BridgeState, id: SessionId, zone_id: ZoneId)
    ensures
        s.playback_set(id, zone_id, true).zones == s.zones,
        s.restarting(id, zone_id).zones == s.zones,
        s.begun(id, zone_id).zones == s.zones,
{
}

/// Whether a plan is for the current attempt of a session, with the player of its
/// zone and the session's format.
pub open spec fn is_plan_for(
    known: SessionState,
    zones: Map<Seq<char>, SonosZone>,
    id: SessionId,
    zone_id: ZoneId,
    format: PcmFormat,
    plan: DownstreamPlan,
) -> bool {
    &&& plan.session_id == id
    &&& plan.zone_id == zone_id
    &&& plan.zone == zones[zone_id@]
    &&& plan.format == format
    &&& known.generation == Some(plan.generation)
    &&& known.lifecycle is Some && known.lifecycle->0.id == plan.lifecycle
        && !known.lifecycle->0.cancelled
}

/// A session that stops is forgotten and gives up all that runs for it.
pub proof fn told_to_stop_it_is_forgotten(
    bridge: &mut BridgeRuntime,
    session_id: SessionId,
    zone_id: ZoneId,
    r: EventOutcome,
)
    requires
        call_ensures(
            BridgeRuntime::handle_event,
            (bridge, AirPlayEvent::SessionStopped { session_id, zone_id }),
            r,
        ),
    ensures
        r is Done,
        session_laws::is_ending(old(bridge)@, final(bridge)@, session_id, Some(zone_id)),
        is_forgotten(old(bridge)@.session(session_id), final(bridge)@.session(session_id)),
        !bridge_state::in_cohorts(final(bridge)@.sync_cohorts, session_id),
        bridge_laws::concerns_only(old(bridge)@, final(bridge)@, session_id),
{
    session_laws::ending_gives_up_all_that_runs(old(bridge)@, session_id, Some(zone_id));
    bridge_laws::stopping_forgets_the_session(old(bridge)@, session_id, Some(zone_id));
    bridge_laws::stopping_concerns_one_session(old(bridge)@, session_id, Some(zone_id));
}

/// Whether nothing is known of a session any more but the number of its attempt,
/// which is void.
pub open spec fn is_forgotten(known: SessionState, left: SessionState) -> bool {
    left =~= SessionState {
        encoder: false,
        zone: None,
        format: None,
        generation: session_laws::voided(known.generation),
        lifecycle: None,
        reset_needed: false,
        desired: None,
        playing: None,
        playback_task: false,
        cleanup_task: false,
        retry_task: false,
        retry_attempts: None,
    }
}

/// A flush arms the anchor of the session's stream and is nothing more to a
/// session that plays; the stream of a paused one is to be made anew.
pub proof fn flushes_arm_the_anchor(
    bridge: &mut BridgeRuntime,
    session_id: SessionId,
    zone_id: ZoneId,
    r: EventOutcome,
)
    requires
        call_ensures(
            BridgeRuntime::handle_event,
            (bridge, AirPlayEvent::Flushed { session_id, zone_id }),
            r,
        ),
    ensures
        ({
            let known = old(bridge)@.session(session_id);
            &&& r is Done
            &&& final(bridge)@.outbox == old(bridge)@.outbox + seq![
                BridgeAction::ArmAnchor { session_id },
            ]
            &&& final(bridge)@.session(session_id) == (SessionState {
                reset_needed: known.reset_needed || known.desired == Some(false) || known.playing
                    == Some(false),
                ..known
            })
            &&& final(bridge)@.sync_cohorts == old(bridge)@.sync_cohorts
        }),
{
}

/// A session whose audio stream ended while it was paused is kept for a minute.
pub proof fn ended_streams_are_kept(
    bridge: &mut BridgeRuntime,
    session_id: SessionId,
    zone_id: ZoneId,
    r: EventOutcome,
)
    requires
        call_ensures(
            BridgeRuntime::handle_event,
            (bridge, AirPlayEvent::StreamEndedWhilePaused { session_id, zone_id }),
            r,
        ),
    ensures
        r is Done,
        session_laws::is_stream_end(old(bridge)@, final(bridge)@, session_id),
{
    session_laws::ended_streams_are_kept_for_a_minute(old(bridge)@, session_id);
}

// ---------------------------------------------------------------------------
// Sessions
// ---------------------------------------------------------------------------
/// A session that begins forgets what was before and gets a plan for its stream;
/// in a zone without a player it is refused, and that zone is named.
pub proof fn beginning_gives_a_plan(
    bridge: &mut BridgeRuntime,
    session_id: SessionId,
    zone_id: ZoneId,
    format: PcmFormat,
    r: Result<DownstreamPlan, BridgeError>,
)
    requires
        call_ensures(BridgeRuntime::begin_session, (bridge, session_id, zone_id, format), r),
    ensures
        session_laws::is_beginning(old(bridge)@, final(bridge)@, session_id, zone_id),
        bridge_laws::concerns_only(old(bridge)@, final(bridge)@, session_id),
        r is Ok <==> old(bridge)@.zones.dom().contains(zone_id@),
        r matches Ok(plan) ==> is_plan_for(
            final(bridge)@.session(session_id),
            old(bridge)@.zones,
            session_id,
            zone_id,
            format,
            plan,
        ),
        r matches Err(error) ==> (error matches BridgeError::NoSonosClient { zone_id: z } && z
            == zone_id),
{
    session_laws::beginning_forgets_what_was_before(old(bridge)@, session_id, zone_id);
    bridge_laws::beginning_concerns_one_session(old(bridge)@, session_id, zone_id);
    lemma_zones_stay(old(bridge)@, session_id, zone_id);
}

/// The first stream of a session makes it known and is prepared; a later one is
/// prepared too, but leaves the group of the room alone.
pub proof fn made_streams_are_prepared(
    first: &mut BridgeRuntime,
    later: &mut BridgeRuntime,
    plan: DownstreamPlan,
    codec: StreamCodec,
    now: u64,
)
    requires
        call_ensures(BridgeRuntime::session_started, (first, plan, codec, now), ()),
        call_ensures(BridgeRuntime::downstream_restarted, (later, plan, codec, now), ()),
    ensures
        session_laws::is_first_stream(old(first)@, final(first)@, plan, codec, now),
        session_laws::is_later_stream(old(later)@, final(later)@, plan, codec, now),
{
    session_laws::first_streams_are_prepared(old(first)@, plan, codec, now);
    session_laws::later_streams_leave_the_group_alone(old(later)@, plan, codec, now);
}

/// A session that is to be made anew gives its old stream up and gets a plan,
/// where its zone has a player and its format is known.
pub proof fn remaking_gives_a_plan(
    bridge: &mut BridgeRuntime,
    session_id: SessionId,
    zone_id: ZoneId,
    r: Option<DownstreamPlan>,
)
    requires
        call_ensures(
            BridgeRuntime::restart_downstream_for_play,
            (bridge, session_id, zone_id),
            r,
        ),
    ensures
        session_laws::is_remake(old(bridge)@, final(bridge)@, session_id, zone_id),
        r is Some <==> old(bridge)@.session(session_id).format is Some
            && old(bridge)@.zones.dom().contains(zone_id@),
        r matches Some(plan) ==> is_plan_for(
            final(bridge)@.session(session_id),
            old(bridge)@.zones,
            session_id,
            zone_id,
            old(bridge)@.session(session_id).format->0,
            plan,
        ),
{
    session_laws::remaking_gives_the_old_stream_up(old(bridge)@, session_id, zone_id);
    lemma_zones_stay(old(bridge)@, session_id, zone_id);
}

/// A retry that is due leads to a plan where it is of the current attempt of a
/// session that should play, with its stream to be made anew.
pub proof fn due_retries_give_a_plan(
    bridge: &mut BridgeRuntime,
    retry: DownstreamRetry,
    r: Option<DownstreamPlan>,
)
    requires
        call_ensures(BridgeRuntime::handle_downstream_retry, (bridge, retry), r),
    ensures
        ({
            let known = old(bridge)@.session(retry.session_id);
            &&& session_laws::is_due_retry(old(bridge)@, final(bridge)@, retry)
            &&& r is Some <==> known.generation == Some(retry.generation) && known.desired == Some(
                true,
            ) && known.reset_needed && known.format is Some && old(bridge)@.zones.dom().contains(
                retry.zone_id@,
            )
            &&& r matches Some(plan) ==> is_plan_for(
                final(bridge)@.session(retry.session_id),
                old(bridge)@.zones,
                retry.session_id,
                retry.zone_id,
                known.format->0,
                plan,
            )
        }),
{
    let s = old(bridge)@;
    session_laws::due_retries_make_the_stream_anew(s, retry);
    let forgotten = bridge_state::BridgeState {
        downstream_retry_tasks: s.downstream_retry_tasks.remove(retry.session_id),
        ..s
    };
    lemma_zones_stay(forgotten, retry.session_id, retry.zone_id);
}

/// The end of the current attempt is acted upon: a failure is retried, a success
/// ends the retries, and what was measured is kept. That of another attempt is
/// not.
pub proof fn ends_of_attempts_are_acted_upon(
    bridge: &mut BridgeRuntime,
    result: DownstreamStartResult,
    zone: Seq<char>,
)
    requires
        call_ensures(BridgeRuntime::handle_downstream_start_result, (bridge, result), ()),
    ensures
        ({
            let current = old(bridge)@.session(result.session_id).generation == Some(
                result.generation,
            );
            &&& !current ==> final(bridge)@ == old(bridge)@
            &&& current && result.outcome == DownstreamStartOutcome::Failed
                ==> session_laws::is_failed_start(old(bridge)@, final(bridge)@, result)
            &&& current && result.outcome != DownstreamStartOutcome::Failed
                ==> session_laws::is_ended_start(old(bridge)@, final(bridge)@, result)
            &&& current ==> session_laws::is_measured_start(
                old(bridge)@,
                final(bridge)@,
                result,
                zone,
            )
        }),
{
    if old(bridge)@.session(result.session_id).generation == Some(result.generation) {
        session_laws::starts_are_measured(old(bridge)@, result, zone);
        if result.outcome == DownstreamStartOutcome::Failed {
            session_laws::failed_starts_are_retried(old(bridge)@, result);
        } else {
            session_laws::successful_starts_end_the_retries(old(bridge)@, result);
        }
    }
}

/// A session whose grace period is over ends only where it is still paused.
pub proof fn paused_sessions_expire(bridge: &mut BridgeRuntime, session_id: SessionId, r: bool)
    requires
        call_ensures(BridgeRuntime::expire_paused_session, (bridge, session_id), r),
    ensures
        r <==> old(bridge)@.session(session_id).zone is Some && old(bridge)@.session(
            session_id,
        ).desired == Some(false),
        !r ==> final(bridge)@ == old(bridge)@,
        r ==> session_laws::is_ending(old(bridge)@, final(bridge)@, session_id, None),
        r ==> is_forgotten(old(bridge)@.session(session_id), final(bridge)@.session(session_id)),
{
    session_laws::ending_gives_up_all_that_runs(old(bridge)@, session_id, None);
    bridge_laws::stopping_forgets_the_session(old(bridge)@, session_id, None);
}

/// Shutting down ends every session that has an encoder, and no other.
pub proof fn shutting_down_ends_every_session(
    bridge: &mut BridgeRuntime,
    r: Vec<SessionId>,
    id: SessionId,
)
    requires
        call_ensures(BridgeRuntime::shutdown, (bridge,), r),
    ensures
        !final(bridge)@.session(id).encoder,
        r@.contains(id) <==> old(bridge)@.session(id).encoder,
        old(bridge)@.session(id).encoder ==> final(bridge)@.session(id).zone is None,
        old(bridge)@.session(id).encoder ==> final(bridge)@.session(id).desired is None,
        !old(bridge)@.session(id).encoder ==> final(bridge)@.session(id) == old(bridge)@.session(
            id,
        ),
{
    cohort_laws::all_sessions_end(old(bridge)@, r@, id);
    assert(r@.contains(id) <==> r@.to_set().contains(id));
}

/// The actions that are taken up are those asked for, in order, and each of them
/// only once.
pub proof fn actions_are_taken_up_once(
    bridge: &mut BridgeRuntime,
    first: Vec<BridgeAction>,
    again: &mut BridgeRuntime,
    second: Vec<BridgeAction>,
)
    requires
        call_ensures(BridgeRuntime::take_actions, (bridge,), first),
        old(again)@ == final(bridge)@,
        call_ensures(BridgeRuntime::take_actions, (again,), second),
    ensures
        first@ == old(bridge)@.outbox,
        second@.len() == 0,
        final(again)@.sessions == old(bridge)@.sessions,
        final(again)@.sync_cohorts == old(bridge)@.sync_cohorts,
{
}

// ---------------------------------------------------------------------------
// Cohorts
// ---------------------------------------------------------------------------
/// A cohort is said to start once its window has closed and every one of its
/// sessions, however many there are, is prepared, or its deadline has passed; and
/// not before.
pub proof fn cohorts_are_said_to_start_in_time(cohort: &SyncCohort, now: u64, r: bool)
    requires
        call_ensures(bridge::sync_cohort_should_start, (cohort, now), r),
        cohort@.well_formed(),
    ensures
        now < cohort@.window_deadline ==> !r,
        now >= cohort@.window_deadline && now >= cohort@.start_deadline ==> r,
        now >= cohort@.window_deadline && (forall|id: SessionId| #[trigger]
            cohort@.sessions.contains(id) ==> cohort@.prepared.dom().contains(id)) ==> r,
        now < cohort@.start_deadline && (exists|id: SessionId| #[trigger]
            cohort@.sessions.contains(id) && !cohort@.prepared.dom().contains(id)) ==> !r,
{
    bridge_laws::cohorts_start_when_all_are_prepared(cohort@, now);
}

/// The wait before a retry that a caller is told doubles from half a second up to
/// five seconds.
pub proof fn callers_are_told_to_wait_longer(attempt: u32, r: u64)
    requires
        call_ensures(bridge::downstream_retry_delay, (attempt,), r),
    ensures
        500 * power2::pow2(attempt as nat) < 5_000 ==> r == 500 * power2::pow2(attempt as nat),
        500 * power2::pow2(attempt as nat) >= 5_000 ==> r == 5_000,
{
    session_laws::the_wait_doubles(attempt);
}

/// A session that joins a cohort is told which one: a new one, with its deadlines
/// ahead, or the one that is open.
pub proof fn joining_names_the_cohort(
    bridge: &mut BridgeRuntime,
    session_id: SessionId,
    now: u64,
    r: u64,
)
    requires
        call_ensures(BridgeRuntime::add_session_to_sync_cohort, (bridge, session_id, now), r),
    ensures
        final(bridge)@.sync_cohorts.last().sessions.contains(session_id),
        r == final(bridge)@.sync_cohorts.last().id,
        session_laws::opens_a_cohort(old(bridge)@, now) ==> session_laws::is_new_cohort(
            old(bridge)@,
            final(bridge)@,
            session_id,
            now,
        ),
        !session_laws::opens_a_cohort(old(bridge)@, now) ==> session_laws::is_joined_cohort(
            old(bridge)@,
            final(bridge)@,
            session_id,
            now,
        ),
{
    session_laws::lemma_joining(old(bridge)@, session_id, now);
    if session_laws::opens_a_cohort(old(bridge)@, now) {
        session_laws::a_new_cohort_has_its_deadlines(old(bridge)@, session_id, now);
    } else {
        session_laws::an_open_cohort_takes_a_member_more(old(bridge)@, session_id, now);
    }
}

/// Looking at the cohorts plays every prepared stream of a cohort that is to
/// start, with all before it, and changes nothing while the first waits.
pub proof fn looking_at_the_cohorts_starts_them(
    bridge: &mut BridgeRuntime,
    now: u64,
    k: int,
    id: SessionId,
)
    requires
        call_ensures(BridgeRuntime::maybe_start_sync_cohorts, (bridge, now), ()),
    ensures
        ({
            let cs = old(bridge)@.sync_cohorts;
            &&& 0 <= k < cs.len() && (forall|i: int|
                0 <= i <= k ==> (#[trigger] cs[i]).should_start(now)) && cs[k].sessions.contains(id)
                && cs[k].prepared.dom().contains(id) ==> final(bridge)@.outbox.contains(
                BridgeAction::Play { prepared: cs[k].prepared[id] },
            )
            &&& (cs.len() > 0 ==> !cs[0].should_start(now)) ==> final(bridge)@ == old(bridge)@
        }),
{
    let s = old(bridge)@;
    let cs = s.sync_cohorts;
    if 0 <= k < cs.len() && (forall|i: int| 0 <= i <= k ==> (#[trigger] cs[i]).should_start(now))
        && cs[k].sessions.contains(id) && cs[k].prepared.dom().contains(id) {
        cohort_laws::due_cohorts_are_played(s, now, k, id);
    }
    if cs.len() > 0 ==> !cs[0].should_start(now) {
        cohort_laws::waiting_cohorts_are_left_alone(s, now);
    }
}

/// A stream that was prepared is kept with the cohort that awaits it or played at
/// once; one that is not of the current attempt of a session that should play is
/// ignored.
pub proof fn prepared_streams_are_taken_up(
    bridge: &mut BridgeRuntime,
    prepared: PreparedDownstream,
    now: u64,
    i: int,
)
    requires
        call_ensures(BridgeRuntime::handle_prepared_downstream, (bridge, prepared, now), ()),
        bridge_laws::bridge_well_formed(old(bridge)@),
    ensures
        ({
            let s = old(bridge)@;
            let t = final(bridge)@;
            let known = s.session(prepared.session_id);
            let current = known.generation == Some(prepared.generation) && known.desired == Some(
                true,
            ) && known.lifecycle is Some && known.lifecycle->0.id == prepared.lifecycle
                && !known.lifecycle->0.cancelled;
            let kept = t.sync_cohorts.len() + i - s.sync_cohorts.len();
            &&& !current ==> t == s
            &&& current && 0 <= i < s.sync_cohorts.len() && s.sync_cohorts[i].id
                == prepared.cohort_id && s.sync_cohorts[i].sessions.contains(prepared.session_id)
                ==> t.outbox.contains(BridgeAction::Play { prepared }) || (0 <= kept
                < t.sync_cohorts.len() && t.sync_cohorts[kept].id == prepared.cohort_id
                && t.sync_cohorts[kept].prepared == s.sync_cohorts[i].prepared.insert(
                prepared.session_id,
                prepared,
            ))
        }),
{
    let s = old(bridge)@;
    if s.is_current(prepared) && 0 <= i < s.sync_cohorts.len() && s.sync_cohorts[i].id
        == prepared.cohort_id && s.sync_cohorts[i].sessions.contains(prepared.session_id) {
        cohort_laws::prepared_streams_are_kept_or_played(s, prepared, now, i);
    }
}

/// Streams that are played together are anchored first; then their players are
/// started, in order, and then all starts are run together.
pub proof fn streams_are_played_together(
    bridge: &mut BridgeRuntime,
    prepared: Vec<PreparedDownstream>,
    now: u64,
    i: int,
)
    requires
        call_ensures(BridgeRuntime::play_prepared_downstreams, (bridge, prepared, now), ()),
        0 <= i < prepared@.len(),
    ensures
        ({
            let s = old(bridge)@;
            let t = final(bridge)@;
            let zones = prepared@.map_values(|p: PreparedDownstream| p.zone_id);
            let n = prepared@.len() as int;
            let first = s.outbox.len() + cohort_laws::wav_streams(prepared@, n);
            let anchor = s.outbox.len() + cohort_laws::wav_streams(prepared@, i);
            &&& t.outbox.len() == first + n + 1
            &&& t.outbox[first + i] == (BridgeAction::Play { prepared: prepared@[i] })
            &&& t.outbox.last() == (BridgeAction::DispatchPlays {
                warn_ms: s.config.sync.play_command_spread_warn_ms,
            })
            &&& prepared@[i].codec == StreamCodec::Wav ==> t.outbox[anchor as int] == (
            BridgeAction::SetAnchor {
                session_id: prepared@[i].session_id,
                generation: prepared@[i].generation,
                at: (now + 120_000_000 + s.anchor_delay(zones, prepared@[i]) * 1_000_000) as u128,
            })
        }),
{
    let s = old(bridge)@;
    let n = prepared@.len() as int;
    cohort_laws::prepared_streams_are_started_together(s, prepared@, now, i);
    cohort_laws::wav_streams_are_anchored(s, prepared@, n, now, i);
    let anchors = s.anchors(prepared@, n, now);
    if prepared@[i].codec == StreamCodec::Wav {
        let k = cohort_laws::wav_streams(prepared@, i) as int;
        assert(final(bridge)@.outbox[s.outbox.len() + k] == anchors[k]);
    }
}

/// Whether a prepared stream is current, as a caller is told, is whether it is of
/// the attempt that the session has, not cancelled, and the session should play.
pub proof fn callers_are_told_what_is_current(
    bridge: &BridgeRuntime,
    prepared: PreparedDownstream,
    r: bool,
)
    requires
        call_ensures(BridgeRuntime::prepared_downstream_is_current, (bridge, &prepared), r),
    ensures
        ({
            let known = bridge@.session(prepared.session_id);
            r <==> known.generation == Some(prepared.generation) && known.desired == Some(true)
                && known.lifecycle is Some && known.lifecycle->0.id == prepared.lifecycle
                && !known.lifecycle->0.cancelled
        }),
{
}

/// A new bridge knows the players that it was given and no session, asks for
/// nothing, and measures as many starts as configured.
pub proof fn a_new_bridge_knows_no_session(
    config: Config,
    sonos: TextMap<SonosZone>,
    volume_states: TextMap<()>,
    r: BridgeRuntime,
    id: SessionId,
    zone: Seq<char>,
)
    requires
        call_ensures(BridgeRuntime::new, (config, sonos, volume_states), r),
    ensures
        r@.zones == sonos@,
        r@.volumes.contains(zone) <==> volume_states@.dom().contains(zone),
        r@.session(id) == (SessionState {
            encoder: false,
            zone: None,
            format: None,
            generation: None,
            lifecycle: None,
            reset_needed: false,
            desired: None,
            playing: None,
            playback_task: false,
            cleanup_task: false,
            retry_task: false,
            retry_attempts: None,
        }),
        r@.outbox.len() == 0,
        r@.sync_cohorts.len() == 0,
        r@.samples[zone].len() == 0,
        r@.sample_limit == config.sync.startup_sample_limit,
        r@.samples_needed == config.sync.startup_min_samples,
{
}

/// The sessions that give way to a new one are the others of its zone, each once.
pub proof fn others_of_the_zone_give_way(
    bridge: &BridgeRuntime,
    session_id: SessionId,
    zone_id: &ZoneId,
    r: Vec<SessionId>,
    id: SessionId,
)
    requires
        call_ensures(BridgeRuntime::sessions_to_replace, (bridge, session_id, zone_id), r),
    ensures
        !r@.contains(session_id),
        bridge@.session(id).zone matches Some(zone) ==> (id != session_id && zone@ == zone_id@
            ==> r@.contains(id)) && (zone@ != zone_id@ ==> !r@.contains(id)),
        bridge@.session(id).zone is None ==> !r@.contains(id),
        r@.no_duplicates(),
{
}

// ---------------------------------------------------------------------------
// Single steps
// ---------------------------------------------------------------------------
/// The grace period of a session is a minute from its last start on, and is ended
/// only where it runs.
pub proof fn grace_periods_start_and_end(
    started: &mut BridgeRuntime,
    ended: &mut BridgeRuntime,
    session_id: SessionId,
)
    requires
        call_ensures(BridgeRuntime::schedule_paused_cleanup, (started, session_id), ()),
        call_ensures(BridgeRuntime::cancel_paused_cleanup, (ended, session_id), ()),
    ensures
        final(started)@.session(session_id) == (SessionState {
            cleanup_task: true,
            ..old(started)@.session(session_id)
        }),
        final(started)@.outbox == old(started)@.outbox + session_laws::one_if(
            old(started)@.session(session_id).cleanup_task,
            BridgeAction::AbortPausedCleanup { session_id },
        ) + seq![BridgeAction::SchedulePausedCleanup { session_id, after_secs: 60 }],
        final(ended)@.session(session_id) == (SessionState {
            cleanup_task: false,
            ..old(ended)@.session(session_id)
        }),
        final(ended)@.outbox == old(ended)@.outbox + session_laws::one_if(
            old(ended)@.session(session_id).cleanup_task,
            BridgeAction::AbortPausedCleanup { session_id },
        ),
{
}

/// A retry takes the place of one that waits, waits the longer the more there
/// were, and is forgotten only where it waits.
pub proof fn retries_wait_and_are_forgotten(
    waiting: &mut BridgeRuntime,
    forgotten: &mut BridgeRuntime,
    counted: &mut BridgeRuntime,
    session_id: SessionId,
    zone_id: ZoneId,
    generation: u64,
    before: u32,
)
    requires
        call_ensures(
            BridgeRuntime::schedule_downstream_retry,
            (waiting, session_id, zone_id, generation),
            (),
        ),
        call_ensures(BridgeRuntime::cancel_downstream_retry, (forgotten, session_id), ()),
        old(counted)@ == old(waiting)@,
        call_ensures(BridgeRuntime::downstream_retry_attempt, (counted, session_id), before),
    ensures
        ({
            let known = old(waiting)@.session(session_id);
            &&& known.retry_attempts matches Some(n) ==> before == n
            &&& known.retry_attempts is None ==> before == 0
            &&& final(counted)@.session(session_id).retry_attempts == Some(
                if before < u32::MAX {
                    (before + 1) as u32
                } else {
                    u32::MAX
                },
            )
            &&& final(counted)@.outbox == old(counted)@.outbox
            &&& final(waiting)@.session(session_id) == (SessionState {
                retry_task: true,
                retry_attempts: final(counted)@.session(session_id).retry_attempts,
                ..known
            })
            &&& final(waiting)@.outbox == old(waiting)@.outbox + session_laws::one_if(
                known.retry_task,
                BridgeAction::AbortRetry { session_id },
            ) + seq![
                BridgeAction::ScheduleRetry {
                    session_id,
                    zone_id,
                    generation,
                    after_ms: if 500 * power2::pow2(before as nat) < 5_000 {
                        (500 * power2::pow2(before as nat)) as u64
                    } else {
                        5_000
                    },
                },
            ]
        }),
        final(forgotten)@.session(session_id) == (SessionState {
            retry_task: false,
            ..old(forgotten)@.session(session_id)
        }),
        final(forgotten)@.outbox == old(forgotten)@.outbox + session_laws::one_if(
            old(forgotten)@.session(session_id).retry_task,
            BridgeAction::AbortRetry { session_id },
        ),
{
    cohort_laws::lemma_retry_scheduled(old(waiting)@, session_id, zone_id, generation);
    session_laws::lemma_giving_up_asks(old(forgotten)@, session_id);
    session_laws::the_wait_doubles(before);
}

/// An attempt that is cancelled stays as cancelled; one that is made void is
/// cancelled, out of its cohort and below the number of the next.
pub proof fn attempts_are_cancelled_and_voided(
    cancelled: &mut BridgeRuntime,
    voided: &mut BridgeRuntime,
    session_id: SessionId,
)
    requires
        call_ensures(BridgeRuntime::cancel_downstream_lifecycle, (cancelled, session_id), ()),
        call_ensures(BridgeRuntime::invalidate_prepared_downstream, (voided, session_id), ()),
    ensures
        final(cancelled)@.session(session_id) == (SessionState {
            lifecycle: session_laws::cancelled(old(cancelled)@.session(session_id).lifecycle),
            ..old(cancelled)@.session(session_id)
        }),
        final(cancelled)@.outbox == old(cancelled)@.outbox + session_laws::cancels(
            old(cancelled)@.session(session_id).lifecycle,
        ),
        final(voided)@.session(session_id) == (SessionState {
            generation: session_laws::voided(old(voided)@.session(session_id).generation),
            lifecycle: session_laws::cancelled(old(voided)@.session(session_id).lifecycle),
            ..old(voided)@.session(session_id)
        }),
        final(voided)@.outbox == old(voided)@.outbox + session_laws::cancels(
            old(voided)@.session(session_id).lifecycle,
        ) + session_laws::one_if(
            bridge_state::in_cohorts(old(voided)@.sync_cohorts, session_id),
            BridgeAction::WakeCohorts { after_ms: 0 },
        ),
        !bridge_state::in_cohorts(final(voided)@.sync_cohorts, session_id),
{
    session_laws::lemma_invalidating_asks(old(voided)@, session_id);
    bridge_laws::lemma_without(old(voided)@.sync_cohorts, session_id);
}

/// A session that leaves the cohorts is in none, which are then looked at again
/// where it was in one; the other members stay where they are.
pub proof fn leaving_the_cohorts_wakes_them(
    bridge: &mut BridgeRuntime,
    session_id: SessionId,
    i: int,
    other: SessionId,
)
    requires
        call_ensures(BridgeRuntime::remove_session_from_sync_cohort, (bridge, session_id), ()),
    ensures
        !bridge_state::in_cohorts(final(bridge)@.sync_cohorts, session_id),
        final(bridge)@.session(session_id) == old(bridge)@.session(session_id),
        final(bridge)@.outbox == old(bridge)@.outbox + session_laws::one_if(
            is_member(old(bridge)@.sync_cohorts, session_id),
            BridgeAction::WakeCohorts { after_ms: 0 },
        ),
        0 <= i < old(bridge)@.sync_cohorts.len() && other != session_id
            && old(bridge)@.sync_cohorts[i].sessions.contains(other) ==> is_member_of(
            final(bridge)@.sync_cohorts,
            old(bridge)@.sync_cohorts[i].id,
            other,
        ),
{
    let cs = old(bridge)@.sync_cohorts;
    let out = final(bridge)@.sync_cohorts;
    bridge_laws::lemma_without(cs, session_id);
    assert(is_member(cs, session_id) <==> bridge_state::in_cohorts(cs, session_id));
    if 0 <= i < cs.len() && other != session_id && cs[i].sessions.contains(other) {
        cohort_laws::the_other_members_stay(cs, session_id, i, other);
        let k = choose|k: int|
            0 <= k < out.len() && (#[trigger] out[k]).sessions.contains(other) && out[k].id
                == cs[i].id;
        assert(out[k].id == cs[i].id);
    }
}

/// Whether a session is a member of one of the cohorts.
pub open spec fn is_member(cs: Seq<CohortState>, id: SessionId) -> bool {
    exists|k: int| 0 <= k < cs.len() && (#[trigger] cs[k]).sessions.contains(id)
}

/// Whether a session is a member of a cohort with a given name.
pub open spec fn is_member_of(cs: Seq<CohortState>, name: u64, id: SessionId) -> bool {
    exists|k: int|
        0 <= k < cs.len() && (#[trigger] cs[k]).id == name && cs[k].sessions.contains(id)
}

/// A new attempt has the number after the one before and a life of its own, and
/// the session is in no cohort.
pub proof fn new_attempts_are_numbered(
    bridge: &mut BridgeRuntime,
    session_id: SessionId,
    r: (u64, u64),
)
    requires
        call_ensures(BridgeRuntime::next_downstream_generation, (bridge, session_id), r),
    ensures
        old(bridge)@.session(session_id).generation matches Some(n) ==> r.0
            == session_laws::raised(n, 1),
        old(bridge)@.session(session_id).generation is None ==> r.0 == 1,
        r.1 == old(bridge)@.next_lifecycle_id,
        final(bridge)@.next_lifecycle_id != r.1,
        final(bridge)@.session(session_id) == (SessionState {
            generation: Some(r.0),
            lifecycle: Some(DownstreamLifecycle { id: r.1, cancelled: false }),
            ..old(bridge)@.session(session_id)
        }),
        !bridge_state::in_cohorts(final(bridge)@.sync_cohorts, session_id),
{
    session_laws::lemma_new_attempt_asks(old(bridge)@, session_id);
    bridge_laws::lemma_without(old(bridge)@.sync_cohorts, session_id);
}

/// What runs for a session is cleared away with all that is known of it but its
/// zone, its encoder and the number of its attempt, which is void.
pub proof fn clearing_keeps_zone_and_encoder(bridge: &mut BridgeRuntime, session_id: SessionId)
    requires
        call_ensures(BridgeRuntime::clear_session_runtime_state, (bridge, session_id), ()),
    ensures
        is_forgotten(
            old(bridge)@.session(session_id),
            SessionState { zone: None, encoder: false, ..final(bridge)@.session(session_id) },
        ),
        final(bridge)@.session(session_id).zone == old(bridge)@.session(session_id).zone,
        final(bridge)@.session(session_id).encoder == old(bridge)@.session(session_id).encoder,
        !bridge_state::in_cohorts(final(bridge)@.sync_cohorts, session_id),
{
    bridge_laws::lemma_without(old(bridge)@.sync_cohorts, session_id);
}

/// A session that was not prepared in time is tried anew.
pub proof fn late_sessions_are_tried_anew(bridge: &mut BridgeRuntime, session_id: SessionId)
    requires
        call_ensures(BridgeRuntime::retry_unprepared_downstream, (bridge, session_id), ()),
    ensures
        cohort_laws::is_tried_anew(old(bridge)@, final(bridge)@, session_id),
{
    cohort_laws::unprepared_members_are_tried_anew(old(bridge)@, session_id);
}

/// Streams that start together are anchored as one: every WAV stream, in order,
/// and no other.
pub proof fn anchors_are_set_together(
    bridge: &mut BridgeRuntime,
    prepared: &Vec<PreparedDownstream>,
    now: u64,
    i: int,
)
    requires
        call_ensures(BridgeRuntime::apply_sync_anchors, (bridge, prepared, now), ()),
        0 <= i < prepared@.len(),
    ensures
        ({
            let s = old(bridge)@;
            let t = final(bridge)@;
            let zones = prepared@.map_values(|p: PreparedDownstream| p.zone_id);
            let at = s.outbox.len() + cohort_laws::wav_streams(prepared@, i);
            &&& t.outbox.len() == s.outbox.len() + cohort_laws::wav_streams(
                prepared@,
                prepared@.len() as int,
            )
            &&& prepared@[i].codec == StreamCodec::Wav ==> t.outbox[at as int] == (
            BridgeAction::SetAnchor {
                session_id: prepared@[i].session_id,
                generation: prepared@[i].generation,
                at: (now + 120_000_000 + s.anchor_delay(zones, prepared@[i]) * 1_000_000) as u128,
            })
            &&& t.session(prepared@[i].session_id) == s.session(prepared@[i].session_id)
        }),
{
    let n = prepared@.len() as int;
    cohort_laws::wav_streams_are_anchored(old(bridge)@, prepared@, n, now, i);
}

/// A session that is stopped is forgotten, and gives up all that runs for it.
pub proof fn stopped_sessions_are_forgotten(
    bridge: &mut BridgeRuntime,
    session_id: SessionId,
    fallback: Option<ZoneId>,
)
    requires
        call_ensures(BridgeRuntime::stop_session, (bridge, session_id, fallback), ()),
    ensures
        session_laws::is_ending(old(bridge)@, final(bridge)@, session_id, fallback),
        is_forgotten(old(bridge)@.session(session_id), final(bridge)@.session(session_id)),
        !bridge_state::in_cohorts(final(bridge)@.sync_cohorts, session_id),
        bridge_laws::concerns_only(old(bridge)@, final(bridge)@, session_id),
{
    session_laws::ending_gives_up_all_that_runs(old(bridge)@, session_id, fallback);
    bridge_laws::stopping_forgets_the_session(old(bridge)@, session_id, fallback);
    bridge_laws::stopping_concerns_one_session(old(bridge)@, session_id, fallback);
}

/// What a session is told by name is what the event tells it.
pub proof fn playback_is_set_as_told(
    bridge: &mut BridgeRuntime,
    session_id: SessionId,
    zone_id: ZoneId,
    playing: bool,
    r: Option<DownstreamPlan>,
    told: &mut BridgeRuntime,
    outcome: EventOutcome,
)
    requires
        call_ensures(
            BridgeRuntime::set_playback_state,
            (bridge, session_id, zone_id, playing),
            r,
        ),
        old(told)@ == old(bridge)@,
        call_ensures(
            BridgeRuntime::handle_event,
            (told, AirPlayEvent::PlaybackState { session_id, zone_id, playing }),
            outcome,
        ),
    ensures
        final(told)@ == final(bridge)@,
        r is None <==> outcome is Done,
        r matches Some(plan) ==> (outcome matches EventOutcome::Restart { plan: same } && same
            == plan),
        !playing ==> r is None,
{
}

/// No event changes the configuration, the players or what was measured of them,
/// and none changes what is known of a session that it is not about.
pub proof fn events_concern_their_session(
    bridge: &mut BridgeRuntime,
    event: AirPlayEvent,
    r: EventOutcome,
    other: SessionId,
)
    requires
        call_ensures(BridgeRuntime::handle_event, (bridge, event), r),
        match event {
            AirPlayEvent::PlaybackState { session_id, .. } => session_id != other,
            AirPlayEvent::Flushed { session_id, .. } => session_id != other,
            AirPlayEvent::SessionStopped { session_id, .. } => session_id != other,
            AirPlayEvent::StreamEndedWhilePaused { session_id, .. } => session_id != other,
            _ => true,
        },
    ensures
        session_laws::keeps_the_players(old(bridge)@, final(bridge)@),
        final(bridge)@.session(other) == old(bridge)@.session(other),
        bridge_state::in_cohorts(final(bridge)@.sync_cohorts, other) == bridge_state::in_cohorts(
            old(bridge)@.sync_cohorts,
            other,
        ),
{
    let s = old(bridge)@;
    let none = DownstreamRetry { session_id: other, zone_id: arbitrary(), generation: 0 };
    match event {
        AirPlayEvent::PlaybackState { session_id, zone_id, playing } => {
            session_laws::sessions_keep_the_players(s, session_id, zone_id, playing, None, none);
            bridge_laws::playing_and_pausing_concern_one_session(s, session_id, zone_id, playing);
            reveal(bridge_laws::concerns_only);
        },
        AirPlayEvent::Flushed { session_id, zone_id } => {
            session_laws::sessions_keep_the_players(s, session_id, zone_id, true, None, none);
            bridge_laws::audio_events_concern_one_session(s, session_id);
            reveal(bridge_laws::concerns_only);
        },
        AirPlayEvent::SessionStopped { session_id, zone_id } => {
            session_laws::sessions_keep_the_players(
                s,
                session_id,
                zone_id,
                true,
                Some(zone_id),
                none,
            );
            bridge_laws::stopping_concerns_one_session(s, session_id, Some(zone_id));
            reveal(bridge_laws::concerns_only);
        },
        AirPlayEvent::StreamEndedWhilePaused { session_id, zone_id } => {
            session_laws::sessions_keep_the_players(s, session_id, zone_id, true, None, none);
            bridge_laws::audio_events_concern_one_session(s, session_id);
            reveal(bridge_laws::concerns_only);
        },
        _ => {
            reveal(session_laws::keeps_the_players);
        },
    }
}

/// Looking at the cohorts changes nothing that is known of a session that is in
/// none of them, or that is prepared.
pub proof fn looking_at_the_cohorts_spares_others(
    bridge: &mut BridgeRuntime,
    now: u64,
    other: SessionId,
)
    requires
        call_ensures(BridgeRuntime::maybe_start_sync_cohorts, (bridge, now), ()),
        forall|k: int|
            0 <= k < old(bridge)@.sync_cohorts.len() ==> !(
            #[trigger] old(bridge)@.sync_cohorts[k]).sessions.contains(other)
                || old(bridge)@.sync_cohorts[k].prepared.dom().contains(other),
    ensures
        final(bridge)@.session(other) == old(bridge)@.session(other),
        final(bridge)@.config == old(bridge)@.config,
        final(bridge)@.zones == old(bridge)@.zones,
{
    cohort_laws::starts_spare_other_sessions(old(bridge)@, now, other);
}

} // verus!
