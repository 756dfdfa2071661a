//! What each step of the bridge makes of a session, and what it asks for.

use vstd::arithmetic::power2;
use vstd::prelude::*;

use crate::bridge;
use crate::bridge_laws;
use crate::bridge_state;
use crate::bridge_state::{
    BridgeAction, BridgeState, CohortState, DownstreamLifecycle, DownstreamPlan, DownstreamRetry,
    DownstreamStartOutcome, DownstreamStartResult, PreparedDownstream, SessionState,
    SonosStreamPrepare,
};
use crate::ids::{SessionId, ZoneId};
use crate::types::StreamCodec;

verus! {

/// An action, where it is asked for.
pub open spec fn one_if(asked: bool, action: BridgeAction) -> Seq<BridgeAction> {
    if asked {
        seq![action]
    } else {
        Seq::empty()
    }
}

/// A number raised by some, as far as it can be.
pub open spec fn raised(n: u64, by: u64) -> u64 {
    if n + by <= u64::MAX {
        (n + by) as u64
    } else {
        u64::MAX
    }
}

/// The number of an attempt once what it had prepared is void.
pub open spec fn voided(generation: Option<u64>) -> Option<u64> {
    match generation {
        Some(n) => Some(raised(n, 1)),
        None => None,
    }
}

/// An attempt, once it is cancelled.
pub open spec fn cancelled(lifecycle: Option<DownstreamLifecycle>) -> Option<DownstreamLifecycle> {
    match lifecycle {
        Some(l) => Some(DownstreamLifecycle { id: l.id, cancelled: true }),
        None => None,
    }
}

/// The request to cancel an attempt, where there is one.
pub open spec fn cancels(lifecycle: Option<DownstreamLifecycle>) -> Seq<BridgeAction> {
    match lifecycle {
        Some(l) => seq![BridgeAction::CancelLifecycle { lifecycle: l.id }],
        None => Seq::empty(),
    }
}

/// The wait before a retry is half a second at first, doubles from each retry to
/// the next, and is five seconds at most.
pub proof fn the_wait_doubles(attempt: u32)
    ensures
        500 * power2::pow2(attempt as nat) < 5_000 ==> bridge_state::retry_delay(attempt) == 500
            * power2::pow2(attempt as nat),
        500 * power2::pow2(attempt as nat) >= 5_000 ==> bridge_state::retry_delay(attempt) == 5_000,
    decreases attempt,
{
    if attempt == 0 {
        power2::lemma2_to64();
    } else {
        the_wait_doubles((attempt - 1) as u32);
        power2::lemma_pow2_unfold(attempt as nat);
    }
}

/// What the failure of the current attempt makes of a state.
pub open spec fn is_failed_start(
    s: BridgeState,
    t: BridgeState,
    result: DownstreamStartResult,
) -> bool {
    let id = result.session_id;
    let known = s.session(id);
    let before: u32 = match known.retry_attempts {
        Some(n) => n,
        None => 0,
    };
    &&& t.sync_cohorts == s.sync_cohorts
    &&& known.desired == Some(true) ==> {
        &&& t.session(id) =~= (SessionState {
            reset_needed: true,
            retry_task: true,
            retry_attempts: Some(
                if before < u32::MAX {
                    (before + 1) as u32
                } else {
                    u32::MAX
                },
            ),
            ..known
        })
        &&& t.outbox =~= s.outbox + one_if(
            known.retry_task,
            BridgeAction::AbortRetry { session_id: id },
        ) + seq![
            BridgeAction::ScheduleRetry {
                session_id: id,
                zone_id: result.zone_id,
                generation: result.generation,
                after_ms: if 500 * power2::pow2(before as nat) < 5_000 {
                    (500 * power2::pow2(before as nat)) as u64
                } else {
                    5_000
                },
            },
        ]
    }
    &&& known.desired != Some(true) ==> {
        &&& t.session(id) =~= (SessionState { reset_needed: true, ..known })
        &&& t.outbox =~= s.outbox
    }
}

/// A start of the current attempt that failed has the stream made anew. Where
/// the session should play, a retry of this attempt in this zone is asked for,
/// in place of one that waits; it waits the longer the more retries there were.
/// Where it should not, nothing is asked for.
pub proof fn failed_starts_are_retried(s: BridgeState, result: DownstreamStartResult)
    requires
        s.session(result.session_id).generation == Some(result.generation),
        result.outcome == DownstreamStartOutcome::Failed,
    ensures
        is_failed_start(s, s.start_ended(result), result),
{
    let id = result.session_id;
    the_wait_doubles(s.attempts(id));
}

/// What another end of the current attempt makes of a state.
pub open spec fn is_ended_start(
    s: BridgeState,
    t: BridgeState,
    result: DownstreamStartResult,
) -> bool {
    let id = result.session_id;
    let known = s.session(id);
    &&& t.sync_cohorts == s.sync_cohorts
    &&& result.outcome == DownstreamStartOutcome::Started && known.desired == Some(true)
        ==> {
        &&& t.session(id) =~= (SessionState {
            reset_needed: false,
            retry_task: false,
            retry_attempts: None,
            ..known
        })
        &&& t.outbox =~= s.outbox + one_if(
            known.retry_task,
            BridgeAction::AbortRetry { session_id: id },
        )
    }
    &&& result.outcome == DownstreamStartOutcome::Cancelled || known.desired != Some(true)
        ==> {
        &&& t.session(id) =~= known
        &&& t.outbox =~= s.outbox
    }
}

/// A start of the current attempt that succeeded ends the retries of a session
/// that should play; that of one that should not, and a start that was
/// cancelled, change nothing that is known of the session.
pub proof fn successful_starts_end_the_retries(s: BridgeState, result: DownstreamStartResult)
    requires
        s.session(result.session_id).generation == Some(result.generation),
        result.outcome != DownstreamStartOutcome::Failed,
    ensures
        is_ended_start(s, s.start_ended(result), result),
{
}

/// What the measurement of the current attempt makes of the lags of a zone.
pub open spec fn is_measured_start(
    s: BridgeState,
    t: BridgeState,
    result: DownstreamStartResult,
    zone: Seq<char>,
) -> bool {
    let lag = match result.timing {
        Some(timing) => timing.lag(),
        None => None,
    };
    &&& zone != result.zone_id@ || lag is None ==> t.samples[zone] == s.samples[zone]
    &&& lag is Some && s.sample_limit > 0 ==> {
        &&& t.samples[result.zone_id@].len() > 0
        &&& t.samples[result.zone_id@].last() == lag->0
    }
    &&& t.sample_limit == s.sample_limit
    &&& t.samples_needed == s.samples_needed
}

/// What a start took is added to the lags of its zone, as the latest of them,
/// and to those of no other zone; a start that was not measured adds nothing.
pub proof fn starts_are_measured(s: BridgeState, result: DownstreamStartResult, zone: Seq<char>)
    requires
        s.session(result.session_id).generation == Some(result.generation),
    ensures
        is_measured_start(s, s.start_ended(result), result, zone),
{
}

pub(crate) proof fn lemma_invalidating_asks(s: BridgeState, id: SessionId)
    ensures
        ({
            let known = s.session(id);
            let t = s.invalidated(id);
            &&& t.zones == s.zones
            &&& t.playback_tasks == s.playback_tasks
            &&& t.session(id) == (SessionState {
                generation: voided(known.generation),
                lifecycle: cancelled(known.lifecycle),
                ..known
            })
            &&& t.outbox == s.outbox + cancels(known.lifecycle) + one_if(
                bridge_state::in_cohorts(s.sync_cohorts, id),
                BridgeAction::WakeCohorts { after_ms: 0 },
            )
        }),
{
}

pub(crate) proof fn lemma_giving_up_asks(s: BridgeState, id: SessionId)
    ensures
        ({
            let known = s.session(id);
            let a = s.retry_cancelled(id);
            let b = s.playback_aborted(id);
            let c = s.stream_removed(id);
            &&& a.zones == s.zones && b.zones == s.zones && c.zones == s.zones
            &&& a.sync_cohorts == s.sync_cohorts && b.sync_cohorts == s.sync_cohorts
                && c.sync_cohorts == s.sync_cohorts
            &&& a.next_lifecycle_id == s.next_lifecycle_id && b.next_lifecycle_id
                == s.next_lifecycle_id && c.next_lifecycle_id == s.next_lifecycle_id
            &&& a.session(id) == (SessionState { retry_task: false, ..known })
            &&& b.session(id) == (SessionState { playback_task: false, ..known })
            &&& c.session(id) == (SessionState { encoder: false, ..known })
            &&& a.outbox == s.outbox + one_if(
                known.retry_task,
                BridgeAction::AbortRetry { session_id: id },
            )
            &&& b.outbox == s.outbox + one_if(
                known.playback_task,
                BridgeAction::AbortPlayback { session_id: id },
            )
            &&& c.outbox == s.outbox + one_if(
                known.encoder,
                BridgeAction::ShutdownEncoder { session_id: id },
            ) + seq![BridgeAction::RemoveStream { session_id: id }]
        }),
{
}

pub(crate) proof fn lemma_new_attempt_asks(s: BridgeState, id: SessionId)
    ensures
        ({
            let known = s.session(id);
            let t = s.next_attempt(id);
            &&& t.session(id) == (SessionState {
                generation: Some(
                    match known.generation {
                        Some(n) => raised(n, 1),
                        None => 1,
                    },
                ),
                lifecycle: Some(
                    DownstreamLifecycle { id: s.next_lifecycle_id, cancelled: false },
                ),
                ..known
            })
            &&& t.next_lifecycle_id != s.next_lifecycle_id
            &&& t.outbox == s.outbox + cancels(known.lifecycle) + one_if(
                bridge_state::in_cohorts(s.sync_cohorts, id),
                BridgeAction::WakeCohorts { after_ms: 0 },
            )
        }),
{
}

/// What pausing a known session makes of a state.
pub open spec fn is_pause(s: BridgeState, t: BridgeState, id: SessionId, zone_id: ZoneId) -> bool {
    let known = s.session(id);
    let has_player = s.zones.dom().contains(zone_id@);
    &&& t.session(id) =~= (SessionState {
        generation: voided(known.generation),
        lifecycle: cancelled(known.lifecycle),
        reset_needed: true,
        desired: Some(false),
        playing: Some(false),
        playback_task: has_player,
        retry_task: false,
        ..known
    })
    &&& t.outbox =~= s.outbox + one_if(
        known.retry_task,
        BridgeAction::AbortRetry { session_id: id },
    ) + cancels(known.lifecycle) + one_if(
        bridge_state::in_cohorts(s.sync_cohorts, id),
        BridgeAction::WakeCohorts { after_ms: 0 },
    ) + one_if(known.playback_task, BridgeAction::AbortPlayback { session_id: id }) + one_if(
        has_player,
        BridgeAction::StopForPause { session_id: id, zone_id },
    )
}

/// A session that pauses is stopped: its attempt is cancelled and void, it
/// leaves its cohort, its retry and its preparation are given up, and the player
/// of the zone is stopped, where there is one.
pub proof fn pausing_stops_the_player(s: BridgeState, id: SessionId, zone_id: ZoneId)
    requires
        s.sessions.dom().contains(id),
    ensures
        is_pause(s, s.playback_set(id, zone_id, false), id, zone_id),
{
    let a = s.told(id, false).reset_marked(id);
    lemma_giving_up_asks(a, id);
    let b = a.retry_cancelled(id);
    lemma_invalidating_asks(b, id);
    let c = b.invalidated(id);
    lemma_giving_up_asks(c, id);
    assert(a.session(id) == (SessionState {
        reset_needed: true,
        desired: Some(false),
        playing: Some(false),
        ..s.session(id)
    }));
    assert(s.playback_set(id, zone_id, false).session(id) == (SessionState {
        playback_task: s.zones.dom().contains(zone_id@),
        ..c.playback_aborted(id).session(id)
    }));
}

/// What making a stream anew makes of a state.
pub open spec fn is_remake(s: BridgeState, t: BridgeState, id: SessionId, zone_id: ZoneId) -> bool {
    let known = s.session(id);
    let number: u64 = match known.generation {
        Some(n) => raised(n, 1),
        None => 1,
    };
    let ended = one_if(known.retry_task, BridgeAction::AbortRetry { session_id: id });
    if known.format is Some && s.zones.dom().contains(zone_id@) {
        &&& s.can_restart(id, zone_id)
        &&& t.session(id) =~= (SessionState {
            encoder: false,
            generation: Some(number),
            lifecycle: Some(
                DownstreamLifecycle { id: s.next_lifecycle_id, cancelled: false },
            ),
            reset_needed: true,
            playback_task: false,
            retry_task: false,
            ..known
        })
        &&& t.outbox =~= s.outbox + ended + one_if(
            known.playback_task,
            BridgeAction::AbortPlayback { session_id: id },
        ) + one_if(known.encoder, BridgeAction::ShutdownEncoder { session_id: id }) + seq![
            BridgeAction::RemoveStream { session_id: id },
        ] + cancels(known.lifecycle) + one_if(
            bridge_state::in_cohorts(s.sync_cohorts, id),
            BridgeAction::WakeCohorts { after_ms: 0 },
        )
    } else {
        &&& !s.can_restart(id, zone_id)
        &&& t.session(id) =~= (SessionState {
            reset_needed: true,
            retry_task: false,
            ..known
        })
        &&& t.outbox =~= s.outbox + ended
        &&& t.sync_cohorts == s.sync_cohorts
    }
}

/// Making a session's stream anew gives the old one up, with its preparation,
/// and begins an attempt above the one before. Where the zone has no player or
/// the session no format, the session only waits to be made anew.
pub proof fn remaking_gives_the_old_stream_up(s: BridgeState, id: SessionId, zone_id: ZoneId)
    ensures
        is_remake(s, s.restarting(id, zone_id), id, zone_id),
{
    let a = s.reset_marked(id);
    assert(a.session(id) == (SessionState { reset_needed: true, ..s.session(id) }));
    lemma_giving_up_asks(a, id);
    let b = a.retry_cancelled(id);
    if s.can_restart(id, zone_id) {
        lemma_giving_up_asks(b, id);
        let c = b.playback_aborted(id);
        lemma_giving_up_asks(c, id);
        let d = c.stream_removed(id);
        lemma_new_attempt_asks(d, id);
    }
}

/// What playing after a pause, or with a stream to be made anew, makes of a
/// state.
pub open spec fn is_play_anew(
    s: BridgeState,
    t: BridgeState,
    id: SessionId,
    zone_id: ZoneId,
) -> bool {
    let known = s.session(id);
    let number: u64 = match known.generation {
        Some(n) => raised(n, 1),
        None => 1,
    };
    let waiting = SessionState {
        reset_needed: true,
        desired: Some(true),
        playing: Some(true),
        cleanup_task: false,
        retry_task: false,
        ..known
    };
    let ended = one_if(
        known.cleanup_task,
        BridgeAction::AbortPausedCleanup { session_id: id },
    ) + one_if(known.retry_task, BridgeAction::AbortRetry { session_id: id });
    if known.format is Some && s.zones.dom().contains(zone_id@) {
        &&& s.playback_plans(id, zone_id, true)
        &&& t.session(id) =~= (SessionState {
            encoder: false,
            generation: Some(number),
            lifecycle: Some(
                DownstreamLifecycle { id: s.next_lifecycle_id, cancelled: false },
            ),
            playback_task: false,
            ..waiting
        })
        &&& t.outbox =~= s.outbox + ended + one_if(
            known.playback_task,
            BridgeAction::AbortPlayback { session_id: id },
        ) + one_if(known.encoder, BridgeAction::ShutdownEncoder { session_id: id }) + seq![
            BridgeAction::RemoveStream { session_id: id },
        ] + cancels(known.lifecycle) + one_if(
            bridge_state::in_cohorts(s.sync_cohorts, id),
            BridgeAction::WakeCohorts { after_ms: 0 },
        )
    } else {
        &&& !s.playback_plans(id, zone_id, true)
        &&& t.session(id) =~= waiting
        &&& t.outbox =~= s.outbox + ended
        &&& t.sync_cohorts == s.sync_cohorts
    }
}

/// A session that is told to play anew, after a pause or with its stream to be
/// made anew, gives its old stream up and begins a new attempt, above the one
/// before; a plan for its new stream is handed out. Where the zone has no player
/// or the session no format, it only waits to be made anew.
pub proof fn playing_again_makes_the_stream_anew(s: BridgeState, id: SessionId, zone_id: ZoneId)
    requires
        s.sessions.dom().contains(id),
        s.session(id).playing == Some(false) || s.session(id).reset_needed,
    ensures
        is_play_anew(s, s.playback_set(id, zone_id, true), id, zone_id),
{
    let told = s.told(id, true).cleanup_cancelled(id);
    remaking_gives_the_old_stream_up(told, id, zone_id);
    assert(told.session(id) == (SessionState {
        desired: Some(true),
        playing: Some(true),
        cleanup_task: false,
        ..s.session(id)
    }));
    let ended = one_if(
        s.session(id).cleanup_task,
        BridgeAction::AbortPausedCleanup { session_id: id },
    );
    assert(told.outbox =~= s.outbox + ended);
}

/// What playing on makes of a state.
pub open spec fn is_play_on(
    s: BridgeState,
    t: BridgeState,
    id: SessionId,
    zone_id: ZoneId,
) -> bool {
    let known = s.session(id);
    &&& !s.playback_plans(id, zone_id, true)
    &&& t.sync_cohorts == s.sync_cohorts
    &&& known.zone is Some ==> {
        &&& t.session(id) =~= (SessionState {
            desired: Some(true),
            playing: Some(true),
            cleanup_task: false,
            ..known
        })
        &&& t.outbox =~= s.outbox + one_if(
            known.cleanup_task,
            BridgeAction::AbortPausedCleanup { session_id: id },
        )
    }
    &&& known.zone is None ==> t =~= s && s.playback_set(id, zone_id, false) =~= s
}

/// A session that plays is told to play to no effect but that its grace period
/// ends; one that is not known is left alone.
pub proof fn playing_twice_changes_nothing(s: BridgeState, id: SessionId, zone_id: ZoneId)
    requires
        s.session(id).playing != Some(false),
        !s.session(id).reset_needed,
    ensures
        is_play_on(s, s.playback_set(id, zone_id, true), id, zone_id),
{
}

/// What a due retry makes of a state.
pub open spec fn is_due_retry(s: BridgeState, t: BridgeState, retry: DownstreamRetry) -> bool {
    let id = retry.session_id;
    let known = s.session(id);
    let needed = known.generation == Some(retry.generation) && known.desired == Some(true)
        && known.reset_needed;
    let has_player = s.zones.dom().contains(retry.zone_id@);
    &&& needed <==> s.retry_needed(retry)
    &&& !needed || known.format is None || !has_player ==> {
        &&& t.session(id) =~= (SessionState { retry_task: false, ..known })
        &&& t.outbox =~= s.outbox
        &&& t.sync_cohorts == s.sync_cohorts
    }
    &&& needed && known.format is Some && has_player ==> {
        &&& s.can_restart(id, retry.zone_id)
        &&& t.session(id) =~= (SessionState {
            encoder: false,
            generation: Some(raised(retry.generation, 1)),
            lifecycle: Some(
                DownstreamLifecycle { id: s.next_lifecycle_id, cancelled: false },
            ),
            playback_task: false,
            retry_task: false,
            ..known
        })
        &&& t.outbox =~= s.outbox + one_if(
            known.playback_task,
            BridgeAction::AbortPlayback { session_id: id },
        ) + one_if(known.encoder, BridgeAction::ShutdownEncoder { session_id: id }) + seq![
            BridgeAction::RemoveStream { session_id: id },
        ] + cancels(known.lifecycle) + one_if(
            bridge_state::in_cohorts(s.sync_cohorts, id),
            BridgeAction::WakeCohorts { after_ms: 0 },
        )
    }
}

/// A retry that is due is forgotten. Where it is of the current attempt of a
/// session that should play and whose stream is to be made anew, the stream is
/// made anew; else nothing more happens.
pub proof fn due_retries_make_the_stream_anew(s: BridgeState, retry: DownstreamRetry)
    ensures
        is_due_retry(s, s.retry_due(retry), retry),
{
}

/// What the beginning of a session makes of a state.
pub open spec fn is_beginning(
    s: BridgeState,
    t: BridgeState,
    id: SessionId,
    zone_id: ZoneId,
) -> bool {
    let known = s.session(id);
    let ended = one_if(
        known.cleanup_task,
        BridgeAction::AbortPausedCleanup { session_id: id },
    );
    if s.zones.dom().contains(zone_id@) {
        &&& t.session(id) =~= (SessionState {
            encoder: known.encoder,
            zone: known.zone,
            format: None,
            generation: Some(
                match known.generation {
                    Some(n) => raised(n, 2),
                    None => 1,
                },
            ),
            lifecycle: Some(
                DownstreamLifecycle { id: s.next_lifecycle_id, cancelled: false },
            ),
            reset_needed: false,
            desired: None,
            playing: None,
            playback_task: false,
            cleanup_task: false,
            retry_task: false,
            retry_attempts: None,
        })
        &&& t.next_lifecycle_id != s.next_lifecycle_id
        &&& t.outbox =~= s.outbox + ended + cancels(known.lifecycle) + one_if(
            bridge_state::in_cohorts(s.sync_cohorts, id),
            BridgeAction::WakeCohorts { after_ms: 0 },
        ) + one_if(known.retry_task, BridgeAction::AbortRetry { session_id: id }) + one_if(
            known.playback_task,
            BridgeAction::AbortPlayback { session_id: id },
        )
    } else {
        &&& t.session(id) =~= (SessionState { cleanup_task: false, ..known })
        &&& t.outbox =~= s.outbox + ended
    }
}

/// A session begins anew: what was known of one under its name is forgotten and
/// given up, and its first attempt gets a number above all before it. In a zone
/// without a player it does not begin.
pub proof fn beginning_forgets_what_was_before(s: BridgeState, id: SessionId, zone_id: ZoneId)
    ensures
        is_beginning(s, s.begun(id, zone_id), id, zone_id),
{
    bridge_laws::lemma_without(s.sync_cohorts, id);
    let a = s.cleanup_cancelled(id);
    if s.zones.dom().contains(zone_id@) {
        lemma_clearing_asks(a, id);
        let b = a.cleared(id);
        assert(b.sync_cohorts == bridge_state::cohorts_without(s.sync_cohorts, id));
        assert(b.session(id).lifecycle is None);
        lemma_new_attempt_asks(b, id);
        assert(b.session(id).generation == voided(s.session(id).generation));
    }
}

pub(crate) proof fn lemma_clearing_asks(s: BridgeState, id: SessionId)
    ensures
        ({
            let known = s.session(id);
            let t = s.cleared(id);
            &&& t.encoders == s.encoders
            &&& t.zones == s.zones
            &&& t.config == s.config
            &&& t.outbox == s.outbox + cancels(known.lifecycle) + one_if(
                bridge_state::in_cohorts(s.sync_cohorts, id),
                BridgeAction::WakeCohorts { after_ms: 0 },
            ) + one_if(known.cleanup_task, BridgeAction::AbortPausedCleanup { session_id: id })
                + one_if(known.retry_task, BridgeAction::AbortRetry { session_id: id }) + one_if(
                known.playback_task,
                BridgeAction::AbortPlayback { session_id: id },
            )
        }),
{
}

/// What the end of a session asks for.
pub open spec fn is_ending(
    s: BridgeState,
    t: BridgeState,
    id: SessionId,
    fallback: Option<ZoneId>,
) -> bool {
    let known = s.session(id);
    let zone = if known.zone is Some {
        known.zone
    } else {
        fallback
    };
    t.outbox =~= s.outbox + cancels(known.lifecycle) + one_if(
        bridge_state::in_cohorts(s.sync_cohorts, id),
        BridgeAction::WakeCohorts { after_ms: 0 },
    ) + one_if(known.cleanup_task, BridgeAction::AbortPausedCleanup { session_id: id })
        + one_if(known.retry_task, BridgeAction::AbortRetry { session_id: id }) + one_if(
        known.playback_task,
        BridgeAction::AbortPlayback { session_id: id },
    ) + one_if(known.encoder, BridgeAction::ShutdownEncoder { session_id: id }) + seq![
        BridgeAction::RemoveStream { session_id: id },
    ] + match zone {
        Some(zone_id) => one_if(
            s.config.sonos.stop_on_disconnect && s.zones.dom().contains(zone_id@),
            BridgeAction::StopPlayer { zone_id },
        ),
        None => Seq::empty(),
    }
}

/// The end of a session gives up all that runs for it, each thing once and only
/// where it runs; its stream leaves the registry in any case, and its player, or
/// that of the given zone, is stopped where the configuration asks for it.
pub proof fn ending_gives_up_all_that_runs(s: BridgeState, id: SessionId, fallback: Option<ZoneId>)
    ensures
        is_ending(s, s.stopped(id, fallback), id, fallback),
{
    let a = BridgeState { sessions: s.sessions.remove(id), ..s };
    lemma_clearing_asks(a, id);
    let b = a.cleared(id);
    assert(b.stream_removed(id).outbox =~= b.outbox + one_if(
        s.encoders.contains(id),
        BridgeAction::ShutdownEncoder { session_id: id },
    ) + seq![BridgeAction::RemoveStream { session_id: id }]);
}

/// What the end of a paused session's audio makes of a state.
pub open spec fn is_stream_end(s: BridgeState, t: BridgeState, id: SessionId) -> bool {
    let known = s.session(id);
    &&& t.sync_cohorts == s.sync_cohorts
    &&& known.zone is Some && known.desired != Some(true) ==> {
        &&& t.session(id) =~= (SessionState {
            reset_needed: true,
            cleanup_task: true,
            ..known
        })
        &&& t.outbox =~= s.outbox + one_if(
            known.cleanup_task,
            BridgeAction::AbortPausedCleanup { session_id: id },
        ) + seq![BridgeAction::SchedulePausedCleanup { session_id: id, after_secs: 60 }]
    }
    &&& known.zone is None || known.desired == Some(true) ==> t =~= s
}

/// A session whose audio stream ended while it does not have to play is kept for
/// a minute more, from then on, and its stream is to be made anew. One that
/// should play again, or is not known, is left alone.
pub proof fn ended_streams_are_kept_for_a_minute(s: BridgeState, id: SessionId)
    ensures
        is_stream_end(s, s.ended_while_paused(id), id),
{
}

/// A session expires only while it is paused: one that was told to play since
/// its grace period began does not, and neither does one that ended.
pub proof fn only_paused_sessions_expire(s: BridgeState, id: SessionId, zone_id: ZoneId)
    ensures
        s.sessions.dom().contains(id) ==> s.playback_set(id, zone_id, false).expires(id),
        !s.playback_set(id, zone_id, true).expires(id),
        !s.stopped(id, Some(zone_id)).expires(id),
        s.expires(id) <==> s.session(id).zone is Some && s.session(id).desired == Some(false),
{
    bridge_laws::stopping_forgets_the_session(s, id, Some(zone_id));
    if s.sessions.dom().contains(id) {
        pausing_stops_the_player(s, id, zone_id);
        if s.session(id).playing == Some(false) || s.session(id).reset_needed {
            playing_again_makes_the_stream_anew(s, id, zone_id);
        } else {
            playing_twice_changes_nothing(s, id, zone_id);
        }
        assert(s.playback_set(id, zone_id, true).session(id).desired == Some(true));
    }
}

// ---------------------------------------------------------------------------
// Streams that are made
// ---------------------------------------------------------------------------
/// Whether a session that joins at a time finds no cohort open.
pub open spec fn opens_a_cohort(s: BridgeState, now: u64) -> bool {
    s.sync_cohorts.len() == 0 || now >= s.sync_cohorts.last().window_deadline
}

/// The requests to look at a new cohort again: when its window closes and at its
/// deadline.
pub open spec fn wakes(s: BridgeState) -> Seq<BridgeAction> {
    seq![
        BridgeAction::WakeCohorts { after_ms: s.config.sync.multi_select_window_ms },
        BridgeAction::WakeCohorts { after_ms: s.config.sync.start_deadline_ms },
    ]
}

/// What a session that opens a cohort makes of a state.
pub open spec fn is_new_cohort(s: BridgeState, t: BridgeState, id: SessionId, now: u64) -> bool {
    let c = t.sync_cohorts.last();
    &&& t.sync_cohorts.len() == s.sync_cohorts.len() + 1
    &&& t.sync_cohorts.drop_last() =~= s.sync_cohorts
    &&& c.id == raised(s.next_cohort_id, 1)
    &&& c.opened_at == now
    &&& c.window_deadline == now + s.config.sync.multi_select_window_ms * 1_000_000
    &&& c.start_deadline == now + s.config.sync.start_deadline_ms * 1_000_000
    &&& c.sessions =~= seq![id]
    &&& c.prepared.dom() =~= Set::<SessionId>::empty()
    &&& t.next_cohort_id == raised(s.next_cohort_id, 1)
    &&& t.outbox =~= s.outbox + wakes(s)
}

/// A session that finds no open cohort opens one, as its first member. Its window
/// closes, and its deadline comes, the configured number of milliseconds later,
/// and it is looked at again at both times.
pub proof fn a_new_cohort_has_its_deadlines(s: BridgeState, id: SessionId, now: u64)
    requires
        opens_a_cohort(s, now),
    ensures
        is_new_cohort(s, s.joined(id, now), id, now),
{
    let t = s.joined(id, now);
    assert(t.sync_cohorts.drop_last() =~= s.sync_cohorts);
    assert(t.sync_cohorts.last().sessions =~= seq![id]);
}

/// What a session that joins an open cohort makes of a state.
pub open spec fn is_joined_cohort(s: BridgeState, t: BridgeState, id: SessionId, now: u64) -> bool {
    let c = s.sync_cohorts.last();
    let d = t.sync_cohorts.last();
    &&& t.sync_cohorts.len() == s.sync_cohorts.len()
    &&& t.sync_cohorts.drop_last() =~= s.sync_cohorts.drop_last()
    &&& d.sessions =~= if c.sessions.contains(id) {
        c.sessions
    } else {
        c.sessions + seq![id]
    }
    &&& d.id == c.id
    &&& d.opened_at == c.opened_at
    &&& d.window_deadline == c.window_deadline
    &&& d.start_deadline == c.start_deadline
    &&& d.prepared == c.prepared
    &&& t.next_cohort_id == s.next_cohort_id
    &&& t.outbox =~= s.outbox
}

/// A session that finds an open cohort joins it as its last member, once: the
/// deadlines of the cohort, its other members and all other cohorts stay, and
/// nothing is asked.
pub proof fn an_open_cohort_takes_a_member_more(s: BridgeState, id: SessionId, now: u64)
    requires
        !opens_a_cohort(s, now),
    ensures
        is_joined_cohort(s, s.joined(id, now), id, now),
{
    let t = s.joined(id, now);
    assert(t.sync_cohorts.drop_last() =~= s.sync_cohorts.drop_last());
    assert(t.sync_cohorts.last().sessions =~= if s.sync_cohorts.last().sessions.contains(id) {
        s.sync_cohorts.last().sessions
    } else {
        s.sync_cohorts.last().sessions + seq![id]
    });
}

/// What the first stream of a session makes of a state.
pub open spec fn is_first_stream(
    s: BridgeState,
    t: BridgeState,
    plan: DownstreamPlan,
    codec: StreamCodec,
    now: u64,
) -> bool {
    let id = plan.session_id;
    let known = s.session(id);
    &&& t.session(id) =~= (SessionState {
        encoder: true,
        zone: Some(plan.zone_id),
        format: Some(plan.format),
        desired: Some(true),
        playback_task: true,
        ..known
    })
    &&& t.outbox =~= s.outbox + seq![
        BridgeAction::HoldDelivery { session_id: id, generation: plan.generation },
    ] + if opens_a_cohort(s, now) {
        wakes(s)
    } else {
        Seq::empty()
    } + seq![
        BridgeAction::StartPrepare {
            start: SonosStreamPrepare {
                session_id: id,
                zone_id: plan.zone_id,
                generation: plan.generation,
                cohort_id: t.sync_cohorts.last().id,
                lifecycle: plan.lifecycle,
                zone: plan.zone,
                codec,
                force_standalone_on_start: s.config.sonos.force_standalone_on_start,
            },
        },
    ]
    &&& t.sync_cohorts.last().sessions.contains(id)
}

/// The first stream of a session makes it known: its zone, its format, that it
/// has an encoder and should play. The stream is held back first, then a cohort
/// is opened where none is open, and last the stream is prepared for the cohort,
/// leaving its group where the configuration asks for it.
pub proof fn first_streams_are_prepared(
    s: BridgeState,
    plan: DownstreamPlan,
    codec: StreamCodec,
    now: u64,
)
    ensures
        is_first_stream(s, s.session_started(plan, codec, now), plan, codec, now),
{
    let id = plan.session_id;
    let m = (BridgeState {
        encoders: s.encoders.insert(id),
        sessions: s.sessions.insert(id, plan.zone_id),
        session_formats: s.session_formats.insert(id, plan.format),
        desired_playback: s.desired_playback.insert(id, true),
        ..s
    }).asks(BridgeAction::HoldDelivery { session_id: id, generation: plan.generation });
    lemma_joining(m, id, now);
}

pub(crate) proof fn lemma_joining(s: BridgeState, id: SessionId, now: u64)
    ensures
        ({
            let t = s.joined(id, now);
            &&& t.session(id) == s.session(id)
            &&& t.playback_tasks == s.playback_tasks
            &&& t.sync_cohorts.len() > 0
            &&& t.sync_cohorts.last().sessions.contains(id)
            &&& t.outbox == s.outbox + if opens_a_cohort(s, now) {
                wakes(s)
            } else {
                Seq::empty()
            }
        }),
{
    let t = s.joined(id, now);
    if opens_a_cohort(s, now) {
        a_new_cohort_has_its_deadlines(s, id, now);
        assert(t.sync_cohorts.last().sessions[0] == id);
    } else {
        an_open_cohort_takes_a_member_more(s, id, now);
        let c = s.sync_cohorts.last().sessions;
        if !c.contains(id) {
            assert((c + seq![id])[c.len() as int] == id);
        }
    }
}

/// What a later stream of a session makes of a state.
pub open spec fn is_later_stream(
    s: BridgeState,
    t: BridgeState,
    plan: DownstreamPlan,
    codec: StreamCodec,
    now: u64,
) -> bool {
    let id = plan.session_id;
    &&& t.session(id) =~= (SessionState {
        encoder: true,
        playback_task: true,
        ..s.session(id)
    })
    &&& t.outbox =~= s.outbox + seq![
        BridgeAction::HoldDelivery { session_id: id, generation: plan.generation },
    ] + if opens_a_cohort(s, now) {
        wakes(s)
    } else {
        Seq::empty()
    } + seq![
        BridgeAction::StartPrepare {
            start: SonosStreamPrepare {
                session_id: id,
                zone_id: plan.zone_id,
                generation: plan.generation,
                cohort_id: t.sync_cohorts.last().id,
                lifecycle: plan.lifecycle,
                zone: plan.zone,
                codec,
                force_standalone_on_start: false,
            },
        },
    ]
    &&& t.sync_cohorts.last().sessions.contains(id)
}

/// A stream that was made anew is prepared like the first, but its room does not
/// leave its group a second time.
pub proof fn later_streams_leave_the_group_alone(
    s: BridgeState,
    plan: DownstreamPlan,
    codec: StreamCodec,
    now: u64,
)
    ensures
        is_later_stream(s, s.restarted(plan, codec, now), plan, codec, now),
{
    let id = plan.session_id;
    let m = (BridgeState { encoders: s.encoders.insert(id), ..s }).asks(
        BridgeAction::HoldDelivery { session_id: id, generation: plan.generation },
    );
    lemma_joining(m, id, now);
}

/// The plan for a session's stream names the player of its zone and the session's
/// current attempt.
pub proof fn plans_are_of_the_current_attempt(
    s: BridgeState,
    plan: DownstreamPlan,
    prepared: PreparedDownstream,
)
    requires
        s.session(plan.session_id).lifecycle is Some,
        s.session(plan.session_id).generation is Some,
        plan == s.plan(plan.session_id, plan.zone_id, plan.format),
        prepared.session_id == plan.session_id,
        prepared.generation == plan.generation,
        prepared.lifecycle == plan.lifecycle,
    ensures
        plan.zone == s.zones[plan.zone_id@],
        s.session(plan.session_id).generation == Some(plan.generation),
        s.session(plan.session_id).desired == Some(true) && !s.session(
            plan.session_id,
        ).lifecycle->0.cancelled ==> s.is_current(prepared),
        s.session(plan.session_id).desired != Some(true) || s.session(
            plan.session_id,
        ).lifecycle->0.cancelled ==> !s.is_current(prepared),
{
}

/// Being told to play makes a stream anew after a pause or where it has to be,
/// and only there: a session that plays already, or was never told anything, is
/// left to play on.
pub proof fn play_restarts_after_a_pause(
    previous_playing: Option<bool>,
    reset_needed: bool,
    r: bool,
)
    requires
        call_ensures(
            bridge::should_restart_downstream_for_play,
            (previous_playing, reset_needed),
            r,
        ),
    ensures
        previous_playing == Some(false) ==> r,
        reset_needed ==> r,
        !reset_needed && previous_playing != Some(false) ==> !r,
{
}

// ---------------------------------------------------------------------------
// What no session changes
// ---------------------------------------------------------------------------
/// Whether the configuration, the players and what was measured of them are as
/// they were.
#[verifier::opaque]
pub open spec fn keeps_the_players(s: BridgeState, t: BridgeState) -> bool {
    &&& t.config == s.config
    &&& t.zones == s.zones
    &&& t.volumes == s.volumes
    &&& t.samples == s.samples
    &&& t.sample_limit == s.sample_limit
    &&& t.samples_needed == s.samples_needed
}

proof fn lemma_keeps_twice(s: BridgeState, m: BridgeState, t: BridgeState)
    requires
        keeps_the_players(s, m),
        keeps_the_players(m, t),
    ensures
        keeps_the_players(s, t),
{
    reveal(keeps_the_players);
}

proof fn lemma_small_steps_keep(s: BridgeState, id: SessionId, zone_id: ZoneId, generation: u64)
    ensures
        keeps_the_players(s, s),
        keeps_the_players(s, s.cleanup_cancelled(id)),
        keeps_the_players(s, s.cleanup_scheduled(id)),
        keeps_the_players(s, s.retry_cancelled(id)),
        keeps_the_players(s, s.retry_scheduled(id, zone_id, generation)),
        keeps_the_players(s, s.playback_aborted(id)),
        keeps_the_players(s, s.lifecycle_cancelled(id)),
        keeps_the_players(s, s.left_cohorts(id)),
        keeps_the_players(s, s.generation_bumped(id)),
        keeps_the_players(s, s.reset_marked(id)),
        keeps_the_players(s, s.stream_removed(id)),
        keeps_the_players(s, s.invalidated(id)),
        keeps_the_players(s, s.next_attempt(id)),
        keeps_the_players(s, s.told(id, true)),
        keeps_the_players(s, s.told(id, false)),
{
    reveal(keeps_the_players);
}

proof fn lemma_clearing_keeps(s: BridgeState, id: SessionId)
    ensures
        keeps_the_players(s, s.cleared(id)),
{
    reveal(keeps_the_players);
}

proof fn lemma_remaking_keeps(s: BridgeState, id: SessionId, zone_id: ZoneId)
    ensures
        keeps_the_players(s, s.restarting(id, zone_id)),
{
    reveal(keeps_the_players);
}

/// What a session is told, and that it begins or ends, changes neither the
/// configuration nor the players nor what was measured of them.
pub proof fn sessions_keep_the_players(
    s: BridgeState,
    id: SessionId,
    zone_id: ZoneId,
    playing: bool,
    fallback: Option<ZoneId>,
    retry: DownstreamRetry,
)
    ensures
        keeps_the_players(s, s.playback_set(id, zone_id, playing)),
        keeps_the_players(s, s.stopped(id, fallback)),
        keeps_the_players(s, s.begun(id, zone_id)),
        keeps_the_players(s, s.flushed(id)),
        keeps_the_players(s, s.ended_while_paused(id)),
        keeps_the_players(s, s.restarting(id, zone_id)),
        keeps_the_players(s, s.retry_due(retry)),
{
    lemma_remaking_keeps(s, id, zone_id);
    lemma_telling_keeps(s, id, zone_id, playing);
    lemma_ending_keeps(s, id, zone_id, fallback);
    lemma_beginning_keeps(s, id, zone_id);
    lemma_retrying_keeps(s, retry);
    lemma_audio_keeps(s, id);
}

proof fn lemma_audio_keeps(s: BridgeState, id: SessionId)
    ensures
        keeps_the_players(s, s.flushed(id)),
        keeps_the_players(s, s.ended_while_paused(id)),
{
    reveal(keeps_the_players);
}

proof fn lemma_telling_keeps(s: BridgeState, id: SessionId, zone_id: ZoneId, playing: bool)
    ensures
        keeps_the_players(s, s.playback_set(id, zone_id, playing)),
{
    let told = s.told(id, playing);
    lemma_small_steps_keep(s, id, zone_id, 0);
    lemma_small_steps_keep(told, id, zone_id, 0);
    if playing {
        let awake = told.cleanup_cancelled(id);
        lemma_keeps_twice(s, told, awake);
        lemma_remaking_keeps(awake, id, zone_id);
        lemma_keeps_twice(s, awake, awake.restarting(id, zone_id));
    } else {
        assert(keeps_the_players(told, told.pausing(id, zone_id))) by {
            reveal(keeps_the_players);
        }
        lemma_keeps_twice(s, told, told.pausing(id, zone_id));
    }
}

proof fn lemma_ending_keeps(
    s: BridgeState,
    id: SessionId,
    zone_id: ZoneId,
    fallback: Option<ZoneId>,
)
    ensures
        keeps_the_players(s, s.stopped(id, fallback)),
{
    let a = BridgeState { sessions: s.sessions.remove(id), ..s };
    let b = a.cleared(id);
    let c = b.stream_removed(id);
    lemma_clearing_keeps(a, id);
    assert(keeps_the_players(s, a)) by {
        reveal(keeps_the_players);
    }
    lemma_keeps_twice(s, a, b);
    lemma_small_steps_keep(b, id, zone_id, 0);
    lemma_keeps_twice(s, b, c);
    assert(keeps_the_players(c, s.stopped(id, fallback))) by {
        reveal(keeps_the_players);
    }
    lemma_keeps_twice(s, c, s.stopped(id, fallback));
}

proof fn lemma_beginning_keeps(s: BridgeState, id: SessionId, zone_id: ZoneId)
    ensures
        keeps_the_players(s, s.begun(id, zone_id)),
{
    let a = s.cleanup_cancelled(id);
    lemma_small_steps_keep(s, id, zone_id, 0);
    if a.zones.dom().contains(zone_id@) {
        let b = a.cleared(id);
        lemma_clearing_keeps(a, id);
        lemma_keeps_twice(s, a, b);
        lemma_small_steps_keep(b, id, zone_id, 0);
        lemma_keeps_twice(s, b, b.next_attempt(id));
    }
}

proof fn lemma_retrying_keeps(s: BridgeState, retry: DownstreamRetry)
    ensures
        keeps_the_players(s, s.retry_due(retry)),
{
    let f = BridgeState {
        downstream_retry_tasks: s.downstream_retry_tasks.remove(retry.session_id),
        ..s
    };
    assert(keeps_the_players(s, f)) by {
        reveal(keeps_the_players);
    }
    lemma_remaking_keeps(f, retry.session_id, retry.zone_id);
    lemma_keeps_twice(s, f, f.restarting(retry.session_id, retry.zone_id));
}

/// A stream that was made, and a session that joins a cohort, change neither the
/// configuration nor the players nor what was measured of them.
pub proof fn made_streams_keep_the_players(
    s: BridgeState,
    plan: DownstreamPlan,
    codec: StreamCodec,
    id: SessionId,
    now: u64,
)
    ensures
        keeps_the_players(s, s.session_started(plan, codec, now)),
        keeps_the_players(s, s.restarted(plan, codec, now)),
        keeps_the_players(s, s.joined(id, now)),
{
    reveal(keeps_the_players);
}

/// The end of an attempt changes neither the configuration nor the players.
pub proof fn ends_keep_the_players(s: BridgeState, result: DownstreamStartResult)
    ensures
        ({
            let t = s.start_ended(result);
            &&& t.config == s.config
            &&& t.zones == s.zones
            &&& t.volumes == s.volumes
            &&& t.sample_limit == s.sample_limit
            &&& t.samples_needed == s.samples_needed
        }),
{
}

} // verus!
