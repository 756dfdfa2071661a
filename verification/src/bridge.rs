//! The bridge between AirPlay sessions and Sonos players.
//!
//! A [`BridgeRuntime`] decides; it does nothing itself. Each step leaves what
//! is to be done in its outbox, from where the caller takes it.

use vstd::prelude::*;

use crate::airplay::AirPlayEvent;
use crate::bridge_state;
use crate::bridge_state::{
    BridgeAction, DownstreamLifecycle, DownstreamPlan, DownstreamRetry, DownstreamStartOutcome,
    DownstreamStartResult, PreparedDownstream, SonosStreamPrepare, ANCHOR_LEAD_MS,
    DOWNSTREAM_RETRY_BASE_MS, DOWNSTREAM_RETRY_MAX_MS, PAUSED_SESSION_GRACE_SECS,
};
use crate::config::Config;
use crate::ids::{SessionId, ZoneId};
use crate::session_map;
use crate::session_map::{SessionMap, SessionSet};
use crate::sync;
use crate::sync::{combine_sync_delay, StartupDelayEstimator, ZoneStartupTiming};
use crate::text::same_text;
use crate::text_map::TextMap;
use crate::types::{PcmFormat, SonosZone, StreamCodec};

verus! {

/// A group of sessions that start together. Times are nanoseconds on the
/// service's clock.
#[derive(Debug)]
pub struct SyncCohort {
    pub id: u64,
    pub opened_at: u64,
    pub window_deadline: u128,
    pub start_deadline: u128,
    pub sessions: Vec<SessionId>,
    pub prepared: SessionMap<PreparedDownstream>,
}

impl View for SyncCohort {
    type V = bridge_state::CohortState;

    open spec fn view(&self) -> bridge_state::CohortState {
        bridge_state::CohortState {
            id: self.id,
            opened_at: self.opened_at,
            window_deadline: self.window_deadline,
            start_deadline: self.start_deadline,
            sessions: self.sessions@,
            prepared: self.prepared@,
        }
    }
}

/// The cohorts as they are.
pub open spec fn cohort_states(cohorts: Seq<SyncCohort>) -> Seq<bridge_state::CohortState> {
    cohorts.map_values(|c: SyncCohort| c@)
}

/// Whether a session is among others.
fn contains_session(sessions: &Vec<SessionId>, id: SessionId) -> (r: bool)
    ensures
        r == sessions@.contains(id),
{
    let mut i: usize = 0;
    while i < sessions.len()
        invariant
            i <= sessions@.len(),
            forall|j: int| 0 <= j < i ==> sessions@[j] != id,
        decreases sessions@.len() - i,
    {
        if sessions[i] == id {
            return true;
        }
        i = i + 1;
    }
    false
}

/// The sessions but one.
fn sessions_without(sessions: &Vec<SessionId>, id: SessionId) -> (r: Vec<SessionId>)
    ensures
        r@ == sessions@.filter(bridge_state::other_than(id)),
        r@.len() == sessions@.len() <==> !sessions@.contains(id),
{
    let ghost others = bridge_state::other_than(id);
    let mut r: Vec<SessionId> = Vec::new();
    let mut i: usize = 0;
    assert(sessions@.take(0).filter(others) =~= Seq::empty()) by {
        reveal(Seq::filter);
    }
    while i < sessions.len()
        invariant
            i <= sessions@.len(),
            others == bridge_state::other_than(id),
            r@ == sessions@.take(i as int).filter(others),
            r@.len() <= i,
            r@.len() == i <==> (forall|j: int| 0 <= j < i ==> sessions@[j] != id),
        decreases sessions@.len() - i,
    {
        proof {
            let next = sessions@.take(i + 1);
            assert(next.drop_last() =~= sessions@.take(i as int));
            assert(next.last() == sessions@[i as int]);
            reveal(Seq::filter);
        }
        if sessions[i] != id {
            r.push(sessions[i]);
        }
        i = i + 1;
    }
    assert(sessions@.take(sessions@.len() as int) =~= sessions@);
    r
}

/// Whether a cohort starts: once sessions can no longer join and either all of
/// its sessions are prepared or its deadline has passed.
pub fn sync_cohort_should_start(cohort: &SyncCohort, now: u64) -> (r: bool)
    ensures
        r == cohort@.should_start(now),
{
    let window_closed: bool = now as u128 >= cohort.window_deadline;
    let deadline_expired: bool = now as u128 >= cohort.start_deadline;
    let all_prepared: bool = cohort.sessions.len() > 0 && cohort.sessions.len()
        == cohort.prepared.len();
    window_closed && (all_prepared || deadline_expired)
}

/// Whether telling a session to play makes its stream anew: where it was paused
/// before, or its stream has to be reset.
pub fn should_restart_downstream_for_play(previous_playing: Option<bool>, reset_needed: bool) -> (r:
    bool)
    ensures
        r == (previous_playing == Some(false) || reset_needed),
{
    match previous_playing {
        Some(playing) => !playing || reset_needed,
        None => reset_needed,
    }
}

/// How long a retry waits, in milliseconds.
pub fn downstream_retry_delay(attempt: u32) -> (r: u64)
    ensures
        r == bridge_state::retry_delay(attempt),
    decreases attempt,
{
    if attempt == 0 {
        DOWNSTREAM_RETRY_BASE_MS
    } else if attempt > 8 {
        proof {
            lemma_retry_delay_saturates(attempt);
        }
        DOWNSTREAM_RETRY_MAX_MS
    } else {
        let before: u64 = downstream_retry_delay(attempt - 1);
        proof {
            lemma_retry_delay_bounds((attempt - 1) as u32);
        }
        if 2 * before < DOWNSTREAM_RETRY_MAX_MS {
            2 * before
        } else {
            DOWNSTREAM_RETRY_MAX_MS
        }
    }
}

proof fn lemma_retry_delay_bounds(attempt: u32)
    ensures
        DOWNSTREAM_RETRY_BASE_MS <= bridge_state::retry_delay(attempt) <= DOWNSTREAM_RETRY_MAX_MS,
    decreases attempt,
{
    if attempt > 0 {
        lemma_retry_delay_bounds((attempt - 1) as u32);
    }
}

proof fn lemma_retry_delay_saturates(attempt: u32)
    requires
        attempt >= 4,
    ensures
        bridge_state::retry_delay(attempt) == DOWNSTREAM_RETRY_MAX_MS,
    decreases attempt,
{
    if attempt == 4 {
        assert(bridge_state::retry_delay(0) == 500);
        assert(bridge_state::retry_delay(1) == 1000);
        assert(bridge_state::retry_delay(2) == 2000);
        assert(bridge_state::retry_delay(3) == 4000);
    } else {
        lemma_retry_delay_saturates((attempt - 1) as u32);
    }
}

/// Why a session cannot begin.
#[derive(Debug, PartialEq, Eq)]
pub enum BridgeError {
    /// The zone has no player.
    NoSonosClient { zone_id: ZoneId },
}

/// What is left to do of an event.
#[derive(Debug)]
pub enum EventOutcome {
    /// Nothing but what stands in the outbox.
    Done,
    /// A session is to be started.
    StartSession { session_id: SessionId, zone_id: ZoneId, format: PcmFormat },
    /// The stream of a session is to be made anew.
    Restart { plan: DownstreamPlan },
}

/// The bridge.
#[derive(Debug)]
pub struct BridgeRuntime {
    pub config: Config,
    pub sonos: TextMap<SonosZone>,
    pub volume_states: TextMap<()>,
    pub encoders: SessionSet,
    pub sessions: SessionMap<ZoneId>,
    pub session_formats: SessionMap<PcmFormat>,
    pub downstream_generations: SessionMap<u64>,
    pub downstream_lifecycles: SessionMap<DownstreamLifecycle>,
    pub downstream_reset_needed: SessionSet,
    pub desired_playback: SessionMap<bool>,
    pub playback_state: SessionMap<bool>,
    pub playback_tasks: SessionSet,
    pub paused_cleanup_tasks: SessionSet,
    pub downstream_retry_tasks: SessionSet,
    pub downstream_retry_attempts: SessionMap<u32>,
    pub sync_cohorts: Vec<SyncCohort>,
    pub next_cohort_id: u64,
    pub next_lifecycle_id: u64,
    pub startup_estimator: StartupDelayEstimator,
    pub outbox: Vec<BridgeAction>,
}

impl View for BridgeRuntime {
    type V = bridge_state::BridgeState;

    open spec fn view(&self) -> bridge_state::BridgeState {
        bridge_state::BridgeState {
            config: self.config,
            zones: self.sonos@,
            volumes: self.volume_states@.dom(),
            encoders: self.encoders@,
            sessions: self.sessions@,
            session_formats: self.session_formats@,
            downstream_generations: self.downstream_generations@,
            downstream_lifecycles: self.downstream_lifecycles@,
            downstream_reset_needed: self.downstream_reset_needed@,
            desired_playback: self.desired_playback@,
            playback_state: self.playback_state@,
            playback_tasks: self.playback_tasks@,
            paused_cleanup_tasks: self.paused_cleanup_tasks@,
            downstream_retry_tasks: self.downstream_retry_tasks@,
            downstream_retry_attempts: self.downstream_retry_attempts@,
            sync_cohorts: cohort_states(self.sync_cohorts@),
            next_cohort_id: self.next_cohort_id,
            next_lifecycle_id: self.next_lifecycle_id,
            samples: self.startup_estimator@,
            sample_limit: self.startup_estimator.limit(),
            samples_needed: self.startup_estimator.needed(),
            outbox: self.outbox@,
        }
    }
}

impl BridgeRuntime {
    /// A bridge without sessions.
    pub fn new(config: Config, sonos: TextMap<SonosZone>, volume_states: TextMap<()>) -> (r: Self)
        ensures
            r@ == bridge_state::BridgeState::initial(config, sonos@, volume_states@.dom()),
    {
        let startup_estimator = StartupDelayEstimator::new(
            config.sync.startup_sample_limit,
            config.sync.startup_min_samples,
        );
        let r = BridgeRuntime {
            config,
            sonos,
            volume_states,
            encoders: SessionSet::new(),
            sessions: SessionMap::new(),
            session_formats: SessionMap::new(),
            downstream_generations: SessionMap::new(),
            downstream_lifecycles: SessionMap::new(),
            downstream_reset_needed: SessionSet::new(),
            desired_playback: SessionMap::new(),
            playback_state: SessionMap::new(),
            playback_tasks: SessionSet::new(),
            paused_cleanup_tasks: SessionSet::new(),
            downstream_retry_tasks: SessionSet::new(),
            downstream_retry_attempts: SessionMap::new(),
            sync_cohorts: Vec::new(),
            next_cohort_id: 0,
            next_lifecycle_id: 0,
            startup_estimator,
            outbox: Vec::new(),
        };
        assert(r@ =~= bridge_state::BridgeState::initial(config, sonos@, volume_states@.dom()));
        r
    }

    /// Takes up what the bridge asks for.
    pub fn take_actions(&mut self) -> (r: Vec<BridgeAction>)
        ensures
            r@ == old(self)@.outbox,
            final(self)@ == (bridge_state::BridgeState { outbox: Seq::empty(), ..old(self)@ }),
    {
        let mut r: Vec<BridgeAction> = Vec::new();
        std::mem::swap(&mut r, &mut self.outbox);
        assert(self@ =~= (bridge_state::BridgeState { outbox: Seq::empty(), ..old(self)@ }));
        r
    }

    /// Ends the grace period of a paused session.
    pub fn cancel_paused_cleanup(&mut self, session_id: SessionId)
        ensures
            final(self)@ == old(self)@.cleanup_cancelled(session_id),
    {
        if self.paused_cleanup_tasks.remove(session_id) {
            self.outbox.push(BridgeAction::AbortPausedCleanup { session_id });
        }
        assert(self@ =~= old(self)@.cleanup_cancelled(session_id));
    }

    /// Starts the grace period of a paused session.
    pub fn schedule_paused_cleanup(&mut self, session_id: SessionId)
        ensures
            final(self)@ == old(self)@.cleanup_scheduled(session_id),
    {
        self.cancel_paused_cleanup(session_id);
        self.paused_cleanup_tasks.insert(session_id);
        self.outbox.push(
            BridgeAction::SchedulePausedCleanup {
                session_id,
                after_secs: PAUSED_SESSION_GRACE_SECS,
            },
        );
        assert(self@ =~= old(self)@.cleanup_scheduled(session_id));
    }

    /// Forgets the retry of a session.
    pub fn cancel_downstream_retry(&mut self, session_id: SessionId)
        ensures
            final(self)@ == old(self)@.retry_cancelled(session_id),
    {
        if self.downstream_retry_tasks.remove(session_id) {
            self.outbox.push(BridgeAction::AbortRetry { session_id });
        }
        assert(self@ =~= old(self)@.retry_cancelled(session_id));
    }

    /// Counts one more retry of a session and says how many there were.
    pub fn downstream_retry_attempt(&mut self, session_id: SessionId) -> (r: u32)
        ensures
            r == old(self)@.attempts(session_id),
            final(self)@ == old(self)@.attempt_counted(session_id),
    {
        let current: u32 = match self.downstream_retry_attempts.get(session_id) {
            Some(n) => *n,
            None => 0,
        };
        let next: u32 = if current < u32::MAX {
            current + 1
        } else {
            current
        };
        self.downstream_retry_attempts.insert(session_id, next);
        assert(self@ =~= old(self)@.attempt_counted(session_id));
        current
    }

    /// Has a session retried after a delay.
    pub fn schedule_downstream_retry(
        &mut self,
        session_id: SessionId,
        zone_id: ZoneId,
        generation: u64,
    )
        ensures
            final(self)@ == old(self)@.retry_scheduled(session_id, zone_id, generation),
    {
        self.cancel_downstream_retry(session_id);
        let attempt: u32 = self.downstream_retry_attempt(session_id);
        let after_ms: u64 = downstream_retry_delay(attempt);
        self.outbox.push(BridgeAction::ScheduleRetry { session_id, zone_id, generation, after_ms });
        self.downstream_retry_tasks.insert(session_id);
        assert(self@ =~= old(self)@.retry_scheduled(session_id, zone_id, generation));
    }

    fn abort_playback(&mut self, session_id: SessionId)
        ensures
            final(self)@ == old(self)@.playback_aborted(session_id),
    {
        if self.playback_tasks.remove(session_id) {
            self.outbox.push(BridgeAction::AbortPlayback { session_id });
        }
        assert(self@ =~= old(self)@.playback_aborted(session_id));
    }

    /// Cancels the current attempt to start a session.
    pub fn cancel_downstream_lifecycle(&mut self, session_id: SessionId)
        ensures
            final(self)@ == old(self)@.lifecycle_cancelled(session_id),
    {
        let current: Option<DownstreamLifecycle> = match self.downstream_lifecycles.get(
            session_id,
        ) {
            Some(lifecycle) => Some(*lifecycle),
            None => None,
        };
        if let Some(lifecycle) = current {
            self.downstream_lifecycles.insert(
                session_id,
                DownstreamLifecycle { id: lifecycle.id, cancelled: true },
            );
            self.outbox.push(BridgeAction::CancelLifecycle { lifecycle: lifecycle.id });
        }
        assert(self@ =~= old(self)@.lifecycle_cancelled(session_id));
    }

    /// Takes a session out of its cohort. A cohort without sessions is gone.
    pub fn remove_session_from_sync_cohort(&mut self, session_id: SessionId)
        ensures
            final(self)@ == old(self)@.left_cohorts(session_id),
    {
        let ghost before = cohort_states(self.sync_cohorts@);
        let ghost strip = |c: bridge_state::CohortState| c.without(session_id);
        let ghost kept_on = |c: bridge_state::CohortState| c.sessions.len() > 0;
        let mut rest: Vec<SyncCohort> = Vec::new();
        std::mem::swap(&mut rest, &mut self.sync_cohorts);
        let mut kept: Vec<SyncCohort> = Vec::new();
        let mut removed: bool = false;
        let ghost mut i: int = 0;
        proof {
            assert(before.skip(0) =~= before);
            assert(before.take(0).map_values(strip).filter(kept_on) =~= Seq::empty()) by {
                reveal(Seq::filter);
            }
        }
        while rest.len() > 0
            invariant
                0 <= i <= before.len(),
                strip == (|c: bridge_state::CohortState| c.without(session_id)),
                kept_on == (|c: bridge_state::CohortState| c.sessions.len() > 0),
                cohort_states(rest@) == before.skip(i),
                cohort_states(kept@) == before.take(i).map_values(strip).filter(kept_on),
                removed == bridge_state::in_cohorts(before.take(i), session_id),
            decreases rest@.len(),
        {
            let ghost rest_before = rest@;
            let ghost kept_before = kept@;
            let mut cohort = rest.remove(0);
            let ghost c = cohort@;
            proof {
                assert(cohort_states(rest_before)[0] == c);
                assert(before.skip(i).len() == rest_before.len());
                assert(before.skip(i)[0] == before[i]);
                assert(cohort_states(rest@) =~= cohort_states(rest_before).skip(1));
                assert(before.skip(i).skip(1) =~= before.skip(i + 1));
            }
            let others = sessions_without(&cohort.sessions, session_id);
            let left: bool = others.len() != cohort.sessions.len();
            let _gone = cohort.prepared.remove(session_id);
            cohort.sessions = others;
            proof {
                assert(cohort.sessions@ == c.without(session_id).sessions);
                assert(cohort.prepared@ == c.without(session_id).prepared);
                assert(cohort@ == c.without(session_id));
                let now = before.take(i);
                let next = before.take(i + 1);
                assert(next =~= now.push(c));
                assert(next.map_values(strip) =~= now.map_values(strip).push(cohort@));
                assert(next.map_values(strip).drop_last() =~= now.map_values(strip));
                reveal(Seq::filter);
                assert(removed || left <==> bridge_state::in_cohorts(next, session_id)) by {
                    if bridge_state::in_cohorts(now, session_id) {
                        let k = choose|k: int|
                            0 <= k < now.len() && (#[trigger] now[k]).sessions.contains(session_id);
                        assert(next[k].sessions.contains(session_id));
                    }
                    if bridge_state::in_cohorts(next, session_id) {
                        let k = choose|k: int|
                            0 <= k < next.len() && (#[trigger] next[k]).sessions.contains(
                                session_id,
                            );
                        if k < i {
                            assert(now[k].sessions.contains(session_id));
                        }
                    }
                    if left {
                        assert(next[i].sessions.contains(session_id));
                    }
                }
            }
            removed = removed || left;
            if cohort.sessions.len() > 0 {
                kept.push(cohort);
                assert(cohort_states(kept@) =~= cohort_states(kept_before).push(
                    c.without(session_id),
                ));
            }
            proof {
                i = i + 1;
            }
        }
        proof {
            assert(i == before.len()) by {
                assert(cohort_states(rest@).len() == before.skip(i).len());
            }
            assert(before.take(i) =~= before);
        }
        self.sync_cohorts = kept;
        if removed {
            self.outbox.push(BridgeAction::WakeCohorts { after_ms: 0 });
        }
        assert(self@ =~= old(self)@.left_cohorts(session_id));
    }

    fn bump_generation(&mut self, session_id: SessionId) -> (r: u64)
        ensures
            final(self)@ == old(self)@.generation_bumped(session_id),
            r == final(self)@.generation(session_id),
    {
        let current: u64 = match self.downstream_generations.get(session_id) {
            Some(n) => *n,
            None => 0,
        };
        let next: u64 = if current < u64::MAX {
            current + 1
        } else {
            current
        };
        self.downstream_generations.insert(session_id, next);
        assert(self@ =~= old(self)@.generation_bumped(session_id));
        next
    }

    /// Voids whatever was prepared for a session.
    pub fn invalidate_prepared_downstream(&mut self, session_id: SessionId)
        ensures
            final(self)@ == old(self)@.invalidated(session_id),
    {
        self.cancel_downstream_lifecycle(session_id);
        self.remove_session_from_sync_cohort(session_id);
        if self.downstream_generations.get(session_id).is_some() {
            let _generation: u64 = self.bump_generation(session_id);
        }
    }

    /// Begins a new attempt to start a session: its number and its lifecycle.
    pub fn next_downstream_generation(&mut self, session_id: SessionId) -> (r: (u64, u64))
        ensures
            final(self)@ == old(self)@.next_attempt(session_id),
            r.0 == final(self)@.generation(session_id),
            r.1 == old(self)@.next_lifecycle_id,
            r.1 == final(self)@.downstream_lifecycles[session_id].id,
    {
        self.cancel_downstream_lifecycle(session_id);
        self.remove_session_from_sync_cohort(session_id);
        let generation: u64 = self.bump_generation(session_id);
        let lifecycle: u64 = self.next_lifecycle_id;
        self.next_lifecycle_id = lifecycle.wrapping_add(1);
        self.downstream_lifecycles.insert(
            session_id,
            DownstreamLifecycle { id: lifecycle, cancelled: false },
        );
        assert(self@ =~= old(self)@.next_attempt(session_id));
        (generation, lifecycle)
    }

    /// Forgets all that is known of a session, but for the number of its
    /// attempt, its zone and its encoder.
    pub fn clear_session_runtime_state(&mut self, session_id: SessionId)
        ensures
            final(self)@ == old(self)@.cleared(session_id),
    {
        let _playing = self.playback_state.remove(session_id);
        let _format = self.session_formats.remove(session_id);
        let ghost s0 = self@;
        assert(s0 =~= (bridge_state::BridgeState {
            playback_state: old(self)@.playback_state.remove(session_id),
            session_formats: old(self)@.session_formats.remove(session_id),
            ..old(self)@
        }));
        self.invalidate_prepared_downstream(session_id);
        let ghost s = self@;
        let _lifecycle = self.downstream_lifecycles.remove(session_id);
        let _reset = self.downstream_reset_needed.remove(session_id);
        let _desired = self.desired_playback.remove(session_id);
        let _attempts = self.downstream_retry_attempts.remove(session_id);
        assert(self@ =~= (bridge_state::BridgeState {
            downstream_lifecycles: s.downstream_lifecycles.remove(session_id),
            downstream_reset_needed: s.downstream_reset_needed.remove(session_id),
            desired_playback: s.desired_playback.remove(session_id),
            downstream_retry_attempts: s.downstream_retry_attempts.remove(session_id),
            ..s
        }));
        self.cancel_paused_cleanup(session_id);
        self.cancel_downstream_retry(session_id);
        self.abort_playback(session_id);
    }

    fn record_timing(&mut self, zone_id: &ZoneId, timing: &ZoneStartupTiming)
        ensures
            final(self)@ == old(self)@.measured(zone_id@, *timing),
    {
        self.startup_estimator.record(zone_id, timing);
        assert(self@ =~= old(self)@.measured(zone_id@, *timing));
    }

    fn mark_reset(&mut self, session_id: SessionId)
        ensures
            final(self)@ == old(self)@.reset_marked(session_id),
    {
        self.downstream_reset_needed.insert(session_id);
        assert(self@ =~= old(self)@.reset_marked(session_id));
    }

    fn is_wanted(&self, session_id: SessionId) -> (r: bool)
        ensures
            r == (bridge_state::lookup(self@.desired_playback, session_id) == Some(true)),
    {
        match self.desired_playback.get(session_id) {
            Some(wanted) => *wanted,
            None => false,
        }
    }

    fn has_generation(&self, session_id: SessionId, generation: u64) -> (r: bool)
        ensures
            r == (bridge_state::lookup(self@.downstream_generations, session_id) == Some(
                generation,
            )),
    {
        match self.downstream_generations.get(session_id) {
            Some(current) => *current == generation,
            None => false,
        }
    }

    /// An attempt to start ended.
    pub fn handle_downstream_start_result(&mut self, result: DownstreamStartResult)
        ensures
            final(self)@ == old(self)@.start_ended(result),
    {
        let session_id = result.session_id;
        if !self.has_generation(session_id, result.generation) {
            return;
        }
        if let Some(timing) = &result.timing {
            self.record_timing(&result.zone_id, timing);
        }
        match result.outcome {
            DownstreamStartOutcome::Started => {
                if self.is_wanted(session_id) {
                    let ghost s = self@;
                    let _reset = self.downstream_reset_needed.remove(session_id);
                    let _attempts = self.downstream_retry_attempts.remove(session_id);
                    assert(self@ =~= (bridge_state::BridgeState {
                        downstream_reset_needed: s.downstream_reset_needed.remove(session_id),
                        downstream_retry_attempts: s.downstream_retry_attempts.remove(session_id),
                        ..s
                    }));
                    self.cancel_downstream_retry(session_id);
                }
            },
            DownstreamStartOutcome::Failed => {
                self.mark_reset(session_id);
                if self.is_wanted(session_id) {
                    self.schedule_downstream_retry(session_id, result.zone_id, result.generation);
                }
            },
            DownstreamStartOutcome::Cancelled => {},
        }
    }

    /// Whether a prepared stream is that of the current attempt of a session
    /// that should play.
    pub fn prepared_downstream_is_current(&self, prepared: &PreparedDownstream) -> (r: bool)
        ensures
            r == self@.is_current(*prepared),
    {
        let current: bool = match self.downstream_lifecycles.get(prepared.session_id) {
            Some(lifecycle) => lifecycle.id == prepared.lifecycle && !lifecycle.cancelled,
            None => false,
        };
        self.has_generation(prepared.session_id, prepared.generation) && self.is_wanted(
            prepared.session_id,
        ) && current
    }

    /// Has a session join the open cohort, which is opened where there is none:
    /// the identifier of the cohort.
    pub fn add_session_to_sync_cohort(&mut self, session_id: SessionId, now: u64) -> (r: u64)
        ensures
            final(self)@ == old(self)@.joined(session_id, now),
            final(self)@.sync_cohorts.len() > 0,
            r == final(self)@.sync_cohorts.last().id,
    {
        let window_ms: u64 = self.config.sync.multi_select_window_ms;
        let deadline_ms: u64 = self.config.sync.start_deadline_ms;
        let n: usize = self.sync_cohorts.len();
        let should_open: bool = n == 0 || now as u128 >= self.sync_cohorts[n - 1].window_deadline;
        if should_open {
            let id: u64 = if self.next_cohort_id < u64::MAX {
                self.next_cohort_id + 1
            } else {
                self.next_cohort_id
            };
            self.next_cohort_id = id;
            let cohort = SyncCohort {
                id,
                opened_at: now,
                window_deadline: later_by(now, window_ms),
                start_deadline: later_by(now, deadline_ms),
                sessions: Vec::new(),
                prepared: SessionMap::new(),
            };
            let ghost c = cohort@;
            let ghost cs = self.sync_cohorts@;
            self.sync_cohorts.push(cohort);
            assert(cohort_states(self.sync_cohorts@) =~= cohort_states(cs).push(c));
            assert(c.sessions =~= Seq::empty());
            self.outbox.push(BridgeAction::WakeCohorts { after_ms: window_ms });
            self.outbox.push(BridgeAction::WakeCohorts { after_ms: deadline_ms });
        }
        let ghost s = self@;
        assert(s =~= old(self)@.cohort_opened(now));
        let last: usize = self.sync_cohorts.len() - 1;
        let known: bool = contains_session(&self.sync_cohorts[last].sessions, session_id);
        if !known {
            let ghost c = self.sync_cohorts@[last as int]@;
            let ghost cs = self.sync_cohorts@;
            let cohort = &mut self.sync_cohorts[last];
            cohort.sessions.push(session_id);
            proof {
                let joined = bridge_state::CohortState {
                    sessions: c.sessions.push(session_id),
                    ..c
                };
                assert(self.sync_cohorts@[last as int]@ == joined);
                assert(cohort_states(self.sync_cohorts@) =~= cohort_states(cs).update(
                    last as int,
                    joined,
                ));
            }
        }
        assert(self@ =~= old(self)@.joined(session_id, now));
        self.sync_cohorts[last].id
    }

    /// Tries a session anew that was not prepared when its cohort started.
    pub fn retry_unprepared_downstream(&mut self, session_id: SessionId)
        ensures
            final(self)@ == old(self)@.retried(session_id),
    {
        self.cancel_downstream_lifecycle(session_id);
        self.abort_playback(session_id);
        let generation: u64 = self.bump_generation(session_id);
        self.mark_reset(session_id);
        if self.is_wanted(session_id) {
            let zone: Option<ZoneId> = match self.sessions.get(session_id) {
                Some(zone_id) => Some(zone_id.clone()),
                None => None,
            };
            if let Some(zone_id) = zone {
                self.schedule_downstream_retry(session_id, zone_id, generation);
            }
        }
    }

    /// Anchors streams that start together, those of them that are WAV streams.
    pub fn apply_sync_anchors(&mut self, prepared: &Vec<PreparedDownstream>, now: u64)
        ensures
            final(self)@ == old(self)@.anchored(prepared@, now),
    {
        let ghost s0 = self@;
        let ghost zones = prepared@.map_values(|p: PreparedDownstream| p.zone_id);
        let mut zone_ids: Vec<ZoneId> = Vec::new();
        let mut k: usize = 0;
        while k < prepared.len()
            invariant
                k <= prepared@.len(),
                zone_ids@ == prepared@.take(k as int).map_values(
                    |p: PreparedDownstream| p.zone_id,
                ),
            decreases prepared@.len() - k,
        {
            zone_ids.push(prepared[k].zone_id.clone());
            assert(prepared@.take(k + 1).map_values(|p: PreparedDownstream| p.zone_id)
                =~= prepared@.take(k as int).map_values(|p: PreparedDownstream| p.zone_id).push(
                prepared@[k as int].zone_id,
            ));
            k = k + 1;
        }
        assert(prepared@.take(k as int) =~= prepared@);
        assert(zone_ids@ == zones);
        let base: u128 = later_by(now, ANCHOR_LEAD_MS);
        let mut i: usize = 0;
        assert(s0.outbox + s0.anchors(prepared@, 0, now) =~= s0.outbox);
        while i < prepared.len()
            invariant
                i <= prepared@.len(),
                zone_ids@ == zones,
                zones == prepared@.map_values(|p: PreparedDownstream| p.zone_id),
                base == bridge_state::after_ms(now, ANCHOR_LEAD_MS),
                base <= now + ANCHOR_LEAD_MS * 1_000_000,
                self@ == (bridge_state::BridgeState {
                    outbox: s0.outbox + s0.anchors(prepared@, i as int, now),
                    ..s0
                }),
            decreases prepared@.len() - i,
        {
            let stream = &prepared[i];
            let delay_ms: u64 = self.anchor_delay_ms(&zone_ids, stream);
            let ghost before = self@;
            assert(before.anchor_delay(zones, *stream) == s0.anchor_delay(zones, *stream));
            match stream.codec {
                StreamCodec::Wav => {
                    let at: u128 = base + delay_ms as u128 * 1_000_000;
                    self.outbox.push(
                        BridgeAction::SetAnchor {
                            session_id: stream.session_id,
                            generation: stream.generation,
                            at,
                        },
                    );
                },
                _ => {},
            }
            assert(self@ =~= (bridge_state::BridgeState {
                outbox: s0.outbox + s0.anchors(prepared@, i + 1, now),
                ..s0
            }));
            i = i + 1;
        }
    }

    fn anchor_delay_ms(&self, zone_ids: &Vec<ZoneId>, stream: &PreparedDownstream) -> (r: u64)
        ensures
            r == self@.anchor_delay(zone_ids@, *stream),
    {
        let auto_ms: u64 = if self.config.sync.startup_compensation {
            self.startup_estimator.automatic_delay_ms(
                zone_ids.as_slice(),
                &stream.zone_id,
                self.config.sync.startup_max_compensation_ms,
            )
        } else {
            0
        };
        let manual_ms: i64 = match self.config.sync.zone_offsets_ms.get(
            stream.zone_room_name.as_str(),
        ) {
            Some(offset) => *offset,
            None => 0,
        };
        combine_sync_delay(auto_ms, manual_ms, self.config.sync.default_offset_ms)
    }

    /// Starts prepared streams together.
    pub fn play_prepared_downstreams(&mut self, prepared: Vec<PreparedDownstream>, now: u64)
        ensures
            final(self)@ == old(self)@.played(prepared@, now),
    {
        self.apply_sync_anchors(&prepared, now);
        let ghost s = self@;
        let ghost ask = |p: PreparedDownstream| BridgeAction::Play { prepared: p };
        let mut i: usize = 0;
        assert(s.outbox + prepared@.take(0).map_values(ask) =~= s.outbox);
        while i < prepared.len()
            invariant
                i <= prepared@.len(),
                ask == (|p: PreparedDownstream| BridgeAction::Play { prepared: p }),
                self@ == (bridge_state::BridgeState {
                    outbox: s.outbox + prepared@.take(i as int).map_values(ask),
                    ..s
                }),
            decreases prepared@.len() - i,
        {
            self.outbox.push(BridgeAction::Play { prepared: prepared[i].clone() });
            proof {
                assert(prepared@.take(i + 1) =~= prepared@.take(i as int).push(
                    prepared@[i as int],
                ));
                assert(self.outbox@ =~= s.outbox + prepared@.take(i + 1).map_values(ask));
                assert(self@ =~= (bridge_state::BridgeState {
                    outbox: s.outbox + prepared@.take(i + 1).map_values(ask),
                    ..s
                }));
            }
            i = i + 1;
        }
        assert(prepared@.take(i as int) =~= prepared@);
        self.outbox.push(
            BridgeAction::DispatchPlays { warn_ms: self.config.sync.play_command_spread_warn_ms },
        );
        assert(self@ =~= old(self)@.played(prepared@, now));
    }

    /// Starts the first cohorts, up to one that does not start yet.
    pub fn maybe_start_sync_cohorts(&mut self, now: u64)
        ensures
            final(self)@ == old(self)@.started(now),
    {
        let ghost cs = self@.sync_cohorts;
        let ghost n = bridge_state::due(cs, now) as int;
        let ghost all_gone = bridge_state::BridgeState { sync_cohorts: cs.skip(n), ..self@ };
        let ghost mut i: int = 0;
        proof {
            lemma_due_within(cs, now);
            assert(cs.skip(0) =~= cs);
            assert(cs.take(0) =~= Seq::empty());
            assert(self@ =~= (bridge_state::BridgeState {
                sync_cohorts: cs.skip(0),
                ..all_gone.cohorts_started(cs.take(0), now)
            }));
        }
        while self.sync_cohorts.len() > 0 && sync_cohort_should_start(&self.sync_cohorts[0], now)
            invariant
                0 <= i <= n,
                n <= cs.len(),
                n == bridge_state::due(cs, now),
                n == i + bridge_state::due(cs.skip(i), now),
                all_gone.sync_cohorts == cs.skip(n),
                self@ == (bridge_state::BridgeState {
                    sync_cohorts: cs.skip(i),
                    ..all_gone.cohorts_started(cs.take(i), now)
                }),
            decreases self.sync_cohorts@.len(),
        {
            let ghost before = self.sync_cohorts@;
            let cohort = self.sync_cohorts.remove(0);
            let ghost c = cohort@;
            proof {
                assert(cohort_states(before)[0] == c);
                assert(cs.skip(i)[0] == c);
                assert(cohort_states(self.sync_cohorts@) =~= cohort_states(before).skip(1));
                assert(cs.skip(i).skip(1) =~= cs.skip(i + 1));
                assert(cs.take(i + 1).drop_last() =~= cs.take(i));
                assert(cs.take(i + 1).last() == c);
            }
            let ghost popped = self@;
            assert(popped =~= (bridge_state::BridgeState {
                sync_cohorts: cs.skip(i + 1),
                ..all_gone.cohorts_started(cs.take(i), now)
            }));
            self.start_cohort(&cohort, now);
            proof {
                lemma_cohort_started_frame(
                    all_gone.cohorts_started(cs.take(i), now),
                    cs.skip(i + 1),
                    c,
                    now,
                );
                i = i + 1;
            }
        }
        proof {
            assert(bridge_state::due(cs.skip(i), now) == 0) by {
                if self.sync_cohorts@.len() > 0 {
                    assert(cohort_states(self.sync_cohorts@)[0] == self.sync_cohorts@[0]@);
                }
            }
            assert(i == n);
            lemma_cohorts_started_keep(all_gone, cs.take(n), now);
            assert(self@ =~= all_gone.cohorts_started(cs.take(n), now));
        }
    }

    fn start_cohort(&mut self, cohort: &SyncCohort, now: u64)
        ensures
            final(self)@ == old(self)@.cohort_started(cohort@, now),
    {
        let ghost c = cohort@;
        let ghost is_ready = |s: SessionId| c.prepared.dom().contains(s);
        let ghost is_unready = |s: SessionId| !c.prepared.dom().contains(s);
        let ghost stream_of = |s: SessionId| c.prepared[s];
        let mut prepared: Vec<PreparedDownstream> = Vec::new();
        let mut unprepared: Vec<SessionId> = Vec::new();
        let mut i: usize = 0;
        proof {
            reveal(Seq::filter);
            assert(c.sessions.take(0).filter(is_ready).map_values(stream_of) =~= Seq::empty());
            assert(c.sessions.take(0).filter(is_unready) =~= Seq::empty());
        }
        while i < cohort.sessions.len()
            invariant
                i <= cohort.sessions@.len(),
                c == cohort@,
                is_ready == (|s: SessionId| c.prepared.dom().contains(s)),
                is_unready == (|s: SessionId| !c.prepared.dom().contains(s)),
                stream_of == (|s: SessionId| c.prepared[s]),
                prepared@ == c.sessions.take(i as int).filter(is_ready).map_values(stream_of),
                unprepared@ == c.sessions.take(i as int).filter(is_unready),
            decreases cohort.sessions@.len() - i,
        {
            let session_id = cohort.sessions[i];
            proof {
                let next = c.sessions.take(i + 1);
                assert(next.drop_last() =~= c.sessions.take(i as int));
                assert(next.last() == session_id);
                reveal(Seq::filter);
                if is_ready(session_id) {
                    assert(next.filter(is_ready).map_values(stream_of) =~= c.sessions.take(
                        i as int,
                    ).filter(is_ready).map_values(stream_of).push(stream_of(session_id)));
                }
            }
            match cohort.prepared.get(session_id) {
                Some(stream) => prepared.push(stream.clone()),
                None => unprepared.push(session_id),
            }
            i = i + 1;
        }
        assert(c.sessions.take(i as int) =~= c.sessions);
        assert(prepared@ == c.ready());
        assert(unprepared@ == c.unready());
        let ghost s = self@;
        let mut k: usize = 0;
        assert(unprepared@.take(0) =~= Seq::empty());
        while k < unprepared.len()
            invariant
                k <= unprepared@.len(),
                self@ == s.all_retried(unprepared@.take(k as int)),
            decreases unprepared@.len() - k,
        {
            proof {
                let next = unprepared@.take(k + 1);
                assert(next.drop_last() =~= unprepared@.take(k as int));
                assert(next.last() == unprepared@[k as int]);
            }
            self.retry_unprepared_downstream(unprepared[k]);
            k = k + 1;
        }
        assert(unprepared@.take(k as int) =~= unprepared@);
        if prepared.len() > 0 {
            self.play_prepared_downstreams(prepared, now);
        }
    }

    /// A stream is prepared.
    pub fn handle_prepared_downstream(&mut self, prepared: PreparedDownstream, now: u64)
        ensures
            final(self)@ == old(self)@.prepared(prepared, now),
    {
        if !self.prepared_downstream_is_current(&prepared) {
            return;
        }
        self.record_timing(&prepared.zone_id, &prepared.timing);
        let ghost s = self@;
        let ghost p = prepared;
        let mut i: usize = 0;
        while i < self.sync_cohorts.len() && !(self.sync_cohorts[i].id == prepared.cohort_id
            && contains_session(&self.sync_cohorts[i].sessions, prepared.session_id))
            invariant
                i <= self.sync_cohorts@.len(),
                self@ == s,
                p == prepared,
                bridge_state::awaiting_from(s.sync_cohorts, p, 0) == bridge_state::awaiting_from(
                    s.sync_cohorts,
                    p,
                    i as int,
                ),
            decreases self.sync_cohorts@.len() - i,
        {
            assert(s.sync_cohorts[i as int] == self.sync_cohorts@[i as int]@);
            i = i + 1;
        }
        if i < self.sync_cohorts.len() {
            let ghost c = self.sync_cohorts@[i as int]@;
            let ghost cs = self.sync_cohorts@;
            assert(s.sync_cohorts[i as int] == c);
            let session_id = prepared.session_id;
            let cohort = &mut self.sync_cohorts[i];
            cohort.prepared.insert(session_id, prepared);
            proof {
                let filled = bridge_state::CohortState {
                    prepared: c.prepared.insert(session_id, p),
                    ..c
                };
                assert(self.sync_cohorts@[i as int]@ == filled);
                assert(cohort_states(self.sync_cohorts@) =~= cohort_states(cs).update(
                    i as int,
                    filled,
                ));
                assert(self@ =~= (bridge_state::BridgeState {
                    sync_cohorts: s.sync_cohorts.update(i as int, filled),
                    ..s
                }));
            }
            self.maybe_start_sync_cohorts(now);
        }
    }

    /// The sessions of a zone other than the given one, each of them once.
    pub fn sessions_to_replace(&self, session_id: SessionId, zone_id: &ZoneId) -> (r: Vec<SessionId>)
        ensures
            r@.no_duplicates(),
            forall|id: SessionId| #[trigger]
                r@.contains(id) <==> id != session_id && self@.sessions.dom().contains(id)
                    && self@.sessions[id]@ == zone_id@,
    {
        let n: usize = self.sessions.len();
        let ghost pairs = self.sessions.pairs();
        let mut r: Vec<SessionId> = Vec::new();
        let mut i: usize = 0;
        while i < n
            invariant
                i <= n,
                n == pairs.len(),
                pairs == self.sessions.pairs(),
                session_map::sessions_distinct(pairs),
                r@.no_duplicates(),
                forall|id: SessionId| #[trigger]
                    r@.contains(id) <==> id != session_id && exists|j: int|
                        0 <= j < i && (#[trigger] pairs[j]).0 == id && pairs[j].1@ == zone_id@,
            decreases n - i,
        {
            let e = self.sessions.entry(i);
            let matching: bool = e.0 != session_id && same_text(e.1.as_str(), zone_id.as_str());
            let ghost before = r@;
            if matching {
                assert(!before.contains(e.0));
                r.push(e.0);
                assert(r@[before.len() as int] == e.0);
            }
            proof {
                assert forall|id: SessionId| #[trigger] r@.contains(id) <==> id != session_id
                    && exists|j: int|
                    0 <= j < i + 1 && (#[trigger] pairs[j]).0 == id && pairs[j].1@ == zone_id@ by {
                    if before.contains(id) {
                        let j = choose|j: int| 0 <= j < before.len() && before[j] == id;
                        assert(r@[j] == id);
                    }
                    if r@.contains(id) && id != e.0 {
                        let j = choose|j: int| 0 <= j < r@.len() && r@[j] == id;
                        assert(before[j] == id);
                    }
                    if r@.contains(id) && id == e.0 {
                        if before.contains(id) {
                        } else {
                            assert(matching);
                            assert(pairs[i as int].0 == id && pairs[i as int].1@ == zone_id@);
                        }
                    }
                }
            }
            i = i + 1;
        }
        proof {
            assert forall|id: SessionId| #[trigger] r@.contains(id) <==> id != session_id
                && self@.sessions.dom().contains(id) && self@.sessions[id]@ == zone_id@ by {
                if r@.contains(id) {
                    let j = choose|j: int|
                        0 <= j < n && (#[trigger] pairs[j]).0 == id && pairs[j].1@ == zone_id@;
                    session_map::lemma_session_once(pairs, j);
                }
                if self@.sessions.dom().contains(id) {
                    let j = session_map::session_at(pairs, id);
                    session_map::lemma_session_once(pairs, j);
                    assert(pairs[j].0 == id);
                }
            }
        }
        r
    }

    /// Begins a session whose zone has a player: what its stream is made from.
    pub fn begin_session(&mut self, session_id: SessionId, zone_id: ZoneId, format: PcmFormat) -> (r:
        Result<DownstreamPlan, BridgeError>)
        ensures
            final(self)@ == old(self)@.begun(session_id, zone_id),
            r == (if old(self)@.zones.dom().contains(zone_id@) {
                Ok(final(self)@.plan(session_id, zone_id, format))
            } else {
                Err(BridgeError::NoSonosClient { zone_id })
            }),
    {
        self.cancel_paused_cleanup(session_id);
        let zone: SonosZone = match self.sonos.get(zone_id.as_str()) {
            Some(zone) => zone.clone(),
            None => return Err(BridgeError::NoSonosClient { zone_id }),
        };
        self.clear_session_runtime_state(session_id);
        let (generation, lifecycle): (u64, u64) = self.next_downstream_generation(session_id);
        proof {
            lemma_cleared_frame(old(self)@.cleanup_cancelled(session_id), session_id);
        }
        Ok(DownstreamPlan { session_id, zone_id, zone, format, generation, lifecycle })
    }

    fn prepare(&mut self, plan: DownstreamPlan, codec: StreamCodec, force: bool, now: u64)
        ensures
            final(self)@ == old(self)@.preparing(plan, codec, force, now),
    {
        let session_id = plan.session_id;
        self.outbox.push(
            BridgeAction::HoldDelivery { session_id, generation: plan.generation },
        );
        assert(self@ =~= old(self)@.asks(
            BridgeAction::HoldDelivery { session_id, generation: plan.generation },
        ));
        let cohort_id: u64 = self.add_session_to_sync_cohort(session_id, now);
        self.playback_tasks.insert(session_id);
        self.outbox.push(
            BridgeAction::StartPrepare {
                start: SonosStreamPrepare {
                    session_id,
                    zone_id: plan.zone_id,
                    generation: plan.generation,
                    cohort_id,
                    lifecycle: plan.lifecycle,
                    zone: plan.zone,
                    codec,
                    force_standalone_on_start: force,
                },
            },
        );
        assert(self@ =~= old(self)@.preparing(plan, codec, force, now));
    }

    /// Goes on with a session once its first stream is made.
    pub fn session_started(&mut self, plan: DownstreamPlan, codec: StreamCodec, now: u64)
        ensures
            final(self)@ == old(self)@.session_started(plan, codec, now),
    {
        let session_id = plan.session_id;
        self.encoders.insert(session_id);
        self.sessions.insert(session_id, plan.zone_id.clone());
        self.session_formats.insert(session_id, plan.format);
        self.desired_playback.insert(session_id, true);
        assert(self@ =~= (bridge_state::BridgeState {
            encoders: old(self)@.encoders.insert(session_id),
            sessions: old(self)@.sessions.insert(session_id, plan.zone_id),
            session_formats: old(self)@.session_formats.insert(session_id, plan.format),
            desired_playback: old(self)@.desired_playback.insert(session_id, true),
            ..old(self)@
        }));
        let force: bool = self.config.sonos.force_standalone_on_start;
        self.prepare(plan, codec, force, now);
    }

    fn remove_stream(&mut self, session_id: SessionId)
        ensures
            final(self)@ == old(self)@.stream_removed(session_id),
    {
        if self.encoders.remove(session_id) {
            self.outbox.push(BridgeAction::ShutdownEncoder { session_id });
        }
        self.outbox.push(BridgeAction::RemoveStream { session_id });
        assert(self@ =~= old(self)@.stream_removed(session_id));
    }

    /// Has the stream of a session made anew, where it can be: what it is made
    /// from.
    pub fn restart_downstream_for_play(&mut self, session_id: SessionId, zone_id: ZoneId) -> (r:
        Option<DownstreamPlan>)
        ensures
            final(self)@ == old(self)@.restarting(session_id, zone_id),
            r == (if old(self)@.can_restart(session_id, zone_id) {
                Some(
                    final(self)@.plan(
                        session_id,
                        zone_id,
                        old(self)@.session_formats[session_id],
                    ),
                )
            } else {
                None
            }),
    {
        self.mark_reset(session_id);
        self.cancel_downstream_retry(session_id);
        let format: PcmFormat = match self.session_formats.get(session_id) {
            Some(format) => *format,
            None => return None,
        };
        let zone: SonosZone = match self.sonos.get(zone_id.as_str()) {
            Some(zone) => zone.clone(),
            None => return None,
        };
        self.abort_playback(session_id);
        self.remove_stream(session_id);
        let (generation, lifecycle): (u64, u64) = self.next_downstream_generation(session_id);
        Some(DownstreamPlan { session_id, zone_id, zone, format, generation, lifecycle })
    }

    /// Goes on with a session once its stream is made anew.
    pub fn downstream_restarted(&mut self, plan: DownstreamPlan, codec: StreamCodec, now: u64)
        ensures
            final(self)@ == old(self)@.restarted(plan, codec, now),
    {
        self.encoders.insert(plan.session_id);
        assert(self@ =~= (bridge_state::BridgeState {
            encoders: old(self)@.encoders.insert(plan.session_id),
            ..old(self)@
        }));
        self.prepare(plan, codec, false, now);
    }

    /// Tells a session to play or to pause: what its stream is made from, where
    /// it has to be made anew.
    pub fn set_playback_state(&mut self, session_id: SessionId, zone_id: ZoneId, playing: bool) -> (r:
        Option<DownstreamPlan>)
        ensures
            final(self)@ == old(self)@.playback_set(session_id, zone_id, playing),
            r == (if old(self)@.playback_plans(session_id, zone_id, playing) {
                Some(
                    final(self)@.plan(
                        session_id,
                        zone_id,
                        old(self)@.session_formats[session_id],
                    ),
                )
            } else {
                None
            }),
    {
        if self.sessions.get(session_id).is_none() {
            return None;
        }
        let previous: Option<bool> = match self.playback_state.get(session_id) {
            Some(playing) => Some(*playing),
            None => None,
        };
        self.tell(session_id, playing);
        if !playing {
            self.pause(session_id, zone_id);
            return None;
        }
        self.cancel_paused_cleanup(session_id);
        let reset_needed: bool = self.downstream_reset_needed.contains(session_id);
        if should_restart_downstream_for_play(previous, reset_needed) {
            return self.restart_downstream_for_play(session_id, zone_id);
        }
        None
    }

    fn tell(&mut self, session_id: SessionId, playing: bool)
        ensures
            final(self)@ == old(self)@.told(session_id, playing),
    {
        self.desired_playback.insert(session_id, playing);
        self.playback_state.insert(session_id, playing);
        assert(self@ =~= old(self)@.told(session_id, playing));
    }

    fn pause(&mut self, session_id: SessionId, zone_id: ZoneId)
        ensures
            final(self)@ == old(self)@.pausing(session_id, zone_id),
    {
        self.mark_reset(session_id);
        self.cancel_downstream_retry(session_id);
        self.invalidate_prepared_downstream(session_id);
        self.abort_playback(session_id);
        let ghost s = self@;
        if self.sonos.get(zone_id.as_str()).is_some() {
            self.playback_tasks.insert(session_id);
            self.outbox.push(BridgeAction::StopForPause { session_id, zone_id });
            assert(self@ =~= (bridge_state::BridgeState {
                playback_tasks: s.playback_tasks.insert(session_id),
                ..s
            }).asks(BridgeAction::StopForPause { session_id, zone_id }));
        }
    }

    /// A retry became due: what the stream is made from, where it is needed.
    pub fn handle_downstream_retry(&mut self, retry: DownstreamRetry) -> (r: Option<DownstreamPlan>)
        ensures
            final(self)@ == old(self)@.retry_due(retry),
            r == (if old(self)@.retry_needed(retry) && old(self)@.can_restart(
                retry.session_id,
                retry.zone_id,
            ) {
                Some(
                    final(self)@.plan(
                        retry.session_id,
                        retry.zone_id,
                        old(self)@.session_formats[retry.session_id],
                    ),
                )
            } else {
                None
            }),
    {
        let session_id = retry.session_id;
        let _waiting: bool = self.downstream_retry_tasks.remove(session_id);
        assert(self@ =~= (bridge_state::BridgeState {
            downstream_retry_tasks: old(self)@.downstream_retry_tasks.remove(session_id),
            ..old(self)@
        }));
        if self.has_generation(session_id, retry.generation) && self.is_wanted(session_id)
            && self.downstream_reset_needed.contains(session_id) {
            self.restart_downstream_for_play(session_id, retry.zone_id)
        } else {
            None
        }
    }

    /// Ends a session.
    pub fn stop_session(&mut self, session_id: SessionId, fallback_zone_id: Option<ZoneId>)
        ensures
            final(self)@ == old(self)@.stopped(session_id, fallback_zone_id),
    {
        let zone: Option<ZoneId> = match self.sessions.remove(session_id) {
            Some(zone_id) => Some(zone_id),
            None => fallback_zone_id,
        };
        assert(self@ =~= (bridge_state::BridgeState {
            sessions: old(self)@.sessions.remove(session_id),
            ..old(self)@
        }));
        self.clear_session_runtime_state(session_id);
        self.remove_stream(session_id);
        if self.config.sonos.stop_on_disconnect {
            if let Some(zone_id) = zone {
                if self.sonos.get(zone_id.as_str()).is_some() {
                    let ghost s = self@;
                    self.outbox.push(BridgeAction::StopPlayer { zone_id });
                    assert(self@ =~= s.asks(BridgeAction::StopPlayer { zone_id }));
                }
            }
        }
    }

    /// Ends a session whose grace period is over, where it is still paused.
    pub fn expire_paused_session(&mut self, session_id: SessionId) -> (r: bool)
        ensures
            r == old(self)@.expires(session_id),
            final(self)@ == (if r {
                old(self)@.stopped(session_id, None)
            } else {
                old(self)@
            }),
    {
        let paused: bool = match self.desired_playback.get(session_id) {
            Some(wanted) => !*wanted,
            None => false,
        };
        if self.sessions.get(session_id).is_some() && paused {
            self.stop_session(session_id, None);
            true
        } else {
            false
        }
    }

    /// Ends all sessions that have an encoder: which they were, in this order.
    pub fn shutdown(&mut self) -> (r: Vec<SessionId>)
        ensures
            r@.no_duplicates(),
            r@.to_set() == old(self)@.encoders,
            final(self)@ == old(self)@.all_stopped(r@),
    {
        let ids = self.encoders.to_vec();
        let mut i: usize = 0;
        assert(ids@.take(0) =~= Seq::empty());
        while i < ids.len()
            invariant
                i <= ids@.len(),
                self@ == old(self)@.all_stopped(ids@.take(i as int)),
            decreases ids@.len() - i,
        {
            proof {
                let next = ids@.take(i + 1);
                assert(next.drop_last() =~= ids@.take(i as int));
                assert(next.last() == ids@[i as int]);
            }
            self.stop_session(ids[i], None);
            i = i + 1;
        }
        assert(ids@.take(i as int) =~= ids@);
        ids
    }

    /// An AirPlay receiver told something: what is left to do.
    pub fn handle_event(&mut self, event: AirPlayEvent) -> (r: EventOutcome)
        ensures
            match event {
                AirPlayEvent::SessionStarted { session_id, zone_id, format } => {
                    &&& final(self)@ == old(self)@
                    &&& r == (EventOutcome::StartSession { session_id, zone_id, format })
                },
                AirPlayEvent::Pcm { session_id, zone_id: _, frame } => {
                    &&& r is Done
                    &&& final(self)@ == (if old(self)@.encoders.contains(session_id) {
                        old(self)@.asks(BridgeAction::WriteFrame { session_id, frame })
                    } else {
                        old(self)@
                    })
                },
                AirPlayEvent::PlaybackState { session_id, zone_id, playing } => {
                    &&& final(self)@ == old(self)@.playback_set(session_id, zone_id, playing)
                    &&& r == (if old(self)@.playback_plans(session_id, zone_id, playing) {
                        EventOutcome::Restart {
                            plan: final(self)@.plan(
                                session_id,
                                zone_id,
                                old(self)@.session_formats[session_id],
                            ),
                        }
                    } else {
                        EventOutcome::Done
                    })
                },
                AirPlayEvent::Flushed { session_id, zone_id: _ } => {
                    &&& r is Done
                    &&& final(self)@ == old(self)@.flushed(session_id)
                },
                AirPlayEvent::StreamEndedWhilePaused { session_id, zone_id: _ } => {
                    &&& r is Done
                    &&& final(self)@ == old(self)@.ended_while_paused(session_id)
                },
                AirPlayEvent::Volume { zone_id, airplay_db: _, sonos_volume } => {
                    &&& r is Done
                    &&& final(self)@ == (if old(self)@.zones.dom().contains(zone_id@) {
                        old(self)@.asks(BridgeAction::SetVolume { zone_id, volume: sonos_volume })
                    } else {
                        old(self)@
                    })
                },
                AirPlayEvent::SessionStopped { session_id, zone_id } => {
                    &&& r is Done
                    &&& final(self)@ == old(self)@.stopped(session_id, Some(zone_id))
                },
                AirPlayEvent::ClientConnected { zone_id, addr: _ } => {
                    &&& r is Done
                    &&& final(self)@ == (if old(self)@.zones.dom().contains(zone_id@)
                        && old(self)@.volumes.contains(zone_id@) {
                        old(self)@.asks(BridgeAction::RefreshVolume { zone_id })
                    } else {
                        old(self)@
                    })
                },
                AirPlayEvent::ClientDisconnected { .. } => r is Done && final(self)@ == old(self)@,
                AirPlayEvent::Error { .. } => r is Done && final(self)@ == old(self)@,
            },
    {
        match event {
            AirPlayEvent::SessionStarted { session_id, zone_id, format } => {
                EventOutcome::StartSession { session_id, zone_id, format }
            },
            AirPlayEvent::Pcm { session_id, zone_id: _, frame } => {
                if self.encoders.contains(session_id) {
                    self.outbox.push(BridgeAction::WriteFrame { session_id, frame });
                    assert(self@ =~= old(self)@.asks(
                        BridgeAction::WriteFrame { session_id, frame },
                    ));
                }
                EventOutcome::Done
            },
            AirPlayEvent::PlaybackState { session_id, zone_id, playing } => {
                match self.set_playback_state(session_id, zone_id, playing) {
                    Some(plan) => EventOutcome::Restart { plan },
                    None => EventOutcome::Done,
                }
            },
            AirPlayEvent::Flushed { session_id, zone_id: _ } => {
                self.outbox.push(BridgeAction::ArmAnchor { session_id });
                assert(self@ =~= old(self)@.asks(BridgeAction::ArmAnchor { session_id }));
                let paused: bool = match self.desired_playback.get(session_id) {
                    Some(wanted) => !*wanted,
                    None => false,
                };
                let silent: bool = match self.playback_state.get(session_id) {
                    Some(playing) => !*playing,
                    None => false,
                };
                if paused || silent {
                    self.mark_reset(session_id);
                }
                EventOutcome::Done
            },
            AirPlayEvent::StreamEndedWhilePaused { session_id, zone_id: _ } => {
                if self.sessions.get(session_id).is_some() && !self.is_wanted(session_id) {
                    self.mark_reset(session_id);
                    self.schedule_paused_cleanup(session_id);
                }
                EventOutcome::Done
            },
            AirPlayEvent::Volume { zone_id, airplay_db: _, sonos_volume } => {
                if self.sonos.get(zone_id.as_str()).is_some() {
                    self.outbox.push(BridgeAction::SetVolume { zone_id, volume: sonos_volume });
                    assert(self@ =~= old(self)@.asks(
                        BridgeAction::SetVolume { zone_id, volume: sonos_volume },
                    ));
                }
                EventOutcome::Done
            },
            AirPlayEvent::SessionStopped { session_id, zone_id } => {
                self.stop_session(session_id, Some(zone_id));
                EventOutcome::Done
            },
            AirPlayEvent::ClientConnected { zone_id, addr: _ } => {
                if self.sonos.get(zone_id.as_str()).is_some() && self.volume_states.get(
                    zone_id.as_str(),
                ).is_some() {
                    self.outbox.push(BridgeAction::RefreshVolume { zone_id });
                    assert(self@ =~= old(self)@.asks(BridgeAction::RefreshVolume { zone_id }));
                }
                EventOutcome::Done
            },
            AirPlayEvent::ClientDisconnected { .. } => EventOutcome::Done,
            AirPlayEvent::Error { .. } => EventOutcome::Done,
        }
    }
}

/// The time a number of milliseconds after another.
fn later_by(now: u64, ms: u64) -> (r: u128)
    ensures
        r == bridge_state::after_ms(now, ms),
        r == now + ms * 1_000_000,
{
    now as u128 + ms as u128 * 1_000_000
}

/// No more cohorts start than there are.
proof fn lemma_due_within(cs: Seq<bridge_state::CohortState>, now: u64)
    ensures
        bridge_state::due(cs, now) <= cs.len(),
    decreases cs.len(),
{
    if cs.len() > 0 && cs[0].should_start(now) {
        lemma_due_within(cs.skip(1), now);
    }
}

/// Trying sessions anew leaves the cohorts alone.
proof fn lemma_all_retried_frame(
    s: bridge_state::BridgeState,
    cohorts: Seq<bridge_state::CohortState>,
    ids: Seq<SessionId>,
)
    ensures
        s.all_retried(ids).sync_cohorts == s.sync_cohorts,
        (bridge_state::BridgeState { sync_cohorts: cohorts, ..s }).all_retried(ids) == (
        bridge_state::BridgeState { sync_cohorts: cohorts, ..s.all_retried(ids) }),
    decreases ids.len(),
{
    if ids.len() > 0 {
        lemma_all_retried_frame(s, cohorts, ids.drop_last());
    }
}

/// The anchors do not depend on the cohorts.
proof fn lemma_anchors_frame(
    s: bridge_state::BridgeState,
    cohorts: Seq<bridge_state::CohortState>,
    prepared: Seq<PreparedDownstream>,
    n: int,
    now: u64,
)
    ensures
        (bridge_state::BridgeState { sync_cohorts: cohorts, ..s }).anchors(prepared, n, now)
            == s.anchors(prepared, n, now),
    decreases n,
{
    if n > 0 {
        lemma_anchors_frame(s, cohorts, prepared, n - 1, now);
        let zones = prepared.map_values(|p: PreparedDownstream| p.zone_id);
        assert((bridge_state::BridgeState { sync_cohorts: cohorts, ..s }).anchor_delay(
            zones,
            prepared[n - 1],
        ) == s.anchor_delay(zones, prepared[n - 1]));
    }
}

/// The start of a cohort leaves the other cohorts alone and does not depend on them.
proof fn lemma_cohort_started_frame(
    s: bridge_state::BridgeState,
    cohorts: Seq<bridge_state::CohortState>,
    c: bridge_state::CohortState,
    now: u64,
)
    ensures
        s.cohort_started(c, now).sync_cohorts == s.sync_cohorts,
        (bridge_state::BridgeState { sync_cohorts: cohorts, ..s }).cohort_started(c, now) == (
        bridge_state::BridgeState { sync_cohorts: cohorts, ..s.cohort_started(c, now) }),
{
    lemma_all_retried_frame(s, cohorts, c.unready());
    let t = s.all_retried(c.unready());
    lemma_anchors_frame(t, cohorts, c.ready(), c.ready().len() as int, now);
}

/// The start of cohorts leaves the other cohorts alone.
proof fn lemma_cohorts_started_keep(
    s: bridge_state::BridgeState,
    cs: Seq<bridge_state::CohortState>,
    now: u64,
)
    ensures
        s.cohorts_started(cs, now).sync_cohorts == s.sync_cohorts,
    decreases cs.len(),
{
    if cs.len() > 0 {
        lemma_cohorts_started_keep(s, cs.drop_last(), now);
        let t = s.cohorts_started(cs.drop_last(), now);
        lemma_cohort_started_frame(t, t.sync_cohorts, cs.last(), now);
    }
}

/// Forgetting a session leaves the zones alone.
proof fn lemma_cleared_frame(s: bridge_state::BridgeState, id: SessionId)
    ensures
        s.cleared(id).zones == s.zones,
{
}

} // verus!
