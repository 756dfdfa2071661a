//! What the bridge knows of its sessions, and how each step changes it.

use vstd::prelude::*;

use crate::config::Config;
use crate::ids::{SessionId, ZoneId};
use crate::sync;
use crate::sync::ZoneStartupTiming;
use crate::types::{PcmFormat, PcmFrame, SonosZone, StreamCodec};

verus! {

/// How long a session is kept after its audio stream closed while playback was
/// paused.
pub const PAUSED_SESSION_GRACE_SECS: u64 = 60;

/// How long the first retry of a failed start waits.
pub const DOWNSTREAM_RETRY_BASE_MS: u64 = 500;

/// How long a retry of a failed start waits at most.
pub const DOWNSTREAM_RETRY_MAX_MS: u64 = 5_000;

/// How far ahead of a coordinated start its shared playback anchor lies.
pub const ANCHOR_LEAD_MS: u64 = 120;

/// The life of one attempt to start a session's playback. It ends when it is
/// cancelled.
#[derive(Clone, Copy, Debug, PartialEq, Eq, Structural)]
pub struct DownstreamLifecycle {
    pub id: u64,
    pub cancelled: bool,
}

/// How an attempt to start playback ended.
#[derive(Clone, Copy, Debug, PartialEq, Eq, Structural)]
pub enum DownstreamStartOutcome {
    Started,
    Failed,
    Cancelled,
}

/// The end of an attempt to start playback.
#[derive(Debug)]
pub struct DownstreamStartResult {
    pub session_id: SessionId,
    pub zone_id: ZoneId,
    pub generation: u64,
    pub outcome: DownstreamStartOutcome,
    pub timing: Option<ZoneStartupTiming>,
}

/// A retry that has become due.
#[derive(Debug)]
pub struct DownstreamRetry {
    pub session_id: SessionId,
    pub zone_id: ZoneId,
    pub generation: u64,
}

/// A stream that a player has been pointed at and that waits for its cohort.
#[derive(Debug)]
pub struct PreparedDownstream {
    pub session_id: SessionId,
    pub zone_id: ZoneId,
    pub generation: u64,
    pub cohort_id: u64,
    pub lifecycle: u64,
    pub zone_room_name: String,
    pub codec: StreamCodec,
    pub timing: ZoneStartupTiming,
}

impl Clone for PreparedDownstream {
    fn clone(&self) -> (r: Self)
        ensures
            r == *self,
    {
        PreparedDownstream {
            session_id: self.session_id,
            zone_id: self.zone_id.clone(),
            generation: self.generation,
            cohort_id: self.cohort_id,
            lifecycle: self.lifecycle,
            zone_room_name: self.zone_room_name.clone(),
            codec: self.codec,
            timing: self.timing,
        }
    }
}

/// What the preparation of a session's stream starts from.
#[derive(Debug)]
pub struct SonosStreamPrepare {
    pub session_id: SessionId,
    pub zone_id: ZoneId,
    pub generation: u64,
    pub cohort_id: u64,
    pub lifecycle: u64,
    pub zone: SonosZone,
    pub codec: StreamCodec,
    pub force_standalone_on_start: bool,
}

/// What a session's new stream is to be made from.
#[derive(Debug)]
pub struct DownstreamPlan {
    pub session_id: SessionId,
    pub zone_id: ZoneId,
    pub zone: SonosZone,
    pub format: PcmFormat,
    pub generation: u64,
    pub lifecycle: u64,
}

/// What the bridge asks of the world around it, in the order in which it asks.
#[derive(Debug)]
pub enum BridgeAction {
    /// Start the grace period of a paused session.
    SchedulePausedCleanup { session_id: SessionId, after_secs: u64 },
    /// End the grace period of a paused session.
    AbortPausedCleanup { session_id: SessionId },
    /// Report a retry as due after a delay.
    ScheduleRetry { session_id: SessionId, zone_id: ZoneId, generation: u64, after_ms: u64 },
    /// Forget a retry.
    AbortRetry { session_id: SessionId },
    /// Abort the session's preparation or stop request.
    AbortPlayback { session_id: SessionId },
    /// Cancel an attempt to start playback.
    CancelLifecycle { lifecycle: u64 },
    /// Look at the cohorts again after a delay.
    WakeCohorts { after_ms: u64 },
    /// Anchor the playback of a stream.
    SetAnchor { session_id: SessionId, generation: u64, at: u128 },
    /// Anchor the playback of a session's stream at its next timed audio.
    ArmAnchor { session_id: SessionId },
    /// Start a player as part of the coordinated start that is being gathered.
    Play { prepared: PreparedDownstream },
    /// Run the gathered starts together and report each of them.
    DispatchPlays { warn_ms: u64 },
    /// Hold the new stream of a session back.
    HoldDelivery { session_id: SessionId, generation: u64 },
    /// Prepare the stream of a session.
    StartPrepare { start: SonosStreamPrepare },
    /// Stop a player because its session paused.
    StopForPause { session_id: SessionId, zone_id: ZoneId },
    /// Shut the encoder of a session down.
    ShutdownEncoder { session_id: SessionId },
    /// Take the stream of a session out of the registry.
    RemoveStream { session_id: SessionId },
    /// Stop a player because its session ended.
    StopPlayer { zone_id: ZoneId },
    /// Hand audio to the encoder of a session.
    WriteFrame { session_id: SessionId, frame: PcmFrame },
    /// Set the volume of a player.
    SetVolume { zone_id: ZoneId, volume: u8 },
    /// Read the volume of a player anew.
    RefreshVolume { zone_id: ZoneId },
}

/// A group of sessions that start together.
pub struct CohortState {
    pub id: u64,
    /// When it was opened.
    pub opened_at: u64,
    /// Until when sessions may join.
    pub window_deadline: u128,
    /// When it starts even if not all of its sessions are prepared.
    pub start_deadline: u128,
    /// Its sessions, in the order in which they joined.
    pub sessions: Seq<SessionId>,
    /// Those of its sessions that are prepared.
    pub prepared: Map<SessionId, PreparedDownstream>,
}

/// The sessions other than a given one.
pub open spec fn other_than(id: SessionId) -> spec_fn(SessionId) -> bool {
    |s: SessionId| s != id
}

impl CohortState {
    /// Whether it starts: once sessions can no longer join and either all of
    /// them are prepared or the deadline has passed.
    pub open spec fn should_start(self, now: u64) -> bool {
        &&& now >= self.window_deadline
        &&& (self.sessions.len() > 0 && self.sessions.len() == self.prepared.dom().len()) || now
            >= self.start_deadline
    }

    /// The cohort without a session.
    pub open spec fn without(self, id: SessionId) -> Self {
        CohortState {
            sessions: self.sessions.filter(other_than(id)),
            prepared: self.prepared.remove(id),
            ..self
        }
    }

    /// The prepared streams, in the order of the sessions.
    pub open spec fn ready(self) -> Seq<PreparedDownstream> {
        self.sessions.filter(|s: SessionId| self.prepared.dom().contains(s)).map_values(
            |s: SessionId| self.prepared[s],
        )
    }

    /// The sessions that are not prepared, in their order.
    pub open spec fn unready(self) -> Seq<SessionId> {
        self.sessions.filter(|s: SessionId| !self.prepared.dom().contains(s))
    }

    /// Whether it has sessions, each of them once, and only these are prepared.
    pub open spec fn well_formed(self) -> bool {
        &&& self.sessions.len() > 0
        &&& self.sessions.no_duplicates()
        &&& forall|id: SessionId| #[trigger]
            self.prepared.dom().contains(id) ==> self.sessions.contains(id)
                && self.prepared[id].session_id == id
    }
}

/// Whether a session is in one of the cohorts.
pub open spec fn in_cohorts(cohorts: Seq<CohortState>, id: SessionId) -> bool {
    exists|i: int| 0 <= i < cohorts.len() && (#[trigger] cohorts[i]).sessions.contains(id)
}

/// The cohorts without a session; one that has no other session is gone.
pub open spec fn cohorts_without(cohorts: Seq<CohortState>, id: SessionId) -> Seq<CohortState> {
    cohorts.map_values(|c: CohortState| c.without(id)).filter(
        |c: CohortState| c.sessions.len() > 0,
    )
}

/// Whether a cohort awaits a prepared stream.
pub open spec fn awaits(c: CohortState, prepared: PreparedDownstream) -> bool {
    c.id == prepared.cohort_id && c.sessions.contains(prepared.session_id)
}

/// The first cohort that awaits a prepared stream, from a position on.
pub open spec fn awaiting_from(
    cohorts: Seq<CohortState>,
    prepared: PreparedDownstream,
    from: int,
) -> Option<int>
    decreases cohorts.len() - from,
{
    if from < 0 || from >= cohorts.len() {
        None
    } else if awaits(cohorts[from], prepared) {
        Some(from)
    } else {
        awaiting_from(cohorts, prepared, from + 1)
    }
}

/// How many of the first cohorts start.
pub open spec fn due(cohorts: Seq<CohortState>, now: u64) -> nat
    decreases cohorts.len(),
{
    if cohorts.len() > 0 && cohorts[0].should_start(now) {
        1 + due(cohorts.skip(1), now)
    } else {
        0
    }
}

/// How long a retry waits: twice as long as the one before, up to a limit.
pub open spec fn retry_delay(attempt: u32) -> u64
    decreases attempt,
{
    if attempt == 0 {
        DOWNSTREAM_RETRY_BASE_MS
    } else if 2 * retry_delay((attempt - 1) as u32) < DOWNSTREAM_RETRY_MAX_MS {
        (2 * retry_delay((attempt - 1) as u32)) as u64
    } else {
        DOWNSTREAM_RETRY_MAX_MS
    }
}

/// The number after a counter that stays at its greatest value.
pub open spec fn bumped(n: u64) -> u64 {
    if n < u64::MAX {
        (n + 1) as u64
    } else {
        n
    }
}

/// The time a number of milliseconds after another.
pub open spec fn after_ms(now: u64, ms: u64) -> u128 {
    (now + ms * 1_000_000) as u128
}

/// What the bridge knows.
#[verifier::ext_equal]
pub struct BridgeState {
    pub config: Config,
    /// The zones that have a player, by identifier.
    pub zones: Map<Seq<char>, SonosZone>,
    /// The zones whose volume is reported.
    pub volumes: Set<Seq<char>>,
    /// The sessions that have an encoder.
    pub encoders: Set<SessionId>,
    /// The zone of each session.
    pub sessions: Map<SessionId, ZoneId>,
    pub session_formats: Map<SessionId, PcmFormat>,
    /// The number of each session's current attempt to start. It outlives the
    /// session, so that what is left of an old attempt never passes for new.
    pub downstream_generations: Map<SessionId, u64>,
    pub downstream_lifecycles: Map<SessionId, DownstreamLifecycle>,
    /// The sessions whose stream has to be made anew before they play.
    pub downstream_reset_needed: Set<SessionId>,
    /// Whether each session should play.
    pub desired_playback: Map<SessionId, bool>,
    /// Whether each session was last told to play.
    pub playback_state: Map<SessionId, bool>,
    pub playback_tasks: Set<SessionId>,
    pub paused_cleanup_tasks: Set<SessionId>,
    pub downstream_retry_tasks: Set<SessionId>,
    pub downstream_retry_attempts: Map<SessionId, u32>,
    pub sync_cohorts: Seq<CohortState>,
    pub next_cohort_id: u64,
    pub next_lifecycle_id: u64,
    /// The startup lags of each zone.
    pub samples: Map<Seq<char>, Seq<u64>>,
    pub sample_limit: nat,
    pub samples_needed: nat,
    /// What is asked of the world and not yet taken up.
    pub outbox: Seq<BridgeAction>,
}

/// What the bridge knows of one session.
#[verifier::ext_equal]
pub struct SessionState {
    pub encoder: bool,
    pub zone: Option<ZoneId>,
    pub format: Option<PcmFormat>,
    pub generation: Option<u64>,
    pub lifecycle: Option<DownstreamLifecycle>,
    pub reset_needed: bool,
    pub desired: Option<bool>,
    pub playing: Option<bool>,
    pub playback_task: bool,
    pub cleanup_task: bool,
    pub retry_task: bool,
    pub retry_attempts: Option<u32>,
}

/// The value stored for a session.
pub open spec fn lookup<T>(m: Map<SessionId, T>, id: SessionId) -> Option<T> {
    if m.dom().contains(id) {
        Some(m[id])
    } else {
        None
    }
}

impl BridgeState {
    /// The start: no sessions.
    pub open spec fn initial(
        config: Config,
        zones: Map<Seq<char>, SonosZone>,
        volumes: Set<Seq<char>>,
    ) -> Self {
        BridgeState {
            config,
            zones,
            volumes,
            encoders: Set::empty(),
            sessions: Map::empty(),
            session_formats: Map::empty(),
            downstream_generations: Map::empty(),
            downstream_lifecycles: Map::empty(),
            downstream_reset_needed: Set::empty(),
            desired_playback: Map::empty(),
            playback_state: Map::empty(),
            playback_tasks: Set::empty(),
            paused_cleanup_tasks: Set::empty(),
            downstream_retry_tasks: Set::empty(),
            downstream_retry_attempts: Map::empty(),
            sync_cohorts: Seq::empty(),
            next_cohort_id: 0,
            next_lifecycle_id: 0,
            samples: Map::new(|zone: Seq<char>| true, |zone: Seq<char>| Seq::<u64>::empty()),
            sample_limit: config.sync.startup_sample_limit as nat,
            samples_needed: config.sync.startup_min_samples as nat,
            outbox: Seq::empty(),
        }
    }

    /// What is known of one session.
    pub open spec fn session(self, id: SessionId) -> SessionState {
        SessionState {
            encoder: self.encoders.contains(id),
            zone: lookup(self.sessions, id),
            format: lookup(self.session_formats, id),
            generation: lookup(self.downstream_generations, id),
            lifecycle: lookup(self.downstream_lifecycles, id),
            reset_needed: self.downstream_reset_needed.contains(id),
            desired: lookup(self.desired_playback, id),
            playing: lookup(self.playback_state, id),
            playback_task: self.playback_tasks.contains(id),
            cleanup_task: self.paused_cleanup_tasks.contains(id),
            retry_task: self.downstream_retry_tasks.contains(id),
            retry_attempts: lookup(self.downstream_retry_attempts, id),
        }
    }

    /// Asks for an action.
    pub open spec fn asks(self, action: BridgeAction) -> Self {
        BridgeState { outbox: self.outbox.push(action), ..self }
    }

    /// The grace period of a paused session is ended, where it runs.
    pub open spec fn cleanup_cancelled(self, id: SessionId) -> Self {
        if self.paused_cleanup_tasks.contains(id) {
            (BridgeState { paused_cleanup_tasks: self.paused_cleanup_tasks.remove(id), ..self }).asks(
                BridgeAction::AbortPausedCleanup { session_id: id },
            )
        } else {
            self
        }
    }

    /// The grace period of a paused session starts anew.
    pub open spec fn cleanup_scheduled(self, id: SessionId) -> Self {
        let s = self.cleanup_cancelled(id);
        (BridgeState { paused_cleanup_tasks: s.paused_cleanup_tasks.insert(id), ..s }).asks(
            BridgeAction::SchedulePausedCleanup {
                session_id: id,
                after_secs: PAUSED_SESSION_GRACE_SECS,
            },
        )
    }

    /// The retry of a session is forgotten, where one waits.
    pub open spec fn retry_cancelled(self, id: SessionId) -> Self {
        if self.downstream_retry_tasks.contains(id) {
            (BridgeState {
                downstream_retry_tasks: self.downstream_retry_tasks.remove(id),
                ..self
            }).asks(BridgeAction::AbortRetry { session_id: id })
        } else {
            self
        }
    }

    /// How often a session was retried.
    pub open spec fn attempts(self, id: SessionId) -> u32 {
        match lookup(self.downstream_retry_attempts, id) {
            Some(n) => n,
            None => 0,
        }
    }

    /// One more retry of a session is counted.
    pub open spec fn attempt_counted(self, id: SessionId) -> Self {
        let n = self.attempts(id);
        BridgeState {
            downstream_retry_attempts: self.downstream_retry_attempts.insert(
                id,
                if n < u32::MAX {
                    (n + 1) as u32
                } else {
                    n
                },
            ),
            ..self
        }
    }

    /// A session is to be retried, after a delay that grows with every retry.
    pub open spec fn retry_scheduled(self, id: SessionId, zone_id: ZoneId, generation: u64) -> Self {
        let s = self.retry_cancelled(id);
        let t = s.attempt_counted(id);
        (BridgeState { downstream_retry_tasks: t.downstream_retry_tasks.insert(id), ..t }).asks(
            BridgeAction::ScheduleRetry {
                session_id: id,
                zone_id,
                generation,
                after_ms: retry_delay(s.attempts(id)),
            },
        )
    }

    /// The session's preparation or stop request is aborted, where one runs.
    pub open spec fn playback_aborted(self, id: SessionId) -> Self {
        if self.playback_tasks.contains(id) {
            (BridgeState { playback_tasks: self.playback_tasks.remove(id), ..self }).asks(
                BridgeAction::AbortPlayback { session_id: id },
            )
        } else {
            self
        }
    }

    /// The session's current attempt to start is cancelled, where there is one.
    pub open spec fn lifecycle_cancelled(self, id: SessionId) -> Self {
        if self.downstream_lifecycles.dom().contains(id) {
            let lifecycle = self.downstream_lifecycles[id];
            (BridgeState {
                downstream_lifecycles: self.downstream_lifecycles.insert(
                    id,
                    DownstreamLifecycle { cancelled: true, ..lifecycle },
                ),
                ..self
            }).asks(BridgeAction::CancelLifecycle { lifecycle: lifecycle.id })
        } else {
            self
        }
    }

    /// The session leaves its cohort, which may let the others start.
    pub open spec fn left_cohorts(self, id: SessionId) -> Self {
        let s = BridgeState { sync_cohorts: cohorts_without(self.sync_cohorts, id), ..self };
        if in_cohorts(self.sync_cohorts, id) {
            s.asks(BridgeAction::WakeCohorts { after_ms: 0 })
        } else {
            s
        }
    }

    /// The number of a session's current attempt, or of none.
    pub open spec fn generation(self, id: SessionId) -> u64 {
        match lookup(self.downstream_generations, id) {
            Some(n) => n,
            None => 0,
        }
    }

    /// The session's attempt gets the next number.
    pub open spec fn generation_bumped(self, id: SessionId) -> Self {
        BridgeState {
            downstream_generations: self.downstream_generations.insert(
                id,
                bumped(self.generation(id)),
            ),
            ..self
        }
    }

    /// Whatever was prepared for the session is void.
    pub open spec fn invalidated(self, id: SessionId) -> Self {
        let s = self.lifecycle_cancelled(id).left_cohorts(id);
        if s.downstream_generations.dom().contains(id) {
            s.generation_bumped(id)
        } else {
            s
        }
    }

    /// A new attempt to start the session begins, and the one before is void.
    pub open spec fn next_attempt(self, id: SessionId) -> Self {
        let s = self.lifecycle_cancelled(id).left_cohorts(id).generation_bumped(id);
        BridgeState {
            downstream_lifecycles: s.downstream_lifecycles.insert(
                id,
                DownstreamLifecycle { id: s.next_lifecycle_id, cancelled: false },
            ),
            next_lifecycle_id: s.next_lifecycle_id.wrapping_add(1),
            ..s
        }
    }

    /// All that is known of a session is forgotten, but for the number of its
    /// attempt, its zone and its encoder.
    pub open spec fn cleared(self, id: SessionId) -> Self {
        let s = (BridgeState {
            playback_state: self.playback_state.remove(id),
            session_formats: self.session_formats.remove(id),
            ..self
        }).invalidated(id);
        (BridgeState {
            downstream_lifecycles: s.downstream_lifecycles.remove(id),
            downstream_reset_needed: s.downstream_reset_needed.remove(id),
            desired_playback: s.desired_playback.remove(id),
            downstream_retry_attempts: s.downstream_retry_attempts.remove(id),
            ..s
        }).cleanup_cancelled(id).retry_cancelled(id).playback_aborted(id)
    }

    /// A start of a zone took as long as measured.
    pub open spec fn measured(self, zone: Seq<char>, timing: ZoneStartupTiming) -> Self {
        match timing.lag() {
            Some(lag) => BridgeState {
                samples: self.samples.insert(
                    zone,
                    sync::rolled(self.samples[zone], lag, self.sample_limit),
                ),
                ..self
            },
            None => self,
        }
    }

    /// The stream of a session has to be made anew before it plays.
    pub open spec fn reset_marked(self, id: SessionId) -> Self {
        BridgeState { downstream_reset_needed: self.downstream_reset_needed.insert(id), ..self }
    }

    /// An attempt to start ended. One that is not the current one is ignored.
    pub open spec fn start_ended(self, result: DownstreamStartResult) -> Self {
        let id = result.session_id;
        let wanted = lookup(self.desired_playback, id) == Some(true);
        if lookup(self.downstream_generations, id) != Some(result.generation) {
            self
        } else {
            let s = match result.timing {
                Some(timing) => self.measured(result.zone_id@, timing),
                None => self,
            };
            match result.outcome {
                DownstreamStartOutcome::Started => if wanted {
                    (BridgeState {
                        downstream_reset_needed: s.downstream_reset_needed.remove(id),
                        downstream_retry_attempts: s.downstream_retry_attempts.remove(id),
                        ..s
                    }).retry_cancelled(id)
                } else {
                    s
                },
                DownstreamStartOutcome::Failed => if wanted {
                    s.reset_marked(id).retry_scheduled(id, result.zone_id, result.generation)
                } else {
                    s.reset_marked(id)
                },
                DownstreamStartOutcome::Cancelled => s,
            }
        }
    }

    /// Whether a prepared stream is that of the current attempt of a session
    /// that should play.
    pub open spec fn is_current(self, prepared: PreparedDownstream) -> bool {
        let id = prepared.session_id;
        &&& lookup(self.downstream_generations, id) == Some(prepared.generation)
        &&& lookup(self.desired_playback, id) == Some(true)
        &&& lookup(self.downstream_lifecycles, id) == Some(
            DownstreamLifecycle { id: prepared.lifecycle, cancelled: false },
        )
    }

    /// The cohort that a session would join is open, or opened.
    pub open spec fn cohort_opened(self, now: u64) -> Self {
        let window = self.config.sync.multi_select_window_ms;
        let deadline = self.config.sync.start_deadline_ms;
        if self.sync_cohorts.len() == 0 || now >= self.sync_cohorts.last().window_deadline {
            let id = bumped(self.next_cohort_id);
            (BridgeState {
                next_cohort_id: id,
                sync_cohorts: self.sync_cohorts.push(
                    CohortState {
                        id,
                        opened_at: now,
                        window_deadline: after_ms(now, window),
                        start_deadline: after_ms(now, deadline),
                        sessions: Seq::empty(),
                        prepared: Map::empty(),
                    },
                ),
                ..self
            }).asks(BridgeAction::WakeCohorts { after_ms: window }).asks(
                BridgeAction::WakeCohorts { after_ms: deadline },
            )
        } else {
            self
        }
    }

    /// A session joins the open cohort.
    pub open spec fn joined(self, id: SessionId, now: u64) -> Self {
        let s = self.cohort_opened(now);
        let last = s.sync_cohorts.len() - 1;
        let c = s.sync_cohorts[last];
        if c.sessions.contains(id) {
            s
        } else {
            BridgeState {
                sync_cohorts: s.sync_cohorts.update(
                    last,
                    CohortState { sessions: c.sessions.push(id), ..c },
                ),
                ..s
            }
        }
    }

    /// A session that is not prepared when its cohort starts is tried anew.
    pub open spec fn retried(self, id: SessionId) -> Self {
        let s = self.lifecycle_cancelled(id).playback_aborted(id).generation_bumped(
            id,
        ).reset_marked(id);
        match (lookup(s.desired_playback, id), lookup(s.sessions, id)) {
            (Some(true), Some(zone_id)) => s.retry_scheduled(id, zone_id, s.generation(id)),
            _ => s,
        }
    }

    /// Several sessions are tried anew, one after the other.
    pub open spec fn all_retried(self, ids: Seq<SessionId>) -> Self
        decreases ids.len(),
    {
        if ids.len() == 0 {
            self
        } else {
            self.all_retried(ids.drop_last()).retried(ids.last())
        }
    }

    /// The delay of a prepared stream among those that start with it: its
    /// compensation, its room's offset and the default one.
    pub open spec fn anchor_delay(self, zones: Seq<ZoneId>, prepared: PreparedDownstream) -> u64 {
        let auto_ms: u64 = if self.config.sync.startup_compensation {
            sync::compensation(
                self.samples,
                zones,
                prepared.zone_id@,
                self.samples_needed,
                self.config.sync.startup_max_compensation_ms as int,
            ) as u64
        } else {
            0
        };
        let offsets = self.config.sync.zone_offsets_ms@;
        let room = prepared.zone_room_name@;
        let manual_ms: i64 = if offsets.dom().contains(room) {
            offsets[room]
        } else {
            0
        };
        sync::combined_delay(auto_ms, manual_ms, self.config.sync.default_offset_ms)
    }

    /// The anchors of the first `n` of the streams that start together: those
    /// of WAV streams, all from the same time on.
    pub open spec fn anchors(self, prepared: Seq<PreparedDownstream>, n: int, now: u64) -> Seq<
        BridgeAction,
    >
        decreases n,
    {
        if n <= 0 {
            Seq::empty()
        } else {
            let rest = self.anchors(prepared, n - 1, now);
            let p = prepared[n - 1];
            let zones = prepared.map_values(|p: PreparedDownstream| p.zone_id);
            if p.codec == StreamCodec::Wav {
                rest.push(
                    BridgeAction::SetAnchor {
                        session_id: p.session_id,
                        generation: p.generation,
                        at: (after_ms(now, ANCHOR_LEAD_MS) + self.anchor_delay(zones, p)
                            * 1_000_000) as u128,
                    },
                )
            } else {
                rest
            }
        }
    }

    /// Streams that start together get their anchors.
    pub open spec fn anchored(self, prepared: Seq<PreparedDownstream>, now: u64) -> Self {
        BridgeState {
            outbox: self.outbox + self.anchors(prepared, prepared.len() as int, now),
            ..self
        }
    }

    /// Streams start together: they get their anchors, and then their players
    /// are started side by side.
    pub open spec fn played(self, prepared: Seq<PreparedDownstream>, now: u64) -> Self {
        let s = self.anchored(prepared, now);
        (BridgeState {
            outbox: s.outbox + prepared.map_values(
                |p: PreparedDownstream| BridgeAction::Play { prepared: p },
            ),
            ..s
        }).asks(
            BridgeAction::DispatchPlays { warn_ms: self.config.sync.play_command_spread_warn_ms },
        )
    }

    /// A cohort starts: those of its sessions that are not prepared are tried
    /// anew, the others start together.
    pub open spec fn cohort_started(self, c: CohortState, now: u64) -> Self {
        let s = self.all_retried(c.unready());
        if c.ready().len() == 0 {
            s
        } else {
            s.played(c.ready(), now)
        }
    }

    /// Several cohorts start, one after the other.
    pub open spec fn cohorts_started(self, cs: Seq<CohortState>, now: u64) -> Self
        decreases cs.len(),
    {
        if cs.len() == 0 {
            self
        } else {
            self.cohorts_started(cs.drop_last(), now).cohort_started(cs.last(), now)
        }
    }

    /// The first cohorts start, up to one that does not start yet.
    pub open spec fn started(self, now: u64) -> Self {
        let n = due(self.sync_cohorts, now) as int;
        (BridgeState { sync_cohorts: self.sync_cohorts.skip(n), ..self }).cohorts_started(
            self.sync_cohorts.take(n),
            now,
        )
    }

    /// A stream is prepared. One that is not of the current attempt is ignored,
    /// and so is one whose cohort no longer awaits it.
    pub open spec fn prepared(self, prepared: PreparedDownstream, now: u64) -> Self {
        if !self.is_current(prepared) {
            self
        } else {
            let s = self.measured(prepared.zone_id@, prepared.timing);
            match awaiting_from(s.sync_cohorts, prepared, 0) {
                Some(i) => {
                    let c = s.sync_cohorts[i];
                    (BridgeState {
                        sync_cohorts: s.sync_cohorts.update(
                            i,
                            CohortState {
                                prepared: c.prepared.insert(prepared.session_id, prepared),
                                ..c
                            },
                        ),
                        ..s
                    }).started(now)
                },
                None => s,
            }
        }
    }

    /// A session begins: the rest of an earlier one under its name is
    /// forgotten, and a first attempt to start it begins.
    pub open spec fn begun(self, id: SessionId, zone_id: ZoneId) -> Self {
        let s = self.cleanup_cancelled(id);
        if s.zones.dom().contains(zone_id@) {
            s.cleared(id).next_attempt(id)
        } else {
            s
        }
    }

    /// The stream of an attempt was made: it is held back, its session joins a
    /// cohort, and it is prepared.
    pub open spec fn preparing(self, plan: DownstreamPlan, codec: StreamCodec, force: bool, now: u64)
        -> Self {
        let id = plan.session_id;
        let s = self.asks(
            BridgeAction::HoldDelivery { session_id: id, generation: plan.generation },
        ).joined(id, now);
        (BridgeState { playback_tasks: s.playback_tasks.insert(id), ..s }).asks(
            BridgeAction::StartPrepare {
                start: SonosStreamPrepare {
                    session_id: id,
                    zone_id: plan.zone_id,
                    generation: plan.generation,
                    cohort_id: s.sync_cohorts.last().id,
                    lifecycle: plan.lifecycle,
                    zone: plan.zone,
                    codec,
                    force_standalone_on_start: force,
                },
            },
        )
    }

    /// The first stream of a session was made. Where the configuration asks for
    /// it, the room leaves its group first, also one that leads its group.
    pub open spec fn session_started(self, plan: DownstreamPlan, codec: StreamCodec, now: u64) -> Self {
        let id = plan.session_id;
        (BridgeState {
            encoders: self.encoders.insert(id),
            sessions: self.sessions.insert(id, plan.zone_id),
            session_formats: self.session_formats.insert(id, plan.format),
            desired_playback: self.desired_playback.insert(id, true),
            ..self
        }).preparing(plan, codec, self.config.sonos.force_standalone_on_start, now)
    }

    /// Whether a session's stream can be made anew.
    pub open spec fn can_restart(self, id: SessionId, zone_id: ZoneId) -> bool {
        self.session_formats.dom().contains(id) && self.zones.dom().contains(zone_id@)
    }

    /// The encoder of a session is shut down, where it has one, and its stream
    /// is given up.
    pub open spec fn stream_removed(self, id: SessionId) -> Self {
        let s = if self.encoders.contains(id) {
            (BridgeState { encoders: self.encoders.remove(id), ..self }).asks(
                BridgeAction::ShutdownEncoder { session_id: id },
            )
        } else {
            self
        };
        s.asks(BridgeAction::RemoveStream { session_id: id })
    }

    /// A session's stream is to be made anew, where it can be.
    pub open spec fn restarting(self, id: SessionId, zone_id: ZoneId) -> Self {
        let s = self.reset_marked(id).retry_cancelled(id);
        if s.can_restart(id, zone_id) {
            s.playback_aborted(id).stream_removed(id).next_attempt(id)
        } else {
            s
        }
    }

    /// What the new stream of a session is made from, once its attempt began.
    pub open spec fn plan(self, id: SessionId, zone_id: ZoneId, format: PcmFormat) -> DownstreamPlan {
        DownstreamPlan {
            session_id: id,
            zone_id,
            zone: self.zones[zone_id@],
            format,
            generation: self.generation(id),
            lifecycle: self.downstream_lifecycles[id].id,
        }
    }

    /// The new stream of a session was made.
    pub open spec fn restarted(self, plan: DownstreamPlan, codec: StreamCodec, now: u64) -> Self {
        (BridgeState { encoders: self.encoders.insert(plan.session_id), ..self }).preparing(
            plan,
            codec,
            false,
            now,
        )
    }

    /// Whether telling a session to play makes its stream anew.
    pub open spec fn play_restarts(self, id: SessionId) -> bool {
        lookup(self.playback_state, id) == Some(false) || self.downstream_reset_needed.contains(id)
    }

    /// A session should play or pause.
    pub open spec fn told(self, id: SessionId, playing: bool) -> Self {
        BridgeState {
            desired_playback: self.desired_playback.insert(id, playing),
            playback_state: self.playback_state.insert(id, playing),
            ..self
        }
    }

    /// A session pauses: whatever was prepared is void, and its player is stopped.
    pub open spec fn pausing(self, id: SessionId, zone_id: ZoneId) -> Self {
        let s = self.reset_marked(id).retry_cancelled(id).invalidated(id).playback_aborted(id);
        if s.zones.dom().contains(zone_id@) {
            (BridgeState { playback_tasks: s.playback_tasks.insert(id), ..s }).asks(
                BridgeAction::StopForPause { session_id: id, zone_id },
            )
        } else {
            s
        }
    }

    /// A session is told to play or to pause. To play it, its stream may have
    /// to be made anew.
    pub open spec fn playback_set(self, id: SessionId, zone_id: ZoneId, playing: bool) -> Self {
        if !self.sessions.dom().contains(id) {
            self
        } else if !playing {
            self.told(id, false).pausing(id, zone_id)
        } else if self.play_restarts(id) {
            self.told(id, true).cleanup_cancelled(id).restarting(id, zone_id)
        } else {
            self.told(id, true).cleanup_cancelled(id)
        }
    }

    /// Whether telling a session to play leads to a plan for a new stream.
    pub open spec fn playback_plans(self, id: SessionId, zone_id: ZoneId, playing: bool) -> bool {
        playing && self.sessions.dom().contains(id) && self.play_restarts(id) && self.can_restart(
            id,
            zone_id,
        )
    }

    /// A retry became due. One of an attempt that is not the current one is
    /// ignored, and so is one that is no longer needed.
    pub open spec fn retry_due(self, retry: DownstreamRetry) -> Self {
        let s = BridgeState {
            downstream_retry_tasks: self.downstream_retry_tasks.remove(retry.session_id),
            ..self
        };
        if s.retry_needed(retry) {
            s.restarting(retry.session_id, retry.zone_id)
        } else {
            s
        }
    }

    /// Whether a retry is that of the current attempt and still needed.
    pub open spec fn retry_needed(self, retry: DownstreamRetry) -> bool {
        &&& lookup(self.downstream_generations, retry.session_id) == Some(retry.generation)
        &&& lookup(self.desired_playback, retry.session_id) == Some(true)
        &&& self.downstream_reset_needed.contains(retry.session_id)
    }

    /// A session ends; its player, or that of the given zone, is stopped where
    /// the configuration asks for it.
    pub open spec fn stopped(self, id: SessionId, fallback: Option<ZoneId>) -> Self {
        let zone = match lookup(self.sessions, id) {
            Some(zone_id) => Some(zone_id),
            None => fallback,
        };
        let s = (BridgeState { sessions: self.sessions.remove(id), ..self }).cleared(
            id,
        ).stream_removed(id);
        match zone {
            Some(zone_id) => if s.config.sonos.stop_on_disconnect && s.zones.dom().contains(
                zone_id@,
            ) {
                s.asks(BridgeAction::StopPlayer { zone_id })
            } else {
                s
            },
            None => s,
        }
    }

    /// Sessions of a zone end, one after the other, to make room for another.
    pub open spec fn replaced(self, ids: Seq<SessionId>, zone_id: ZoneId) -> Self
        decreases ids.len(),
    {
        if ids.len() == 0 {
            self
        } else {
            self.replaced(ids.drop_last(), zone_id).stopped(ids.last(), Some(zone_id))
        }
    }

    /// Several sessions end, one after the other.
    pub open spec fn all_stopped(self, ids: Seq<SessionId>) -> Self
        decreases ids.len(),
    {
        if ids.len() == 0 {
            self
        } else {
            self.all_stopped(ids.drop_last()).stopped(ids.last(), None)
        }
    }

    /// Whether a session whose grace period is over is still paused.
    pub open spec fn expires(self, id: SessionId) -> bool {
        self.sessions.dom().contains(id) && lookup(self.desired_playback, id) == Some(false)
    }

    /// The audio of a session was flushed.
    pub open spec fn flushed(self, id: SessionId) -> Self {
        let s = self.asks(BridgeAction::ArmAnchor { session_id: id });
        if lookup(self.desired_playback, id) == Some(false) || lookup(self.playback_state, id)
            == Some(false) {
            s.reset_marked(id)
        } else {
            s
        }
    }

    /// The audio stream of a session ended while it was paused. That comes too
    /// late where the session should play again.
    pub open spec fn ended_while_paused(self, id: SessionId) -> Self {
        if self.sessions.dom().contains(id) && lookup(self.desired_playback, id) != Some(true) {
            self.reset_marked(id).cleanup_scheduled(id)
        } else {
            self
        }
    }
}

} // verus!
