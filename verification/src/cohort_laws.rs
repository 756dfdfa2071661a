//! What becomes of the sessions that start together.

use vstd::prelude::*;

use crate::bridge_laws;
use crate::bridge_state;
use crate::bridge_state::{
    BridgeAction, BridgeState, CohortState, PreparedDownstream, SessionState,
};
use crate::ids::{SessionId, ZoneId};
use crate::sequences;
use crate::session_laws;
use crate::sync;
use crate::types::StreamCodec;

verus! {

// ---------------------------------------------------------------------------
// Who is played
// ---------------------------------------------------------------------------
/// The members of a cohort are played or tried anew, each of them once: those
/// that are prepared are played, in the order in which they joined.
pub proof fn members_are_played_in_order(c: CohortState, i: int, j: int)
    requires
        c.well_formed(),
    ensures
        c.ready().len() + c.unready().len() == c.sessions.len(),
        c.unready().no_duplicates(),
        forall|k: int|
            0 <= k < c.ready().len() ==> c.prepared.dom().contains(
                (#[trigger] c.ready()[k]).session_id,
            ) && c.prepared[c.ready()[k].session_id] == c.ready()[k],
        0 <= i < j < c.ready().len() ==> exists|a: int, b: int|
            0 <= a < b < c.sessions.len() && #[trigger] c.sessions[a] == c.ready()[i].session_id
                && #[trigger] c.sessions[b] == c.ready()[j].session_id,
{
    let p = |s: SessionId| c.prepared.dom().contains(s);
    let q = |s: SessionId| !c.prepared.dom().contains(s);
    let f = c.sessions.filter(p);
    sequences::lemma_filter_split(c.sessions, p);
    assert(q =~= |x: SessionId| !p(x));
    bridge_laws::lemma_filter_sessions(c.sessions, p);
    bridge_laws::lemma_filter_sessions(c.sessions, q);
    assert forall|k: int| 0 <= k < c.ready().len() implies c.prepared.dom().contains(
        (#[trigger] c.ready()[k]).session_id,
    ) && c.prepared[c.ready()[k].session_id] == c.ready()[k] && c.ready()[k].session_id == f[k] by {
        assert(f.contains(f[k]));
        assert(c.prepared.dom().contains(f[k]));
    }
    if 0 <= i < j < c.ready().len() {
        sequences::lemma_filter_order(c.sessions, p, i, j);
        assert(c.ready()[i].session_id == f[i] && c.ready()[j].session_id == f[j]);
    }
}

/// What trying a member anew makes of a state.
pub open spec fn is_tried_anew(s: BridgeState, t: BridgeState, id: SessionId) -> bool {
    let known = s.session(id);
    let number: u64 = match known.generation {
        Some(n) => session_laws::raised(n, 1),
        None => 1,
    };
    let before: u32 = match known.retry_attempts {
        Some(n) => n,
        None => 0,
    };
    let wanted = known.desired == Some(true) && known.zone is Some;
    let given_up = SessionState {
        generation: Some(number),
        lifecycle: session_laws::cancelled(known.lifecycle),
        reset_needed: true,
        playback_task: false,
        ..known
    };
    let ended = session_laws::cancels(known.lifecycle) + session_laws::one_if(
        known.playback_task,
        BridgeAction::AbortPlayback { session_id: id },
    );
    &&& t.sync_cohorts == s.sync_cohorts
    &&& wanted ==> {
        &&& t.session(id) =~= (SessionState {
            retry_task: true,
            retry_attempts: Some(
                if before < u32::MAX {
                    (before + 1) as u32
                } else {
                    u32::MAX
                },
            ),
            ..given_up
        })
        &&& t.outbox =~= s.outbox + ended + session_laws::one_if(
            known.retry_task,
            BridgeAction::AbortRetry { session_id: id },
        ) + seq![
            BridgeAction::ScheduleRetry {
                session_id: id,
                zone_id: known.zone->0,
                generation: number,
                after_ms: bridge_state::retry_delay(before),
            },
        ]
    }
    &&& !wanted ==> {
        &&& t.session(id) =~= given_up
        &&& t.outbox =~= s.outbox + ended
    }
}

/// A member of a starting cohort that is not prepared has its attempt cancelled
/// and void and its preparation given up; where it should play, its retry is
/// asked for under the number of the attempt that it then has.
pub proof fn unprepared_members_are_tried_anew(s: BridgeState, id: SessionId)
    ensures
        is_tried_anew(s, s.retried(id), id),
{
    let known = s.session(id);
    let given_up = s.lifecycle_cancelled(id).playback_aborted(id).generation_bumped(
        id,
    ).reset_marked(id);
    let ended = session_laws::cancels(known.lifecycle) + session_laws::one_if(
        known.playback_task,
        BridgeAction::AbortPlayback { session_id: id },
    );
    assert(given_up.outbox =~= s.outbox + ended);
    lemma_retry_scheduled(given_up, id, s.sessions[id], given_up.generation(id));
}

pub(crate) proof fn lemma_retry_scheduled(s: BridgeState, id: SessionId, zone_id: ZoneId, generation: u64)
    ensures
        ({
            let known = s.session(id);
            let t = s.retry_scheduled(id, zone_id, generation);
            let before: u32 = match known.retry_attempts {
                Some(n) => n,
                None => 0,
            };
            &&& t.sync_cohorts == s.sync_cohorts
            &&& t.session(id) == (SessionState {
                retry_task: true,
                retry_attempts: Some(
                    if before < u32::MAX {
                        (before + 1) as u32
                    } else {
                        u32::MAX
                    },
                ),
                ..known
            })
            &&& t.outbox == s.outbox + session_laws::one_if(
                known.retry_task,
                BridgeAction::AbortRetry { session_id: id },
            ) + seq![
                BridgeAction::ScheduleRetry {
                    session_id: id,
                    zone_id,
                    generation,
                    after_ms: bridge_state::retry_delay(before),
                },
            ]
        }),
{
}

// ---------------------------------------------------------------------------
// Anchors
// ---------------------------------------------------------------------------
/// How many of the first `n` streams are WAV streams.
pub open spec fn wav_streams(prepared: Seq<PreparedDownstream>, n: int) -> nat
    decreases n,
{
    if n <= 0 {
        0
    } else {
        wav_streams(prepared, n - 1) + if prepared[n - 1].codec == StreamCodec::Wav {
            1nat
        } else {
            0nat
        }
    }
}

proof fn lemma_wav_streams(prepared: Seq<PreparedDownstream>, i: int, n: int)
    requires
        0 <= i <= n,
    ensures
        wav_streams(prepared, i) <= wav_streams(prepared, n),
    decreases n,
{
    if i < n {
        lemma_wav_streams(prepared, i, n - 1);
    }
}

/// Streams that start together are anchored 120 milliseconds ahead, each moved by
/// the delay of its room: every WAV stream has one anchor, in order, and no other
/// stream has.
pub proof fn wav_streams_are_anchored(
    s: BridgeState,
    prepared: Seq<PreparedDownstream>,
    n: int,
    now: u64,
    i: int,
)
    requires
        0 <= i < n <= prepared.len(),
    ensures
        ({
            let anchors = s.anchors(prepared, n, now);
            let zones = prepared.map_values(|p: PreparedDownstream| p.zone_id);
            let k = wav_streams(prepared, i) as int;
            &&& anchors.len() == wav_streams(prepared, n)
            &&& prepared[i].codec == StreamCodec::Wav ==> k < anchors.len() && anchors[k] == (
            BridgeAction::SetAnchor {
                session_id: prepared[i].session_id,
                generation: prepared[i].generation,
                at: (now + 120_000_000 + s.anchor_delay(zones, prepared[i]) * 1_000_000) as u128,
            })
        }),
    decreases n,
{
    if i < n - 1 {
        wav_streams_are_anchored(s, prepared, n - 1, now, i);
        lemma_wav_streams(prepared, i + 1, n - 1);
    } else if n > 1 {
        wav_streams_are_anchored(s, prepared, n - 1, now, 0);
    } else {
        assert(s.anchors(prepared, 0, now).len() == 0);
    }
}

/// Streams that start together are anchored first, then all of their players are
/// started in order, and then these starts are run together; nothing else is
/// asked, and nothing that is known of a session changes.
pub proof fn prepared_streams_are_started_together(
    s: BridgeState,
    prepared: Seq<PreparedDownstream>,
    now: u64,
    i: int,
)
    requires
        0 <= i < prepared.len(),
    ensures
        ({
            let t = s.played(prepared, now);
            let before = s.outbox.len() + wav_streams(prepared, prepared.len() as int);
            &&& t == (BridgeState { outbox: t.outbox, ..s })
            &&& s.outbox.is_prefix_of(t.outbox)
            &&& t.outbox.len() == before + prepared.len() + 1
            &&& t.outbox[before + i] == (BridgeAction::Play { prepared: prepared[i] })
            &&& t.outbox.last() == (BridgeAction::DispatchPlays {
                warn_ms: s.config.sync.play_command_spread_warn_ms,
            })
            &&& prepared[i].codec == StreamCodec::Wav ==> t.outbox[(s.outbox.len() + wav_streams(
                prepared,
                i,
            )) as int] is SetAnchor
        }),
{
    wav_streams_are_anchored(s, prepared, prepared.len() as int, now, i);
    let t = s.played(prepared, now);
    assert(s.outbox =~= t.outbox.take(s.outbox.len() as int));
}

/// The delay of a room is the sum of its compensation, where that is switched on,
/// the offset configured for the room by its name, and the one for all rooms; a
/// negative sum is no delay. Two rooms that are not compensated lie apart by
/// their offsets.
pub proof fn rooms_are_delayed_by_their_offsets(
    s: BridgeState,
    zones: Seq<ZoneId>,
    a: PreparedDownstream,
    b: PreparedDownstream,
)
    ensures
        ({
            let offsets = s.config.sync.zone_offsets_ms@;
            let all = s.config.sync.default_offset_ms as int;
            let own = |p: PreparedDownstream|
                if offsets.dom().contains(p.zone_room_name@) {
                    offsets[p.zone_room_name@] as int
                } else {
                    0int
                };
            let waits = if s.config.sync.startup_compensation {
                sync::compensation(
                    s.samples,
                    zones,
                    a.zone_id@,
                    s.samples_needed,
                    s.config.sync.startup_max_compensation_ms as int,
                )
            } else {
                0
            };
            let sum = waits + own(a) + all;
            let delay_a = s.anchor_delay(zones, a) as int;
            let delay_b = s.anchor_delay(zones, b) as int;
            &&& 0 <= waits <= s.config.sync.startup_max_compensation_ms
            &&& 0 <= sum <= u64::MAX ==> delay_a == sum
            &&& sum < 0 ==> delay_a == 0
            &&& !s.config.sync.startup_compensation && own(a) + all >= 0 && own(b) + all >= 0
                ==> delay_a - delay_b == own(a) - own(b)
        }),
{
    sync::lemma_compensation_within(
        s.samples,
        zones,
        a.zone_id@,
        s.samples_needed,
        s.config.sync.startup_max_compensation_ms as int,
    );
}

// ---------------------------------------------------------------------------
// What is asked when cohorts start
// ---------------------------------------------------------------------------
proof fn lemma_retrying_keeps_asked(s: BridgeState, ids: Seq<SessionId>, action: BridgeAction)
    requires
        s.outbox.contains(action),
    ensures
        s.all_retried(ids).outbox.contains(action),
    decreases ids.len(),
{
    if ids.len() > 0 {
        let m = s.all_retried(ids.drop_last());
        lemma_retrying_keeps_asked(s, ids.drop_last(), action);
        unprepared_members_are_tried_anew(m, ids.last());
        let k = choose|k: int| 0 <= k < m.outbox.len() && m.outbox[k] == action;
        assert(m.retried(ids.last()).outbox[k] == action);
    }
}

proof fn lemma_cohorts_play(
    s: BridgeState,
    cs: Seq<CohortState>,
    now: u64,
    k: int,
    id: SessionId,
)
    requires
        0 <= k < cs.len(),
        cs[k].sessions.contains(id),
        cs[k].prepared.dom().contains(id),
    ensures
        s.cohorts_started(cs, now).outbox.contains(
            BridgeAction::Play { prepared: cs[k].prepared[id] },
        ),
    decreases cs.len(),
{
    let m = s.cohorts_started(cs.drop_last(), now);
    let c = cs.last();
    if k == cs.len() - 1 {
        bridge_laws::no_member_of_a_started_cohort_is_lost(m, c, now, id);
    } else {
        let action = BridgeAction::Play { prepared: cs[k].prepared[id] };
        lemma_cohorts_play(s, cs.drop_last(), now, k, id);
        lemma_retrying_keeps_asked(m, c.unready(), action);
        let r = m.all_retried(c.unready());
        let j = choose|j: int| 0 <= j < r.outbox.len() && r.outbox[j] == action;
        assert(s.cohorts_started(cs, now).outbox[j] == action);
    }
}

proof fn lemma_due(cs: Seq<CohortState>, now: u64, k: int)
    requires
        0 <= k < cs.len(),
        forall|i: int| 0 <= i <= k ==> (#[trigger] cs[i]).should_start(now),
    ensures
        bridge_state::due(cs, now) > k,
    decreases k,
{
    assert(cs[0].should_start(now));
    if k > 0 {
        let rest = cs.skip(1);
        assert forall|i: int| 0 <= i <= k - 1 implies (#[trigger] rest[i]).should_start(now) by {
            assert(rest[i] == cs[i + 1]);
        }
        lemma_due(rest, now, k - 1);
    }
}

/// Once a cohort and all before it are to start, looking at the cohorts plays
/// every prepared stream of it, and the cohort is gone. The cohorts after the
/// first that waits stay as they are.
pub proof fn due_cohorts_are_played(s: BridgeState, now: u64, k: int, id: SessionId)
    requires
        0 <= k < s.sync_cohorts.len(),
        forall|i: int| 0 <= i <= k ==> (#[trigger] s.sync_cohorts[i]).should_start(now),
        s.sync_cohorts[k].sessions.contains(id),
        s.sync_cohorts[k].prepared.dom().contains(id),
    ensures
        s.started(now).outbox.contains(
            BridgeAction::Play { prepared: s.sync_cohorts[k].prepared[id] },
        ),
        s.started(now).sync_cohorts.len() < s.sync_cohorts.len() - k,
{
    lemma_due(s.sync_cohorts, now, k);
    bridge_laws::cohorts_start_in_order(s.sync_cohorts, now);
    let n = bridge_state::due(s.sync_cohorts, now) as int;
    let rest = BridgeState { sync_cohorts: s.sync_cohorts.skip(n), ..s };
    let cs = s.sync_cohorts.take(n);
    assert(cs[k] == s.sync_cohorts[k]);
    lemma_cohorts_play(rest, cs, now, k, id);
    bridge_laws::lemma_cohorts_started(rest, cs, now);
}

/// While the first cohort waits, looking at the cohorts changes nothing.
pub proof fn waiting_cohorts_are_left_alone(s: BridgeState, now: u64)
    requires
        s.sync_cohorts.len() > 0 ==> !s.sync_cohorts[0].should_start(now),
    ensures
        s.started(now) == s,
{
    assert(s.sync_cohorts.skip(0) =~= s.sync_cohorts);
    assert(s.sync_cohorts.take(0) =~= Seq::empty());
    assert(s.started(now) =~= s);
}

/// A stream that is prepared for the cohort that awaits it is either kept with
/// the cohort, while that waits, or played at once.
pub proof fn prepared_streams_are_kept_or_played(
    s: BridgeState,
    prepared: PreparedDownstream,
    now: u64,
    i: int,
)
    requires
        s.is_current(prepared),
        0 <= i < s.sync_cohorts.len(),
        s.sync_cohorts[i].id == prepared.cohort_id,
        s.sync_cohorts[i].sessions.contains(prepared.session_id),
        bridge_laws::bridge_well_formed(s),
    ensures
        ({
            let t = s.prepared(prepared, now);
            let kept = t.sync_cohorts.len() + i - s.sync_cohorts.len();
            ||| t.outbox.contains(BridgeAction::Play { prepared })
            ||| {
                &&& 0 <= kept < t.sync_cohorts.len()
                &&& t.sync_cohorts[kept].id == prepared.cohort_id
                &&& t.sync_cohorts[kept].sessions == s.sync_cohorts[i].sessions
                &&& t.sync_cohorts[kept].prepared == s.sync_cohorts[i].prepared.insert(
                    prepared.session_id,
                    prepared,
                )
                &&& t.sync_cohorts[kept].window_deadline == s.sync_cohorts[i].window_deadline
                &&& t.sync_cohorts[kept].start_deadline == s.sync_cohorts[i].start_deadline
            }
        }),
{
    let m = s.measured(prepared.zone_id@, prepared.timing);
    bridge_laws::lemma_awaiting(m.sync_cohorts, prepared, 0);
    assert(bridge_state::awaits(m.sync_cohorts[i], prepared));
    let found = bridge_state::awaiting_from(m.sync_cohorts, prepared, 0);
    assert(found is Some);
    let j = found->0;
    let id = prepared.session_id;
    assert(j == i) by {
        if j < i {
            assert(s.sync_cohorts[j].sessions.contains(id));
            assert(!s.sync_cohorts[i].sessions.contains(id));
        }
        if i < j {
            assert(s.sync_cohorts[i].sessions.contains(id));
            assert(!s.sync_cohorts[j].sessions.contains(id));
        }
    }
    let c = m.sync_cohorts[i];
    let filled = CohortState { prepared: c.prepared.insert(id, prepared), ..c };
    let cs = m.sync_cohorts.update(i, filled);
    let u = BridgeState { sync_cohorts: cs, ..m };
    let n = bridge_state::due(cs, now) as int;
    bridge_laws::cohorts_start_in_order(cs, now);
    let rest = BridgeState { sync_cohorts: cs.skip(n), ..u };
    bridge_laws::lemma_cohorts_started(rest, cs.take(n), now);
    assert(s.prepared(prepared, now) == u.started(now));
    if i < n {
        assert(cs.take(n)[i] == filled);
        lemma_cohorts_play(rest, cs.take(n), now, i, id);
    } else {
        assert(cs.skip(n)[i - n] == filled);
    }
}

// ---------------------------------------------------------------------------
// Who stays
// ---------------------------------------------------------------------------
/// A session that leaves its cohort leaves the other members where they are: in
/// a cohort of the same name and deadlines, prepared or not as before.
pub proof fn the_other_members_stay(cs: Seq<CohortState>, id: SessionId, i: int, other: SessionId)
    requires
        0 <= i < cs.len(),
        cs[i].sessions.contains(other),
        other != id,
    ensures
        ({
            let out = bridge_state::cohorts_without(cs, id);
            exists|k: int|
                0 <= k < out.len() && (#[trigger] out[k]).sessions.contains(other) && out[k].id
                    == cs[i].id && out[k].opened_at == cs[i].opened_at && out[k].window_deadline
                    == cs[i].window_deadline && out[k].start_deadline == cs[i].start_deadline
                    && bridge_state::lookup(out[k].prepared, other) == bridge_state::lookup(
                    cs[i].prepared,
                    other,
                ) && !out[k].sessions.contains(id) && !out[k].prepared.dom().contains(id)
        }),
    decreases cs.len(),
{
    let strip = |c: CohortState| c.without(id);
    reveal(Seq::filter);
    let rest = cs.drop_last();
    let c = cs.last();
    let before = bridge_state::cohorts_without(rest, id);
    let out = bridge_state::cohorts_without(cs, id);
    assert(cs.map_values(strip).drop_last() =~= rest.map_values(strip));
    assert(cs.map_values(strip).last() == c.without(id));
    bridge_laws::lemma_filter_sessions(cs[i].sessions, bridge_state::other_than(id));
    assert(out == if c.without(id).sessions.len() > 0 {
        before.push(c.without(id))
    } else {
        before
    });
    if i < rest.len() {
        the_other_members_stay(rest, id, i, other);
        let k = choose|k: int|
            0 <= k < before.len() && (#[trigger] before[k]).sessions.contains(other) && before[k].id
                == cs[i].id && before[k].opened_at == cs[i].opened_at && before[k].window_deadline
                == cs[i].window_deadline && before[k].start_deadline == cs[i].start_deadline
                && bridge_state::lookup(before[k].prepared, other) == bridge_state::lookup(
                cs[i].prepared,
                other,
            ) && !before[k].sessions.contains(id) && !before[k].prepared.dom().contains(id);
        assert(out[k] == before[k]);
    } else {
        assert(c.without(id).sessions.contains(other));
        let k = before.len() as int;
        assert(out[k] == c.without(id));
        assert(!out[k].sessions.contains(id));
    }
}

/// When all sessions end, each of them is forgotten, and a session that is not
/// among them stays as it is.
pub proof fn all_sessions_end(s: BridgeState, ids: Seq<SessionId>, id: SessionId)
    ensures
        ids.contains(id) ==> {
            let known = s.all_stopped(ids).session(id);
            &&& !known.encoder
            &&& known.zone is None
            &&& known.format is None
            &&& known.lifecycle is None
            &&& known.desired is None
            &&& known.playing is None
            &&& !known.playback_task
            &&& !known.cleanup_task
            &&& !known.retry_task
            &&& !bridge_state::in_cohorts(s.all_stopped(ids).sync_cohorts, id)
        },
        !ids.contains(id) ==> {
            &&& s.all_stopped(ids).session(id) == s.session(id)
            &&& bridge_state::in_cohorts(s.all_stopped(ids).sync_cohorts, id)
                == bridge_state::in_cohorts(s.sync_cohorts, id)
        },
    decreases ids.len(),
{
    if ids.len() > 0 {
        let rest = ids.drop_last();
        let last = ids.last();
        let m = s.all_stopped(rest);
        all_sessions_end(s, rest, id);
        bridge_laws::stopping_concerns_one_session(m, last, None);
        bridge_laws::stopping_forgets_the_session(m, last, None);
        reveal(bridge_laws::concerns_only);
        assert(ids[ids.len() - 1] == last);
        if id != last {
            if ids.contains(id) {
                let i = choose|i: int| 0 <= i < ids.len() && ids[i] == id;
                assert(rest[i] == id);
            } else if rest.contains(id) {
                let i = choose|i: int| 0 <= i < rest.len() && rest[i] == id;
                assert(ids[i] == id);
            }
            assert(s.all_stopped(ids).session(id) == m.session(id));
            assert(bridge_state::in_cohorts(s.all_stopped(ids).sync_cohorts, id)
                == bridge_state::in_cohorts(m.sync_cohorts, id));
        }
    }
}

/// A session is in the cohorts exactly where it is a member of one of them,
/// whichever that is.
pub proof fn members_are_in_the_cohorts(cs: Seq<CohortState>, id: SessionId, i: int)
    ensures
        0 <= i < cs.len() && cs[i].sessions.contains(id) ==> bridge_state::in_cohorts(cs, id),
        (forall|k: int| 0 <= k < cs.len() ==> !(#[trigger] cs[k]).sessions.contains(id))
            ==> !bridge_state::in_cohorts(cs, id),
{
}

/// A stream that was prepared for a cohort that is gone, or that its session has
/// left, is not played and kept nowhere; only what was measured is kept.
pub proof fn streams_of_other_cohorts_are_not_kept(
    s: BridgeState,
    prepared: PreparedDownstream,
    now: u64,
)
    requires
        forall|i: int|
            0 <= i < s.sync_cohorts.len() ==> (#[trigger] s.sync_cohorts[i]).id
                != prepared.cohort_id || !s.sync_cohorts[i].sessions.contains(prepared.session_id),
    ensures
        s.prepared(prepared, now).sync_cohorts == s.sync_cohorts,
        s.prepared(prepared, now).outbox == s.outbox,
        s.prepared(prepared, now).session(prepared.session_id) == s.session(prepared.session_id),
{
    if s.is_current(prepared) {
        let m = s.measured(prepared.zone_id@, prepared.timing);
        bridge_laws::lemma_awaiting(m.sync_cohorts, prepared, 0);
    }
}

/// What the preparation of a current stream took is the latest lag of its zone.
pub proof fn preparations_are_measured(
    s: BridgeState,
    prepared: PreparedDownstream,
    now: u64,
    zone: Seq<char>,
)
    requires
        s.is_current(prepared),
    ensures
        ({
            let t = s.prepared(prepared, now);
            &&& prepared.timing.lag() matches Some(lag) ==> s.sample_limit > 0
                ==> t.samples[prepared.zone_id@].len() > 0 && t.samples[prepared.zone_id@].last()
                == lag
            &&& zone != prepared.zone_id@ ==> t.samples[zone] == s.samples[zone]
        }),
{
    let m = s.measured(prepared.zone_id@, prepared.timing);
    match bridge_state::awaiting_from(m.sync_cohorts, prepared, 0) {
        Some(i) => {
            let c = m.sync_cohorts[i];
            let filled = CohortState {
                prepared: c.prepared.insert(prepared.session_id, prepared),
                ..c
            };
            let cs = m.sync_cohorts.update(i, filled);
            let u = BridgeState { sync_cohorts: cs, ..m };
            let n = bridge_state::due(cs, now) as int;
            lemma_starting_keeps_samples(
                BridgeState { sync_cohorts: cs.skip(n), ..u },
                cs.take(n),
                now,
            );
        },
        None => {},
    }
}

proof fn lemma_retrying_keeps_samples(s: BridgeState, ids: Seq<SessionId>)
    ensures
        s.all_retried(ids).samples == s.samples,
    decreases ids.len(),
{
    if ids.len() > 0 {
        lemma_retrying_keeps_samples(s, ids.drop_last());
    }
}

proof fn lemma_starting_keeps_samples(s: BridgeState, cs: Seq<CohortState>, now: u64)
    ensures
        s.cohorts_started(cs, now).samples == s.samples,
    decreases cs.len(),
{
    if cs.len() > 0 {
        lemma_starting_keeps_samples(s, cs.drop_last(), now);
        lemma_retrying_keeps_samples(
            s.cohorts_started(cs.drop_last(), now),
            cs.last().unready(),
        );
    }
}

proof fn lemma_retrying_spares(s: BridgeState, ids: Seq<SessionId>, other: SessionId)
    requires
        !ids.contains(other),
    ensures
        s.all_retried(ids).session(other) == s.session(other),
        s.all_retried(ids).config == s.config,
        s.all_retried(ids).zones == s.zones,
    decreases ids.len(),
{
    if ids.len() > 0 {
        let rest = ids.drop_last();
        assert forall|i: int| 0 <= i < rest.len() implies rest[i] != other by {
            assert(ids[i] == rest[i]);
        }
        lemma_retrying_spares(s, rest, other);
        assert(ids[ids.len() - 1] == ids.last());
        lemma_one_retry_spares(s.all_retried(rest), ids.last(), other);
        assert(s.all_retried(ids) == s.all_retried(rest).retried(ids.last()));
    }
}

proof fn lemma_one_retry_spares(s: BridgeState, id: SessionId, other: SessionId)
    requires
        id != other,
    ensures
        s.retried(id).session(other) == s.session(other),
        s.retried(id).config == s.config,
        s.retried(id).zones == s.zones,
{
    bridge_laws::lemma_retried(s, id);
}

proof fn lemma_starting_spares(
    s: BridgeState,
    cs: Seq<CohortState>,
    now: u64,
    other: SessionId,
)
    requires
        forall|k: int|
            0 <= k < cs.len() ==> !(#[trigger] cs[k]).sessions.contains(other)
                || cs[k].prepared.dom().contains(other),
    ensures
        s.cohorts_started(cs, now).session(other) == s.session(other),
        s.cohorts_started(cs, now).config == s.config,
        s.cohorts_started(cs, now).zones == s.zones,
    decreases cs.len(),
{
    if cs.len() > 0 {
        let rest = cs.drop_last();
        let c = cs.last();
        assert forall|k: int| 0 <= k < rest.len() implies !(#[trigger] rest[k]).sessions.contains(
            other,
        ) || rest[k].prepared.dom().contains(other) by {
            assert(cs[k] == rest[k]);
        }
        lemma_starting_spares(s, rest, now, other);
        let m = s.cohorts_started(rest, now);
        assert(cs[cs.len() - 1] == c);
        let late = |x: SessionId| !c.prepared.dom().contains(x);
        bridge_laws::lemma_filter_sessions(c.sessions, late);
        assert(!c.unready().contains(other));
        lemma_retrying_spares(m, c.unready(), other);
        let r = m.all_retried(c.unready());
        assert(s.cohorts_started(cs, now).session(other) == r.session(other));
    }
}

/// The start of cohorts changes nothing that is known of a session that is in
/// none of them, or that is prepared; neither the configuration nor the players
/// change.
pub proof fn starts_spare_other_sessions(s: BridgeState, now: u64, other: SessionId)
    requires
        forall|k: int|
            0 <= k < s.sync_cohorts.len() ==> !(#[trigger] s.sync_cohorts[k]).sessions.contains(
                other,
            ) || s.sync_cohorts[k].prepared.dom().contains(other),
    ensures
        s.started(now).session(other) == s.session(other),
        s.started(now).config == s.config,
        s.started(now).zones == s.zones,
{
    let n = bridge_state::due(s.sync_cohorts, now) as int;
    bridge_laws::cohorts_start_in_order(s.sync_cohorts, now);
    let cs = s.sync_cohorts.take(n);
    assert forall|k: int| 0 <= k < cs.len() implies !(#[trigger] cs[k]).sessions.contains(other)
        || cs[k].prepared.dom().contains(other) by {
        assert(cs[k] == s.sync_cohorts[k]);
    }
    lemma_starting_spares(
        BridgeState { sync_cohorts: s.sync_cohorts.skip(n), ..s },
        cs,
        now,
        other,
    );
}

} // verus!
