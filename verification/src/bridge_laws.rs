//! What holds of the bridge whatever it is told, and in whatever order.

use vstd::prelude::*;

use crate::bridge_state;
use crate::bridge_state::{
    BridgeAction, BridgeState, CohortState, DownstreamPlan, DownstreamRetry, DownstreamStartOutcome,
    DownstreamStartResult, PreparedDownstream, SessionState, SonosStreamPrepare,
};
use crate::config::Config;
use crate::ids::{SessionId, ZoneId};
use crate::types::{PcmFormat, SonosZone, StreamCodec};

verus! {

// ---------------------------------------------------------------------------
// Cohorts
// ---------------------------------------------------------------------------
/// Whether each cohort is well-formed and no session is in two of them.
pub open spec fn cohorts_well_formed(cs: Seq<CohortState>) -> bool {
    &&& forall|i: int| 0 <= i < cs.len() ==> (#[trigger] cs[i]).well_formed()
    &&& forall|i: int, j: int, id: SessionId|
        0 <= i < j < cs.len() && (#[trigger] cs[i].sessions.contains(id))
            ==> !#[trigger] cs[j].sessions.contains(id)
}

/// Leaving out sessions keeps the others, each as often as it was there.
pub(crate) proof fn lemma_filter_sessions(s: Seq<SessionId>, p: spec_fn(SessionId) -> bool)
    ensures
        forall|id: SessionId| #[trigger] s.filter(p).contains(id) <==> s.contains(id) && p(id),
        s.no_duplicates() ==> s.filter(p).no_duplicates(),
    decreases s.len(),
{
    reveal(Seq::filter);
    if s.len() > 0 {
        let rest = s.drop_last();
        let last = s.last();
        lemma_filter_sessions(rest, p);
        assert(s =~= rest.push(last));
        assert forall|id: SessionId| s.contains(id) <==> rest.contains(id) || id == last by {
            if rest.contains(id) {
                let i = choose|i: int| 0 <= i < rest.len() && rest[i] == id;
                assert(s[i] == id);
            }
            if id == last {
                assert(s[s.len() - 1] == id);
            }
        }
        let f = rest.filter(p);
        assert forall|id: SessionId| f.push(last).contains(id) <==> f.contains(id) || id == last by {
            if f.contains(id) {
                let i = choose|i: int| 0 <= i < f.len() && f[i] == id;
                assert(f.push(last)[i] == id);
            }
            if id == last {
                assert(f.push(last)[f.len() as int] == id);
            }
        }
        assert forall|id: SessionId| #[trigger] s.filter(p).contains(id) <==> s.contains(id) && p(
            id,
        ) by {
            assert(f.contains(id) <==> rest.contains(id) && p(id));
            if p(last) {
                assert(s.filter(p) == f.push(last));
            } else {
                assert(s.filter(p) == f);
            }
        }
        if s.no_duplicates() {
            assert(rest.no_duplicates());
            assert(!rest.contains(last));
            assert(!f.contains(last));
            assert(f.push(last).no_duplicates());
        }
    }
}

/// A session that left is in no cohort; the others are where they were.
pub(crate) proof fn lemma_without(cs: Seq<CohortState>, id: SessionId)
    ensures
        ({
            let out = bridge_state::cohorts_without(cs, id);
            &&& !bridge_state::in_cohorts(out, id)
            &&& forall|other: SessionId|
                other != id ==> bridge_state::in_cohorts(out, other) == bridge_state::in_cohorts(
                    cs,
                    other,
                )
            &&& forall|k: int|
                0 <= k < out.len() ==> exists|i: int|
                    0 <= i < cs.len() && #[trigger] out[k] == (#[trigger] cs[i]).without(id)
            &&& cohorts_well_formed(cs) ==> cohorts_well_formed(out)
        }),
    decreases cs.len(),
{
    let strip = |c: CohortState| c.without(id);
    let keep = |c: CohortState| c.sessions.len() > 0;
    let out = bridge_state::cohorts_without(cs, id);
    reveal(Seq::filter);
    if cs.len() == 0 {
        assert(out =~= Seq::empty());
    } else {
        let rest = cs.drop_last();
        let c = cs.last();
        let before = bridge_state::cohorts_without(rest, id);
        lemma_without(rest, id);
        assert(cs.map_values(strip).drop_last() =~= rest.map_values(strip));
        assert(cs.map_values(strip).last() == c.without(id));
        lemma_filter_sessions(c.sessions, bridge_state::other_than(id));
        let kept = c.without(id).sessions.len() > 0;
        assert(out == if kept {
            before.push(c.without(id))
        } else {
            before
        });
        assert(cs[cs.len() - 1] == c);
        assert(forall|i: int| 0 <= i < rest.len() ==> rest[i] == cs[i]);
        assert forall|k: int| 0 <= k < out.len() implies exists|i: int|
            0 <= i < cs.len() && #[trigger] out[k] == (#[trigger] cs[i]).without(id) by {
            if k < before.len() {
                assert(out[k] == before[k]);
                let i = choose|i: int|
                    0 <= i < rest.len() && before[k] == (#[trigger] rest[i]).without(id);
                assert(out[k] == cs[i].without(id));
            } else {
                assert(out[k] == cs[cs.len() - 1].without(id));
            }
        }
        assert forall|other: SessionId| other != id implies bridge_state::in_cohorts(out, other)
            == bridge_state::in_cohorts(cs, other) by {
            if bridge_state::in_cohorts(out, other) {
                let k = choose|k: int|
                    0 <= k < out.len() && (#[trigger] out[k]).sessions.contains(other);
                let i = choose|i: int|
                    0 <= i < cs.len() && out[k] == (#[trigger] cs[i]).without(id);
                lemma_filter_sessions(cs[i].sessions, bridge_state::other_than(id));
                assert(cs[i].sessions.contains(other));
            }
            if bridge_state::in_cohorts(cs, other) {
                let i = choose|i: int|
                    0 <= i < cs.len() && (#[trigger] cs[i]).sessions.contains(other);
                if i < rest.len() {
                    assert(rest[i].sessions.contains(other));
                    assert(bridge_state::in_cohorts(rest, other));
                    assert(bridge_state::in_cohorts(before, other));
                    let k = choose|k: int|
                        0 <= k < before.len() && (#[trigger] before[k]).sessions.contains(other);
                    assert(out[k].sessions.contains(other));
                } else {
                    assert(c.without(id).sessions.contains(other));
                    assert(out[before.len() as int].sessions.contains(other));
                }
            }
        }
        assert(!bridge_state::in_cohorts(out, id)) by {
            if bridge_state::in_cohorts(out, id) {
                let k = choose|k: int|
                    0 <= k < out.len() && (#[trigger] out[k]).sessions.contains(id);
                if k < before.len() {
                    assert(before[k].sessions.contains(id));
                }
            }
        }
        if cohorts_well_formed(cs) {
            assert(cohorts_well_formed(rest));
            assert(c.well_formed());
            if kept {
                assert(c.without(id).well_formed());
            }
            assert forall|i: int| 0 <= i < out.len() implies (#[trigger] out[i]).well_formed() by {
                if i < before.len() {
                    assert(out[i] == before[i]);
                }
            }
            assert forall|i: int, j: int, x: SessionId|
                0 <= i < j < out.len() && (#[trigger] out[i].sessions.contains(x)) implies
                !#[trigger] out[j].sessions.contains(x) by {
                assert(out[i] == before[i]);
                if j < before.len() {
                    assert(out[j] == before[j]);
                } else {
                    let k = choose|k: int|
                        0 <= k < rest.len() && before[i] == (#[trigger] rest[k]).without(id);
                    lemma_filter_sessions(rest[k].sessions, bridge_state::other_than(id));
                    assert(cs[k].sessions.contains(x));
                    assert(!cs[cs.len() - 1].sessions.contains(x));
                }
            }
        }
    }
}

/// A cohort that starts has closed its window: no session could join any more.
/// It waits for all of its sessions to be prepared, or for its deadline.
pub proof fn cohorts_wait_for_their_window(cs: Seq<CohortState>, now: u64, i: int)
    requires
        0 <= i < bridge_state::due(cs, now),
    ensures
        i < cs.len(),
        now >= cs[i].window_deadline,
        now >= cs[i].start_deadline || cs[i].prepared.dom().len() == cs[i].sessions.len(),
    decreases cs.len(),
{
    if i > 0 {
        cohorts_wait_for_their_window(cs.skip(1), now, i - 1);
    }
}

/// No cohort starts ahead of one that was opened before it.
pub proof fn cohorts_start_in_order(cs: Seq<CohortState>, now: u64)
    ensures
        bridge_state::due(cs, now) <= cs.len(),
        bridge_state::due(cs, now) < cs.len() ==> !cs[bridge_state::due(
            cs,
            now,
        ) as int].should_start(now),
    decreases cs.len(),
{
    if cs.len() > 0 && cs[0].should_start(now) {
        cohorts_start_in_order(cs.skip(1), now);
        let n = bridge_state::due(cs.skip(1), now) as int;
        if n < cs.skip(1).len() {
            assert(cs.skip(1)[n] == cs[n + 1]);
        }
    }
}

/// Every session of a cohort that starts is either played or tried anew, and
/// none is both.
pub proof fn every_member_is_played_or_retried(c: CohortState, id: SessionId)
    requires
        c.sessions.contains(id),
    ensures
        c.unready().contains(id) <==> !c.prepared.dom().contains(id),
        c.prepared.dom().contains(id) ==> c.ready().contains(c.prepared[id]),
        c.well_formed() && c.unready().contains(id) ==> forall|p: PreparedDownstream| #[trigger]
            c.ready().contains(p) ==> p.session_id != id,
{
    let is_ready = |s: SessionId| c.prepared.dom().contains(s);
    lemma_filter_sessions(c.sessions, is_ready);
    lemma_filter_sessions(c.sessions, |s: SessionId| !c.prepared.dom().contains(s));
    let f = c.sessions.filter(is_ready);
    if c.prepared.dom().contains(id) {
        assert(f.contains(id));
        let i = choose|i: int| 0 <= i < f.len() && f[i] == id;
        assert(c.ready()[i] == c.prepared[id]);
    }
    if c.well_formed() && c.unready().contains(id) {
        assert forall|p: PreparedDownstream| #[trigger] c.ready().contains(p) implies p.session_id
            != id by {
            let i = choose|i: int| 0 <= i < c.ready().len() && c.ready()[i] == p;
            assert(f.contains(f[i]));
            assert(c.prepared[f[i]] == p);
        }
    }
}

/// Trying a session anew has it wait for its retry, where it should play, with
/// its stream to be made anew.
pub(crate) proof fn lemma_retried(s: BridgeState, id: SessionId)
    ensures
        ({
            let t = s.retried(id);
            &&& t.desired_playback == s.desired_playback
            &&& t.sessions == s.sessions
            &&& t.sync_cohorts == s.sync_cohorts
            &&& bridge_state::lookup(s.desired_playback, id) == Some(true)
                && s.sessions.dom().contains(id) ==> t.downstream_retry_tasks.contains(id)
                && t.downstream_reset_needed.contains(id)
            &&& t.generation(id) >= s.generation(id)
            &&& forall|other: SessionId|
                other != id ==> #[trigger] t.session(other) == s.session(other)
        }),
{
}

/// Trying sessions anew has each of them that should play wait for its retry,
/// with its stream to be made anew.
pub(crate) proof fn lemma_all_retried(s: BridgeState, ids: Seq<SessionId>)
    ensures
        s.all_retried(ids).desired_playback == s.desired_playback,
        s.all_retried(ids).sessions == s.sessions,
        s.all_retried(ids).sync_cohorts == s.sync_cohorts,
        forall|id: SessionId|
            ids.contains(id) && bridge_state::lookup(s.desired_playback, id) == Some(true)
                && s.sessions.dom().contains(id) ==> #[trigger] s.all_retried(
                ids,
            ).downstream_retry_tasks.contains(id) && s.all_retried(
                ids,
            ).downstream_reset_needed.contains(id),
        forall|id: SessionId| #[trigger] s.all_retried(ids).generation(id) >= s.generation(id),
    decreases ids.len(),
{
    if ids.len() > 0 {
        let rest = ids.drop_last();
        let last = ids.last();
        let m = s.all_retried(rest);
        let t = m.retried(last);
        lemma_all_retried(s, rest);
        lemma_retried(m, last);
        assert(s.all_retried(ids) == t);
        assert forall|id: SessionId|
            ids.contains(id) && bridge_state::lookup(s.desired_playback, id) == Some(true)
                && s.sessions.dom().contains(id) implies #[trigger] t.downstream_retry_tasks.contains(
            id,
        ) && t.downstream_reset_needed.contains(id) by {
            if id != last {
                let i = choose|i: int| 0 <= i < ids.len() && ids[i] == id;
                assert(rest[i] == id);
                assert(m.downstream_retry_tasks.contains(id));
                assert(t.session(id) == m.session(id));
            }
        }
        assert forall|id: SessionId| #[trigger] t.generation(id) >= s.generation(id) by {
            assert(m.generation(id) >= s.generation(id));
            if id != last {
                assert(t.session(id) == m.session(id));
            }
        }
    }
}

/// When a cohort starts, every prepared stream of it is played, and every other
/// session of it that should play waits for its retry.
pub proof fn no_member_of_a_started_cohort_is_lost(
    s: BridgeState,
    c: CohortState,
    now: u64,
    id: SessionId,
)
    requires
        c.sessions.contains(id),
    ensures
        c.prepared.dom().contains(id) ==> s.cohort_started(c, now).outbox.contains(
            BridgeAction::Play { prepared: c.prepared[id] },
        ),
        !c.prepared.dom().contains(id) && bridge_state::lookup(s.desired_playback, id) == Some(true)
            && s.sessions.dom().contains(id) ==> s.cohort_started(
            c,
            now,
        ).downstream_retry_tasks.contains(id) && s.cohort_started(
            c,
            now,
        ).downstream_reset_needed.contains(id),
{
    every_member_is_played_or_retried(c, id);
    lemma_all_retried(s, c.unready());
    let r = s.all_retried(c.unready());
    let t = s.cohort_started(c, now);
    if c.prepared.dom().contains(id) {
        let ask = |p: PreparedDownstream| BridgeAction::Play { prepared: p };
        let i = choose|i: int| 0 <= i < c.ready().len() && c.ready()[i] == c.prepared[id];
        let k = r.anchored(c.ready(), now).outbox.len() as int;
        assert(c.ready().map_values(ask)[i] == ask(c.prepared[id]));
        assert(t.outbox[k + i] == (BridgeAction::Play { prepared: c.prepared[id] }));
    }
}

// ---------------------------------------------------------------------------
// What is out of date
// ---------------------------------------------------------------------------
/// What is left of an attempt that is no longer the current one changes nothing:
/// neither its end nor its prepared stream; and its retry is only forgotten.
pub proof fn stale_attempts_are_ignored(
    s: BridgeState,
    result: DownstreamStartResult,
    prepared: PreparedDownstream,
    retry: DownstreamRetry,
    now: u64,
)
    ensures
        bridge_state::lookup(s.downstream_generations, result.session_id) != Some(result.generation)
            ==> s.start_ended(result) == s,
        bridge_state::lookup(s.downstream_generations, prepared.session_id) != Some(
            prepared.generation,
        ) ==> s.prepared(prepared, now) == s,
        bridge_state::lookup(s.downstream_generations, retry.session_id) != Some(retry.generation)
            ==> s.retry_due(retry) == (BridgeState {
            downstream_retry_tasks: s.downstream_retry_tasks.remove(retry.session_id),
            ..s
        }),
{
}

/// A session that is paused leaves its cohort, and nothing that was prepared for
/// it can be played. When it is told to play, its stream is made anew.
pub proof fn pausing_voids_what_was_prepared(
    s: BridgeState,
    id: SessionId,
    zone_id: ZoneId,
    prepared: PreparedDownstream,
)
    requires
        s.sessions.dom().contains(id),
        prepared.session_id == id,
    ensures
        ({
            let t = s.playback_set(id, zone_id, false);
            &&& !bridge_state::in_cohorts(t.sync_cohorts, id)
            &&& !t.is_current(prepared)
            &&& bridge_state::lookup(t.desired_playback, id) == Some(false)
            &&& t.play_restarts(id)
            &&& s.downstream_generations.dom().contains(id) ==> t.generation(id)
                == bridge_state::bumped(s.generation(id))
        }),
{
    lemma_without(s.sync_cohorts, id);
}

/// A new attempt to start a session voids what was prepared for the ones before.
pub proof fn a_new_attempt_voids_the_one_before(
    s: BridgeState,
    id: SessionId,
    prepared: PreparedDownstream,
)
    requires
        prepared.session_id == id,
        s.is_current(prepared),
        prepared.generation < u64::MAX,
    ensures
        !s.next_attempt(id).is_current(prepared),
        !s.invalidated(id).is_current(prepared),
        !s.retried(id).is_current(prepared),
        !bridge_state::in_cohorts(s.next_attempt(id).sync_cohorts, id),
{
    lemma_without(s.sync_cohorts, id);
}

/// A session that ended is forgotten, but for the number of its last attempt,
/// which has become that of none: a late message cannot pass for one of a later
/// session under the same name.
pub proof fn stopping_forgets_the_session(s: BridgeState, id: SessionId, fallback: Option<ZoneId>)
    ensures
        ({
            let t = s.stopped(id, fallback);
            &&& t.session(id) == (SessionState {
                encoder: false,
                zone: None,
                format: None,
                generation: match s.session(id).generation {
                    Some(n) => Some(bridge_state::bumped(n)),
                    None => None,
                },
                lifecycle: None,
                reset_needed: false,
                desired: None,
                playing: None,
                playback_task: false,
                cleanup_task: false,
                retry_task: false,
                retry_attempts: None,
            })
            &&& !bridge_state::in_cohorts(t.sync_cohorts, id)
        }),
{
    lemma_without(s.sync_cohorts, id);
}

// ---------------------------------------------------------------------------
// What always holds
// ---------------------------------------------------------------------------
/// Whether the cohorts are well-formed and every zone has at most one session.
pub open spec fn bridge_well_formed(s: BridgeState) -> bool {
    &&& cohorts_well_formed(s.sync_cohorts)
    &&& forall|a: SessionId, b: SessionId|
        #![trigger s.sessions[a], s.sessions[b]]
        s.sessions.dom().contains(a) && s.sessions.dom().contains(b) && s.sessions[a]@
            == s.sessions[b]@ ==> a == b
}

/// A new bridge is well-formed.
pub proof fn a_new_bridge_is_well_formed(
    config: Config,
    zones: Map<Seq<char>, SonosZone>,
    volumes: Set<Seq<char>>,
)
    ensures
        bridge_well_formed(BridgeState::initial(config, zones, volumes)),
{
}

/// Whether a step concerns one session alone: what is known of every other one
/// stays, as does whether it is in a cohort; the number of the session's attempt
/// does not fall; and the bridge stays well-formed.
#[verifier::opaque]
pub open spec fn concerns_only(s: BridgeState, t: BridgeState, id: SessionId) -> bool {
    &&& forall|other: SessionId|
        other != id ==> #[trigger] t.session(other) == s.session(other)
    &&& forall|other: SessionId|
        other != id ==> (#[trigger] bridge_state::in_cohorts(t.sync_cohorts, other)
            == bridge_state::in_cohorts(s.sync_cohorts, other))
    &&& t.generation(id) >= s.generation(id)
    &&& bridge_well_formed(s) ==> bridge_well_formed(t)
}

proof fn lemma_concerns_twice(s: BridgeState, m: BridgeState, t: BridgeState, id: SessionId)
    requires
        concerns_only(s, m, id),
        concerns_only(m, t, id),
    ensures
        concerns_only(s, t, id),
{
    reveal(concerns_only);
    assert forall|other: SessionId| other != id implies #[trigger] t.session(other) == s.session(
        other,
    ) by {
        assert(m.session(other) == s.session(other));
    }
    assert forall|other: SessionId| other != id implies (#[trigger] bridge_state::in_cohorts(
        t.sync_cohorts,
        other,
    ) == bridge_state::in_cohorts(s.sync_cohorts, other)) by {
        assert(bridge_state::in_cohorts(m.sync_cohorts, other) == bridge_state::in_cohorts(
            s.sync_cohorts,
            other,
        ));
    }
}

/// A step that leaves the cohorts and the other sessions alone.
proof fn lemma_concerns(s: BridgeState, t: BridgeState, id: SessionId)
    requires
        t.sync_cohorts == s.sync_cohorts,
        t.sessions == s.sessions || t.sessions == s.sessions.remove(id),
        t.generation(id) >= s.generation(id),
        forall|other: SessionId| other != id ==> #[trigger] t.session(other) == s.session(other),
    ensures
        concerns_only(s, t, id),
{
    reveal(concerns_only);
    if bridge_well_formed(s) {
        assert forall|a: SessionId, b: SessionId|
            #![trigger t.sessions[a], t.sessions[b]]
            t.sessions.dom().contains(a) && t.sessions.dom().contains(b) && t.sessions[a]@
                == t.sessions[b]@ implies a == b by {
            assert(s.sessions[a]@ == s.sessions[b]@);
        }
    }
}

proof fn lemma_small_steps(s: BridgeState, id: SessionId, zone_id: ZoneId, generation: u64)
    ensures
        concerns_only(s, s, id),
        concerns_only(s, s.cleanup_cancelled(id), id),
        concerns_only(s, s.retry_cancelled(id), id),
        concerns_only(s, s.playback_aborted(id), id),
        concerns_only(s, s.lifecycle_cancelled(id), id),
        concerns_only(s, s.reset_marked(id), id),
        concerns_only(s, s.generation_bumped(id), id),
        concerns_only(s, s.stream_removed(id), id),
        concerns_only(s, s.retry_scheduled(id, zone_id, generation), id),
        concerns_only(s, s.cleanup_scheduled(id), id),
{
    lemma_concerns(s, s, id);
    lemma_concerns(s, s.cleanup_cancelled(id), id);
    lemma_concerns(s, s.retry_cancelled(id), id);
    lemma_concerns(s, s.playback_aborted(id), id);
    lemma_concerns(s, s.lifecycle_cancelled(id), id);
    lemma_concerns(s, s.reset_marked(id), id);
    lemma_concerns(s, s.generation_bumped(id), id);
    lemma_concerns(s, s.stream_removed(id), id);
    lemma_concerns(s, s.retry_scheduled(id, zone_id, generation), id);
    lemma_concerns(s, s.cleanup_scheduled(id), id);
}

proof fn lemma_leaving(s: BridgeState, id: SessionId)
    ensures
        concerns_only(s, s.left_cohorts(id), id),
{
    reveal(concerns_only);
    let t = s.left_cohorts(id);
    lemma_without(s.sync_cohorts, id);
    assert(t.sync_cohorts == bridge_state::cohorts_without(s.sync_cohorts, id));
    assert forall|other: SessionId| other != id implies #[trigger] t.session(other) == s.session(
        other,
    ) by {}
}

proof fn lemma_invalidating(s: BridgeState, id: SessionId, zone_id: ZoneId)
    ensures
        concerns_only(s, s.invalidated(id), id),
{
    let a = s.lifecycle_cancelled(id);
    let b = a.left_cohorts(id);
    lemma_small_steps(s, id, zone_id, 0);
    lemma_leaving(a, id);
    lemma_small_steps(b, id, zone_id, 0);
    lemma_concerns_twice(s, a, b, id);
    lemma_concerns_twice(s, b, b.generation_bumped(id), id);
}

proof fn lemma_next_attempt(s: BridgeState, id: SessionId, zone_id: ZoneId)
    ensures
        concerns_only(s, s.next_attempt(id), id),
{
    let a = s.lifecycle_cancelled(id);
    let b = a.left_cohorts(id);
    let c = b.generation_bumped(id);
    let t = s.next_attempt(id);
    lemma_small_steps(s, id, zone_id, 0);
    lemma_leaving(a, id);
    lemma_small_steps(b, id, zone_id, 0);
    lemma_concerns_twice(s, a, b, id);
    lemma_concerns_twice(s, b, c, id);
    lemma_concerns(c, t, id);
    lemma_concerns_twice(s, c, t, id);
}

proof fn lemma_clearing(s: BridgeState, id: SessionId, zone_id: ZoneId)
    ensures
        concerns_only(s, s.cleared(id), id),
{
    let a = BridgeState {
        playback_state: s.playback_state.remove(id),
        session_formats: s.session_formats.remove(id),
        ..s
    };
    let b = a.invalidated(id);
    let c = BridgeState {
        downstream_lifecycles: b.downstream_lifecycles.remove(id),
        downstream_reset_needed: b.downstream_reset_needed.remove(id),
        desired_playback: b.desired_playback.remove(id),
        downstream_retry_attempts: b.downstream_retry_attempts.remove(id),
        ..b
    };
    let d = c.cleanup_cancelled(id);
    let e = d.retry_cancelled(id);
    let t = e.playback_aborted(id);
    lemma_concerns(s, a, id);
    lemma_invalidating(a, id, zone_id);
    lemma_concerns_twice(s, a, b, id);
    lemma_concerns(b, c, id);
    lemma_concerns_twice(s, b, c, id);
    lemma_small_steps(c, id, zone_id, 0);
    lemma_concerns_twice(s, c, d, id);
    lemma_small_steps(d, id, zone_id, 0);
    lemma_concerns_twice(s, d, e, id);
    lemma_small_steps(e, id, zone_id, 0);
    lemma_concerns_twice(s, e, t, id);
}

/// The end of a session concerns it alone.
pub proof fn stopping_concerns_one_session(s: BridgeState, id: SessionId, fallback: Option<ZoneId>)
    ensures
        concerns_only(s, s.stopped(id, fallback), id),
{
    let zone_id = match fallback {
        Some(zone_id) => zone_id,
        None => s.sessions[id],
    };
    let a = BridgeState { sessions: s.sessions.remove(id), ..s };
    let b = a.cleared(id);
    let c = b.stream_removed(id);
    let t = s.stopped(id, fallback);
    lemma_concerns(s, a, id);
    lemma_clearing(a, id, zone_id);
    lemma_concerns_twice(s, a, b, id);
    lemma_small_steps(b, id, zone_id, 0);
    lemma_concerns_twice(s, b, c, id);
    assert(concerns_only(c, t, id)) by {
        assert(t == c || t.session(id) == c.session(id));
        lemma_concerns(c, t, id);
    }
    lemma_concerns_twice(s, c, t, id);
}

/// Making the stream of a session anew concerns it alone.
pub proof fn restarting_concerns_one_session(s: BridgeState, id: SessionId, zone_id: ZoneId)
    ensures
        concerns_only(s, s.restarting(id, zone_id), id),
{
    let a = s.reset_marked(id);
    let b = a.retry_cancelled(id);
    lemma_small_steps(s, id, zone_id, 0);
    lemma_small_steps(a, id, zone_id, 0);
    lemma_concerns_twice(s, a, b, id);
    if b.can_restart(id, zone_id) {
        let c = b.playback_aborted(id);
        let d = c.stream_removed(id);
        let t = d.next_attempt(id);
        lemma_small_steps(b, id, zone_id, 0);
        lemma_concerns_twice(s, b, c, id);
        lemma_small_steps(c, id, zone_id, 0);
        lemma_concerns_twice(s, c, d, id);
        lemma_next_attempt(d, id, zone_id);
        lemma_concerns_twice(s, d, t, id);
    }
}

/// Telling a session to play or to pause concerns it alone.
pub proof fn playing_and_pausing_concern_one_session(
    s: BridgeState,
    id: SessionId,
    zone_id: ZoneId,
    playing: bool,
)
    ensures
        concerns_only(s, s.playback_set(id, zone_id, playing), id),
{
    lemma_small_steps(s, id, zone_id, 0);
    if s.sessions.dom().contains(id) {
        let a = s.told(id, playing);
        lemma_concerns(s, a, id);
        lemma_small_steps(a, id, zone_id, 0);
        if playing {
            let b = a.cleanup_cancelled(id);
            lemma_concerns_twice(s, a, b, id);
            if s.play_restarts(id) {
                restarting_concerns_one_session(b, id, zone_id);
                lemma_concerns_twice(s, b, b.restarting(id, zone_id), id);
            }
        } else {
            let b = a.reset_marked(id);
            let c = b.retry_cancelled(id);
            let d = c.invalidated(id);
            let e = d.playback_aborted(id);
            let t = a.pausing(id, zone_id);
            lemma_concerns_twice(s, a, b, id);
            lemma_small_steps(b, id, zone_id, 0);
            lemma_concerns_twice(s, b, c, id);
            lemma_invalidating(c, id, zone_id);
            lemma_concerns_twice(s, c, d, id);
            lemma_small_steps(d, id, zone_id, 0);
            lemma_concerns_twice(s, d, e, id);
            lemma_concerns(e, t, id);
            lemma_concerns_twice(s, e, t, id);
        }
    }
}

/// The beginning of a session concerns it alone.
pub proof fn beginning_concerns_one_session(s: BridgeState, id: SessionId, zone_id: ZoneId)
    ensures
        concerns_only(s, s.begun(id, zone_id), id),
{
    let a = s.cleanup_cancelled(id);
    lemma_small_steps(s, id, zone_id, 0);
    if a.zones.dom().contains(zone_id@) {
        let b = a.cleared(id);
        lemma_clearing(a, id, zone_id);
        lemma_concerns_twice(s, a, b, id);
        lemma_next_attempt(b, id, zone_id);
        lemma_concerns_twice(s, b, b.next_attempt(id), id);
    }
}

/// What is told of a session's audio concerns the session alone.
pub proof fn audio_events_concern_one_session(s: BridgeState, id: SessionId)
    ensures
        concerns_only(s, s.flushed(id), id),
        concerns_only(s, s.ended_while_paused(id), id),
{
    lemma_concerns(s, s.flushed(id), id);
    lemma_concerns(s, s.ended_while_paused(id), id);
}

/// What is reported of a session's attempt concerns the session alone.
pub proof fn reports_concern_one_session(
    s: BridgeState,
    result: DownstreamStartResult,
    retry: DownstreamRetry,
)
    ensures
        concerns_only(s, s.start_ended(result), result.session_id),
        concerns_only(s, s.retry_due(retry), retry.session_id),
{
    lemma_concerns(s, s.start_ended(result), result.session_id);
    let id = retry.session_id;
    let a = BridgeState { downstream_retry_tasks: s.downstream_retry_tasks.remove(id), ..s };
    lemma_concerns(s, a, id);
    restarting_concerns_one_session(a, id, retry.zone_id);
    lemma_concerns_twice(s, a, a.restarting(id, retry.zone_id), id);
}

/// The start of cohorts keeps the sessions and the other cohorts.
pub(crate) proof fn lemma_cohorts_started(s: BridgeState, cs: Seq<CohortState>, now: u64)
    ensures
        s.cohorts_started(cs, now).sync_cohorts == s.sync_cohorts,
        s.cohorts_started(cs, now).sessions == s.sessions,
        forall|id: SessionId| #[trigger]
            s.cohorts_started(cs, now).generation(id) >= s.generation(id),
    decreases cs.len(),
{
    if cs.len() > 0 {
        lemma_cohorts_started(s, cs.drop_last(), now);
        let m = s.cohorts_started(cs.drop_last(), now);
        lemma_all_retried(m, cs.last().unready());
        let r = m.all_retried(cs.last().unready());
        let t = s.cohorts_started(cs, now);
        assert(t.downstream_generations == r.downstream_generations);
        assert forall|id: SessionId| #[trigger] t.generation(id) >= s.generation(id) by {
            assert(t.generation(id) == r.generation(id));
            assert(r.generation(id) >= m.generation(id));
        }
    }
}

/// Some cohorts of well-formed ones are well-formed.
proof fn lemma_skip_well_formed(cs: Seq<CohortState>, n: int)
    requires
        cohorts_well_formed(cs),
        0 <= n <= cs.len(),
    ensures
        cohorts_well_formed(cs.skip(n)),
{
    let t = cs.skip(n);
    assert forall|i: int| 0 <= i < t.len() implies (#[trigger] t[i]).well_formed() by {
        assert(t[i] == cs[n + i]);
    }
    assert forall|i: int, j: int, id: SessionId|
        0 <= i < j < t.len() && (#[trigger] t[i].sessions.contains(id)) implies
        !#[trigger] t[j].sessions.contains(id) by {
        assert(cs[n + i].sessions.contains(id));
        assert(!cs[n + j].sessions.contains(id));
    }
}

pub(crate) proof fn lemma_awaiting(cs: Seq<CohortState>, p: PreparedDownstream, from: int)
    requires
        0 <= from,
    ensures
        match bridge_state::awaiting_from(cs, p, from) {
            Some(i) => from <= i < cs.len() && bridge_state::awaits(cs[i], p),
            None => forall|i: int|
                from <= i < cs.len() ==> !bridge_state::awaits(#[trigger] cs[i], p),
        },
    decreases cs.len() - from,
{
    if from < cs.len() && !bridge_state::awaits(cs[from], p) {
        lemma_awaiting(cs, p, from + 1);
    }
}

/// Starting the cohorts that are due keeps the bridge well-formed.
pub proof fn starting_cohorts_keeps_the_bridge_well_formed(s: BridgeState, now: u64)
    requires
        bridge_well_formed(s),
    ensures
        bridge_well_formed(s.started(now)),
{
    cohorts_start_in_order(s.sync_cohorts, now);
    let n = bridge_state::due(s.sync_cohorts, now) as int;
    lemma_skip_well_formed(s.sync_cohorts, n);
    lemma_cohorts_started(
        BridgeState { sync_cohorts: s.sync_cohorts.skip(n), ..s },
        s.sync_cohorts.take(n),
        now,
    );
}

/// A prepared stream keeps the bridge well-formed.
pub proof fn preparing_keeps_the_bridge_well_formed(
    s: BridgeState,
    prepared: PreparedDownstream,
    now: u64,
)
    requires
        bridge_well_formed(s),
    ensures
        bridge_well_formed(s.prepared(prepared, now)),
{
    if s.is_current(prepared) {
        let m = s.measured(prepared.zone_id@, prepared.timing);
        lemma_awaiting(m.sync_cohorts, prepared, 0);
        match bridge_state::awaiting_from(m.sync_cohorts, prepared, 0) {
            Some(i) => {
                let c = m.sync_cohorts[i];
                let filled = CohortState {
                    prepared: c.prepared.insert(prepared.session_id, prepared),
                    ..c
                };
                let cs = m.sync_cohorts.update(i, filled);
                let t = BridgeState { sync_cohorts: cs, ..m };
                assert(c.well_formed());
                assert(filled.well_formed());
                assert forall|a: int, b: int, id: SessionId|
                    0 <= a < b < cs.len() && (#[trigger] cs[a].sessions.contains(id)) implies
                    !#[trigger] cs[b].sessions.contains(id) by {
                    assert(cs[a].sessions == m.sync_cohorts[a].sessions);
                    assert(cs[b].sessions == m.sync_cohorts[b].sessions);
                    assert(m.sync_cohorts[a].sessions.contains(id));
                }
                assert(cohorts_well_formed(cs));
                starting_cohorts_keeps_the_bridge_well_formed(t, now);
            },
            None => {},
        }
    }
}

/// A session joins a cohort of others, or opens one.
proof fn lemma_joined(s: BridgeState, id: SessionId, now: u64)
    requires
        cohorts_well_formed(s.sync_cohorts),
        !bridge_state::in_cohorts(s.sync_cohorts, id),
    ensures
        cohorts_well_formed(s.joined(id, now).sync_cohorts),
{
    let o = s.cohort_opened(now);
    let last = o.sync_cohorts.len() - 1;
    let c = o.sync_cohorts[last];
    let cs = s.joined(id, now).sync_cohorts;
    let opened = s.sync_cohorts.len() == 0 || now >= s.sync_cohorts.last().window_deadline;
    if !opened {
        assert(!s.sync_cohorts[last].sessions.contains(id));
    }
    assert(!c.sessions.contains(id));
    let joined = CohortState { sessions: c.sessions.push(id), ..c };
    assert(cs == o.sync_cohorts.update(last, joined));
    assert forall|x: SessionId| joined.sessions.contains(x) <==> c.sessions.contains(x) || x == id by {
        if c.sessions.contains(x) {
            let k = choose|k: int| 0 <= k < c.sessions.len() && c.sessions[k] == x;
            assert(joined.sessions[k] == x);
        }
        if x == id {
            assert(joined.sessions[c.sessions.len() as int] == x);
        }
    }
    assert forall|i: int| 0 <= i < last implies cs[i] == s.sync_cohorts[i] by {}
    assert(joined.well_formed()) by {
        if opened {
        } else {
            assert(c == s.sync_cohorts[last]);
            assert(c.well_formed());
        }
    }
    assert forall|i: int, j: int, x: SessionId|
        0 <= i < j < cs.len() && (#[trigger] cs[i].sessions.contains(x)) implies
        !#[trigger] cs[j].sessions.contains(x) by {
        assert(cs[i] == s.sync_cohorts[i]);
        assert(s.sync_cohorts[i].sessions.contains(x));
        if j < last {
            assert(cs[j] == s.sync_cohorts[j]);
        } else {
            assert(x != id);
            if !opened {
                assert(!s.sync_cohorts[last].sessions.contains(x));
            }
        }
    }
}

/// A session starts, once every other session of its zone is stopped, and keeps
/// the bridge well-formed.
pub proof fn starting_a_session_keeps_the_bridge_well_formed(
    s: BridgeState,
    id: SessionId,
    zone_id: ZoneId,
    format: PcmFormat,
    codec: StreamCodec,
    now: u64,
)
    requires
        bridge_well_formed(s),
        s.zones.dom().contains(zone_id@),
        forall|other: SessionId| #[trigger]
            s.sessions.dom().contains(other) && s.sessions[other]@ == zone_id@ ==> other == id,
    ensures
        ({
            let begun = s.begun(id, zone_id);
            bridge_well_formed(
                begun.session_started(begun.plan(id, zone_id, format), codec, now),
            )
        }),
{
    let begun = s.begun(id, zone_id);
    let plan = begun.plan(id, zone_id, format);
    let t = begun.session_started(plan, codec, now);
    lemma_without(s.sync_cohorts, id);
    lemma_without(bridge_state::cohorts_without(s.sync_cohorts, id), id);
    assert(begun.sessions == s.sessions);
    assert(cohorts_well_formed(begun.sync_cohorts));
    assert(!bridge_state::in_cohorts(begun.sync_cohorts, id));
    let m = (BridgeState {
        encoders: begun.encoders.insert(id),
        sessions: begun.sessions.insert(id, plan.zone_id),
        session_formats: begun.session_formats.insert(id, plan.format),
        desired_playback: begun.desired_playback.insert(id, true),
        ..begun
    }).asks(BridgeAction::HoldDelivery { session_id: id, generation: plan.generation });
    lemma_joined(m, id, now);
    assert(t.sync_cohorts == m.joined(id, now).sync_cohorts);
    assert(t.sessions == s.sessions.insert(id, zone_id));
    assert forall|a: SessionId, b: SessionId|
        #![trigger t.sessions[a], t.sessions[b]]
        t.sessions.dom().contains(a) && t.sessions.dom().contains(b) && t.sessions[a]@
            == t.sessions[b]@ implies a == b by {
        if a != id && b != id {
            assert(s.sessions[a]@ == s.sessions[b]@);
        } else if a != id {
            assert(s.sessions.dom().contains(a));
        } else if b != id {
            assert(s.sessions.dom().contains(b));
        }
    }
}

/// A stream that was made for a session leaves what is known of every other
/// session alone.
pub proof fn a_made_stream_concerns_one_session(
    s: BridgeState,
    plan: DownstreamPlan,
    codec: StreamCodec,
    now: u64,
    other: SessionId,
)
    requires
        plan.session_id != other,
    ensures
        s.session_started(plan, codec, now).session(other) == s.session(other),
        s.restarted(plan, codec, now).session(other) == s.session(other),
{
}

/// A session whose stream is made anew joins a cohort again and keeps the bridge
/// well-formed.
pub proof fn restarting_a_session_keeps_the_bridge_well_formed(
    s: BridgeState,
    id: SessionId,
    zone_id: ZoneId,
    format: PcmFormat,
    codec: StreamCodec,
    now: u64,
)
    requires
        bridge_well_formed(s),
        s.can_restart(id, zone_id),
    ensures
        ({
            let restarting = s.restarting(id, zone_id);
            bridge_well_formed(
                restarting.restarted(restarting.plan(id, zone_id, format), codec, now),
            )
        }),
{
    let r = s.restarting(id, zone_id);
    let plan = r.plan(id, zone_id, format);
    let t = r.restarted(plan, codec, now);
    lemma_without(s.sync_cohorts, id);
    let m = (BridgeState { encoders: r.encoders.insert(id), ..r }).asks(
        BridgeAction::HoldDelivery { session_id: id, generation: plan.generation },
    );
    assert(r.sync_cohorts == bridge_state::cohorts_without(s.sync_cohorts, id));
    lemma_joined(m, id, now);
    assert(t.sync_cohorts == m.joined(id, now).sync_cohorts);
    assert(t.sessions == s.sessions);
}

/// The number of a session's attempt never falls when cohorts start.
pub proof fn starts_number_attempts_upwards(
    s: BridgeState,
    prepared: PreparedDownstream,
    now: u64,
    id: SessionId,
)
    ensures
        s.started(now).generation(id) >= s.generation(id),
        s.prepared(prepared, now).generation(id) >= s.generation(id),
{
    lemma_started(s, now, id);
    if s.is_current(prepared) {
        let m = s.measured(prepared.zone_id@, prepared.timing);
        match bridge_state::awaiting_from(m.sync_cohorts, prepared, 0) {
            Some(i) => {
                let c = m.sync_cohorts[i];
                let filled = CohortState {
                    prepared: c.prepared.insert(prepared.session_id, prepared),
                    ..c
                };
                lemma_started(
                    BridgeState { sync_cohorts: m.sync_cohorts.update(i, filled), ..m },
                    now,
                    id,
                );
            },
            None => {},
        }
    }
}

proof fn lemma_started(s: BridgeState, now: u64, id: SessionId)
    ensures
        s.started(now).generation(id) >= s.generation(id),
{
    let n = bridge_state::due(s.sync_cohorts, now) as int;
    let m = BridgeState { sync_cohorts: s.sync_cohorts.skip(n), ..s };
    lemma_cohorts_started(m, s.sync_cohorts.take(n), now);
    assert(m.generation(id) == s.generation(id));
}

/// A retry waits between half a second and five seconds, and no less than the
/// one before.
pub proof fn retries_back_off(attempt: u32)
    ensures
        500 <= bridge_state::retry_delay(attempt) <= 5_000,
        attempt < u32::MAX ==> bridge_state::retry_delay(attempt) <= bridge_state::retry_delay(
            (attempt + 1) as u32,
        ),
        attempt >= 4 ==> bridge_state::retry_delay(attempt) == 5_000,
    decreases attempt,
{
    if attempt > 0 {
        retries_back_off((attempt - 1) as u32);
    }
    if attempt == 4 {
        assert(bridge_state::retry_delay(0) == 500);
        assert(bridge_state::retry_delay(1) == 1_000);
        assert(bridge_state::retry_delay(2) == 2_000);
        assert(bridge_state::retry_delay(3) == 4_000);
    }
}

/// A success clears what a failure left: once the current attempt started and
/// the session should play, its stream need not be made anew, no retry waits,
/// and the next one would be the first again.
pub proof fn a_success_clears_the_retries(s: BridgeState, result: DownstreamStartResult)
    requires
        bridge_state::lookup(s.downstream_generations, result.session_id) == Some(
            result.generation,
        ),
        bridge_state::lookup(s.desired_playback, result.session_id) == Some(true),
    ensures
        result.outcome == DownstreamStartOutcome::Started ==> {
            let t = s.start_ended(result);
            &&& !t.downstream_reset_needed.contains(result.session_id)
            &&& !t.downstream_retry_tasks.contains(result.session_id)
            &&& t.attempts(result.session_id) == 0
        },
        result.outcome == DownstreamStartOutcome::Failed ==> {
            let t = s.start_ended(result);
            &&& t.downstream_reset_needed.contains(result.session_id)
            &&& t.downstream_retry_tasks.contains(result.session_id)
        },
{
}

/// Sessions that begin before the window of a cohort closes are in one cohort;
/// one that begins later is in another.
pub proof fn sessions_within_the_window_start_together(
    s: BridgeState,
    first: SessionId,
    then: u64,
    second: SessionId,
    now: u64,
)
    ensures
        ({
            let t = s.joined(first, then);
            let u = t.joined(second, now);
            let c = u.sync_cohorts.last();
            &&& c.sessions.contains(second)
            &&& now < t.sync_cohorts.last().window_deadline ==> {
                &&& c.sessions.contains(first)
                &&& c.id == t.sync_cohorts.last().id
                &&& u.sync_cohorts.len() == t.sync_cohorts.len()
            }
            &&& now >= t.sync_cohorts.last().window_deadline ==> {
                &&& c.sessions == seq![second]
                &&& u.sync_cohorts.len() == t.sync_cohorts.len() + 1
                &&& u.sync_cohorts.drop_last() == t.sync_cohorts
            }
        }),
{
    let t = s.joined(first, then);
    let opened = s.cohort_opened(then);
    let c = opened.sync_cohorts.last();
    assert(t.sync_cohorts.last().sessions.contains(first)) by {
        if !c.sessions.contains(first) {
            assert(c.sessions.push(first).last() == first);
        }
    }
    let u = t.joined(second, now);
    let d = t.cohort_opened(now).sync_cohorts.last();
    if !d.sessions.contains(second) {
        let joined = d.sessions.push(second);
        assert(joined.last() == second);
        assert forall|id: SessionId| d.sessions.contains(id) implies joined.contains(id) by {
            let i = choose|i: int| 0 <= i < d.sessions.len() && d.sessions[i] == id;
            assert(joined[i] == id);
        }
    }
    if now >= t.sync_cohorts.last().window_deadline {
        assert(u.sync_cohorts.last().sessions =~= seq![second]);
        assert(u.sync_cohorts.drop_last() =~= t.sync_cohorts);
    }
}

/// Flushing the audio of a session does not end it: all that is known of it
/// stays, but that a paused session's stream is to be made anew, and nothing is
/// asked but to anchor its playback again.
pub proof fn flushing_keeps_the_session(s: BridgeState, id: SessionId)
    ensures
        ({
            let t = s.flushed(id);
            &&& t.session(id) == (SessionState {
                reset_needed: t.session(id).reset_needed,
                ..s.session(id)
            })
            &&& t.sync_cohorts == s.sync_cohorts
            &&& t.outbox == s.outbox.push(BridgeAction::ArmAnchor { session_id: id })
            &&& s.session(id).reset_needed ==> t.session(id).reset_needed
            &&& s.session(id).playing != Some(false) && s.session(id).desired != Some(false)
                ==> t.session(id) == s.session(id)
        }),
{
}

/// Whether more is asked for, but not that a player is stopped because its
/// session ended.
#[verifier::opaque]
spec fn asks_no_stop(before: Seq<BridgeAction>, after: Seq<BridgeAction>) -> bool {
    &&& before.len() <= after.len()
    &&& after.take(before.len() as int) == before
    &&& forall|i: int|
        before.len() <= i < after.len() ==> !(#[trigger] after[i] is StopPlayer)
}

proof fn lemma_asks_one(outbox: Seq<BridgeAction>, action: BridgeAction)
    ensures
        asks_no_stop(outbox, outbox),
        !(action is StopPlayer) ==> asks_no_stop(outbox, outbox.push(action)),
{
    reveal(asks_no_stop);
    assert(outbox.take(outbox.len() as int) =~= outbox);
    assert(outbox.push(action).take(outbox.len() as int) =~= outbox);
}

proof fn lemma_asks_twice(a: Seq<BridgeAction>, b: Seq<BridgeAction>, c: Seq<BridgeAction>)
    requires
        asks_no_stop(a, b),
        asks_no_stop(b, c),
    ensures
        asks_no_stop(a, c),
{
    reveal(asks_no_stop);
    assert(c.take(a.len() as int) =~= b.take(a.len() as int)) by {
        assert forall|i: int| 0 <= i < a.len() implies c[i] == b[i] by {
            assert(c.take(b.len() as int)[i] == b[i]);
        }
    }
    assert forall|i: int| a.len() <= i < c.len() implies !(#[trigger] c[i] is StopPlayer) by {
        if i < b.len() {
            assert(c.take(b.len() as int)[i] == b[i]);
        }
    }
}

proof fn lemma_clearing_asks_no_stop(s: BridgeState, id: SessionId)
    ensures
        asks_no_stop(s.outbox, s.cleared(id).outbox),
        s.cleared(id).config == s.config,
        s.cleared(id).zones == s.zones,
{
    let a = BridgeState {
        playback_state: s.playback_state.remove(id),
        session_formats: s.session_formats.remove(id),
        ..s
    };
    let b = a.lifecycle_cancelled(id);
    if a.downstream_lifecycles.dom().contains(id) {
        lemma_asks_one(
            a.outbox,
            BridgeAction::CancelLifecycle { lifecycle: a.downstream_lifecycles[id].id },
        );
    }
    lemma_asks_one(a.outbox, BridgeAction::WakeCohorts { after_ms: 0 });
    assert(asks_no_stop(s.outbox, b.outbox));
    lemma_asks_one(b.outbox, BridgeAction::WakeCohorts { after_ms: 0 });
    lemma_asks_twice(s.outbox, b.outbox, b.left_cohorts(id).outbox);
    let c = a.invalidated(id);
    assert(asks_no_stop(s.outbox, c.outbox));
    let d = BridgeState {
        downstream_lifecycles: c.downstream_lifecycles.remove(id),
        downstream_reset_needed: c.downstream_reset_needed.remove(id),
        desired_playback: c.desired_playback.remove(id),
        downstream_retry_attempts: c.downstream_retry_attempts.remove(id),
        ..c
    };
    let e = d.cleanup_cancelled(id);
    lemma_asks_one(d.outbox, BridgeAction::AbortPausedCleanup { session_id: id });
    lemma_asks_twice(s.outbox, d.outbox, e.outbox);
    let f = e.retry_cancelled(id);
    lemma_asks_one(e.outbox, BridgeAction::AbortRetry { session_id: id });
    lemma_asks_twice(s.outbox, e.outbox, f.outbox);
    lemma_asks_one(f.outbox, BridgeAction::AbortPlayback { session_id: id });
    lemma_asks_twice(s.outbox, f.outbox, f.playback_aborted(id).outbox);
    assert(s.cleared(id) == f.playback_aborted(id));
}

/// The end of a session stops the player of the session's zone and no other:
/// once, after all else, and only where the configuration asks for it.
pub proof fn ending_stops_the_right_player(
    s: BridgeState,
    id: SessionId,
    fallback: Option<ZoneId>,
    zone_id: ZoneId,
)
    requires
        s.session(id).zone == Some(zone_id) || (s.session(id).zone is None && fallback == Some(
            zone_id,
        )),
    ensures
        ({
            let t = s.stopped(id, fallback);
            let stops = s.config.sonos.stop_on_disconnect && s.zones.dom().contains(zone_id@);
            &&& s.outbox.len() < t.outbox.len()
            &&& t.outbox.take(s.outbox.len() as int) == s.outbox
            &&& stops ==> t.outbox.last() == (BridgeAction::StopPlayer { zone_id })
            &&& forall|i: int|
                s.outbox.len() <= i < t.outbox.len() && #[trigger] t.outbox[i] is StopPlayer
                    ==> stops && i == t.outbox.len() - 1
        }),
{
    let a = BridgeState { sessions: s.sessions.remove(id), ..s };
    let b = a.cleared(id);
    lemma_clearing_asks_no_stop(a, id);
    let c = if b.encoders.contains(id) {
        (BridgeState { encoders: b.encoders.remove(id), ..b }).asks(
            BridgeAction::ShutdownEncoder { session_id: id },
        )
    } else {
        b
    };
    lemma_asks_one(b.outbox, BridgeAction::ShutdownEncoder { session_id: id });
    lemma_asks_twice(a.outbox, b.outbox, c.outbox);
    let d = b.stream_removed(id);
    lemma_asks_one(c.outbox, BridgeAction::RemoveStream { session_id: id });
    lemma_asks_twice(a.outbox, c.outbox, d.outbox);
    assert(a.outbox.len() <= c.outbox.len()) by {
        reveal(asks_no_stop);
    }
    let t = s.stopped(id, fallback);
    let last = BridgeAction::StopPlayer { zone_id };
    reveal(asks_no_stop);
    assert(t.outbox == d.outbox || t.outbox == d.outbox.push(last));
    assert(d.outbox.push(last).take(s.outbox.len() as int) =~= d.outbox.take(
        s.outbox.len() as int,
    ));
}

/// Ending sessions of a zone takes them out, and leaves every other session as
/// it is.
proof fn lemma_replaced(s: BridgeState, old: Seq<SessionId>, zone_id: ZoneId)
    ensures
        ({
            let t = s.replaced(old, zone_id);
            &&& t.zones == s.zones
            &&& t.config == s.config
            &&& forall|x: SessionId|
                !old.contains(x) ==> #[trigger] t.session(x) == s.session(x)
            &&& forall|x: SessionId| old.contains(x) ==> !#[trigger] t.sessions.dom().contains(x)
            &&& bridge_well_formed(s) ==> bridge_well_formed(t)
        }),
    decreases old.len(),
{
    if old.len() > 0 {
        let rest = old.drop_last();
        let last = old.last();
        let m = s.replaced(rest, zone_id);
        let t = m.stopped(last, Some(zone_id));
        lemma_replaced(s, rest, zone_id);
        stopping_concerns_one_session(m, last, Some(zone_id));
        stopping_forgets_the_session(m, last, Some(zone_id));
        reveal(concerns_only);
        lemma_clearing_asks_no_stop(
            BridgeState { sessions: m.sessions.remove(last), ..m },
            last,
        );
        assert(s.replaced(old, zone_id) == t);
        assert forall|x: SessionId| !old.contains(x) implies #[trigger] t.session(x) == s.session(
            x,
        ) by {
            assert(old[old.len() - 1] == last);
            if rest.contains(x) {
                let i = choose|i: int| 0 <= i < rest.len() && rest[i] == x;
                assert(old[i] == x);
            }
            assert(m.session(x) == s.session(x));
        }
        assert forall|x: SessionId| old.contains(x) implies !#[trigger] t.sessions.dom().contains(
            x,
        ) by {
            if x == last {
                assert(t.session(last).zone is None);
            } else {
                let i = choose|i: int| 0 <= i < old.len() && old[i] == x;
                assert(rest[i] == x);
                assert(t.session(x) == m.session(x));
                assert(m.session(x).zone is None);
            }
        }
    }
}

/// What a session becomes once it began and its first stream was made.
proof fn lemma_started_session(
    s: BridgeState,
    id: SessionId,
    zone_id: ZoneId,
    format: PcmFormat,
    codec: StreamCodec,
    now: u64,
)
    requires
        s.zones.dom().contains(zone_id@),
    ensures
        ({
            let begun = s.begun(id, zone_id);
            let plan = begun.plan(id, zone_id, format);
            let t = begun.session_started(plan, codec, now);
            let known = t.session(id);
            &&& known.zone == Some(zone_id)
            &&& known.format == Some(format)
            &&& known.encoder
            &&& known.desired == Some(true)
            &&& known.playback_task
            &&& known.generation == Some(plan.generation)
            &&& s.generation(id) < u64::MAX - 1 ==> plan.generation > s.generation(id)
            &&& t.sync_cohorts.last().sessions.contains(id)
            &&& t.outbox.last() == (BridgeAction::StartPrepare {
                start: SonosStreamPrepare {
                    session_id: id,
                    zone_id,
                    generation: plan.generation,
                    cohort_id: t.sync_cohorts.last().id,
                    lifecycle: plan.lifecycle,
                    zone: s.zones[zone_id@],
                    codec,
                    force_standalone_on_start: s.config.sonos.force_standalone_on_start,
                },
            })
        }),
{
    let a = s.cleanup_cancelled(id);
    lemma_clearing_asks_no_stop(a, id);
    let begun = s.begun(id, zone_id);
    let plan = begun.plan(id, zone_id, format);
    let m = (BridgeState {
        encoders: begun.encoders.insert(id),
        sessions: begun.sessions.insert(id, zone_id),
        session_formats: begun.session_formats.insert(id, format),
        desired_playback: begun.desired_playback.insert(id, true),
        ..begun
    }).asks(BridgeAction::HoldDelivery { session_id: id, generation: plan.generation });
    let c = m.cohort_opened(now).sync_cohorts.last();
    if !c.sessions.contains(id) {
        assert(c.sessions.push(id).last() == id);
    }
    let t = begun.session_started(plan, codec, now);
    assert(t.sync_cohorts == m.joined(id, now).sync_cohorts);
}

/// A session that starts is the only one of its zone from then on: those that
/// the zone had are ended first. It should play, has an encoder and a numbered
/// attempt above all before it, is in a cohort, and its stream is being
/// prepared, with the request to leave its group wherever the configuration asks
/// for it. The sessions of other zones stay as they are. Where the zone has no
/// player, no session is added. `old` are the sessions that have to give way.
pub proof fn a_started_session_is_the_only_one_of_its_zone(
    s: BridgeState,
    old: Seq<SessionId>,
    id: SessionId,
    zone_id: ZoneId,
    format: PcmFormat,
    codec: StreamCodec,
    now: u64,
)
    requires
        forall|x: SessionId| #[trigger]
            old.contains(x) <==> x != id && s.sessions.dom().contains(x) && s.sessions[x]@
                == zone_id@,
    ensures
        ({
            let begun = s.replaced(old, zone_id).begun(id, zone_id);
            let plan = begun.plan(id, zone_id, format);
            let t = begun.session_started(plan, codec, now);
            let known = t.session(id);
            if s.zones.dom().contains(zone_id@) {
                &&& forall|x: SessionId|
                    (#[trigger] t.sessions.dom().contains(x)) && t.sessions[x]@ == zone_id@ <==> x
                        == id
                &&& forall|x: SessionId|
                    x != id && !old.contains(x) ==> #[trigger] t.session(x) == s.session(x)
                &&& known.zone == Some(zone_id)
                &&& known.format == Some(format)
                &&& known.encoder
                &&& known.desired == Some(true)
                &&& known.playback_task
                &&& known.generation == Some(plan.generation)
                &&& s.generation(id) < u64::MAX - 1 ==> plan.generation > s.generation(id)
                &&& t.sync_cohorts.last().sessions.contains(id)
                &&& t.outbox.last() == (BridgeAction::StartPrepare {
                    start: SonosStreamPrepare {
                        session_id: id,
                        zone_id,
                        generation: plan.generation,
                        cohort_id: t.sync_cohorts.last().id,
                        lifecycle: plan.lifecycle,
                        zone: s.zones[zone_id@],
                        codec,
                        force_standalone_on_start: s.config.sonos.force_standalone_on_start,
                    },
                })
                &&& bridge_well_formed(s) ==> bridge_well_formed(t)
            } else {
                &&& begun.session(id).zone == s.session(id).zone
                &&& forall|x: SessionId|
                    x != id && !old.contains(x) ==> #[trigger] begun.session(x) == s.session(x)
                &&& forall|x: SessionId|
                    old.contains(x) ==> !#[trigger] begun.sessions.dom().contains(x)
            }
        }),
{
    let r = s.replaced(old, zone_id);
    let begun = r.begun(id, zone_id);
    let plan = begun.plan(id, zone_id, format);
    let t = begun.session_started(plan, codec, now);
    lemma_replaced(s, old, zone_id);
    assert(!old.contains(id));
    assert(r.session(id) == s.session(id));
    beginning_concerns_one_session(r, id, zone_id);
    reveal(concerns_only);
    assert forall|x: SessionId| x != id && !old.contains(x) implies #[trigger] begun.session(x)
        == s.session(x) by {
        assert(r.session(x) == s.session(x));
    }
    assert forall|x: SessionId| old.contains(x) implies !#[trigger] begun.sessions.dom().contains(
        x,
    ) by {
        assert(!r.sessions.dom().contains(x));
        assert(begun.session(x) == r.session(x));
        assert(begun.session(x).zone is None);
    }
    if s.zones.dom().contains(zone_id@) {
        lemma_started_session(r, id, zone_id, format, codec, now);
        assert(s.generation(id) == r.generation(id)) by {
            assert(r.session(id).generation == s.session(id).generation);
        }
        assert forall|x: SessionId| x != id && !old.contains(x) implies #[trigger] t.session(x)
            == s.session(x) by {
            a_made_stream_concerns_one_session(begun, plan, codec, now, x);
            assert(begun.session(x) == s.session(x));
        }
        assert forall|x: SessionId|
            (#[trigger] t.sessions.dom().contains(x)) && t.sessions[x]@ == zone_id@ <==> x == id by {
            if x == id {
                assert(t.session(id).zone == Some(zone_id));
            } else {
                a_made_stream_concerns_one_session(begun, plan, codec, now, x);
                assert(t.session(x).zone == begun.session(x).zone);
                if old.contains(x) {
                    assert(!begun.sessions.dom().contains(x));
                } else {
                    assert(begun.session(x).zone == s.session(x).zone);
                }
            }
        }
        if bridge_well_formed(s) {
            assert forall|other: SessionId| #[trigger]
                r.sessions.dom().contains(other) && r.sessions[other]@ == zone_id@ implies other
                == id by {
                if other != id && !old.contains(other) {
                    assert(r.session(other).zone == s.session(other).zone);
                }
            }
            starting_a_session_keeps_the_bridge_well_formed(
                r,
                id,
                zone_id,
                format,
                codec,
                now,
            );
        }
    }
}

// ---------------------------------------------------------------------------
// When cohorts start
// ---------------------------------------------------------------------------
proof fn lemma_all_prepared(c: CohortState)
    requires
        c.well_formed(),
    ensures
        c.sessions.len() == c.prepared.dom().len() <==> forall|id: SessionId| #[trigger]
            c.sessions.contains(id) ==> c.prepared.dom().contains(id),
{
    let members = c.sessions.to_set();
    c.sessions.unique_seq_to_set();
    vstd::seq_lib::seq_to_set_is_finite(c.sessions);
    assert forall|id: SessionId| c.prepared.dom().contains(id) implies #[trigger] members.contains(
        id,
    ) by {
        assert(c.sessions.contains(id));
    }
    assert(c.prepared.dom().subset_of(members));
    vstd::set_lib::lemma_len_subset(c.prepared.dom(), members);
    if c.sessions.len() == c.prepared.dom().len() {
        vstd::set_lib::lemma_subset_equality(c.prepared.dom(), members);
        assert forall|id: SessionId| #[trigger] c.sessions.contains(id) implies c.prepared.dom().contains(
        id) by {
            assert(members.contains(id));
        }
    }
    if forall|id: SessionId| #[trigger]
        c.sessions.contains(id) ==> c.prepared.dom().contains(id) {
        assert forall|id: SessionId| members.contains(id) implies #[trigger] c.prepared.dom().contains(
        id) by {
            assert(c.sessions.contains(id));
        }
        assert(members =~= c.prepared.dom());
    }
}

/// A cohort starts once its window has closed and every one of its sessions,
/// however many there are, is prepared; without all of them it starts at its
/// deadline. It never starts earlier.
pub proof fn cohorts_start_when_all_are_prepared(c: CohortState, now: u64)
    requires
        c.well_formed(),
    ensures
        now < c.window_deadline ==> !c.should_start(now),
        now >= c.window_deadline && now >= c.start_deadline ==> c.should_start(now),
        now >= c.window_deadline && (forall|id: SessionId| #[trigger]
            c.sessions.contains(id) ==> c.prepared.dom().contains(id)) ==> c.should_start(now),
        now < c.start_deadline && (exists|id: SessionId| #[trigger]
            c.sessions.contains(id) && !c.prepared.dom().contains(id)) ==> !c.should_start(now),
{
    lemma_all_prepared(c);
}

} // verus!
