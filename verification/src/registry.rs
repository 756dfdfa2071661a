//! The live streams by session.

use vstd::prelude::*;
use vstd::string::StringExecFns;

use crate::ids::SessionId;
use crate::session_map;
use crate::session_map::SessionMap;
use crate::stream;
use crate::stream::{LiveStream, StreamTiming};
use crate::text;
use crate::types::StreamSession;

verus! {

/// A stream in the registry, with the handle through which its owner shares it.
#[derive(Debug)]
pub struct RegisteredStream<H> {
    pub session: StreamSession,
    pub handle: H,
}

/// The live streams by session.
#[derive(Debug)]
pub struct StreamRegistry<H> {
    streams: SessionMap<RegisteredStream<H>>,
}

impl<H> View for StreamRegistry<H> {
    type V = Map<SessionId, RegisteredStream<H>>;

    closed spec fn view(&self) -> Map<SessionId, RegisteredStream<H>> {
        self.streams@
    }
}

impl<H> StreamRegistry<H> {
    /// A registry without streams.
    pub fn new() -> (r: Self)
        ensures
            r@ == Map::<SessionId, RegisteredStream<H>>::empty(),
    {
        StreamRegistry { streams: SessionMap::new() }
    }

    /// Registers a session's stream, in place of the one registered for it.
    pub fn insert(&mut self, session: StreamSession, handle: H)
        ensures
            final(self)@ == old(self)@.insert(
                session.session_id,
                RegisteredStream { session, handle },
            ),
    {
        let id = session.session_id;
        self.streams.insert(id, RegisteredStream { session, handle });
    }

    /// The stream of a session.
    pub fn get(&self, session_id: &SessionId) -> (r: Option<&RegisteredStream<H>>)
        ensures
            match r {
                Some(stream) => self@.dom().contains(*session_id) && *stream == self@[*session_id],
                None => !self@.dom().contains(*session_id),
            },
    {
        self.streams.get(*session_id)
    }

    /// Takes the stream of a session out of the registry.
    pub fn remove(&mut self, session_id: &SessionId) -> (r: Option<RegisteredStream<H>>)
        ensures
            final(self)@ == old(self)@.remove(*session_id),
            match r {
                Some(stream) => old(self)@.dom().contains(*session_id) && stream
                    == old(self)@[*session_id],
                None => !old(self)@.dom().contains(*session_id),
            },
    {
        self.streams.remove(*session_id)
    }

    /// The number of streams.
    pub fn len(&self) -> (n: usize)
        ensures
            self@.dom().finite(),
            n == self@.dom().len(),
    {
        self.streams.len()
    }

    /// Whether there is no stream.
    pub fn is_empty(&self) -> (r: bool)
        ensures
            r == (self@ == Map::<SessionId, RegisteredStream<H>>::empty()),
    {
        let n: usize = self.len();
        proof {
            if n == 0 {
                assert(self@.dom() =~= Set::empty());
                assert(self@ =~= Map::<SessionId, RegisteredStream<H>>::empty());
            }
        }
        n == 0
    }

    /// The sessions with their streams, in the order in which they are kept.
    pub closed spec fn listed(&self) -> Seq<(SessionId, RegisteredStream<H>)> {
        self.streams.pairs()
    }

    /// The streams, each of them once.
    pub fn streams(&self) -> (r: Vec<&RegisteredStream<H>>)
        ensures
            session_map::sessions_distinct(self.listed()),
            session_map::sessions_map(self.listed()) == self@,
            r@.len() == self.listed().len(),
            forall|i: int| 0 <= i < r@.len() ==> *(#[trigger] r@[i]) == self.listed()[i].1,
    {
        let n: usize = self.streams.len();
        let mut r: Vec<&RegisteredStream<H>> = Vec::new();
        let mut i: usize = 0;
        while i < n
            invariant
                i <= n,
                n == self.streams.pairs().len(),
                r@.len() == i,
                forall|j: int| 0 <= j < i ==> *(#[trigger] r@[j]) == self.streams.pairs()[j].1,
            decreases n - i,
        {
            r.push(&self.streams.entry(i).1);
            i = i + 1;
        }
        r
    }
}

impl<H> Default for StreamRegistry<H> {
    fn default() -> (r: Self)
        ensures
            r@ == Map::<SessionId, RegisteredStream<H>>::empty(),
    {
        StreamRegistry::new()
    }
}

impl StreamRegistry<LiveStream> {
    /// Registers a new stream for a session.
    pub fn create(&mut self, session: StreamSession)
        ensures
            final(self)@.dom() == old(self)@.dom().insert(session.session_id),
            final(self)@.remove(session.session_id) == old(self)@.remove(session.session_id),
            final(self)@[session.session_id].session == session,
            final(self)@[session.session_id].handle@ == stream::StreamState::fresh(session),
    {
        let stream = LiveStream::new(session.clone());
        self.insert(session, stream);
        assert(self@.remove(session.session_id) =~= old(self)@.remove(session.session_id));
    }
}

// ---------------------------------------------------------------------------
// Metrics
// ---------------------------------------------------------------------------
/// The sum of a counter, wrapping around.
pub open spec fn wrapped_sum(counts: Seq<u64>) -> u64
    decreases counts.len(),
{
    if counts.len() == 0 {
        0
    } else {
        wrapped_sum(counts.drop_last()).wrapping_add(counts.last())
    }
}

/// A metric with its help text and kind, as a line each.
pub open spec fn metric(
    name: Seq<char>,
    help: Seq<char>,
    kind: Seq<char>,
    value: nat,
) -> Seq<char> {
    "# HELP "@ + name + " "@ + help + "\n# TYPE "@ + name + " "@ + kind + "\n"@ + name + " "@
        + text::decimal(value) + "\n"@
}

/// The metrics of the streams.
pub open spec fn metrics(timings: Seq<StreamTiming>) -> Seq<char> {
    metric(
        "airsonos2_stream_sessions"@,
        "Active live stream sessions."@,
        "gauge"@,
        timings.len(),
    ) + metric(
        "airsonos2_http_bytes_served"@,
        "Bytes delivered to HTTP subscribers."@,
        "counter"@,
        wrapped_sum(timings.map_values(|t: StreamTiming| t.bytes_served)) as nat,
    ) + metric(
        "airsonos2_stream_bytes_dropped"@,
        "Bytes dropped before HTTP subscriber connected."@,
        "counter"@,
        wrapped_sum(timings.map_values(|t: StreamTiming| t.bytes_dropped)) as nat,
    ) + metric(
        "airsonos2_stream_bytes_skipped"@,
        "Bytes skipped to align playback with the live edge."@,
        "counter"@,
        wrapped_sum(timings.map_values(|t: StreamTiming| t.bytes_skipped)) as nat,
    )
}

fn append_metric(out: &mut String, name: &str, help: &str, kind: &str, value: u64)
    ensures
        final(out)@ == old(out)@ + metric(name@, help@, kind@, value as nat),
{
    out.append("# HELP ");
    out.append(name);
    out.append(" ");
    out.append(help);
    out.append("\n# TYPE ");
    out.append(name);
    out.append(" ");
    out.append(kind);
    out.append("\n");
    out.append(name);
    out.append(" ");
    let digits = text::decimal_text(value);
    out.append(digits.as_str());
    out.append("\n");
    assert(out@ =~= old(out)@ + metric(name@, help@, kind@, value as nat));
}

/// The metrics of the streams with the given timings, as text.
pub fn metrics_text(timings: &Vec<StreamTiming>) -> (r: String)
    ensures
        r@ == metrics(timings@),
{
    let ghost of_served = |t: StreamTiming| t.bytes_served;
    let ghost of_dropped = |t: StreamTiming| t.bytes_dropped;
    let ghost of_skipped = |t: StreamTiming| t.bytes_skipped;
    let mut served: u64 = 0;
    let mut dropped: u64 = 0;
    let mut skipped: u64 = 0;
    let mut i: usize = 0;
    while i < timings.len()
        invariant
            i <= timings@.len(),
            of_served == (|t: StreamTiming| t.bytes_served),
            of_dropped == (|t: StreamTiming| t.bytes_dropped),
            of_skipped == (|t: StreamTiming| t.bytes_skipped),
            served == wrapped_sum(timings@.take(i as int).map_values(of_served)),
            dropped == wrapped_sum(timings@.take(i as int).map_values(of_dropped)),
            skipped == wrapped_sum(timings@.take(i as int).map_values(of_skipped)),
        decreases timings@.len() - i,
    {
        proof {
            let next = timings@.take(i + 1);
            assert(next.map_values(of_served).drop_last() =~= timings@.take(i as int).map_values(
                of_served,
            ));
            assert(next.map_values(of_dropped).drop_last() =~= timings@.take(i as int).map_values(
                of_dropped,
            ));
            assert(next.map_values(of_skipped).drop_last() =~= timings@.take(i as int).map_values(
                of_skipped,
            ));
        }
        served = served.wrapping_add(timings[i].bytes_served);
        dropped = dropped.wrapping_add(timings[i].bytes_dropped);
        skipped = skipped.wrapping_add(timings[i].bytes_skipped);
        i = i + 1;
    }
    assert(timings@.take(timings@.len() as int) =~= timings@);
    let mut out = String::new();
    append_metric(
        &mut out,
        "airsonos2_stream_sessions",
        "Active live stream sessions.",
        "gauge",
        timings.len() as u64,
    );
    append_metric(
        &mut out,
        "airsonos2_http_bytes_served",
        "Bytes delivered to HTTP subscribers.",
        "counter",
        served,
    );
    append_metric(
        &mut out,
        "airsonos2_stream_bytes_dropped",
        "Bytes dropped before HTTP subscriber connected.",
        "counter",
        dropped,
    );
    append_metric(
        &mut out,
        "airsonos2_stream_bytes_skipped",
        "Bytes skipped to align playback with the live edge.",
        "counter",
        skipped,
    );
    assert(out@ =~= metrics(timings@));
    out
}

// ---------------------------------------------------------------------------
// Laws
// ---------------------------------------------------------------------------
/// The sum of counts, however large.
pub open spec fn exact_sum(counts: Seq<u64>) -> nat
    decreases counts.len(),
{
    if counts.len() == 0 {
        0
    } else {
        exact_sum(counts.drop_last()) + counts.last() as nat
    }
}

/// A metric sums its counters over all streams; a sum that is too large for a
/// counter starts from zero again.
pub proof fn metrics_sum_their_counters(counts: Seq<u64>)
    ensures
        wrapped_sum(counts) == exact_sum(counts) % 0x1_0000_0000_0000_0000,
    decreases counts.len(),
{
    if counts.len() > 0 {
        metrics_sum_their_counters(counts.drop_last());
    }
}

/// A stream that was registered is found under its session until it is removed;
/// the streams of other sessions stay.
pub proof fn registered_streams_are_found<H>(
    registry: &mut StreamRegistry<H>,
    session: StreamSession,
    handle: H,
    later: &StreamRegistry<H>,
    id: SessionId,
    found: Option<&RegisteredStream<H>>,
)
    requires
        call_ensures(StreamRegistry::<H>::insert, (registry, session, handle), ()),
        later@ == final(registry)@,
        call_ensures(StreamRegistry::<H>::get, (later, &id), found),
    ensures
        id == session.session_id ==> (found matches Some(stream) && stream.session == session
            && stream.handle == handle),
        id != session.session_id ==> (found is Some <==> old(registry)@.dom().contains(id)),
        id != session.session_id ==> (found matches Some(stream) ==> *stream
            == old(registry)@[id]),
{
}

/// A stream that is removed is handed back and found no more.
pub proof fn removed_streams_are_handed_back<H>(
    registry: &mut StreamRegistry<H>,
    id: SessionId,
    removed: Option<RegisteredStream<H>>,
    later: &StreamRegistry<H>,
    other: SessionId,
    found: Option<&RegisteredStream<H>>,
)
    requires
        call_ensures(StreamRegistry::<H>::remove, (registry, &id), removed),
        later@ == final(registry)@,
        call_ensures(StreamRegistry::<H>::get, (later, &other), found),
    ensures
        removed is Some <==> old(registry)@.dom().contains(id),
        removed matches Some(stream) ==> stream == old(registry)@[id],
        other == id ==> found is None,
        other != id ==> (found is Some <==> old(registry)@.dom().contains(other)),
{
}

/// The number of sessions that the metrics name is that of the streams, and each
/// counter is the sum over them.
pub proof fn metrics_name_the_sums(timings: &Vec<StreamTiming>, r: String)
    requires
        call_ensures(metrics_text, (timings,), r),
    ensures
        shows(r@, "airsonos2_stream_sessions"@, timings@.len()),
        shows(
            r@,
            "airsonos2_http_bytes_served"@,
            exact_sum(timings@.map_values(|t: StreamTiming| t.bytes_served))
                % 0x1_0000_0000_0000_0000,
        ),
        shows(
            r@,
            "airsonos2_stream_bytes_dropped"@,
            exact_sum(timings@.map_values(|t: StreamTiming| t.bytes_dropped))
                % 0x1_0000_0000_0000_0000,
        ),
        shows(
            r@,
            "airsonos2_stream_bytes_skipped"@,
            exact_sum(timings@.map_values(|t: StreamTiming| t.bytes_skipped))
                % 0x1_0000_0000_0000_0000,
        ),
{
    let served = timings@.map_values(|t: StreamTiming| t.bytes_served);
    let dropped = timings@.map_values(|t: StreamTiming| t.bytes_dropped);
    let skipped = timings@.map_values(|t: StreamTiming| t.bytes_skipped);
    metrics_sum_their_counters(served);
    metrics_sum_their_counters(dropped);
    metrics_sum_their_counters(skipped);
    let m1 = metric(
        "airsonos2_stream_sessions"@,
        "Active live stream sessions."@,
        "gauge"@,
        timings@.len(),
    );
    let m2 = metric(
        "airsonos2_http_bytes_served"@,
        "Bytes delivered to HTTP subscribers."@,
        "counter"@,
        wrapped_sum(served) as nat,
    );
    let m3 = metric(
        "airsonos2_stream_bytes_dropped"@,
        "Bytes dropped before HTTP subscriber connected."@,
        "counter"@,
        wrapped_sum(dropped) as nat,
    );
    let m4 = metric(
        "airsonos2_stream_bytes_skipped"@,
        "Bytes skipped to align playback with the live edge."@,
        "counter"@,
        wrapped_sum(skipped) as nat,
    );
    assert(r@ == m1 + m2 + m3 + m4);
    assert(r@ =~= Seq::empty() + m1 + (m2 + m3 + m4));
    assert(r@ =~= m1 + m2 + (m3 + m4));
    assert(r@ =~= (m1 + m2) + m3 + m4);
    assert(r@ =~= (m1 + m2 + m3) + m4 + Seq::empty());
    lemma_metric_shown(
        Seq::empty(),
        "airsonos2_stream_sessions"@,
        "Active live stream sessions."@,
        "gauge"@,
        timings@.len(),
        m2 + m3 + m4,
    );
    lemma_metric_shown(
        m1,
        "airsonos2_http_bytes_served"@,
        "Bytes delivered to HTTP subscribers."@,
        "counter"@,
        wrapped_sum(served) as nat,
        m3 + m4,
    );
    lemma_metric_shown(
        m1 + m2,
        "airsonos2_stream_bytes_dropped"@,
        "Bytes dropped before HTTP subscriber connected."@,
        "counter"@,
        wrapped_sum(dropped) as nat,
        m4,
    );
    lemma_metric_shown(
        m1 + m2 + m3,
        "airsonos2_stream_bytes_skipped"@,
        "Bytes skipped to align playback with the live edge."@,
        "counter"@,
        wrapped_sum(skipped) as nat,
        Seq::empty(),
    );
}

proof fn lemma_metric_shown(
    before: Seq<char>,
    name: Seq<char>,
    help: Seq<char>,
    kind: Seq<char>,
    value: nat,
    after: Seq<char>,
)
    ensures
        shows(before + metric(name, help, kind, value) + after, name, value),
{
    let lead = "# HELP "@ + name + " "@ + help + "\n# TYPE "@ + name + " "@ + kind;
    let line = metric_line(name, value);
    assert(metric(name, help, kind, value) =~= lead + line);
    assert(before + metric(name, help, kind, value) + after =~= (before + lead) + line + after);
}

/// The line in which a metric shows its value.
pub open spec fn metric_line(name: Seq<char>, value: nat) -> Seq<char> {
    "\n"@ + name + " "@ + text::decimal(value) + "\n"@
}

/// Whether a text shows a value for a metric, on a line of its own.
pub open spec fn shows(s: Seq<char>, name: Seq<char>, value: nat) -> bool {
    exists|before: Seq<char>, after: Seq<char>|
        s == #[trigger] (before + metric_line(name, value) + after)
}

/// A stream that is created is idle and is found under its session.
pub proof fn created_streams_are_idle(
    registry: &mut StreamRegistry<LiveStream>,
    session: StreamSession,
    later: &StreamRegistry<LiveStream>,
    id: SessionId,
    found: Option<&RegisteredStream<LiveStream>>,
)
    requires
        call_ensures(StreamRegistry::<LiveStream>::create, (registry, session), ()),
        later@ == final(registry)@,
        call_ensures(StreamRegistry::<LiveStream>::get, (later, &id), found),
    ensures
        id == session.session_id ==> (found matches Some(stream) && stream.session == session
            && stream.handle@.session == session && !stream.handle@.ready && !stream.handle@.held
            && !stream.handle@.timing.subscriber_connected && stream.handle@.prelude is None),
        id != session.session_id ==> (found is Some <==> old(registry)@.dom().contains(id)),
        id != session.session_id ==> (found matches Some(stream) ==> *stream
            == old(registry)@[id]),
{
    if id != session.session_id && old(registry)@.dom().contains(id) {
        assert(final(registry)@.remove(session.session_id)[id] == old(registry)@.remove(
            session.session_id,
        )[id]);
    }
}

/// A registry is empty where no session has a stream in it, and counts one stream
/// more with every new session.
pub proof fn streams_are_counted<H>(
    registry: &StreamRegistry<H>,
    n: usize,
    empty: bool,
    id: SessionId,
)
    requires
        call_ensures(StreamRegistry::<H>::len, (registry,), n),
        call_ensures(StreamRegistry::<H>::is_empty, (registry,), empty),
    ensures
        empty <==> n == 0,
        registry@.dom().contains(id) ==> !empty,
        n == registry@.dom().len(),
{
    if n == 0 {
        assert(registry@ =~= Map::<SessionId, RegisteredStream<H>>::empty()) by {
            assert(registry@.dom() =~= Set::<SessionId>::empty());
        }
    }
}

} // verus!
