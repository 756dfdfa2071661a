//! Live streams: what the encoder produces, and what of it a player gets.

use bytes::Bytes;
use vstd::prelude::*;

use crate::chunk;
use crate::types::StreamSession;

verus! {

/// What a live stream has done so far. Times are nanoseconds on the service's
/// clock; the counters wrap around.
#[derive(Clone, Copy, Debug, PartialEq, Eq, Structural)]
pub struct StreamTiming {
    pub encoded_bytes: u64,
    pub bytes_served: u64,
    pub bytes_dropped: u64,
    pub bytes_skipped: u64,
    pub chunks_dropped: u64,
    pub subscriber_connected: bool,
    pub playback_anchor_at: Option<u128>,
    pub first_encoded_at: Option<u64>,
    pub first_served_at: Option<u64>,
    pub subscriber_connected_at: Option<u64>,
}

impl StreamTiming {
    /// Nothing done so far.
    pub open spec fn zero() -> Self {
        StreamTiming {
            encoded_bytes: 0,
            bytes_served: 0,
            bytes_dropped: 0,
            bytes_skipped: 0,
            chunks_dropped: 0,
            subscriber_connected: false,
            playback_anchor_at: None,
            first_encoded_at: None,
            first_served_at: None,
            subscriber_connected_at: None,
        }
    }

    /// Whether every byte that was encoded was served, dropped or skipped.
    pub open spec fn accounted(self) -> bool {
        (self.bytes_served + self.bytes_dropped + self.bytes_skipped - self.encoded_bytes)
            % 0x1_0000_0000_0000_0000 == 0
    }
}

impl Default for StreamTiming {
    fn default() -> (r: Self)
        ensures
            r == Self::zero(),
    {
        StreamTiming {
            encoded_bytes: 0,
            bytes_served: 0,
            bytes_dropped: 0,
            bytes_skipped: 0,
            chunks_dropped: 0,
            subscriber_connected: false,
            playback_anchor_at: None,
            first_encoded_at: None,
            first_served_at: None,
            subscriber_connected_at: None,
        }
    }
}

/// From when on timed audio is played.
#[derive(Clone, Copy, Debug, PartialEq, Eq, Structural)]
pub enum PlaybackAnchorState {
    /// Not yet: timed audio is skipped.
    Unset,
    /// From the given time on.
    At(u128),
    /// From the next timed chunk on.
    NextTimedPcm,
}

/// A live stream.
#[derive(Debug)]
pub struct LiveStream {
    session: StreamSession,
    prelude: Option<Bytes>,
    timing: StreamTiming,
    anchor: PlaybackAnchorState,
    ready: bool,
    held: bool,
}

/// What a live stream is.
pub struct StreamState {
    /// What it streams.
    pub session: StreamSession,
    /// What precedes the audio for every player.
    pub prelude: Option<Seq<u8>>,
    /// What it has done; the playback anchor stands in `anchor`.
    pub timing: StreamTiming,
    /// From when on timed audio is played.
    pub anchor: PlaybackAnchorState,
    /// Whether the encoder has produced anything.
    pub ready: bool,
    /// Whether audio is held back from the player.
    pub held: bool,
}

/// What is measured outside the stream for a timed chunk.
#[derive(Clone, Copy, Debug, PartialEq, Eq, Structural)]
pub struct TimedPcmClock {
    /// The time.
    pub now: u64,
    /// How long the chunk's whole frames play, in nanoseconds.
    pub duration_ns: u128,
    /// The number of frames between the chunk's presentation and the anchor.
    pub skip_frames: usize,
}

/// The time of the first event: the one noted, or else now.
pub open spec fn first(at: Option<u64>, now: u64) -> Option<u64> {
    match at {
        Some(_) => at,
        None => Some(now),
    }
}

impl StreamState {
    /// A new stream.
    pub open spec fn fresh(session: StreamSession) -> Self {
        StreamState {
            session,
            prelude: None,
            timing: StreamTiming::zero(),
            anchor: PlaybackAnchorState::Unset,
            ready: false,
            held: false,
        }
    }

    /// `len` bytes were encoded.
    pub open spec fn encoded(self, len: u64, now: u64) -> Self {
        StreamState {
            timing: StreamTiming {
                encoded_bytes: self.timing.encoded_bytes.wrapping_add(len),
                first_encoded_at: first(self.timing.first_encoded_at, now),
                ..self.timing
            },
            ready: true,
            ..self
        }
    }

    /// A chunk of `len` bytes was dropped.
    pub open spec fn dropped(self, len: u64) -> Self {
        StreamState {
            timing: StreamTiming {
                bytes_dropped: self.timing.bytes_dropped.wrapping_add(len),
                chunks_dropped: self.timing.chunks_dropped.wrapping_add(1),
                ..self.timing
            },
            ..self
        }
    }

    /// `len` bytes were skipped, and with them the whole chunk or not.
    pub open spec fn skipped(self, len: u64, whole: bool) -> Self {
        StreamState {
            timing: StreamTiming {
                bytes_skipped: self.timing.bytes_skipped.wrapping_add(len),
                chunks_dropped: if whole {
                    self.timing.chunks_dropped.wrapping_add(1)
                } else {
                    self.timing.chunks_dropped
                },
                ..self.timing
            },
            ..self
        }
    }

    /// `len` bytes were served.
    pub open spec fn served(self, len: u64, now: u64) -> Self {
        StreamState {
            timing: StreamTiming {
                bytes_served: self.timing.bytes_served.wrapping_add(len),
                first_served_at: first(self.timing.first_served_at, now),
                ..self.timing
            },
            ..self
        }
    }

    /// A player connected; only the first time counts.
    pub open spec fn connected(self, now: u64) -> Self {
        if self.timing.subscriber_connected {
            self
        } else {
            StreamState {
                timing: StreamTiming {
                    subscriber_connected: true,
                    subscriber_connected_at: Some(now),
                    ..self.timing
                },
                ..self
            }
        }
    }

    /// The stream after a chunk, and what the player gets of it: the chunk
    /// where a player is connected and the chunk is not held back, else nothing.
    pub open spec fn published(self, chunk: Seq<u8>, now: u64, held_back: bool) -> (
        Self,
        Option<Seq<u8>>,
    ) {
        let len = chunk.len() as u64;
        if chunk.len() == 0 {
            (self, None)
        } else if !self.timing.subscriber_connected || held_back {
            (self.encoded(len, now).dropped(len), None)
        } else {
            (self.encoded(len, now).served(len, now), Some(chunk))
        }
    }

    /// The time from which on a timed chunk is played.
    pub open spec fn anchor_for(self, presented: Option<u64>, now: u64) -> Option<u128> {
        match self.anchor {
            PlaybackAnchorState::Unset => None,
            PlaybackAnchorState::At(at) => Some(at),
            PlaybackAnchorState::NextTimedPcm => match presented {
                Some(at) => Some(at as u128),
                None => Some(now as u128),
            },
        }
    }

    /// How much of a timed chunk lies before the anchor: all of it where it
    /// ends by then, its frames up to the anchor where the anchor falls into it.
    pub open spec fn skip_of(
        len: nat,
        presented: Option<u64>,
        anchor: u128,
        sample_rate: u32,
        channels: u8,
        clock: TimedPcmClock,
    ) -> nat {
        let frame = channels as nat * 2;
        match presented {
            Some(at) => if frame == 0 || sample_rate == 0 {
                0
            } else if at + clock.duration_ns <= anchor {
                len
            } else if at >= anchor {
                0
            } else if clock.skip_frames < len / frame {
                clock.skip_frames as nat * frame
            } else {
                len / frame * frame
            },
            None => 0,
        }
    }

    /// The stream after a timed chunk, and what the player gets of it: what
    /// lies after the anchor, where a player is connected, the audio is not
    /// held back and an anchor is set or to be set, else nothing.
    pub open spec fn published_timed(
        self,
        chunk: Seq<u8>,
        presented: Option<u64>,
        sample_rate: u32,
        channels: u8,
        clock: TimedPcmClock,
    ) -> (Self, Option<Seq<u8>>) {
        let len = chunk.len() as u64;
        let s = self.encoded(len, clock.now);
        if chunk.len() == 0 {
            (self, None)
        } else if !self.timing.subscriber_connected || self.held {
            (s.dropped(len), None)
        } else {
            match self.anchor_for(presented, clock.now) {
                None => (s.skipped(len, true), None),
                Some(at) => {
                    let s = StreamState { anchor: PlaybackAnchorState::At(at), ..s };
                    let skip = Self::skip_of(
                        chunk.len(),
                        presented,
                        at,
                        sample_rate,
                        channels,
                        clock,
                    );
                    if skip == chunk.len() {
                        (s.skipped(len, true), None)
                    } else {
                        (
                            s.skipped(skip as u64, false).served(
                                (chunk.len() - skip) as u64,
                                clock.now,
                            ),
                            Some(chunk.skip(skip as int)),
                        )
                    }
                },
            }
        }
    }
}

/// The bytes of a chunk, where there is one.
pub open spec fn contents(chunk: Option<Bytes>) -> Option<Seq<u8>> {
    match chunk {
        Some(c) => Some(chunk::held(c)),
        None => None,
    }
}

impl View for LiveStream {
    type V = StreamState;

    closed spec fn view(&self) -> StreamState {
        StreamState {
            session: self.session,
            prelude: contents(self.prelude),
            timing: self.timing,
            anchor: self.anchor,
            ready: self.ready,
            held: self.held,
        }
    }
}

impl LiveStream {
    /// A stream that has not streamed anything yet.
    pub fn new(session: StreamSession) -> (r: Self)
        ensures
            r@ == StreamState::fresh(session),
    {
        LiveStream {
            session,
            prelude: None,
            timing: StreamTiming::default(),
            anchor: PlaybackAnchorState::Unset,
            ready: false,
            held: false,
        }
    }

    fn note_encoded(&mut self, len: u64, now: u64)
        ensures
            final(self)@ == old(self)@.encoded(len, now),
    {
        self.timing.encoded_bytes = self.timing.encoded_bytes.wrapping_add(len);
        if self.timing.first_encoded_at.is_none() {
            self.timing.first_encoded_at = Some(now);
        }
        self.ready = true;
    }

    fn note_dropped(&mut self, len: u64)
        ensures
            final(self)@ == old(self)@.dropped(len),
    {
        self.timing.bytes_dropped = self.timing.bytes_dropped.wrapping_add(len);
        self.timing.chunks_dropped = self.timing.chunks_dropped.wrapping_add(1);
    }

    fn note_skipped(&mut self, len: u64, whole: bool)
        ensures
            final(self)@ == old(self)@.skipped(len, whole),
    {
        self.timing.bytes_skipped = self.timing.bytes_skipped.wrapping_add(len);
        if whole {
            self.timing.chunks_dropped = self.timing.chunks_dropped.wrapping_add(1);
        }
    }

    fn send_served(&mut self, len: u64, now: u64)
        ensures
            final(self)@ == old(self)@.served(len, now),
    {
        self.timing.bytes_served = self.timing.bytes_served.wrapping_add(len);
        if self.timing.first_served_at.is_none() {
            self.timing.first_served_at = Some(now);
        }
    }

    fn publish_past(&mut self, bytes: Bytes, now: u64, held_back: bool) -> (r: Option<Bytes>)
        ensures
            (final(self)@, contents(r)) == old(self)@.published(
                chunk::held(bytes),
                now,
                held_back,
            ),
    {
        if bytes.is_empty() {
            return None;
        }
        let len: u64 = bytes.len() as u64;
        self.note_encoded(len, now);
        if !self.timing.subscriber_connected || held_back {
            self.note_dropped(len);
            return None;
        }
        self.send_served(len, now);
        Some(bytes)
    }

    /// Publishes encoded bytes and gives what the player is to be sent. Before
    /// a player connects, and while audio is held back, chunks are dropped, so
    /// that playback starts at the live edge.
    pub fn publish(&mut self, bytes: Bytes, now: u64) -> (r: Option<Bytes>)
        ensures
            (final(self)@, contents(r)) == old(self)@.published(
                chunk::held(bytes),
                now,
                old(self)@.held,
            ),
    {
        let held: bool = self.held;
        self.publish_past(bytes, now, held)
    }

    /// Publishes bytes that come before the audio for every player, such as a
    /// WAV header, and gives what a connected player is to be sent. They are
    /// never held back.
    pub fn publish_prelude(&mut self, bytes: Bytes, now: u64) -> (r: Option<Bytes>)
        ensures
            (final(self)@, contents(r)) == (if chunk::held(bytes).len() == 0 {
                (old(self)@, None)
            } else {
                (StreamState { prelude: Some(chunk::held(bytes)), ..old(self)@ }).published(
                    chunk::held(bytes),
                    now,
                    false,
                )
            }),
    {
        if bytes.is_empty() {
            return None;
        }
        self.prelude = Some(bytes.clone());
        self.publish_past(bytes, now, false)
    }

    /// The time from which on a timed chunk would be played.
    pub fn timed_anchor(&self, presentation_time: Option<u64>, now: u64) -> (r: Option<u128>)
        ensures
            r == self@.anchor_for(presentation_time, now),
    {
        match self.anchor {
            PlaybackAnchorState::Unset => None,
            PlaybackAnchorState::At(at) => Some(at),
            PlaybackAnchorState::NextTimedPcm => match presentation_time {
                Some(at) => Some(at as u128),
                None => Some(now as u128),
            },
        }
    }

    /// Publishes timed PCM and gives what the player is to be sent. Before
    /// playback is anchored, or where a frame is older than the anchor, PCM is
    /// skipped, so that playback starts near the live edge.
    pub fn publish_timed_pcm(
        &mut self,
        bytes: Bytes,
        presentation_time: Option<u64>,
        sample_rate: u32,
        channels: u8,
        clock: TimedPcmClock,
    ) -> (r: Option<Bytes>)
        ensures
            (final(self)@, contents(r)) == old(self)@.published_timed(
                chunk::held(bytes),
                presentation_time,
                sample_rate,
                channels,
                clock,
            ),
    {
        if bytes.is_empty() {
            return None;
        }
        let len: usize = bytes.len();
        let ghost all = chunk::held(bytes);
        self.note_encoded(len as u64, clock.now);
        if !self.timing.subscriber_connected || self.held {
            self.note_dropped(len as u64);
            return None;
        }
        let anchor: u128 = match self.timed_anchor(presentation_time, clock.now) {
            Some(at) => at,
            None => {
                self.note_skipped(len as u64, true);
                return None;
            },
        };
        self.anchor = PlaybackAnchorState::At(anchor);
        let skip: usize = timed_skip(
            len,
            presentation_time,
            anchor,
            sample_rate,
            channels,
            clock,
        );
        if skip == len {
            self.note_skipped(len as u64, true);
            return None;
        }
        self.note_skipped(skip as u64, false);
        self.send_served((len - skip) as u64, clock.now);
        Some(chunk::tail_from(&bytes, skip))
    }

    /// Notes that a player connected.
    pub fn on_subscriber_connected(&mut self, now: u64)
        ensures
            final(self)@ == old(self)@.connected(now),
    {
        if self.timing.subscriber_connected {
            return;
        }
        self.timing.subscriber_connected = true;
        self.timing.subscriber_connected_at = Some(now);
    }

    /// Notes that a player connected and gives what it is to be sent first.
    pub fn attach_subscriber(&mut self, now: u64) -> (r: Option<Bytes>)
        ensures
            final(self)@ == old(self)@.connected(now),
            contents(r) == old(self)@.prelude,
    {
        let prelude = self.prelude();
        self.on_subscriber_connected(now);
        prelude
    }

    /// Anchors playback at a time.
    pub fn set_playback_anchor(&mut self, anchor: u128)
        ensures
            final(self)@ == (StreamState { anchor: PlaybackAnchorState::At(anchor), ..old(self)@ }),
    {
        self.anchor = PlaybackAnchorState::At(anchor);
    }

    /// Anchors playback at the next timed chunk.
    pub fn arm_playback_anchor_on_next_timed_pcm(&mut self)
        ensures
            final(self)@ == (StreamState {
                anchor: PlaybackAnchorState::NextTimedPcm,
                ..old(self)@
            }),
    {
        self.anchor = PlaybackAnchorState::NextTimedPcm;
    }

    /// Takes the playback anchor away.
    pub fn clear_playback_anchor(&mut self)
        ensures
            final(self)@ == (StreamState { anchor: PlaybackAnchorState::Unset, ..old(self)@ }),
    {
        self.anchor = PlaybackAnchorState::Unset;
    }

    /// Holds audio back until delivery is opened.
    pub fn hold_delivery(&mut self)
        ensures
            final(self)@ == (StreamState { held: true, ..old(self)@ }),
    {
        self.held = true;
    }

    /// Lets audio through to the player.
    pub fn open_delivery(&mut self)
        ensures
            final(self)@ == (StreamState { held: false, ..old(self)@ }),
    {
        self.held = false;
    }

    /// What is streamed.
    pub fn session(&self) -> (r: &StreamSession)
        ensures
            *r == self@.session,
    {
        &self.session
    }

    /// Whether the encoder has produced stream data.
    pub fn is_ready(&self) -> (r: bool)
        ensures
            r == self@.ready,
    {
        self.ready
    }

    /// What precedes the audio for every player.
    pub fn prelude(&self) -> (r: Option<Bytes>)
        ensures
            contents(r) == self@.prelude,
    {
        match &self.prelude {
            Some(bytes) => Some(bytes.clone()),
            None => None,
        }
    }

    /// The number of bytes served.
    pub fn bytes_served(&self) -> (r: u64)
        ensures
            r == self@.timing.bytes_served,
    {
        self.timing.bytes_served
    }

    /// The number of bytes encoded.
    pub fn bytes_encoded(&self) -> (r: u64)
        ensures
            r == self@.timing.encoded_bytes,
    {
        self.timing.encoded_bytes
    }

    /// The number of bytes dropped.
    pub fn bytes_dropped(&self) -> (r: u64)
        ensures
            r == self@.timing.bytes_dropped,
    {
        self.timing.bytes_dropped
    }

    /// What the stream has done so far, with the time that playback is anchored at.
    pub fn timing(&self) -> (r: StreamTiming)
        ensures
            r == (StreamTiming {
                playback_anchor_at: match self@.anchor {
                    PlaybackAnchorState::At(at) => Some(at),
                    _ => None,
                },
                ..self@.timing
            }),
    {
        let mut r = self.timing;
        r.playback_anchor_at = match self.anchor {
            PlaybackAnchorState::At(at) => Some(at),
            _ => None,
        };
        r
    }
}

/// How much of a timed chunk lies before the anchor.
fn timed_skip(
    len: usize,
    presentation_time: Option<u64>,
    anchor: u128,
    sample_rate: u32,
    channels: u8,
    clock: TimedPcmClock,
) -> (r: usize)
    requires
        len > 0,
    ensures
        r == StreamState::skip_of(
            len as nat,
            presentation_time,
            anchor,
            sample_rate,
            channels,
            clock,
        ),
        r <= len,
{
    let presented: u128 = match presentation_time {
        Some(at) => at as u128,
        None => return 0,
    };
    let frame: usize = channels as usize * 2;
    if frame == 0 || sample_rate == 0 {
        return 0;
    }
    if presented <= anchor && clock.duration_ns <= anchor - presented {
        return len;
    }
    if presented >= anchor {
        return 0;
    }
    let frames: usize = len / frame;
    let skip: usize = if clock.skip_frames < frames {
        clock.skip_frames
    } else {
        frames
    };
    assert(0 <= skip * frame <= frames * frame <= len) by (nonlinear_arith)
        requires
            0 <= skip <= frames,
            frame > 0,
            frames == len / frame,
    ;
    skip * frame
}

// ---------------------------------------------------------------------------
// Laws
// ---------------------------------------------------------------------------
/// Every byte that is encoded is served, dropped or skipped: publishing a chunk,
/// timed or not, keeps the four counters in balance.
pub proof fn every_byte_is_accounted_for(
    s: StreamState,
    chunk: Seq<u8>,
    now: u64,
    held_back: bool,
    presented: Option<u64>,
    sample_rate: u32,
    channels: u8,
    clock: TimedPcmClock,
)
    requires
        s.timing.accounted(),
        chunk.len() <= u64::MAX,
    ensures
        s.published(chunk, now, held_back).0.timing.accounted(),
        s.published_timed(chunk, presented, sample_rate, channels, clock).0.timing.accounted(),
{
    match s.anchor_for(presented, clock.now) {
        Some(at) => {
            lemma_skip_within(chunk.len(), presented, at, sample_rate, channels, clock);
        },
        None => {},
    }
}

/// A new stream's counters are in balance.
pub proof fn fresh_stream_is_accounted_for(session: StreamSession)
    ensures
        StreamState::fresh(session).timing.accounted(),
{
}

/// What is skipped of a chunk lies within it, and where it is not the whole
/// chunk, it is a whole number of frames.
proof fn lemma_skip_within(
    len: nat,
    presented: Option<u64>,
    anchor: u128,
    sample_rate: u32,
    channels: u8,
    clock: TimedPcmClock,
)
    ensures
        ({
            let skip = StreamState::skip_of(len, presented, anchor, sample_rate, channels, clock);
            &&& skip <= len
            &&& skip == len || skip == 0 || (channels > 0 && skip % (channels as nat * 2) == 0)
        }),
{
    let frame = channels as nat * 2;
    if frame > 0 {
        let frames = len / frame;
        let skip = if clock.skip_frames < frames {
            clock.skip_frames as nat
        } else {
            frames
        };
        assert(skip * frame <= len) by (nonlinear_arith)
            requires
                skip <= frames,
                frames == len / frame,
                frame > 0,
        ;
        assert((skip * frame) % frame == 0) by (nonlinear_arith)
            requires
                frame > 0,
        ;
    }
}

/// A player is only ever sent the end of a timed chunk, from a frame's boundary
/// on, and never an empty one.
pub proof fn timed_audio_is_cut_between_frames(
    s: StreamState,
    chunk: Seq<u8>,
    presented: Option<u64>,
    sample_rate: u32,
    channels: u8,
    clock: TimedPcmClock,
)
    requires
        chunk.len() <= u64::MAX,
    ensures
        match s.published_timed(chunk, presented, sample_rate, channels, clock).1 {
            Some(sent) => {
                let cut = chunk.len() - sent.len();
                &&& 0 < sent.len() <= chunk.len()
                &&& sent == chunk.skip(cut)
                &&& cut == 0 || cut % (channels as int * 2) == 0
            },
            None => true,
        },
{
    match s.anchor_for(presented, clock.now) {
        Some(at) => {
            lemma_skip_within(chunk.len(), presented, at, sample_rate, channels, clock);
        },
        None => {},
    }
}

/// Nothing of the audio is sent before a player connects, while it is held back
/// or, of timed audio, while no anchor is set: what comes in between is gone, so
/// that a player starts at the live edge.
pub proof fn playback_starts_at_the_live_edge(
    s: StreamState,
    chunk: Seq<u8>,
    now: u64,
    presented: Option<u64>,
    sample_rate: u32,
    channels: u8,
    clock: TimedPcmClock,
)
    ensures
        !s.timing.subscriber_connected || s.held ==> s.published(chunk, now, s.held).1 is None,
        !s.timing.subscriber_connected || s.held || s.anchor == PlaybackAnchorState::Unset
            ==> s.published_timed(chunk, presented, sample_rate, channels, clock).1 is None,
        s.timing.subscriber_connected && !s.held && chunk.len() > 0 ==> s.published(
            chunk,
            now,
            s.held,
        ).1 == Some(chunk),
{
}

/// A timed chunk that is not older than the anchor is sent whole.
pub proof fn audio_from_the_anchor_on_is_sent_whole(
    s: StreamState,
    chunk: Seq<u8>,
    presented: u64,
    anchor: u128,
    sample_rate: u32,
    channels: u8,
    clock: TimedPcmClock,
)
    requires
        0 < chunk.len(),
        s.timing.subscriber_connected,
        !s.held,
        s.anchor_for(Some(presented), clock.now) == Some(anchor),
        presented > anchor || (presented == anchor && clock.duration_ns > 0),
    ensures
        s.published_timed(chunk, Some(presented), sample_rate, channels, clock).1 == Some(chunk),
{
    assert(chunk.skip(0) =~= chunk);
}

/// Where the anchor falls into a timed chunk, exactly the frames before it are
/// left out: as many as lie between the chunk's presentation and the anchor, as
/// far as the chunk has them. Every byte from there on is sent, and both parts
/// are counted.
pub proof fn the_cut_lies_at_the_anchor(
    s: StreamState,
    chunk: Seq<u8>,
    presented: u64,
    anchor: u128,
    sample_rate: u32,
    channels: u8,
    clock: TimedPcmClock,
    before: int,
)
    requires
        0 < chunk.len() <= u64::MAX,
        s.timing.subscriber_connected,
        !s.held,
        s.anchor_for(Some(presented), clock.now) == Some(anchor),
        presented < anchor < presented + clock.duration_ns,
        channels > 0,
        sample_rate > 0,
        0 <= before <= clock.skip_frames,
        before * (channels * 2) <= chunk.len(),
        before == clock.skip_frames || (before + 1) * (channels * 2) > chunk.len(),
    ensures
        ({
            let (t, sent) = s.published_timed(
                chunk,
                Some(presented),
                sample_rate,
                channels,
                clock,
            );
            let cut = before * (channels * 2);
            &&& cut < chunk.len() ==> sent == Some(chunk.subrange(cut, chunk.len() as int))
            &&& cut == chunk.len() ==> sent is None
            &&& t.timing.bytes_skipped == s.timing.bytes_skipped.wrapping_add(cut as u64)
            &&& t.timing.bytes_served == s.timing.bytes_served.wrapping_add(
                (chunk.len() - cut) as u64,
            )
            &&& t.timing.bytes_dropped == s.timing.bytes_dropped
        }),
{
    let frame = channels as nat * 2;
    let frames = chunk.len() / frame;
    assert(before <= frames && (before == clock.skip_frames || before == frames)) by (
    nonlinear_arith)
        requires
            frames == chunk.len() / frame,
            frame == channels * 2,
            frame > 0,
            before * (channels * 2) <= chunk.len(),
            before == clock.skip_frames || (before + 1) * (channels * 2) > chunk.len(),
    ;
    let cut = before * (channels * 2);
    assert(0 <= cut) by (nonlinear_arith)
        requires
            cut == before * (channels * 2),
            before >= 0,
    ;
    assert(StreamState::skip_of(
        chunk.len(),
        Some(presented),
        anchor,
        sample_rate,
        channels,
        clock,
    ) == cut);
    assert(chunk.skip(cut) =~= chunk.subrange(cut, chunk.len() as int));
}

/// A timed chunk that ends by the anchor is skipped whole, and one without a
/// presentation time or a frame size is sent whole.
pub proof fn chunks_off_the_anchor_are_not_cut(
    s: StreamState,
    chunk: Seq<u8>,
    presented: Option<u64>,
    anchor: u128,
    sample_rate: u32,
    channels: u8,
    clock: TimedPcmClock,
)
    requires
        0 < chunk.len() <= u64::MAX,
        s.timing.subscriber_connected,
        !s.held,
        s.anchor_for(presented, clock.now) == Some(anchor),
    ensures
        ({
            let (t, sent) = s.published_timed(chunk, presented, sample_rate, channels, clock);
            &&& presented is Some && channels > 0 && sample_rate > 0 && presented->0
                + clock.duration_ns <= anchor ==> {
                &&& sent is None
                &&& t.timing.bytes_skipped == s.timing.bytes_skipped.wrapping_add(
                    chunk.len() as u64,
                )
                &&& t.timing.bytes_served == s.timing.bytes_served
                &&& t.timing.chunks_dropped == s.timing.chunks_dropped.wrapping_add(1)
            }
            &&& presented is None || channels == 0 || sample_rate == 0 ==> {
                &&& sent == Some(chunk)
                &&& t.timing.bytes_served == s.timing.bytes_served.wrapping_add(chunk.len() as u64)
            }
        }),
{
    assert(chunk.skip(0) =~= chunk);
}

/// An anchor stays where it is. One that is armed is put at the presentation of
/// the next timed chunk, or at the time where it has none, and from then on
/// stays there; without an anchor timed audio is skipped, and none is put.
pub proof fn anchors_stay(
    s: StreamState,
    chunk: Seq<u8>,
    presented: Option<u64>,
    sample_rate: u32,
    channels: u8,
    clock: TimedPcmClock,
)
    requires
        0 < chunk.len() <= u64::MAX,
        s.timing.subscriber_connected,
        !s.held,
    ensures
        ({
            let (t, sent) = s.published_timed(chunk, presented, sample_rate, channels, clock);
            match s.anchor {
                PlaybackAnchorState::At(at) => t.anchor == s.anchor,
                PlaybackAnchorState::NextTimedPcm => {
                    &&& t.anchor == PlaybackAnchorState::At(
                        match presented {
                            Some(at) => at as u128,
                            None => clock.now as u128,
                        },
                    )
                    &&& presented is None || clock.duration_ns > 0 ==> sent == Some(chunk)
                },
                PlaybackAnchorState::Unset => {
                    &&& t.anchor == PlaybackAnchorState::Unset
                    &&& sent is None
                    &&& t.timing.bytes_skipped == s.timing.bytes_skipped.wrapping_add(
                        chunk.len() as u64,
                    )
                },
            }
        }),
{
    assert(chunk.skip(0) =~= chunk);
}

/// Each counter counts what it is for. A chunk that is published is encoded, and
/// makes the stream ready; it is served where it is sent, and else dropped, as
/// one chunk. The first times are kept.
pub proof fn chunks_are_counted(s: StreamState, chunk: Seq<u8>, now: u64, held_back: bool)
    requires
        0 < chunk.len() <= u64::MAX,
    ensures
        ({
            let (t, sent) = s.published(chunk, now, held_back);
            let n = chunk.len() as u64;
            &&& sent is Some <==> s.timing.subscriber_connected && !held_back
            &&& sent is Some ==> sent == Some(chunk)
            &&& t.ready
            &&& t.session == s.session
            &&& t.prelude == s.prelude
            &&& t.anchor == s.anchor
            &&& t.held == s.held
            &&& t.timing.encoded_bytes == s.timing.encoded_bytes.wrapping_add(n)
            &&& t.timing.bytes_served == if sent is Some {
                s.timing.bytes_served.wrapping_add(n)
            } else {
                s.timing.bytes_served
            }
            &&& t.timing.bytes_dropped == if sent is Some {
                s.timing.bytes_dropped
            } else {
                s.timing.bytes_dropped.wrapping_add(n)
            }
            &&& t.timing.chunks_dropped == if sent is Some {
                s.timing.chunks_dropped
            } else {
                s.timing.chunks_dropped.wrapping_add(1)
            }
            &&& t.timing.bytes_skipped == s.timing.bytes_skipped
            &&& s.timing.first_encoded_at is Some ==> t.timing.first_encoded_at
                == s.timing.first_encoded_at
            &&& s.timing.first_encoded_at is None ==> t.timing.first_encoded_at == Some(now)
            &&& s.timing.first_served_at is Some || sent is None ==> t.timing.first_served_at
                == s.timing.first_served_at
            &&& s.timing.first_served_at is None && sent is Some ==> t.timing.first_served_at
                == Some(now)
        }),
{
}

/// Publishing nothing changes nothing.
pub proof fn empty_chunks_do_nothing(
    s: StreamState,
    now: u64,
    held_back: bool,
    presented: Option<u64>,
    sample_rate: u32,
    channels: u8,
    clock: TimedPcmClock,
)
    ensures
        s.published(Seq::empty(), now, held_back) == (s, None::<Seq<u8>>),
        s.published_timed(Seq::empty(), presented, sample_rate, channels, clock) == (
            s,
            None::<Seq<u8>>,
        ),
{
}

/// A player is connected from its first connection on, whose time is kept.
pub proof fn only_the_first_connection_counts(s: StreamState, now: u64, later: u64)
    ensures
        s.connected(now).timing.subscriber_connected,
        s.connected(now).connected(later) == s.connected(now),
        !s.timing.subscriber_connected ==> s.connected(now).timing.subscriber_connected_at == Some(
            now,
        ),
        s.timing.subscriber_connected ==> s.connected(now) == s,
        s.connected(now).timing.bytes_served == s.timing.bytes_served,
        s.connected(now).anchor == s.anchor,
        s.connected(now).held == s.held,
{
}

/// A new stream has done nothing, is not ready and lets audio through once a
/// player is there.
pub proof fn new_streams_are_idle(session: StreamSession)
    ensures
        ({
            let s = StreamState::fresh(session);
            &&& s.session == session
            &&& s.prelude is None
            &&& s.anchor == PlaybackAnchorState::Unset
            &&& !s.ready
            &&& !s.held
            &&& !s.timing.subscriber_connected
            &&& s.timing.encoded_bytes == 0
            &&& s.timing.bytes_served == 0
            &&& s.timing.bytes_dropped == 0
            &&& s.timing.bytes_skipped == 0
            &&& s.timing.chunks_dropped == 0
            &&& s.timing.first_encoded_at is None
            &&& s.timing.first_served_at is None
            &&& s.timing.subscriber_connected_at is None
        }),
{
}

// ---------------------------------------------------------------------------
// What callers see
// ---------------------------------------------------------------------------
/// Of a timed chunk into which the anchor falls a player gets all but the frames
/// before the anchor: `before` frames, as many as are to be skipped or as the
/// chunk has, whichever is fewer.
pub proof fn callers_get_the_audio_after_the_anchor(
    stream: &mut LiveStream,
    bytes: Bytes,
    presented: u64,
    anchor: u128,
    sample_rate: u32,
    channels: u8,
    clock: TimedPcmClock,
    before: int,
    r: Option<Bytes>,
)
    requires
        call_ensures(
            LiveStream::publish_timed_pcm,
            (stream, bytes, Some(presented), sample_rate, channels, clock),
            r,
        ),
        0 < chunk::held(bytes).len() <= u64::MAX,
        old(stream)@.timing.subscriber_connected,
        !old(stream)@.held,
        old(stream)@.anchor == PlaybackAnchorState::At(anchor),
        presented < anchor < presented + clock.duration_ns,
        channels > 0,
        sample_rate > 0,
        0 <= before <= clock.skip_frames,
        before * (channels * 2) <= chunk::held(bytes).len(),
        before == clock.skip_frames || (before + 1) * (channels * 2) > chunk::held(bytes).len(),
    ensures
        ({
            let whole = chunk::held(bytes);
            let cut = before * (channels * 2);
            &&& cut < whole.len() ==> contents(r) == Some(
                whole.subrange(cut, whole.len() as int),
            )
            &&& cut == whole.len() ==> contents(r) is None
            &&& final(stream)@.timing.bytes_skipped
                == old(stream)@.timing.bytes_skipped.wrapping_add(cut as u64)
            &&& final(stream)@.timing.bytes_served == old(stream)@.timing.bytes_served.wrapping_add(
                (whole.len() - cut) as u64,
            )
            &&& final(stream)@.anchor == old(stream)@.anchor
        }),
{
    the_cut_lies_at_the_anchor(
        old(stream)@,
        chunk::held(bytes),
        presented,
        anchor,
        sample_rate,
        channels,
        clock,
        before,
    );
}

/// A chunk is handed on whole to a player that is connected, unless the audio is
/// held back; else it is dropped. Either way it is counted once.
pub proof fn callers_get_the_whole_chunk(
    stream: &mut LiveStream,
    bytes: Bytes,
    now: u64,
    r: Option<Bytes>,
)
    requires
        call_ensures(LiveStream::publish, (stream, bytes, now), r),
        0 < chunk::held(bytes).len() <= u64::MAX,
    ensures
        ({
            let n = chunk::held(bytes).len() as u64;
            let s = old(stream)@.timing;
            let t = final(stream)@.timing;
            let flows = s.subscriber_connected && !old(stream)@.held;
            &&& contents(r) == if flows {
                Some(chunk::held(bytes))
            } else {
                None
            }
            &&& t.encoded_bytes == s.encoded_bytes.wrapping_add(n)
            &&& t.bytes_served == if flows {
                s.bytes_served.wrapping_add(n)
            } else {
                s.bytes_served
            }
            &&& t.bytes_dropped == if flows {
                s.bytes_dropped
            } else {
                s.bytes_dropped.wrapping_add(n)
            }
            &&& final(stream)@.ready
            &&& final(stream)@.prelude == old(stream)@.prelude
            &&& final(stream)@.held == old(stream)@.held
            &&& final(stream)@.anchor == old(stream)@.anchor
        }),
{
    chunks_are_counted(old(stream)@, chunk::held(bytes), now, old(stream)@.held);
}

/// A header is handed on to a connected player though the audio is held back,
/// and kept; every player that attaches later gets it first.
pub proof fn headers_reach_every_player(
    stream: &mut LiveStream,
    bytes: Bytes,
    now: u64,
    r: Option<Bytes>,
    attached: &mut LiveStream,
    later: u64,
    first: Option<Bytes>,
)
    requires
        call_ensures(LiveStream::publish_prelude, (stream, bytes, now), r),
        0 < chunk::held(bytes).len() <= u64::MAX,
        old(attached)@ == final(stream)@,
        call_ensures(LiveStream::attach_subscriber, (attached, later), first),
    ensures
        contents(r) == if old(stream)@.timing.subscriber_connected {
            Some(chunk::held(bytes))
        } else {
            None
        },
        contents(first) == Some(chunk::held(bytes)),
        final(attached)@.timing.subscriber_connected,
        final(attached)@.held == old(stream)@.held,
{
    let kept = StreamState { prelude: Some(chunk::held(bytes)), ..old(stream)@ };
    chunks_are_counted(kept, chunk::held(bytes), now, false);
    only_the_first_connection_counts(final(stream)@, later, later);
}

/// Audio that is held back is not handed on until it is let through again; both
/// leave all else of the stream as it is.
pub proof fn held_audio_is_not_handed_on(
    stream: &mut LiveStream,
    held: &mut LiveStream,
    bytes: Bytes,
    now: u64,
    r: Option<Bytes>,
)
    requires
        call_ensures(LiveStream::hold_delivery, (stream,), ()),
        old(held)@ == final(stream)@,
        call_ensures(LiveStream::publish, (held, bytes, now), r),
    ensures
        contents(r) is None,
        final(stream)@.held,
        final(stream)@.session == old(stream)@.session,
        final(stream)@.timing == old(stream)@.timing,
        final(stream)@.anchor == old(stream)@.anchor,
        final(stream)@.prelude == old(stream)@.prelude,
        final(stream)@.ready == old(stream)@.ready,
{
}

/// Letting the audio through again undoes holding it back.
pub proof fn letting_through_undoes_holding_back(stream: &mut LiveStream, held: &mut LiveStream)
    requires
        call_ensures(LiveStream::hold_delivery, (stream,), ()),
        old(held)@ == final(stream)@,
        call_ensures(LiveStream::open_delivery, (held,), ()),
    ensures
        !final(held)@.held,
        !old(stream)@.held ==> final(held)@ == old(stream)@,
        final(held)@.timing == old(stream)@.timing,
        final(held)@.anchor == old(stream)@.anchor,
        final(held)@.prelude == old(stream)@.prelude,
{
}

/// Timed audio is played from the anchor on that was set last. An armed anchor is
/// put at the presentation of the next chunk; a cleared one is none.
pub proof fn the_last_anchor_counts(
    set: &mut LiveStream,
    at: u128,
    armed: &mut LiveStream,
    cleared: &mut LiveStream,
    presented: Option<u64>,
    now: u64,
    from_set: Option<u128>,
    from_armed: Option<u128>,
    from_cleared: Option<u128>,
)
    requires
        call_ensures(LiveStream::set_playback_anchor, (set, at), ()),
        call_ensures(LiveStream::arm_playback_anchor_on_next_timed_pcm, (armed,), ()),
        call_ensures(LiveStream::clear_playback_anchor, (cleared,), ()),
        from_set == final(set)@.anchor_for(presented, now),
        from_armed == final(armed)@.anchor_for(presented, now),
        from_cleared == final(cleared)@.anchor_for(presented, now),
    ensures
        from_set == Some(at),
        presented matches Some(p) ==> from_armed == Some(p as u128),
        presented is None ==> from_armed == Some(now as u128),
        from_cleared is None,
        final(set)@.timing == old(set)@.timing && final(set)@.held == old(set)@.held,
        final(armed)@.timing == old(armed)@.timing && final(armed)@.held == old(armed)@.held,
        final(cleared)@.timing == old(cleared)@.timing && final(cleared)@.held == old(cleared)@.held,
{
}

/// What a stream reports of itself is what was counted, and its anchor only once
/// that has a time.
pub proof fn streams_report_what_was_counted(
    stream: &LiveStream,
    timing: StreamTiming,
    served: u64,
    encoded: u64,
    dropped: u64,
    ready: bool,
)
    requires
        call_ensures(LiveStream::timing, (stream,), timing),
        call_ensures(LiveStream::bytes_served, (stream,), served),
        call_ensures(LiveStream::bytes_encoded, (stream,), encoded),
        call_ensures(LiveStream::bytes_dropped, (stream,), dropped),
        call_ensures(LiveStream::is_ready, (stream,), ready),
    ensures
        served == timing.bytes_served,
        encoded == timing.encoded_bytes,
        dropped == timing.bytes_dropped,
        served == stream@.timing.bytes_served,
        encoded == stream@.timing.encoded_bytes,
        dropped == stream@.timing.bytes_dropped,
        timing.bytes_skipped == stream@.timing.bytes_skipped,
        timing.chunks_dropped == stream@.timing.chunks_dropped,
        timing.subscriber_connected == stream@.timing.subscriber_connected,
        timing.subscriber_connected_at == stream@.timing.subscriber_connected_at,
        timing.first_encoded_at == stream@.timing.first_encoded_at,
        timing.first_served_at == stream@.timing.first_served_at,
        stream@.anchor matches PlaybackAnchorState::At(at) ==> timing.playback_anchor_at == Some(
            at,
        ),
        !(stream@.anchor is At) ==> timing.playback_anchor_at is None,
        ready == stream@.ready,
{
}

/// A new stream is its session's, and idle.
pub proof fn callers_get_an_idle_stream(session: StreamSession, stream: LiveStream)
    requires
        call_ensures(LiveStream::new, (session,), stream),
    ensures
        stream@.session == session,
        stream@.prelude is None,
        stream@.anchor is Unset,
        !stream@.ready && !stream@.held && !stream@.timing.subscriber_connected,
        stream@.timing.bytes_served == 0 && stream@.timing.encoded_bytes == 0,
{
}

/// A player that connects is noted the first time, and nothing else of the stream
/// changes.
pub proof fn callers_note_the_first_player(stream: &mut LiveStream, now: u64)
    requires
        call_ensures(LiveStream::on_subscriber_connected, (stream, now), ()),
    ensures
        final(stream)@.timing.subscriber_connected,
        old(stream)@.timing.subscriber_connected ==> final(stream)@ == old(stream)@,
        !old(stream)@.timing.subscriber_connected
            ==> final(stream)@.timing.subscriber_connected_at == Some(now),
        final(stream)@.anchor == old(stream)@.anchor,
        final(stream)@.held == old(stream)@.held,
        final(stream)@.ready == old(stream)@.ready,
        final(stream)@.prelude == old(stream)@.prelude,
        final(stream)@.timing.bytes_served == old(stream)@.timing.bytes_served,
{
}

/// The anchor that a caller is told is the one that is set, or, once armed, the
/// presentation of the chunk, or the time where it has none.
pub proof fn callers_are_told_the_anchor(
    stream: &LiveStream,
    presented: Option<u64>,
    now: u64,
    r: Option<u128>,
)
    requires
        call_ensures(LiveStream::timed_anchor, (stream, presented, now), r),
    ensures
        stream@.anchor is Unset ==> r is None,
        stream@.anchor matches PlaybackAnchorState::At(at) ==> r == Some(at),
        stream@.anchor is NextTimedPcm ==> (presented matches Some(p) ==> r == Some(p as u128)),
        stream@.anchor is NextTimedPcm && presented is None ==> r == Some(now as u128),
{
}

} // verus!
