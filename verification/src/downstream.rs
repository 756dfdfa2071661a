//! The steps between a session and a playing Sonos player.

use vstd::prelude::*;
use vstd::string::StringExecFns;

use crate::bridge_state::{
    DownstreamPlan, DownstreamStartOutcome, DownstreamStartResult, PreparedDownstream,
    SonosStreamPrepare,
};
use crate::config::{Config, StreamConfig};
use crate::ids;
use crate::ids::SessionId;
use crate::net;
use crate::net::IpAddr;
use crate::sync::ZoneStartupTiming;
use crate::text;
use crate::types::{EncoderState, StreamCodec, StreamSession};
use crate::web;
use crate::web::parse_url_with_pair;

verus! {

// ---------------------------------------------------------------------------
// Streams
// ---------------------------------------------------------------------------
/// Why a session's stream cannot be made.
#[derive(Debug)]
pub enum StreamPlanError {
    /// The configured codec is not supported.
    UnsupportedCodec { codec: String },
    /// The stream has no valid URL.
    Url(url::ParseError),
}

impl StreamPlanError {
    /// The error in words; what is wrong with a URL is left to its own words.
    pub fn message(&self) -> (r: String)
        ensures
            match self {
                StreamPlanError::UnsupportedCodec { codec } => r@ == "unsupported stream codec "@
                    + text::quoted(codec@) + "; expected mp3 or wav"@,
                StreamPlanError::Url(_) => r@ == "invalid stream URL"@,
            },
    {
        match self {
            StreamPlanError::UnsupportedCodec { codec } => {
                let mut r = "unsupported stream codec ".to_owned();
                let name = text::quote(codec.as_str());
                r.append(name.as_str());
                r.append("; expected mp3 or wav");
                r
            },
            StreamPlanError::Url(_) => "invalid stream URL".to_owned(),
        }
    }
}

/// The codec of a configured name.
pub open spec fn codec_named(name: Seq<char>) -> Option<StreamCodec> {
    if name == "mp3"@ {
        Some(StreamCodec::Mp3)
    } else if name == "wav"@ || name == "pcm"@ {
        Some(StreamCodec::Wav)
    } else {
        None
    }
}

/// The codec of a configured name.
pub fn stream_codec(codec: &str) -> (r: Result<StreamCodec, StreamPlanError>)
    ensures
        match r {
            Ok(c) => codec_named(codec@) == Some(c),
            Err(StreamPlanError::UnsupportedCodec { codec: other }) => codec_named(codec@) is None
                && other@ == codec@,
            Err(_) => false,
        },
{
    if text::same_text(codec, "mp3") {
        Ok(StreamCodec::Mp3)
    } else if text::same_text(codec, "wav") || text::same_text(codec, "pcm") {
        Ok(StreamCodec::Wav)
    } else {
        Err(StreamPlanError::UnsupportedCodec { codec: codec.to_owned() })
    }
}

/// The file name extension of a codec.
pub open spec fn extension_of(codec: StreamCodec) -> Seq<char> {
    match codec {
        StreamCodec::Mp3 => "mp3"@,
        StreamCodec::Aac => "aac"@,
        StreamCodec::Wav => "wav"@,
    }
}

/// The file name extension of a codec.
pub fn codec_extension(codec: StreamCodec) -> (r: &'static str)
    ensures
        r@ == extension_of(codec),
{
    match codec {
        StreamCodec::Mp3 => "mp3",
        StreamCodec::Aac => "aac",
        StreamCodec::Wav => "wav",
    }
}

/// The address under which a player reaches this host: the configured one, or,
/// where any will do, the one that faces the player, if it is known, or else
/// the player's own.
pub open spec fn host_for(bind: IpAddr, facing: Option<IpAddr>, zone_ip: IpAddr) -> IpAddr {
    if !bind.unspecified() {
        bind
    } else {
        match facing {
            Some(ip) => ip,
            None => zone_ip,
        }
    }
}

/// Where a session's stream is served, before its generation is added.
pub open spec fn stream_location(
    host: IpAddr,
    port: u16,
    session_id: SessionId,
    codec: StreamCodec,
) -> Seq<char> {
    "http://"@ + host.words() + ":"@ + text::decimal(port as nat) + "/streams/"@ + ids::uuid_text(
        session_id.value,
    ) + "."@ + extension_of(codec)
}

proof fn lemma_location_length(host: IpAddr, port: u16, session_id: SessionId, codec: StreamCodec)
    ensures
        stream_location(host, port, session_id, codec).len() <= 0x1_0000,
{
    reveal_strlit("http://");
    reveal_strlit(":");
    reveal_strlit("/streams/");
    reveal_strlit(".");
    reveal_strlit("mp3");
    reveal_strlit("aac");
    reveal_strlit("wav");
    net::lemma_address_length(host);
    assert(text::decimal(port as nat).len() <= 5) by {
        reveal_with_fuel(vstd::arithmetic::power::pow, 6);
        text::lemma_decimal_length(port as nat, 5);
    }
    ids::session_id_text_is_read_back(session_id.value);
}

/// The URL at which a player gets the stream of a session's attempt.
pub fn stream_url_for_zone(
    config: &Config,
    facing: Option<IpAddr>,
    zone_ip: IpAddr,
    session_id: SessionId,
    codec: StreamCodec,
    generation: u64,
) -> (r: Result<String, url::ParseError>)
    ensures
        ({
            let location = stream_location(
                host_for(config.server.bind, facing, zone_ip),
                config.server.http_port,
                session_id,
                codec,
            );
            match r {
                Ok(url) => {
                    &&& web::url_with_pair(location, "gen"@, text::decimal(generation as nat))
                        == Some(url@)
                    &&& web::parsed_url(location) is Some
                    &&& !web::parsed_url(location)->0.contains('?') && !web::parsed_url(
                        location,
                    )->0.contains('#') ==> url@ == web::with_query(
                        web::parsed_url(location)->0,
                        "gen"@,
                        text::decimal(generation as nat),
                    )
                },
                Err(_) => web::parsed_url(location) is None,
            }
        }),
{
    let host: IpAddr = if config.server.bind.is_unspecified() {
        match facing {
            Some(ip) => ip,
            None => zone_ip,
        }
    } else {
        config.server.bind
    };
    let mut location = "http://".to_owned();
    let host_text = host.text();
    location.append(host_text.as_str());
    location.append(":");
    let port_text = text::decimal_text(config.server.http_port as u64);
    location.append(port_text.as_str());
    location.append("/streams/");
    let id_text = session_id.text();
    location.append(id_text.as_str());
    location.append(".");
    location.append(codec_extension(codec));
    let generation_text = text::decimal_text(generation);
    proof {
        assert(location@ =~= stream_location(
            host_for(config.server.bind, facing, zone_ip),
            config.server.http_port,
            session_id,
            codec,
        ));
        reveal_strlit("gen");
        text::lemma_decimal_digits(generation as nat);
        assert forall|i: int| 0 <= i < generation_text@.len() implies web::plain_in_query(
            #[trigger] generation_text@[i],
        ) by {
            assert(text::is_digit(generation_text@[i]));
        }
        assert(generation_text@.len() <= 20) by {
            reveal_with_fuel(vstd::arithmetic::power::pow, 21);
            text::lemma_decimal_length(generation as nat, 20);
        }
        lemma_location_length(
            host_for(config.server.bind, facing, zone_ip),
            config.server.http_port,
            session_id,
            codec,
        );
    }
    parse_url_with_pair(location.as_str(), "gen", generation_text.as_str())
}

/// The stream that is to be made for a session's attempt. `facing` is the
/// address of this host that faces the player, if it is known.
pub fn plan_stream(config: &Config, plan: &DownstreamPlan, facing: Option<IpAddr>) -> (r: Result<
    StreamSession,
    StreamPlanError,
>)
    ensures
        ({
            let host = host_for(config.server.bind, facing, plan.zone.ip);
            let port = config.server.http_port;
            let generation = text::decimal(plan.generation as nat);
            match codec_named(config.stream.codec@) {
                None => r matches Err(StreamPlanError::UnsupportedCodec { codec }) && codec@
                    == config.stream.codec@,
                Some(codec) => {
                    let location = stream_location(host, port, plan.session_id, codec);
                    match r {
                        Ok(session) => {
                            &&& session.session_id == plan.session_id
                            &&& session.zone_id == plan.zone_id
                            &&& session.codec == codec
                            &&& session.generation == plan.generation
                            &&& session.encoder_state is Starting
                            &&& web::url_with_pair(location, "gen"@, generation) == Some(
                                session.local_url@,
                            )
                        },
                        Err(error) => error is Url && web::parsed_url(location) is None,
                    }
                },
            }
        }),
{
    let codec: StreamCodec = match stream_codec(config.stream.codec.as_str()) {
        Ok(codec) => codec,
        Err(error) => return Err(error),
    };
    let local_url: String = match stream_url_for_zone(
        config,
        facing,
        plan.zone.ip,
        plan.session_id,
        codec,
        plan.generation,
    ) {
        Ok(url) => url,
        Err(error) => return Err(StreamPlanError::Url(error)),
    };
    Ok(
        StreamSession {
            session_id: plan.session_id,
            zone_id: plan.zone_id.clone(),
            codec,
            generation: plan.generation,
            local_url,
            encoder_state: EncoderState::Starting,
        },
    )
}

// ---------------------------------------------------------------------------
// Preparing a player
// ---------------------------------------------------------------------------
/// Where the preparation of a player stands.
#[derive(Clone, Copy, Debug, PartialEq, Eq, Structural)]
pub enum PrepareStage {
    /// The player is asked to leave its group.
    Standalone,
    /// The player is pointed at the stream.
    SetUri,
    /// The player is awaited at the stream.
    AwaitSubscriber,
    /// Audio is awaited from the encoder.
    AwaitReady,
    /// Nothing is left to do.
    Over,
}

/// The preparation of a player for a session's stream.
#[derive(Debug)]
pub struct PrepareTask {
    pub start: SonosStreamPrepare,
    pub local_url: String,
    pub subscriber_wait_ms: u64,
    pub prebuffer_ms: u64,
    pub stage: PrepareStage,
    pub started_at: u64,
}

/// What the preparation asks for.
#[derive(Debug)]
pub enum PrepareAction {
    BecomeStandalone,
    SetUri { url: String, title: String },
    WaitForSubscriber { timeout_ms: u64 },
    WaitUntilReady { timeout_ms: u64 },
    /// The stream is prepared.
    Prepared { prepared: PreparedDownstream },
    /// The attempt failed.
    Fail { result: DownstreamStartResult },
    /// There is nothing to say.
    End,
}

/// What the preparation asks for, by its contents.
pub enum PrepareActionView {
    BecomeStandalone,
    SetUri { url: Seq<char>, title: Seq<char> },
    WaitForSubscriber { timeout_ms: u64 },
    WaitUntilReady { timeout_ms: u64 },
    Prepared { prepared: PreparedDownstream },
    Fail { result: DownstreamStartResult },
    End,
}

impl View for PrepareAction {
    type V = PrepareActionView;

    open spec fn view(&self) -> PrepareActionView {
        match self {
            PrepareAction::BecomeStandalone => PrepareActionView::BecomeStandalone,
            PrepareAction::SetUri { url, title } => PrepareActionView::SetUri {
                url: url@,
                title: title@,
            },
            PrepareAction::WaitForSubscriber { timeout_ms } => {
                PrepareActionView::WaitForSubscriber { timeout_ms: *timeout_ms }
            },
            PrepareAction::WaitUntilReady { timeout_ms } => PrepareActionView::WaitUntilReady {
                timeout_ms: *timeout_ms,
            },
            PrepareAction::Prepared { prepared } => PrepareActionView::Prepared {
                prepared: *prepared,
            },
            PrepareAction::Fail { result } => PrepareActionView::Fail { result: *result },
            PrepareAction::End => PrepareActionView::End,
        }
    }
}

/// How what was asked for went.
#[derive(Clone, Copy, Debug, PartialEq, Eq, Structural)]
pub enum ReplyOutcome {
    /// The attempt was cancelled meanwhile.
    Cancelled,
    /// It succeeded; or a wait ended, whether in vain or not.
    Done,
    /// The player refused or could not be reached.
    Failed,
}

/// What came of what the preparation asked for.
#[derive(Clone, Copy, Debug, PartialEq, Eq, Structural)]
pub struct PrepareReply {
    pub outcome: ReplyOutcome,
    /// Whether the attempt is cancelled by now.
    pub cancelled: bool,
    pub now: u64,
    pub subscriber_connected_at: Option<u64>,
    pub first_served_at: Option<u64>,
}

/// Whole milliseconds from one time to a later one, or none.
pub open spec fn ms_between(from: u64, to: u64) -> u64 {
    if to > from {
        ((to - from) / 1_000_000) as u64
    } else {
        0
    }
}

/// Whole milliseconds from one time to a later one, or none.
pub fn millis_between(from: u64, to: u64) -> (r: u64)
    ensures
        r == ms_between(from, to),
{
    if to > from {
        (to - from) / 1_000_000
    } else {
        0
    }
}

/// Whole milliseconds until a time, where it is known.
pub open spec fn ms_until(from: u64, to: Option<u64>) -> Option<u64> {
    match to {
        Some(at) => Some(ms_between(from, at)),
        None => None,
    }
}

fn millis_until(from: u64, to: Option<u64>) -> (r: Option<u64>)
    ensures
        r == ms_until(from, to),
{
    match to {
        Some(at) => Some(millis_between(from, at)),
        None => None,
    }
}

/// The failure of a preparation.
pub open spec fn failure(start: SonosStreamPrepare) -> DownstreamStartResult {
    DownstreamStartResult {
        session_id: start.session_id,
        zone_id: start.zone_id,
        generation: start.generation,
        outcome: DownstreamStartOutcome::Failed,
        timing: None,
    }
}

/// The failure of a preparation.
pub fn failed_start(start: &SonosStreamPrepare) -> (r: DownstreamStartResult)
    ensures
        r == failure(*start),
{
    DownstreamStartResult {
        session_id: start.session_id,
        zone_id: start.zone_id.clone(),
        generation: start.generation,
        outcome: DownstreamStartOutcome::Failed,
        timing: None,
    }
}

impl PrepareTask {
    /// What the player is asked first: to leave its group, where it has to, or
    /// else to play the stream.
    pub open spec fn first_stage(start: SonosStreamPrepare) -> PrepareStage {
        if start.force_standalone_on_start {
            PrepareStage::Standalone
        } else {
            PrepareStage::SetUri
        }
    }

    /// The request that points the player at the stream.
    pub open spec fn set_uri(self) -> PrepareActionView {
        PrepareActionView::SetUri {
            url: self.local_url@,
            title: self.start.zone.room_name@ + " AirSonos2"@,
        }
    }

    /// The end of the preparation: the prepared stream with what was measured,
    /// unless the attempt is cancelled by now.
    pub open spec fn finished(self, reply: PrepareReply) -> PrepareActionView {
        if reply.cancelled {
            PrepareActionView::End
        } else {
            PrepareActionView::Prepared {
                prepared: PreparedDownstream {
                    session_id: self.start.session_id,
                    zone_id: self.start.zone_id,
                    generation: self.start.generation,
                    cohort_id: self.start.cohort_id,
                    lifecycle: self.start.lifecycle,
                    zone_room_name: self.start.zone.room_name,
                    codec: self.start.codec,
                    timing: ZoneStartupTiming {
                        set_uri_ms: Some(ms_between(self.started_at, reply.now)),
                        subscriber_connect_ms: ms_until(
                            self.started_at,
                            reply.subscriber_connected_at,
                        ),
                        first_bytes_ms: ms_until(self.started_at, reply.first_served_at),
                        play_ms: None,
                    },
                },
            }
        }
    }

    /// The task at a stage.
    pub open spec fn at(self, stage: PrepareStage) -> Self {
        PrepareTask { stage, ..self }
    }

    /// The task and what it asks for after a reply. A cancelled attempt ends
    /// without a word; a request that failed ends it with a report.
    pub open spec fn step(self, reply: PrepareReply) -> (Self, PrepareActionView) {
        let over = self.at(PrepareStage::Over);
        if reply.outcome == ReplyOutcome::Cancelled {
            (over, PrepareActionView::End)
        } else {
            match self.stage {
                PrepareStage::Standalone | PrepareStage::SetUri => if reply.outcome
                    == ReplyOutcome::Failed {
                    if reply.cancelled {
                        (over, PrepareActionView::End)
                    } else {
                        (over, PrepareActionView::Fail { result: failure(self.start) })
                    }
                } else if self.stage == PrepareStage::Standalone {
                    (
                        PrepareTask {
                            stage: PrepareStage::SetUri,
                            started_at: reply.now,
                            ..self
                        },
                        self.set_uri(),
                    )
                } else {
                    (
                        self.at(PrepareStage::AwaitSubscriber),
                        PrepareActionView::WaitForSubscriber { timeout_ms: self.subscriber_wait_ms },
                    )
                },
                PrepareStage::AwaitSubscriber => if self.start.codec == StreamCodec::Wav {
                    (
                        self.at(PrepareStage::AwaitReady),
                        PrepareActionView::WaitUntilReady { timeout_ms: self.prebuffer_ms },
                    )
                } else {
                    (over, self.finished(reply))
                },
                PrepareStage::AwaitReady => (over, self.finished(reply)),
                PrepareStage::Over => (over, PrepareActionView::End),
            }
        }
    }

    fn set_uri_action(&self) -> (r: PrepareAction)
        ensures
            r@ == self.set_uri(),
    {
        let mut title = self.start.zone.room_name.clone();
        title.append(" AirSonos2");
        PrepareAction::SetUri { url: self.local_url.clone(), title }
    }

    /// Starts a preparation: the task and what it asks for.
    pub fn begin(start: SonosStreamPrepare, local_url: String, stream: &StreamConfig, now: u64) -> (r: (
        PrepareTask,
        PrepareAction,
    ))
        ensures
            r.0 == (PrepareTask {
                start,
                local_url,
                subscriber_wait_ms: stream.startup_wait(),
                prebuffer_ms: stream.prebuffer_ms,
                stage: Self::first_stage(start),
                started_at: now,
            }),
            r.1@ == (if start.force_standalone_on_start {
                PrepareActionView::BecomeStandalone
            } else {
                r.0.set_uri()
            }),
    {
        let stage: PrepareStage = if start.force_standalone_on_start {
            PrepareStage::Standalone
        } else {
            PrepareStage::SetUri
        };
        let task = PrepareTask {
            start,
            local_url,
            subscriber_wait_ms: stream.startup_wait_ms(),
            prebuffer_ms: stream.prebuffer_ms,
            stage,
            started_at: now,
        };
        let action = match task.stage {
            PrepareStage::Standalone => PrepareAction::BecomeStandalone,
            _ => task.set_uri_action(),
        };
        (task, action)
    }

    fn finish(&self, reply: PrepareReply) -> (r: PrepareAction)
        ensures
            r@ == self.finished(reply),
    {
        if reply.cancelled {
            return PrepareAction::End;
        }
        let timing = ZoneStartupTiming {
            set_uri_ms: Some(millis_between(self.started_at, reply.now)),
            subscriber_connect_ms: millis_until(self.started_at, reply.subscriber_connected_at),
            first_bytes_ms: millis_until(self.started_at, reply.first_served_at),
            play_ms: None,
        };
        PrepareAction::Prepared {
            prepared: PreparedDownstream {
                session_id: self.start.session_id,
                zone_id: self.start.zone_id.clone(),
                generation: self.start.generation,
                cohort_id: self.start.cohort_id,
                lifecycle: self.start.lifecycle,
                zone_room_name: self.start.zone.room_name.clone(),
                codec: self.start.codec,
                timing,
            },
        }
    }

    /// Goes on after a reply: what is asked for next.
    pub fn advance(&mut self, reply: PrepareReply) -> (r: PrepareAction)
        ensures
            (*final(self), r@) == old(self).step(reply),
    {
        let stage: PrepareStage = self.stage;
        self.stage = PrepareStage::Over;
        if reply.outcome == ReplyOutcome::Cancelled {
            return PrepareAction::End;
        }
        match stage {
            PrepareStage::Standalone | PrepareStage::SetUri => {
                if reply.outcome == ReplyOutcome::Failed {
                    if reply.cancelled {
                        PrepareAction::End
                    } else {
                        PrepareAction::Fail { result: failed_start(&self.start) }
                    }
                } else if stage == PrepareStage::Standalone {
                    self.stage = PrepareStage::SetUri;
                    self.started_at = reply.now;
                    self.set_uri_action()
                } else {
                    self.stage = PrepareStage::AwaitSubscriber;
                    PrepareAction::WaitForSubscriber { timeout_ms: self.subscriber_wait_ms }
                }
            },
            PrepareStage::AwaitSubscriber => {
                if self.start.codec == StreamCodec::Wav {
                    self.stage = PrepareStage::AwaitReady;
                    PrepareAction::WaitUntilReady { timeout_ms: self.prebuffer_ms }
                } else {
                    self.finish(reply)
                }
            },
            PrepareStage::AwaitReady => self.finish(reply),
            PrepareStage::Over => PrepareAction::End,
        }
    }
}

/// A cancelled attempt says nothing more, whatever its preparation was at.
pub proof fn a_cancelled_preparation_is_silent(task: PrepareTask, reply: PrepareReply)
    requires
        reply.cancelled,
    ensures
        !(task.step(reply).1 is Prepared),
        !(task.step(reply).1 is Fail),
        reply.outcome == ReplyOutcome::Cancelled ==> task.step(reply).1 is End,
{
}

/// A preparation ends: each reply brings it closer to its end.
pub open spec fn steps_left(task: PrepareTask) -> nat {
    match task.stage {
        PrepareStage::Standalone => 4,
        PrepareStage::SetUri => 3,
        PrepareStage::AwaitSubscriber => 2,
        PrepareStage::AwaitReady => 1,
        PrepareStage::Over => 0,
    }
}

/// Each reply brings a preparation closer to its end, and once it is over, it
/// has reported its stream, a failure or nothing, and asks for nothing more.
pub proof fn preparations_end(task: PrepareTask, reply: PrepareReply)
    ensures
        ({
            let (next, action) = task.step(reply);
            &&& task.stage != PrepareStage::Over ==> steps_left(next) < steps_left(task)
            &&& (next.stage == PrepareStage::Over <==> action is Prepared || action is Fail
                || action is End)
            &&& next.start == task.start
        }),
{
}

/// A stream is only ever reported as prepared under the session, attempt and
/// cohort that its preparation was started for, and after its player was pointed
/// at it.
pub proof fn prepared_streams_are_those_asked_for(task: PrepareTask, reply: PrepareReply)
    ensures
        match task.step(reply).1 {
            PrepareActionView::Prepared { prepared } => {
                &&& prepared.session_id == task.start.session_id
                &&& prepared.generation == task.start.generation
                &&& prepared.cohort_id == task.start.cohort_id
                &&& prepared.lifecycle == task.start.lifecycle
                &&& task.stage == PrepareStage::AwaitSubscriber || task.stage
                    == PrepareStage::AwaitReady
            },
            _ => true,
        },
{
}

// ---------------------------------------------------------------------------
// Starting players
// ---------------------------------------------------------------------------
/// What came of a request to play.
#[derive(Clone, Copy, Debug, PartialEq, Eq, Structural)]
pub enum PlayReply {
    /// The attempt was cancelled meanwhile.
    Cancelled,
    /// The player accepted.
    Accepted,
    /// The player did not answer in time, and may play or not.
    TimedOut,
    /// The player refused or could not be reached.
    Failed,
}

/// How an attempt ends after a request to play, and what was measured of it. A
/// player that did not answer in time counts as started, because its stream
/// must not be taken from it if it plays.
pub open spec fn play_result(timing: ZoneStartupTiming, reply: PlayReply, elapsed_ms: u64) -> (
    DownstreamStartOutcome,
    ZoneStartupTiming,
) {
    match reply {
        PlayReply::Cancelled => (DownstreamStartOutcome::Cancelled, timing),
        PlayReply::Accepted | PlayReply::TimedOut => (
            DownstreamStartOutcome::Started,
            ZoneStartupTiming { play_ms: Some(elapsed_ms), ..timing },
        ),
        PlayReply::Failed => (DownstreamStartOutcome::Failed, timing),
    }
}

/// How an attempt ends after a request to play, and what was measured of it.
pub fn play_outcome(timing: ZoneStartupTiming, reply: PlayReply, elapsed_ms: u64) -> (r: (
    DownstreamStartOutcome,
    ZoneStartupTiming,
))
    ensures
        r == play_result(timing, reply, elapsed_ms),
{
    match reply {
        PlayReply::Cancelled => (DownstreamStartOutcome::Cancelled, timing),
        PlayReply::Accepted | PlayReply::TimedOut => {
            let mut measured = timing;
            measured.play_ms = Some(elapsed_ms);
            (DownstreamStartOutcome::Started, measured)
        },
        PlayReply::Failed => (DownstreamStartOutcome::Failed, timing),
    }
}

/// What follows a start: whether the stream's audio is let through, which is so
/// once its player started and the attempt is not cancelled; and the report.
pub fn finish_play(
    prepared: PreparedDownstream,
    outcome: DownstreamStartOutcome,
    timing: ZoneStartupTiming,
    cancelled: bool,
) -> (r: (bool, DownstreamStartResult))
    ensures
        r.0 == (outcome == DownstreamStartOutcome::Started && !cancelled),
        r.1 == (DownstreamStartResult {
            session_id: prepared.session_id,
            zone_id: prepared.zone_id,
            generation: prepared.generation,
            outcome,
            timing: Some(timing),
        }),
{
    let open: bool = outcome == DownstreamStartOutcome::Started && !cancelled;
    (
        open,
        DownstreamStartResult {
            session_id: prepared.session_id,
            zone_id: prepared.zone_id,
            generation: prepared.generation,
            outcome,
            timing: Some(timing),
        },
    )
}

/// Whether a coordinated start took longer than it should.
pub fn plays_were_slow(started_at: u64, now: u64, warn_ms: u64) -> (r: bool)
    ensures
        r == (ms_between(started_at, now) > warn_ms),
{
    millis_between(started_at, now) > warn_ms
}

// ---------------------------------------------------------------------------
// What callers see
// ---------------------------------------------------------------------------
/// The names of codecs are `mp3`, and `wav` or `pcm` for WAV; every other name is
/// refused, and named.
pub proof fn codecs_have_their_names(name: &str, r: Result<StreamCodec, StreamPlanError>)
    requires
        call_ensures(stream_codec, (name,), r),
    ensures
        name@ == "mp3"@ ==> (r matches Ok(StreamCodec::Mp3)),
        name@ == "wav"@ || name@ == "pcm"@ ==> (r matches Ok(StreamCodec::Wav)),
        name@ != "mp3"@ && name@ != "wav"@ && name@ != "pcm"@ ==> (r matches Err(
            StreamPlanError::UnsupportedCodec { codec },
        ) && codec@ == name@),
        !(r matches Ok(StreamCodec::Aac)),
{
    reveal_strlit("mp3");
    reveal_strlit("wav");
    reveal_strlit("pcm");
    assert("mp3"@[0] == 'm' && "wav"@[0] == 'w' && "pcm"@[0] == 'p');
}

/// Every codec has an extension of three letters of its own.
pub proof fn extensions_tell_codecs_apart(a: StreamCodec, b: StreamCodec, ra: &str, rb: &str)
    requires
        call_ensures(codec_extension, (a,), ra),
        call_ensures(codec_extension, (b,), rb),
    ensures
        ra@.len() == 3,
        ra@ == rb@ <==> a == b,
        a == StreamCodec::Mp3 ==> ra@ == seq!['m', 'p', '3'],
        a == StreamCodec::Wav ==> ra@ == seq!['w', 'a', 'v'],
        a == StreamCodec::Aac ==> ra@ == seq!['a', 'a', 'c'],
{
    reveal_strlit("mp3");
    reveal_strlit("aac");
    reveal_strlit("wav");
    assert("mp3"@ =~= seq!['m', 'p', '3']);
    assert("wav"@ =~= seq!['w', 'a', 'v']);
    assert("aac"@ =~= seq!['a', 'a', 'c']);
    assert("mp3"@[0] == 'm' && "wav"@[0] == 'w' && "aac"@[0] == 'a');
}

/// A player gets the stream from the address that the server is bound to; where
/// that is none in particular, from the one that faces the player, or else from
/// the player's own.
pub proof fn players_get_the_stream_from_the_server(
    bind: IpAddr,
    facing: Option<IpAddr>,
    zone_ip: IpAddr,
)
    ensures
        bind != IpAddr::V4(0) && bind != IpAddr::V6(0) ==> host_for(bind, facing, zone_ip) == bind,
        bind == IpAddr::V4(0) || bind == IpAddr::V6(0) ==> (facing matches Some(ip) ==> host_for(
            bind,
            facing,
            zone_ip,
        ) == ip),
        (bind == IpAddr::V4(0) || bind == IpAddr::V6(0)) && facing is None ==> host_for(
            bind,
            facing,
            zone_ip,
        ) == zone_ip,
{
}

/// A planned stream is its session's current attempt, in its zone and in the
/// configured codec, and starts out.
pub proof fn planned_streams_are_of_their_session(
    config: &Config,
    plan: &DownstreamPlan,
    facing: Option<IpAddr>,
    r: Result<StreamSession, StreamPlanError>,
)
    requires
        call_ensures(plan_stream, (config, plan, facing), r),
    ensures
        r matches Ok(session) ==> {
            &&& session.session_id == plan.session_id
            &&& session.zone_id == plan.zone_id
            &&& session.generation == plan.generation
            &&& session.encoder_state is Starting
            &&& config.stream.codec@ == "mp3"@ ==> session.codec == StreamCodec::Mp3
            &&& config.stream.codec@ == "wav"@ || config.stream.codec@ == "pcm"@ ==> session.codec
                == StreamCodec::Wav
            &&& config.stream.codec@ == "mp3"@ || config.stream.codec@ == "wav"@
                || config.stream.codec@ == "pcm"@
        },
        config.stream.codec@ != "mp3"@ && config.stream.codec@ != "wav"@ && config.stream.codec@
            != "pcm"@ ==> (r matches Err(StreamPlanError::UnsupportedCodec { codec }) && codec@
            == config.stream.codec@),
{
    reveal_strlit("mp3");
    reveal_strlit("wav");
    reveal_strlit("pcm");
    assert("mp3"@[0] == 'm' && "wav"@[0] == 'w' && "pcm"@[0] == 'p');
}

/// Times are told in whole milliseconds, rounded down; a time that does not lie
/// ahead is no time.
pub proof fn times_are_told_in_milliseconds(from: u64, to: u64, r: u64)
    requires
        call_ensures(millis_between, (from, to), r),
    ensures
        to <= from ==> r == 0,
        to > from ==> r * 1_000_000 <= to - from < (r + 1) * 1_000_000,
{
}

/// A start that failed is reported as that of its own attempt, unmeasured.
pub proof fn failed_starts_are_reported(start: &SonosStreamPrepare, r: DownstreamStartResult)
    requires
        call_ensures(failed_start, (start,), r),
    ensures
        r.session_id == start.session_id,
        r.zone_id == start.zone_id,
        r.generation == start.generation,
        r.outcome == DownstreamStartOutcome::Failed,
        r.timing is None,
{
}

/// A preparation begins by having the room leave its group, where that is asked
/// for, and else by pointing the player at the stream under the room's name.
pub proof fn preparations_begin_with_the_group(
    start: SonosStreamPrepare,
    local_url: String,
    stream: &StreamConfig,
    now: u64,
    r: (PrepareTask, PrepareAction),
)
    requires
        call_ensures(PrepareTask::begin, (start, local_url, stream, now), r),
    ensures
        r.0.start == start,
        r.0.local_url == local_url,
        r.0.started_at == now,
        r.0.prebuffer_ms == stream.prebuffer_ms,
        r.0.subscriber_wait_ms == stream.startup_wait(),
        start.force_standalone_on_start ==> r.1@ is BecomeStandalone && r.0.stage
            == PrepareStage::Standalone,
        !start.force_standalone_on_start ==> r.0.stage == PrepareStage::SetUri && (
        r.1@ matches PrepareActionView::SetUri { url, title } && url == local_url@ && title
            == start.zone.room_name@ + " AirSonos2"@),
{
}

/// A preparation goes on step by step: out of the group, to the stream, then it
/// waits for the player and, for WAV, until there is audio; then it is done. A
/// refusal by the player ends it as failed, but only before the player is
/// awaited, and a cancellation always ends it.
pub proof fn preparations_go_step_by_step(
    task: &mut PrepareTask,
    reply: PrepareReply,
    r: PrepareAction,
)
    requires
        call_ensures(PrepareTask::advance, (task, reply), r),
    ensures
        ({
            let before = *old(task);
            let after = *final(task);
            let goes_on = reply.outcome != ReplyOutcome::Cancelled;
            &&& after.start == before.start && after.local_url == before.local_url
                && after.prebuffer_ms == before.prebuffer_ms && after.subscriber_wait_ms
                == before.subscriber_wait_ms
            &&& before.stage == PrepareStage::Over ==> r@ is End && after.stage
                == PrepareStage::Over
            &&& reply.cancelled ==> !(r@ is Prepared) && !(r@ is Fail)
            &&& reply.cancelled && reply.outcome == ReplyOutcome::Failed && (before.stage
                == PrepareStage::Standalone || before.stage == PrepareStage::SetUri) ==> r@ is End
                && after.stage == PrepareStage::Over
            &&& !goes_on ==> r@ is End && after.stage == PrepareStage::Over
            &&& goes_on && reply.outcome == ReplyOutcome::Failed && !reply.cancelled && (
            before.stage == PrepareStage::Standalone || before.stage == PrepareStage::SetUri) ==> (
            r@ matches PrepareActionView::Fail { result } && result.session_id
                == before.start.session_id && result.generation == before.start.generation
                && result.outcome == DownstreamStartOutcome::Failed && after.stage
                == PrepareStage::Over)
            &&& goes_on && reply.outcome != ReplyOutcome::Failed && before.stage
                == PrepareStage::Standalone ==> after.stage == PrepareStage::SetUri
                && after.started_at == reply.now && (r@ matches PrepareActionView::SetUri {
                url,
                title,
            } && url == before.local_url@)
            &&& goes_on && reply.outcome != ReplyOutcome::Failed && before.stage
                == PrepareStage::SetUri ==> after.stage == PrepareStage::AwaitSubscriber
                && after.started_at == before.started_at && (
            r@ matches PrepareActionView::WaitForSubscriber { timeout_ms } && timeout_ms
                == before.subscriber_wait_ms)
            &&& goes_on && before.stage == PrepareStage::AwaitSubscriber && before.start.codec
                == StreamCodec::Wav ==> after.stage == PrepareStage::AwaitReady && (
            r@ matches PrepareActionView::WaitUntilReady { timeout_ms } && timeout_ms
                == before.prebuffer_ms)
            &&& goes_on && !reply.cancelled && ((before.stage == PrepareStage::AwaitSubscriber
                && before.start.codec != StreamCodec::Wav) || before.stage
                == PrepareStage::AwaitReady) ==> r@ is Prepared && after.stage
                == PrepareStage::Over
        }),
{
}

/// A prepared stream is of the attempt that was begun; its steps are measured
/// from the time at which the player was pointed at it, and none is made up.
pub proof fn prepared_streams_are_measured(
    task: &mut PrepareTask,
    reply: PrepareReply,
    prepared: PreparedDownstream,
    r: PrepareAction,
)
    requires
        call_ensures(PrepareTask::advance, (task, reply), r),
        r@ == (PrepareActionView::Prepared { prepared }),
        old(task).started_at <= reply.now,
    ensures
        prepared.session_id == old(task).start.session_id,
        prepared.zone_id == old(task).start.zone_id,
        prepared.generation == old(task).start.generation,
        prepared.cohort_id == old(task).start.cohort_id,
        prepared.lifecycle == old(task).start.lifecycle,
        prepared.codec == old(task).start.codec,
        prepared.zone_room_name == old(task).start.zone.room_name,
        prepared.timing.play_ms is None,
        prepared.timing.set_uri_ms matches Some(ms) && ms * 1_000_000 <= reply.now
            - old(task).started_at < (ms + 1) * 1_000_000,
        prepared.timing.subscriber_connect_ms is Some <==> reply.subscriber_connected_at is Some,
        prepared.timing.first_bytes_ms is Some <==> reply.first_served_at is Some,
        reply.subscriber_connected_at matches Some(at) ==> at > old(task).started_at ==> (
        prepared.timing.subscriber_connect_ms matches Some(ms) && ms * 1_000_000 <= at
            - old(task).started_at < (ms + 1) * 1_000_000),
        reply.first_served_at matches Some(at) ==> at > old(task).started_at ==> (
        prepared.timing.first_bytes_ms matches Some(ms) && ms * 1_000_000 <= at
            - old(task).started_at < (ms + 1) * 1_000_000),
{
}

/// A player that accepts a start, or does not answer in time, has started, and
/// its time is measured; one that refuses has failed, and a start that is
/// cancelled is cancelled. What was measured before stays.
pub proof fn late_players_have_started(
    timing: ZoneStartupTiming,
    reply: PlayReply,
    elapsed_ms: u64,
    r: (DownstreamStartOutcome, ZoneStartupTiming),
)
    requires
        call_ensures(play_outcome, (timing, reply, elapsed_ms), r),
    ensures
        r.0 == DownstreamStartOutcome::Started <==> reply is Accepted || reply is TimedOut,
        r.0 == DownstreamStartOutcome::Failed <==> reply is Failed,
        r.0 == DownstreamStartOutcome::Cancelled <==> reply is Cancelled,
        r.0 == DownstreamStartOutcome::Started ==> r.1.play_ms == Some(elapsed_ms),
        r.0 != DownstreamStartOutcome::Started ==> r.1.play_ms == timing.play_ms,
        r.1.set_uri_ms == timing.set_uri_ms,
        r.1.subscriber_connect_ms == timing.subscriber_connect_ms,
        r.1.first_bytes_ms == timing.first_bytes_ms,
{
}

/// The delivery of a stream is opened once its player started and the attempt was
/// not cancelled meanwhile; how the attempt ended is reported as it is.
pub proof fn delivery_opens_once_the_player_started(
    prepared: PreparedDownstream,
    outcome: DownstreamStartOutcome,
    timing: ZoneStartupTiming,
    cancelled: bool,
    r: (bool, DownstreamStartResult),
)
    requires
        call_ensures(finish_play, (prepared, outcome, timing, cancelled), r),
    ensures
        cancelled ==> !r.0,
        outcome != DownstreamStartOutcome::Started ==> !r.0,
        outcome == DownstreamStartOutcome::Started && !cancelled ==> r.0,
        r.1.session_id == prepared.session_id,
        r.1.zone_id == prepared.zone_id,
        r.1.generation == prepared.generation,
        r.1.outcome == outcome,
        r.1.timing == Some(timing),
{
}

/// Starts were slow where they took longer than the limit, by at least a
/// millisecond.
pub proof fn slow_starts_exceed_the_limit(started_at: u64, now: u64, warn_ms: u64, r: bool)
    requires
        call_ensures(plays_were_slow, (started_at, now, warn_ms), r),
        started_at <= now,
    ensures
        r <==> now - started_at >= (warn_ms + 1) * 1_000_000,
{
}

/// The location of a stream names the host, the port, the session and, as its
/// extension, the codec.
pub proof fn locations_name_their_session(
    host: IpAddr,
    port: u16,
    session_id: SessionId,
    codec: StreamCodec,
)
    ensures
        ({
            let s = stream_location(host, port, session_id, codec);
            let end = "/streams/"@ + ids::uuid_text(session_id.value) + "."@ + extension_of(codec);
            &&& ("http://"@ + host.words() + ":"@).is_prefix_of(s)
            &&& end.is_suffix_of(s)
            &&& text::digits_value(
                s.subrange(("http://"@ + host.words() + ":"@).len() as int, s.len() - end.len()),
            ) == port
        }),
{
    let s = stream_location(host, port, session_id, codec);
    let lead = "http://"@ + host.words() + ":"@;
    let end = "/streams/"@ + ids::uuid_text(session_id.value) + "."@ + extension_of(codec);
    let d = text::decimal(port as nat);
    text::lemma_decimal_digits(port as nat);
    assert(s =~= lead + d + end);
    assert(lead =~= s.take(lead.len() as int));
    assert(end =~= s.skip(s.len() - end.len()));
    assert(s.subrange(lead.len() as int, s.len() - end.len()) =~= d);
}

/// The URL of a stream names its attempt in the query, where its location has no
/// query of its own.
pub proof fn urls_name_the_attempt(
    config: &Config,
    facing: Option<IpAddr>,
    zone_ip: IpAddr,
    session_id: SessionId,
    codec: StreamCodec,
    generation: u64,
    r: Result<String, url::ParseError>,
)
    requires
        call_ensures(
            stream_url_for_zone,
            (config, facing, zone_ip, session_id, codec, generation),
            r,
        ),
    ensures
        ({
            let host = if config.server.bind != IpAddr::V4(0) && config.server.bind != IpAddr::V6(
                0,
            ) {
                config.server.bind
            } else if facing is Some {
                facing->0
            } else {
                zone_ip
            };
            let parsed = web::parsed_url(
                stream_location(host, config.server.http_port, session_id, codec),
            );
            &&& r is Ok <==> parsed is Some
            &&& r matches Ok(url) ==> !parsed->0.contains('?') && !parsed->0.contains('#') ==> url@
                == parsed->0 + "?gen="@ + text::decimal(generation as nat)
        }),
{
    reveal_strlit("?");
    reveal_strlit("gen");
    reveal_strlit("=");
    reveal_strlit("?gen=");
    assert("?gen="@ =~= "?"@ + "gen"@ + "="@);
    if let Ok(url) = r {
        let host = host_for(config.server.bind, facing, zone_ip);
        let parsed = web::parsed_url(
            stream_location(host, config.server.http_port, session_id, codec),
        );
        assert(web::with_query(parsed->0, "gen"@, text::decimal(generation as nat)) =~= parsed->0
            + "?gen="@ + text::decimal(generation as nat));
    }
}

} // verus!
