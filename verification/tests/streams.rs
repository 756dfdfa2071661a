use airsonos2::config::Config;
use airsonos2::downstream::{codec_extension, stream_codec, stream_url_for_zone};
use airsonos2::encoder::{
    encoder_arguments, encoder_result, plan_encoder, publish_encoded, s16le_bytes,
    test_tone_arguments, wav_stream_header, EncoderError, EncoderPlan, FfmpegEncoderConfig,
    TaskEnd, WavEncoder,
};
use airsonos2::http::{
    content_type, healthz, metrics_content_type, requested_session, stream_generation,
    stream_session, Refusal,
};
use airsonos2::ids::{SessionId, ZoneId};
use airsonos2::net::IpAddr;
use airsonos2::registry::{metrics_text, StreamRegistry};
use airsonos2::stream::{LiveStream, StreamTiming, TimedPcmClock};
use airsonos2::types::{EncoderState, StreamCodec, StreamSession};
use bytes::Bytes;

const MS: u64 = 1_000_000;

fn session() -> StreamSession {
    session_with(SessionId::new(), StreamCodec::Mp3, 1)
}

fn session_with(session_id: SessionId, codec: StreamCodec, generation: u64) -> StreamSession {
    StreamSession {
        session_id,
        zone_id: ZoneId::new("RINCON_TEST"),
        codec,
        generation,
        local_url: "http://127.0.0.1:7000/streams/test.mp3".to_owned(),
        encoder_state: EncoderState::Starting,
    }
}

/// The clock for a chunk of `len` bytes that is presented at a time.
fn clock(stream: &LiveStream, len: usize, presented: u64, rate: u32, channels: u8) -> TimedPcmClock {
    let frames = len / (channels as usize * 2);
    let anchor = stream.timed_anchor(Some(presented), presented).unwrap_or(0);
    let before = anchor.saturating_sub(presented as u128) as f64 / 1e9;
    TimedPcmClock {
        now: presented,
        duration_ns: (frames as f64 / rate as f64 * 1e9) as u128,
        skip_frames: (before * rate as f64).ceil() as usize,
    }
}

fn publish_timed(stream: &mut LiveStream, bytes: Bytes, presented: u64) -> Option<Bytes> {
    let clock = clock(stream, bytes.len(), presented, 1_000, 2);
    stream.publish_timed_pcm(bytes, Some(presented), 1_000, 2, clock)
}

#[test]
fn stream_registry_lifecycle() {
    let mut registry = StreamRegistry::new();
    let session = session();
    let id = session.session_id;

    registry.create(session.clone());
    let mut stream = LiveStream::new(session);
    stream.on_subscriber_connected(0);
    stream.publish(Bytes::from_static(b"abc"), 0);

    assert_eq!(registry.len(), 1);
    assert_eq!(stream.bytes_served(), 3);
    assert_eq!(stream.bytes_dropped(), 0);
    assert!(registry.remove(&id).is_some());
    assert!(registry.is_empty());
}

#[test]
fn registered_streams_are_replaced() {
    let mut registry: StreamRegistry<u8> = StreamRegistry::default();
    let session = session();
    let id = session.session_id;
    registry.insert(session.clone(), 1);
    registry.insert(session.clone(), 2);
    registry.insert(session_with(SessionId::new(), StreamCodec::Wav, 1), 3);
    assert_eq!(registry.len(), 2);
    assert_eq!(registry.get(&id).expect("stream").handle, 2);
    assert_eq!(registry.streams().len(), 2);
    assert_eq!(registry.remove(&id).expect("stream").session, session);
    assert!(registry.get(&id).is_none());
    assert!(registry.remove(&id).is_none());
}

#[test]
fn streams_are_ready_once_something_is_published() {
    let mut stream = LiveStream::new(session());
    assert!(!stream.is_ready());
    stream.publish(Bytes::new(), 1);
    assert!(!stream.is_ready());
    stream.publish(Bytes::from_static(b"mp3"), 2);
    assert!(stream.is_ready());
    assert_eq!(stream.timing().first_encoded_at, Some(2));
}

#[test]
fn drops_chunks_before_subscriber_connects() {
    let mut stream = LiveStream::new(session());

    stream.publish(Bytes::from_static(b"old"), 0);
    assert_eq!(stream.bytes_encoded(), 3);
    assert_eq!(stream.bytes_dropped(), 3);
    assert_eq!(stream.bytes_served(), 0);

    stream.on_subscriber_connected(1);
    stream.publish(Bytes::from_static(b"live"), 2);

    assert_eq!(stream.bytes_served(), 4);
    assert_eq!(stream.bytes_dropped(), 3);
}

#[test]
fn subscriber_only_receives_live_edge_chunks() {
    let mut stream = LiveStream::new(session());
    assert!(stream.publish(Bytes::from_static(b"stale"), 0).is_none());

    stream.on_subscriber_connected(1);
    let chunk = stream
        .publish(Bytes::from_static(b"live"), 2)
        .expect("live chunk");

    assert_eq!(&chunk[..], b"live");
}

#[test]
fn prelude_is_retained_when_published_before_subscriber_connects() {
    let mut stream = LiveStream::new(session());

    stream.publish_prelude(Bytes::from_static(b"header"), 0);
    stream.publish(Bytes::from_static(b"stale"), 0);

    assert_eq!(
        stream.prelude().expect("prelude"),
        Bytes::from_static(b"header")
    );
    assert_eq!(stream.bytes_dropped(), 11);
    assert_eq!(stream.bytes_served(), 0);

    stream.on_subscriber_connected(1);
    let chunk = stream
        .publish(Bytes::from_static(b"live"), 2)
        .expect("live chunk");
    assert_eq!(&chunk[..], b"live");
}

#[test]
fn attached_subscriber_receives_prelude_published_after_attach() {
    let mut stream = LiveStream::new(session());
    let prelude = stream.attach_subscriber(0);

    assert!(prelude.is_none());
    let chunk = stream
        .publish_prelude(Bytes::from_static(b"header"), 1)
        .expect("late prelude chunk");
    assert_eq!(&chunk[..], b"header");
}

#[test]
fn attached_subscriber_gets_existing_prelude_snapshot() {
    let mut stream = LiveStream::new(session());
    stream.publish_prelude(Bytes::from_static(b"header"), 0);

    let prelude = stream.attach_subscriber(1);
    let chunk = stream
        .publish(Bytes::from_static(b"live"), 2)
        .expect("live chunk");

    assert_eq!(prelude.expect("prelude"), Bytes::from_static(b"header"));
    assert_eq!(&chunk[..], b"live");
}

#[test]
fn replaced_stream_does_not_receive_old_stream_chunks() {
    let original_session = session();
    let mut original = LiveStream::new(original_session.clone());
    let mut replacement = LiveStream::new(original_session);

    replacement.on_subscriber_connected(0);
    original.on_subscriber_connected(0);
    original.publish(Bytes::from_static(b"old"), 1);
    let chunk = replacement
        .publish(Bytes::from_static(b"new"), 2)
        .expect("replacement chunk");

    assert_eq!(&chunk[..], b"new");
    assert_eq!(replacement.bytes_served(), 3);
}

#[test]
fn replaced_wav_stream_has_independent_prelude() {
    let mut original_session = session();
    original_session.codec = StreamCodec::Wav;
    let mut original = LiveStream::new(original_session.clone());
    original.publish_prelude(Bytes::from_static(b"old-header"), 0);

    let mut replacement = LiveStream::new(original_session);

    assert!(replacement.prelude().is_none());
    replacement.publish_prelude(Bytes::from_static(b"new-header"), 0);

    assert_eq!(
        original.prelude().expect("original prelude"),
        Bytes::from_static(b"old-header")
    );
    assert_eq!(
        replacement.prelude().expect("replacement prelude"),
        Bytes::from_static(b"new-header")
    );
}

#[test]
fn timed_pcm_waits_for_playback_anchor() {
    let mut stream = LiveStream::new(session());
    stream.on_subscriber_connected(0);

    let sent = publish_timed(&mut stream, Bytes::from_static(&[1, 2, 3, 4]), MS);

    assert!(sent.is_none());
    assert_eq!(stream.timing().bytes_skipped, 4);
    assert_eq!(stream.bytes_served(), 0);
}

#[test]
fn timed_pcm_skips_frames_before_anchor() {
    let mut stream = LiveStream::new(session());
    stream.on_subscriber_connected(0);
    let frame_start = 7 * MS;
    stream.set_playback_anchor((frame_start + 5 * MS) as u128);

    let bytes = Bytes::from((0_u8..40).collect::<Vec<_>>());
    let chunk = publish_timed(&mut stream, bytes, frame_start).expect("trimmed live chunk");

    assert_eq!(chunk.len(), 20);
    assert_eq!(&chunk[..4], &[20, 21, 22, 23]);
    assert_eq!(stream.timing().bytes_skipped, 20);
    assert_eq!(stream.bytes_served(), 20);
}

#[test]
fn timed_pcm_after_anchor_is_delivered() {
    let mut stream = LiveStream::new(session());
    stream.on_subscriber_connected(0);
    let anchor = 3 * MS;
    stream.set_playback_anchor(anchor as u128);

    let chunk =
        publish_timed(&mut stream, Bytes::from_static(b"live"), anchor + MS).expect("live chunk");

    assert_eq!(&chunk[..], b"live");
    assert_eq!(stream.timing().bytes_skipped, 0);
}

#[test]
fn anchor_on_next_timed_pcm_delivers_first_frame_from_own_presentation_time() {
    let mut stream = LiveStream::new(session());
    stream.on_subscriber_connected(0);
    stream.arm_playback_anchor_on_next_timed_pcm();
    let frame_start = 9 * MS;

    let chunk =
        publish_timed(&mut stream, Bytes::from_static(b"live"), frame_start).expect("anchored chunk");

    assert_eq!(&chunk[..], b"live");
    assert_eq!(
        stream.timing().playback_anchor_at,
        Some(frame_start as u128)
    );
    assert_eq!(stream.timing().bytes_skipped, 0);
}

#[test]
fn old_pre_anchor_timed_pcm_is_skipped_after_arming() {
    let mut stream = LiveStream::new(session());
    stream.on_subscriber_connected(0);
    let old_frame_start = 2 * MS;

    assert!(publish_timed(&mut stream, Bytes::from_static(b"old1"), old_frame_start).is_none());
    stream.arm_playback_anchor_on_next_timed_pcm();
    let live_frame_start = old_frame_start + 20 * MS;
    let chunk =
        publish_timed(&mut stream, Bytes::from_static(b"live"), live_frame_start).expect("live chunk");

    assert_eq!(&chunk[..], b"live");
    assert_eq!(
        stream.timing().playback_anchor_at,
        Some(live_frame_start as u128)
    );
    assert_eq!(stream.timing().bytes_skipped, 4);
}

#[test]
fn rearming_replaces_existing_anchor_on_next_timed_pcm() {
    let mut stream = LiveStream::new(session());
    stream.on_subscriber_connected(0);
    let original_anchor = 4 * MS;
    stream.set_playback_anchor(original_anchor as u128);

    let old = publish_timed(
        &mut stream,
        Bytes::from_static(b"old1"),
        original_anchor + MS,
    )
    .expect("old anchored chunk");
    stream.arm_playback_anchor_on_next_timed_pcm();
    let replacement_anchor = original_anchor + 50 * MS;
    let new = publish_timed(&mut stream, Bytes::from_static(b"new1"), replacement_anchor)
        .expect("new anchored chunk");

    assert_eq!(&old[..], b"old1");
    assert_eq!(&new[..], b"new1");
    assert_eq!(
        stream.timing().playback_anchor_at,
        Some(replacement_anchor as u128)
    );
}

#[test]
fn timed_pcm_without_a_frame_size_is_sent_whole() {
    let mut stream = LiveStream::new(session());
    stream.on_subscriber_connected(0);
    stream.set_playback_anchor(u128::MAX);
    let clock = TimedPcmClock {
        now: 1,
        duration_ns: 0,
        skip_frames: 0,
    };
    let sent = stream.publish_timed_pcm(Bytes::from_static(b"abcd"), Some(0), 1_000, 0, clock);
    assert_eq!(&sent.expect("chunk")[..], b"abcd");
    let sent = stream.publish_timed_pcm(Bytes::from_static(b"abcd"), Some(0), 0, 2, clock);
    assert_eq!(&sent.expect("chunk")[..], b"abcd");
    let sent = stream.publish_timed_pcm(Bytes::from_static(b"abcd"), None, 1_000, 2, clock);
    assert_eq!(&sent.expect("chunk")[..], b"abcd");
    let sent = stream.publish_timed_pcm(Bytes::from_static(b"abcd"), Some(0), 1_000, 2, clock);
    assert!(sent.is_none());
    stream.clear_playback_anchor();
    assert_eq!(stream.timing().playback_anchor_at, None);
    let timing = stream.timing();
    assert_eq!(
        timing.encoded_bytes,
        timing.bytes_served + timing.bytes_dropped + timing.bytes_skipped
    );
}

#[test]
fn held_audio_is_dropped_until_delivery_opens() {
    let mut stream = LiveStream::new(session());
    stream.on_subscriber_connected(0);
    stream.on_subscriber_connected(5);
    assert_eq!(stream.timing().subscriber_connected_at, Some(0));
    stream.hold_delivery();
    assert!(stream.publish(Bytes::from_static(b"stale"), 1).is_none());
    let header = stream.publish_prelude(Bytes::from_static(b"header"), 1);
    assert_eq!(&header.expect("header")[..], b"header");
    stream.open_delivery();
    let live = stream.publish(Bytes::from_static(b"live"), 2);
    assert_eq!(&live.expect("live")[..], b"live");
    assert_eq!(stream.timing().chunks_dropped, 1);
    assert_eq!(stream.timing().first_served_at, Some(1));
}

#[test]
fn metrics_add_the_streams_up() {
    let one = StreamTiming {
        bytes_served: 5,
        bytes_dropped: 7,
        ..StreamTiming::default()
    };
    let two = StreamTiming {
        bytes_served: 10,
        bytes_skipped: 3,
        ..StreamTiming::default()
    };
    assert_eq!(
        metrics_text(&vec![one, two]),
        "# HELP airsonos2_stream_sessions Active live stream sessions.\n\
         # TYPE airsonos2_stream_sessions gauge\n\
         airsonos2_stream_sessions 2\n\
         # HELP airsonos2_http_bytes_served Bytes delivered to HTTP subscribers.\n\
         # TYPE airsonos2_http_bytes_served counter\n\
         airsonos2_http_bytes_served 15\n\
         # HELP airsonos2_stream_bytes_dropped Bytes dropped before HTTP subscriber connected.\n\
         # TYPE airsonos2_stream_bytes_dropped counter\n\
         airsonos2_stream_bytes_dropped 7\n\
         # HELP airsonos2_stream_bytes_skipped Bytes skipped to align playback with the live edge.\n\
         # TYPE airsonos2_stream_bytes_skipped counter\n\
         airsonos2_stream_bytes_skipped 3\n"
    );
}

#[test]
fn streams_registered_mp3_chunks() {
    let mut registry = StreamRegistry::new();
    let session_id = SessionId::new();
    registry.create(session_with(session_id, StreamCodec::Mp3, 7));
    let name = format!("{}.mp3", session_id.text());

    let found = stream_session(&registry, &name, None).expect("response");
    assert_eq!(content_type(found.session.codec), "audio/mpeg");

    let mut stream = registry.remove(&session_id).expect("stream").handle;
    stream.attach_subscriber(0);
    let chunk = stream
        .publish(Bytes::from_static(b"mp3"), 1)
        .expect("body chunk");
    assert_eq!(&chunk[..], b"mp3");
}

#[test]
fn streams_registered_wav_chunks() {
    let mut registry = StreamRegistry::new();
    let session_id = SessionId::new();
    registry.create(session_with(session_id, StreamCodec::Wav, 7));
    let name = format!("{}.wav", session_id.text());

    let found = stream_session(&registry, &name, None).expect("response");
    assert_eq!(content_type(found.session.codec), "audio/wav");

    let mut stream = registry.remove(&session_id).expect("stream").handle;
    stream.attach_subscriber(0);
    let chunk = stream
        .publish(Bytes::from_static(b"wav"), 1)
        .expect("body chunk");
    assert_eq!(&chunk[..], b"wav");
}

#[test]
fn rejects_bad_session_id() {
    let registry: StreamRegistry<()> = StreamRegistry::new();

    let refusal = stream_session(&registry, "nope.mp3", None).expect_err("refusal");

    assert_eq!(refusal, Refusal::BadRequest);
    assert_eq!(refusal.code(), 400);
}

#[test]
fn unknown_sessions_are_not_found() {
    let registry: StreamRegistry<()> = StreamRegistry::new();
    let name = format!("{}.aac", SessionId::new().text());
    let refusal = stream_session(&registry, &name, Some("gen=x")).expect_err("refusal");
    assert_eq!(refusal, Refusal::NotFound);
    assert_eq!(refusal.code(), 404);
    assert_eq!(Refusal::ServiceUnavailable.code(), 503);
}

#[test]
fn stream_generation_query_attaches_when_current() {
    let mut registry = StreamRegistry::new();
    let session_id = SessionId::new();
    registry.insert(session_with(session_id, StreamCodec::Wav, 3), ());
    let name = format!("{}.wav", session_id.text());

    assert!(stream_session(&registry, &name, Some("gen=3")).is_ok());
}

#[test]
fn stream_generation_query_rejects_stale_generation() {
    let mut registry = StreamRegistry::new();
    let session_id = SessionId::new();
    registry.insert(session_with(session_id, StreamCodec::Wav, 4), ());
    let name = format!("{}.wav", session_id.text());

    let refusal = stream_session(&registry, &name, Some("gen=3")).expect_err("refusal");

    assert_eq!(refusal, Refusal::NotFound);
    assert_eq!(
        stream_session(&registry, &name, Some("gen=four")).expect_err("refusal"),
        Refusal::BadRequest
    );
}

#[test]
fn stream_without_generation_query_still_attaches() {
    let mut registry = StreamRegistry::new();
    let session_id = SessionId::new();
    registry.insert(session_with(session_id, StreamCodec::Wav, 5), ());
    let name = format!("{}.wav", session_id.text());

    assert!(stream_session(&registry, &name, None).is_ok());
}

#[test]
fn generations_are_read_from_queries() {
    assert_eq!(stream_generation(None), Ok(None));
    assert_eq!(stream_generation(Some("")), Ok(None));
    assert_eq!(stream_generation(Some("a=1&b")), Ok(None));
    assert_eq!(stream_generation(Some("a=1&gen=7&gen=8")), Ok(Some(7)));
    assert_eq!(stream_generation(Some("gen=+7")), Ok(Some(7)));
    assert_eq!(stream_generation(Some("gen&gen=9")), Ok(Some(9)));
    assert_eq!(
        stream_generation(Some("gen=18446744073709551615")),
        Ok(Some(u64::MAX))
    );
    for bad in ["gen=", "gen=-1", "gen=7=8", "gen=18446744073709551616"] {
        assert_eq!(stream_generation(Some(bad)), Err(Refusal::BadRequest));
    }
}

#[test]
fn session_names_are_read() {
    let id = SessionId::new();
    for suffix in ["", ".mp3", ".wav", ".aac"] {
        let name = format!("{}{suffix}", id.text());
        assert_eq!(requested_session(&name), Ok(id));
    }
    for suffix in [".ogg", ".mp3.mp3"] {
        let name = format!("{}{suffix}", id.text());
        assert_eq!(requested_session(&name), Err(Refusal::BadRequest));
    }
    for codec in [StreamCodec::Mp3, StreamCodec::Aac, StreamCodec::Wav] {
        let name = format!("{}.{}", id.text(), codec_extension(codec));
        assert_eq!(requested_session(&name), Ok(id));
    }
}

#[test]
fn fixed_answers() {
    assert_eq!(healthz(), "ok\n");
    assert_eq!(metrics_content_type(), "text/plain; version=0.0.4");
    assert_eq!(content_type(StreamCodec::Aac), "audio/aac");
}

fn encoder_config() -> FfmpegEncoderConfig {
    FfmpegEncoderConfig {
        ffmpeg_path: "ffmpeg".to_owned(),
        sample_rate: 44_100,
        channels: 2,
        mp3_bitrate_kbps: 320,
        codec: StreamCodec::Mp3,
    }
}

#[test]
fn encoders_are_run_with_their_settings() {
    assert_eq!(
        encoder_arguments(&encoder_config()).join(" "),
        "-hide_banner -loglevel error -fflags nobuffer -f s16le -ar 44100 -ac 2 -i pipe:0 -f mp3 \
         -codec:a libmp3lame -b:a 320k -flush_packets 1 -write_xing 0 pipe:1"
    );
    assert_eq!(
        test_tone_arguments().join(" "),
        "-hide_banner -loglevel error -f lavfi -i sine=frequency=440:sample_rate=44100 -f mp3 \
         -codec:a libmp3lame -b:a 128k pipe:1"
    );
}

#[test]
fn wav_headers_describe_the_audio() {
    let header = wav_stream_header(44_100, 2);
    let mut expected = Vec::new();
    expected.extend_from_slice(b"RIFF\xff\xff\xff\xffWAVEfmt ");
    expected.extend_from_slice(&16_u32.to_le_bytes());
    expected.extend_from_slice(&1_u16.to_le_bytes());
    expected.extend_from_slice(&2_u16.to_le_bytes());
    expected.extend_from_slice(&44_100_u32.to_le_bytes());
    expected.extend_from_slice(&176_400_u32.to_le_bytes());
    expected.extend_from_slice(&4_u16.to_le_bytes());
    expected.extend_from_slice(&16_u16.to_le_bytes());
    expected.extend_from_slice(b"data\xff\xff\xff\xff");
    assert_eq!(header, expected);
}

#[test]
fn samples_are_written_low_byte_first() {
    let samples = [0, 1, -1, 258, i16::MIN, i16::MAX];
    let expected: Vec<u8> = samples.iter().flat_map(|s| s.to_le_bytes()).collect();
    assert_eq!(s16le_bytes(&samples), expected);
}

#[test]
fn wav_streams_begin_with_one_header() {
    let mut stream = LiveStream::new(session_with(SessionId::new(), StreamCodec::Wav, 1));
    let mut encoder = WavEncoder::new(&encoder_config());
    stream.on_subscriber_connected(0);
    stream.set_playback_anchor(0);
    let clock = clock(&stream, 8, MS, 44_100, 2);
    let (header, audio) =
        encoder.write_frame(&mut stream, vec![1; 8], Some(MS), 44_100, 2, clock);
    assert_eq!(header.expect("header").len(), 44);
    assert_eq!(&audio.expect("audio")[..], &[1; 8]);
    let (header, audio) =
        encoder.write_frame(&mut stream, vec![2; 8], Some(MS), 44_100, 2, clock);
    assert!(header.is_none());
    assert_eq!(&audio.expect("audio")[..], &[2; 8]);
    assert_eq!(stream.prelude().expect("prelude").len(), 44);
    let sent = publish_encoded(&mut stream, b"mp3".to_vec(), 5);
    assert_eq!(&sent.expect("chunk")[..], b"mp3");
}

#[test]
fn encoder_failures_are_reported() {
    let done = || TaskEnd::Done;
    assert_eq!(encoder_result(done(), done(), true, Some(0), None), Ok(()));
    assert_eq!(
        encoder_result(
            TaskEnd::Io("pipe".to_owned()),
            TaskEnd::Join("panic".to_owned()),
            true,
            Some(0),
            None
        ),
        Err(EncoderError::Io("pipe".to_owned()))
    );
    assert_eq!(
        encoder_result(done(), TaskEnd::Join("panic".to_owned()), true, Some(0), None),
        Err(EncoderError::Join("panic".to_owned()))
    );
    let exited = encoder_result(done(), done(), false, Some(-1), Some("bad".to_owned()))
        .expect_err("failure");
    assert_eq!(
        exited.message(),
        "ffmpeg exited with status Some(-1): bad"
    );
    let killed = encoder_result(done(), done(), false, None, None).expect_err("failure");
    assert_eq!(killed.message(), "ffmpeg exited with status None: ");
    let messages = [
        EncoderError::Spawn {
            path: "/bin/x".to_owned(),
            source: "gone".to_owned(),
        }
        .message(),
        EncoderError::MissingPipe("stdin").message(),
        EncoderError::InputClosed.message(),
        EncoderError::ShutdownTimeout.message(),
        EncoderError::Io("io".to_owned()).message(),
        EncoderError::Join("join".to_owned()).message(),
    ];
    assert_eq!(
        messages,
        [
            "failed to spawn ffmpeg at /bin/x: gone",
            "ffmpeg child was missing stdin pipe",
            "ffmpeg input channel closed",
            "ffmpeg shutdown timed out",
            "ffmpeg IO failed: io",
            "ffmpeg task failed: join",
        ]
    );
}

#[test]
fn codecs_are_named() {
    assert_eq!(stream_codec("mp3").expect("codec"), StreamCodec::Mp3);
    assert_eq!(stream_codec("wav").expect("codec"), StreamCodec::Wav);
    assert_eq!(stream_codec("pcm").expect("codec"), StreamCodec::Wav);
    assert_eq!(
        stream_codec("a\"c").expect_err("unsupported").message(),
        "unsupported stream codec \"a\\\"c\"; expected mp3 or wav"
    );
}

#[test]
fn stream_urls_find_their_streams() {
    let config = Config::default();
    let session_id = SessionId::new();
    let player = IpAddr::V4(0xC000_0201);
    let mut registry = StreamRegistry::new();
    for codec in [StreamCodec::Mp3, StreamCodec::Aac, StreamCodec::Wav] {
        registry.insert(session_with(session_id, codec, 12), ());
        let url = stream_url_for_zone(&config, None, player, session_id, codec, 12).expect("url");
        let url = url::Url::parse(&url).expect("url");
        let name = url.path().strip_prefix("/streams/").expect("stream path");
        let found = stream_session(&registry, name, url.query()).expect("stream");
        assert_eq!(found.session.codec, codec);
        let old = stream_url_for_zone(&config, None, player, session_id, codec, 11).expect("url");
        let old = url::Url::parse(&old).expect("url");
        assert_eq!(
            stream_session(&registry, name, old.query()).expect_err("refusal"),
            Refusal::NotFound
        );
    }
}

#[test]
fn wav_streams_need_no_process() {
    for codec in [StreamCodec::Mp3, StreamCodec::Aac] {
        let config = FfmpegEncoderConfig {
            ffmpeg_path: "/opt/ffmpeg".to_owned(),
            codec,
            ..encoder_config()
        };
        assert_eq!(
            plan_encoder(&config),
            EncoderPlan::Process {
                path: "/opt/ffmpeg".to_owned(),
                arguments: encoder_arguments(&config),
            }
        );
    }
    let config = FfmpegEncoderConfig {
        codec: StreamCodec::Wav,
        ..encoder_config()
    };
    assert_eq!(
        plan_encoder(&config),
        EncoderPlan::Wav {
            encoder: WavEncoder::new(&config)
        }
    );
}
