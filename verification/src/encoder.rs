//! Encoding audio into live streams.

use bytes::Bytes;
use vstd::prelude::*;
use vstd::string::StringExecFns;

use crate::chunk;
use crate::chunk::to_chunk;
use crate::stream;
use crate::stream::{LiveStream, PlaybackAnchorState, TimedPcmClock};
use crate::text;
use crate::types::StreamCodec;

verus! {

/// How the audio of a session is encoded.
#[derive(Debug, PartialEq, Eq)]
pub struct FfmpegEncoderConfig {
    pub ffmpeg_path: String,
    pub sample_rate: u32,
    pub channels: u8,
    pub mp3_bitrate_kbps: u16,
    pub codec: StreamCodec,
}

/// Why an encoder failed. What a system call or a task said stands in words.
#[derive(Debug, PartialEq, Eq)]
pub enum EncoderError {
    Spawn { path: String, source: String },
    MissingPipe(&'static str),
    InputClosed,
    Exited { status: Option<i32>, stderr: String },
    ShutdownTimeout,
    Io(String),
    Join(String),
}

/// An exit status in words.
pub open spec fn status_words(status: Option<i32>) -> Seq<char> {
    match status {
        Some(code) => "Some("@ + text::signed_decimal(code as int) + ")"@,
        None => "None"@,
    }
}

impl EncoderError {
    /// The error in words.
    pub open spec fn words(self) -> Seq<char> {
        match self {
            EncoderError::Spawn { path, source } => "failed to spawn ffmpeg at "@ + path@ + ": "@
                + source@,
            EncoderError::MissingPipe(pipe) => "ffmpeg child was missing "@ + pipe@ + " pipe"@,
            EncoderError::InputClosed => "ffmpeg input channel closed"@,
            EncoderError::Exited { status, stderr } => "ffmpeg exited with status "@ + status_words(
                status,
            ) + ": "@ + stderr@,
            EncoderError::ShutdownTimeout => "ffmpeg shutdown timed out"@,
            EncoderError::Io(source) => "ffmpeg IO failed: "@ + source@,
            EncoderError::Join(source) => "ffmpeg task failed: "@ + source@,
        }
    }

    /// The error in words.
    pub fn message(&self) -> (r: String)
        ensures
            r@ == self.words(),
    {
        match self {
            EncoderError::Spawn { path, source } => {
                let mut r = "failed to spawn ffmpeg at ".to_owned();
                r.append(path.as_str());
                r.append(": ");
                r.append(source.as_str());
                r
            },
            EncoderError::MissingPipe(pipe) => {
                let mut r = "ffmpeg child was missing ".to_owned();
                r.append(pipe);
                r.append(" pipe");
                r
            },
            EncoderError::InputClosed => "ffmpeg input channel closed".to_owned(),
            EncoderError::Exited { status, stderr } => {
                let mut r = "ffmpeg exited with status ".to_owned();
                match status {
                    Some(code) => {
                        r.append("Some(");
                        let digits = text::signed_text(*code);
                        r.append(digits.as_str());
                        r.append(")");
                    },
                    None => r.append("None"),
                }
                r.append(": ");
                r.append(stderr.as_str());
                assert(r@ =~= self.words());
                r
            },
            EncoderError::ShutdownTimeout => "ffmpeg shutdown timed out".to_owned(),
            EncoderError::Io(source) => {
                let mut r = "ffmpeg IO failed: ".to_owned();
                r.append(source.as_str());
                r
            },
            EncoderError::Join(source) => {
                let mut r = "ffmpeg task failed: ".to_owned();
                r.append(source.as_str());
                r
            },
        }
    }
}

// ---------------------------------------------------------------------------
// The encoder process
// ---------------------------------------------------------------------------
/// The texts of a list of strings.
pub open spec fn texts(list: Seq<String>) -> Seq<Seq<char>> {
    list.map_values(|s: String| s@)
}

/// The arguments of an encoder that reads PCM and writes MP3.
pub open spec fn encoder_command(config: FfmpegEncoderConfig) -> Seq<Seq<char>> {
    seq![
        "-hide_banner"@,
        "-loglevel"@,
        "error"@,
        "-fflags"@,
        "nobuffer"@,
        "-f"@,
        "s16le"@,
        "-ar"@,
        text::decimal(config.sample_rate as nat),
        "-ac"@,
        text::decimal(config.channels as nat),
        "-i"@,
        "pipe:0"@,
        "-f"@,
        "mp3"@,
        "-codec:a"@,
        "libmp3lame"@,
        "-b:a"@,
        text::decimal(config.mp3_bitrate_kbps as nat) + "k"@,
        "-flush_packets"@,
        "1"@,
        "-write_xing"@,
        "0"@,
        "pipe:1"@,
    ]
}

/// The arguments of an encoder that reads PCM and writes MP3.
pub fn encoder_arguments(config: &FfmpegEncoderConfig) -> (r: Vec<String>)
    ensures
        texts(r@) == encoder_command(*config),
{
    let mut bitrate = text::decimal_text(config.mp3_bitrate_kbps as u64);
    bitrate.append("k");
    let r: Vec<String> = vec![
        "-hide_banner".to_owned(),
        "-loglevel".to_owned(),
        "error".to_owned(),
        "-fflags".to_owned(),
        "nobuffer".to_owned(),
        "-f".to_owned(),
        "s16le".to_owned(),
        "-ar".to_owned(),
        text::decimal_text(config.sample_rate as u64),
        "-ac".to_owned(),
        text::decimal_text(config.channels as u64),
        "-i".to_owned(),
        "pipe:0".to_owned(),
        "-f".to_owned(),
        "mp3".to_owned(),
        "-codec:a".to_owned(),
        "libmp3lame".to_owned(),
        "-b:a".to_owned(),
        bitrate,
        "-flush_packets".to_owned(),
        "1".to_owned(),
        "-write_xing".to_owned(),
        "0".to_owned(),
        "pipe:1".to_owned(),
    ];
    assert(texts(r@) =~= encoder_command(*config));
    r
}

/// The arguments of an encoder that writes a test tone as MP3.
pub fn test_tone_arguments() -> (r: Vec<String>)
    ensures
        texts(r@) == seq![
            "-hide_banner"@,
            "-loglevel"@,
            "error"@,
            "-f"@,
            "lavfi"@,
            "-i"@,
            "sine=frequency=440:sample_rate=44100"@,
            "-f"@,
            "mp3"@,
            "-codec:a"@,
            "libmp3lame"@,
            "-b:a"@,
            "128k"@,
            "pipe:1"@,
        ],
{
    let r: Vec<String> = vec![
        "-hide_banner".to_owned(),
        "-loglevel".to_owned(),
        "error".to_owned(),
        "-f".to_owned(),
        "lavfi".to_owned(),
        "-i".to_owned(),
        "sine=frequency=440:sample_rate=44100".to_owned(),
        "-f".to_owned(),
        "mp3".to_owned(),
        "-codec:a".to_owned(),
        "libmp3lame".to_owned(),
        "-b:a".to_owned(),
        "128k".to_owned(),
        "pipe:1".to_owned(),
    ];
    assert(texts(r@) =~= seq![
        "-hide_banner"@,
        "-loglevel"@,
        "error"@,
        "-f"@,
        "lavfi"@,
        "-i"@,
        "sine=frequency=440:sample_rate=44100"@,
        "-f"@,
        "mp3"@,
        "-codec:a"@,
        "libmp3lame"@,
        "-b:a"@,
        "128k"@,
        "pipe:1"@,
    ]);
    r
}

/// How one of the tasks around the encoder process ended.
#[derive(Debug, PartialEq, Eq)]
pub enum TaskEnd {
    Done,
    Io(String),
    Join(String),
}

impl TaskEnd {
    /// The failure of the task, if it failed.
    pub open spec fn failure(self) -> Option<EncoderError> {
        match self {
            TaskEnd::Done => None,
            TaskEnd::Io(source) => Some(EncoderError::Io(source)),
            TaskEnd::Join(source) => Some(EncoderError::Join(source)),
        }
    }

    /// What came of the task.
    pub fn result(self) -> (r: Result<(), EncoderError>)
        ensures
            match self.failure() {
                Some(error) => r == Err::<(), EncoderError>(error),
                None => r is Ok,
            },
    {
        match self {
            TaskEnd::Done => Ok(()),
            TaskEnd::Io(source) => Err(EncoderError::Io(source)),
            TaskEnd::Join(source) => Err(EncoderError::Join(source)),
        }
    }
}

/// What came of an encoder whose input was written and whose output was read:
/// the first failure of the two, or what the process said on its exit where it
/// did not exit with success.
pub fn encoder_result(
    writer: TaskEnd,
    reader: TaskEnd,
    success: bool,
    status: Option<i32>,
    stderr: Option<String>,
) -> (r: Result<(), EncoderError>)
    ensures
        match (writer.failure(), reader.failure()) {
            (Some(error), _) => r == Err::<(), EncoderError>(error),
            (None, Some(error)) => r == Err::<(), EncoderError>(error),
            (None, None) => if success {
                r is Ok
            } else {
                r matches Err(EncoderError::Exited { status: s, stderr: words }) && s == status
                    && words@ == match stderr {
                    Some(words) => words@,
                    None => ""@,
                }
            },
        },
{
    if let Err(error) = writer.result() {
        return Err(error);
    }
    if let Err(error) = reader.result() {
        return Err(error);
    }
    if success {
        Ok(())
    } else {
        let stderr: String = match stderr {
            Some(words) => words,
            None => "".to_owned(),
        };
        Err(EncoderError::Exited { status, stderr })
    }
}

/// Publishes what was read from the encoder and gives what the player is to be
/// sent.
pub fn publish_encoded(stream: &mut LiveStream, bytes: Vec<u8>, now: u64) -> (r: Option<Bytes>)
    ensures
        (final(stream)@, stream::contents(r)) == old(stream)@.published(
            bytes@,
            now,
            old(stream)@.held,
        ),
{
    stream.publish(to_chunk(bytes), now)
}

// ---------------------------------------------------------------------------
// WAV
// ---------------------------------------------------------------------------
/// A 16-bit number, low byte first.
pub open spec fn le16(n: int) -> Seq<u8> {
    seq![(n % 256) as u8, (n / 256 % 256) as u8]
}

/// A 32-bit number, low byte first.
pub open spec fn le32(n: int) -> Seq<u8> {
    le16(n % 0x1_0000) + le16(n / 0x1_0000)
}

fn push_le16(out: &mut Vec<u8>, n: u16)
    ensures
        final(out)@ == old(out)@ + le16(n as int),
{
    out.push((n % 256) as u8);
    out.push((n / 256) as u8);
    assert(out@ =~= old(out)@ + le16(n as int));
}

fn push_le32(out: &mut Vec<u8>, n: u32)
    ensures
        final(out)@ == old(out)@ + le32(n as int),
{
    push_le16(out, (n % 0x1_0000) as u16);
    push_le16(out, (n / 0x1_0000) as u16);
    assert(out@ =~= old(out)@ + le32(n as int));
}

fn push_tag(out: &mut Vec<u8>, tag: [u8; 4])
    ensures
        final(out)@ == old(out)@ + tag@,
{
    out.push(tag[0]);
    out.push(tag[1]);
    out.push(tag[2]);
    out.push(tag[3]);
    assert(out@ =~= old(out)@ + tag@);
}

/// The header of an endless WAV stream of 16-bit PCM: its sizes are the
/// greatest there are.
pub open spec fn wav_header(sample_rate: u32, channels: u8) -> Seq<u8> {
    seq![0x52u8, 0x49, 0x46, 0x46] + le32(0xFFFF_FFFF) + seq![0x57u8, 0x41, 0x56, 0x45]
        + seq![0x66u8, 0x6d, 0x74, 0x20] + le32(16) + le16(1) + le16(channels as int) + le32(
        sample_rate as int,
    ) + le32(sample_rate * (channels * 2)) + le16(channels * 2) + le16(16) + seq![
        0x64u8,
        0x61,
        0x74,
        0x61,
    ] + le32(0xFFFF_FFFF)
}

/// The header of an endless WAV stream of 16-bit PCM.
pub fn wav_stream_header(sample_rate: u32, channels: u8) -> (r: Vec<u8>)
    requires
        sample_rate * (channels * 2) <= u32::MAX,
    ensures
        r@ == wav_header(sample_rate, channels),
        r@.len() == 44,
{
    let block_align: u16 = channels as u16 * 2;
    let byte_rate: u32 = sample_rate * block_align as u32;
    let mut header: Vec<u8> = Vec::new();
    push_tag(&mut header, [0x52, 0x49, 0x46, 0x46]);
    push_le32(&mut header, 0xFFFF_FFFF);
    push_tag(&mut header, [0x57, 0x41, 0x56, 0x45]);
    push_tag(&mut header, [0x66, 0x6d, 0x74, 0x20]);
    push_le32(&mut header, 16);
    push_le16(&mut header, 1);
    push_le16(&mut header, channels as u16);
    push_le32(&mut header, sample_rate);
    push_le32(&mut header, byte_rate);
    push_le16(&mut header, block_align);
    push_le16(&mut header, 16);
    push_tag(&mut header, [0x64, 0x61, 0x74, 0x61]);
    push_le32(&mut header, 0xFFFF_FFFF);
    assert(header@ =~= wav_header(sample_rate, channels));
    header
}

/// The bytes of 16-bit samples, low byte first.
pub open spec fn sample_bytes(samples: Seq<i16>) -> Seq<u8>
    decreases samples.len(),
{
    if samples.len() == 0 {
        Seq::empty()
    } else {
        sample_bytes(samples.drop_last()) + le16((samples.last() as int) % 0x1_0000)
    }
}

/// The bytes of 16-bit samples, low byte first.
pub fn s16le_bytes(samples: &[i16]) -> (r: Vec<u8>)
    ensures
        r@ == sample_bytes(samples@),
        r@.len() == samples@.len() * 2,
{
    let mut r: Vec<u8> = Vec::new();
    let mut i: usize = 0;
    assert(samples@.take(0) =~= Seq::<i16>::empty());
    while i < samples.len()
        invariant
            i <= samples@.len(),
            r@ == sample_bytes(samples@.take(i as int)),
            r@.len() == i * 2,
        decreases samples@.len() - i,
    {
        proof {
            let next = samples@.take(i + 1);
            assert(next.drop_last() =~= samples@.take(i as int));
            assert(next.last() == samples@[i as int]);
        }
        let sample: i32 = samples[i] as i32;
        let wrapped: u16 = if sample < 0 {
            (sample + 0x1_0000) as u16
        } else {
            sample as u16
        };
        push_le16(&mut r, wrapped);
        i = i + 1;
    }
    assert(samples@.take(samples@.len() as int) =~= samples@);
    r
}

/// An encoder of WAV streams, which only need a header.
#[derive(Clone, Copy, Debug, PartialEq, Eq, Structural)]
pub struct WavEncoder {
    pub sample_rate: u32,
    pub channels: u8,
    pub sent_header: bool,
}

impl WavEncoder {
    /// An encoder that has not written anything yet.
    pub fn new(config: &FfmpegEncoderConfig) -> (r: Self)
        ensures
            r == (WavEncoder {
                sample_rate: config.sample_rate,
                channels: config.channels,
                sent_header: false,
            }),
    {
        WavEncoder {
            sample_rate: config.sample_rate,
            channels: config.channels,
            sent_header: false,
        }
    }

    /// Publishes a frame of audio, the first one after the header, and gives
    /// what the player is to be sent: of the header, and of the frame.
    pub fn write_frame(
        &mut self,
        stream: &mut LiveStream,
        pcm: Vec<u8>,
        presentation_time: Option<u64>,
        sample_rate: u32,
        channels: u8,
        clock: TimedPcmClock,
    ) -> (r: (Option<Bytes>, Option<Bytes>))
        requires
            old(self).sample_rate * (old(self).channels * 2) <= u32::MAX,
        ensures
            *final(self) == (WavEncoder { sent_header: true, ..*old(self) }),
            ({
                let header = wav_header(old(self).sample_rate, old(self).channels);
                let (s, first) = if old(self).sent_header {
                    (old(stream)@, None)
                } else {
                    (stream::StreamState { prelude: Some(header), ..old(stream)@ }).published(
                        header,
                        clock.now,
                        false,
                    )
                };
                let (t, second) = s.published_timed(
                    pcm@,
                    presentation_time,
                    sample_rate,
                    channels,
                    clock,
                );
                &&& final(stream)@ == t
                &&& stream::contents(r.0) == first
                &&& stream::contents(r.1) == second
            }),
    {
        let mut first: Option<Bytes> = None;
        if !self.sent_header {
            self.sent_header = true;
            let header = to_chunk(wav_stream_header(self.sample_rate, self.channels));
            first = stream.publish_prelude(header, clock.now);
        }
        let second = stream.publish_timed_pcm(
            to_chunk(pcm),
            presentation_time,
            sample_rate,
            channels,
            clock,
        );
        (first, second)
    }
}

/// How a stream is encoded.
#[derive(Debug, PartialEq, Eq)]
pub enum EncoderPlan {
    /// By this encoder, without a process.
    Wav { encoder: WavEncoder },
    /// By a process.
    Process { path: String, arguments: Vec<String> },
}

/// How a stream is encoded: a WAV stream needs no process.
pub fn plan_encoder(config: &FfmpegEncoderConfig) -> (r: EncoderPlan)
    ensures
        match r {
            EncoderPlan::Wav { encoder } => {
                &&& config.codec == StreamCodec::Wav
                &&& encoder == (WavEncoder {
                    sample_rate: config.sample_rate,
                    channels: config.channels,
                    sent_header: false,
                })
            },
            EncoderPlan::Process { path, arguments } => {
                &&& config.codec != StreamCodec::Wav
                &&& path@ == config.ffmpeg_path@
                &&& texts(arguments@) == encoder_command(*config)
            },
        },
{
    if config.codec == StreamCodec::Wav {
        EncoderPlan::Wav { encoder: WavEncoder::new(config) }
    } else {
        EncoderPlan::Process {
            path: config.ffmpeg_path.clone(),
            arguments: encoder_arguments(config),
        }
    }
}

// ---------------------------------------------------------------------------
// Laws
// ---------------------------------------------------------------------------
/// The number in two bytes from a position on, low byte first.
pub open spec fn number16(bytes: Seq<u8>, at: int) -> int {
    bytes[at] + 0x100 * bytes[at + 1]
}

/// The number in four bytes from a position on, low byte first.
pub open spec fn number32(bytes: Seq<u8>, at: int) -> int {
    bytes[at] + 0x100 * bytes[at + 1] + 0x1_0000 * bytes[at + 2] + 0x100_0000 * bytes[at + 3]
}

proof fn lemma_le16(n: int)
    requires
        0 <= n < 0x1_0000,
    ensures
        le16(n).len() == 2,
        le16(n)[0] + 0x100 * le16(n)[1] == n,
{
}

proof fn lemma_le32(n: int)
    requires
        0 <= n < 0x1_0000_0000,
    ensures
        le32(n).len() == 4,
        le32(n)[0] + 0x100 * le32(n)[1] + 0x1_0000 * le32(n)[2] + 0x100_0000 * le32(n)[3] == n,
{
    lemma_le16(n % 0x1_0000);
    lemma_le16(n / 0x1_0000);
    assert(le32(n)[0] == le16(n % 0x1_0000)[0]);
    assert(le32(n)[1] == le16(n % 0x1_0000)[1]);
    assert(le32(n)[2] == le16(n / 0x1_0000)[0]);
    assert(le32(n)[3] == le16(n / 0x1_0000)[1]);
}

/// A header is read back as the format it was made for: the four marks of a WAV
/// file stand in their places, the sizes are the greatest there are, and the
/// format is PCM in 16-bit samples, with the channels and the sample rate of the
/// audio and with what follows from them, the bytes in a second and in a frame.
pub proof fn wav_headers_are_read_back(sample_rate: u32, channels: u8)
    requires
        sample_rate * (channels * 2) <= u32::MAX,
    ensures
        ({
            let h = wav_header(sample_rate, channels);
            &&& h.len() == 44
            &&& h.subrange(0, 4) == seq![0x52u8, 0x49, 0x46, 0x46]
            &&& number32(h, 4) == u32::MAX
            &&& h.subrange(8, 16) == seq![0x57u8, 0x41, 0x56, 0x45, 0x66, 0x6d, 0x74, 0x20]
            &&& number32(h, 16) == 16
            &&& number16(h, 20) == 1
            &&& number16(h, 22) == channels
            &&& number32(h, 24) == sample_rate
            &&& number32(h, 28) == sample_rate * (channels * 2)
            &&& number16(h, 32) == channels * 2
            &&& number16(h, 34) == 16
            &&& h.subrange(36, 40) == seq![0x64u8, 0x61, 0x74, 0x61]
            &&& number32(h, 40) == u32::MAX
        }),
{
    let h = wav_header(sample_rate, channels);
    let rate = sample_rate * (channels * 2);
    lemma_le32(0xFFFF_FFFF);
    lemma_le32(16);
    lemma_le16(1);
    lemma_le16(channels as int);
    lemma_le32(sample_rate as int);
    assert(0 <= rate) by (nonlinear_arith)
        requires
            rate == sample_rate * (channels * 2),
    ;
    lemma_le32(rate);
    lemma_le16(channels * 2);
    lemma_le16(16);
    assert(h.subrange(0, 4) =~= seq![0x52u8, 0x49, 0x46, 0x46]);
    assert(h.subrange(4, 8) =~= le32(0xFFFF_FFFF));
    assert(h.subrange(8, 16) =~= seq![0x57u8, 0x41, 0x56, 0x45, 0x66, 0x6d, 0x74, 0x20]);
    assert(h.subrange(16, 20) =~= le32(16));
    assert(h.subrange(20, 22) =~= le16(1));
    assert(h.subrange(22, 24) =~= le16(channels as int));
    assert(h.subrange(24, 28) =~= le32(sample_rate as int));
    assert(h.subrange(28, 32) =~= le32(rate));
    assert(h.subrange(32, 34) =~= le16(channels * 2));
    assert(h.subrange(34, 36) =~= le16(16));
    assert(h.subrange(36, 40) =~= seq![0x64u8, 0x61, 0x74, 0x61]);
    assert(h.subrange(40, 44) =~= le32(0xFFFF_FFFF));
    assert forall|from: int, to: int, k: int| 0 <= from <= to <= 44 && 0 <= k < to - from implies (
    #[trigger] h.subrange(from, to)[k]) == h[from + k] by {}
    assert(h[4] == h.subrange(4, 8)[0] && h[5] == h.subrange(4, 8)[1] && h[6] == h.subrange(4, 8)[2]
        && h[7] == h.subrange(4, 8)[3]);
    assert(h[16] == h.subrange(16, 20)[0] && h[17] == h.subrange(16, 20)[1] && h[18] == h.subrange(
        16,
        20,
    )[2] && h[19] == h.subrange(16, 20)[3]);
    assert(h[20] == h.subrange(20, 22)[0] && h[21] == h.subrange(20, 22)[1]);
    assert(h[22] == h.subrange(22, 24)[0] && h[23] == h.subrange(22, 24)[1]);
    assert(h[24] == h.subrange(24, 28)[0] && h[25] == h.subrange(24, 28)[1] && h[26] == h.subrange(
        24,
        28,
    )[2] && h[27] == h.subrange(24, 28)[3]);
    assert(h[28] == h.subrange(28, 32)[0] && h[29] == h.subrange(28, 32)[1] && h[30] == h.subrange(
        28,
        32,
    )[2] && h[31] == h.subrange(28, 32)[3]);
    assert(h[32] == h.subrange(32, 34)[0] && h[33] == h.subrange(32, 34)[1]);
    assert(h[34] == h.subrange(34, 36)[0] && h[35] == h.subrange(34, 36)[1]);
    assert(h[40] == h.subrange(40, 44)[0] && h[41] == h.subrange(40, 44)[1] && h[42] == h.subrange(
        40,
        44,
    )[2] && h[43] == h.subrange(40, 44)[3]);
}

/// Every sample is read back from its two bytes, which stand at its place.
pub proof fn samples_are_read_back(samples: Seq<i16>, i: int)
    requires
        0 <= i < samples.len(),
    ensures
        sample_bytes(samples).len() == 2 * samples.len(),
        samples[i] == ({
            let n = number16(sample_bytes(samples), 2 * i);
            if n < 0x8000 {
                n
            } else {
                n - 0x1_0000
            }
        }),
    decreases samples.len(),
{
    let rest = samples.drop_last();
    let n = (samples.last() as int) % 0x1_0000;
    lemma_le16(n);
    if rest.len() > 0 {
        samples_are_read_back(rest, 0);
    }
    let b = sample_bytes(samples);
    assert(b =~= sample_bytes(rest) + le16(n));
    if i < rest.len() {
        samples_are_read_back(rest, i);
        assert(b[2 * i] == sample_bytes(rest)[2 * i]);
        assert(b[2 * i + 1] == sample_bytes(rest)[2 * i + 1]);
    } else {
        assert(b[2 * i] == le16(n)[0]);
        assert(b[2 * i + 1] == le16(n)[1]);
    }
}

/// An encoder process is told the format of the audio and the bit rate, each
/// behind its option, and reads and writes its pipes.
pub proof fn encoders_are_told_the_format(config: FfmpegEncoderConfig)
    ensures
        ({
            let a = encoder_command(config);
            &&& exists|i: int|
                0 <= i < a.len() - 1 && #[trigger] a[i] == "-ar"@ && text::all_digits(a[i + 1])
                    && text::digits_value(a[i + 1]) == config.sample_rate
            &&& exists|i: int|
                0 <= i < a.len() - 1 && #[trigger] a[i] == "-ac"@ && text::all_digits(a[i + 1])
                    && text::digits_value(a[i + 1]) == config.channels
            &&& exists|i: int|
                0 <= i < a.len() - 1 && #[trigger] a[i] == "-b:a"@ && a[i + 1].last() == 'k'
                    && text::all_digits(a[i + 1].drop_last()) && text::digits_value(
                    a[i + 1].drop_last(),
                ) == config.mp3_bitrate_kbps
            &&& exists|i: int| 0 <= i < a.len() - 1 && #[trigger] a[i] == "-i"@ && a[i + 1]
                == "pipe:0"@
            &&& a.last() == "pipe:1"@
        }),
{
    let a = encoder_command(config);
    text::lemma_decimal_digits(config.sample_rate as nat);
    text::lemma_decimal_digits(config.channels as nat);
    text::lemma_decimal_digits(config.mp3_bitrate_kbps as nat);
    reveal_strlit("k");
    let rate = text::decimal(config.mp3_bitrate_kbps as nat);
    assert(a[7] == "-ar"@ && a[8] == text::decimal(config.sample_rate as nat));
    assert(a[9] == "-ac"@ && a[10] == text::decimal(config.channels as nat));
    assert(a[11] == "-i"@);
    assert(a[17] == "-b:a"@ && a[18] == rate + "k"@);
    assert(a[18].drop_last() =~= rate);
}

// ---------------------------------------------------------------------------
// What callers see
// ---------------------------------------------------------------------------
/// The header that a caller gets is read back as the format it was asked for.
pub proof fn callers_read_the_format_back(sample_rate: u32, channels: u8, r: Vec<u8>)
    requires
        sample_rate * (channels * 2) <= u32::MAX,
        call_ensures(wav_stream_header, (sample_rate, channels), r),
    ensures
        r@.len() == 44,
        number16(r@, 20) == 1,
        number16(r@, 22) == channels,
        number32(r@, 24) == sample_rate,
        number32(r@, 28) == sample_rate * (channels * 2),
        number16(r@, 32) == channels * 2,
        number16(r@, 34) == 16,
{
    wav_headers_are_read_back(sample_rate, channels);
}

/// The bytes that a caller gets for samples are read back as these samples.
pub proof fn callers_read_the_samples_back(samples: &[i16], r: Vec<u8>, i: int)
    requires
        call_ensures(s16le_bytes, (samples,), r),
        0 <= i < samples@.len(),
    ensures
        r@.len() == 2 * samples@.len(),
        (number16(r@, 2 * i) - samples@[i]) % 0x1_0000 == 0,
{
    samples_are_read_back(samples@, i);
}

/// A WAV stream is encoded here, from its own format and with its header still to
/// be sent; every other stream is encoded by the configured program.
pub proof fn wav_streams_need_no_program(config: &FfmpegEncoderConfig, plan: EncoderPlan)
    requires
        call_ensures(plan_encoder, (config,), plan),
    ensures
        plan is Wav <==> config.codec == StreamCodec::Wav,
        plan matches EncoderPlan::Wav { encoder } ==> encoder.sample_rate == config.sample_rate
            && encoder.channels == config.channels && !encoder.sent_header,
        plan matches EncoderPlan::Process { path, arguments } ==> path@ == config.ffmpeg_path@
            && arguments@.len() > 0 && arguments@.last()@ == "pipe:1"@,
{
    encoders_are_told_the_format(*config);
    if let EncoderPlan::Process { path, arguments } = plan {
        assert(texts(arguments@).last() == arguments@.last()@);
    }
}

/// The header goes ahead of the first frame and of no other: a frame after
/// another brings nothing but its own audio.
pub proof fn the_header_is_sent_once(
    encoder: &mut WavEncoder,
    stream: &mut LiveStream,
    pcm: Vec<u8>,
    presentation_time: Option<u64>,
    sample_rate: u32,
    channels: u8,
    clock: TimedPcmClock,
    r: (Option<Bytes>, Option<Bytes>),
)
    requires
        old(encoder).sample_rate * (old(encoder).channels * 2) <= u32::MAX,
        call_ensures(
            WavEncoder::write_frame,
            (encoder, stream, pcm, presentation_time, sample_rate, channels, clock),
            r,
        ),
    ensures
        final(encoder).sent_header,
        final(encoder).sample_rate == old(encoder).sample_rate,
        final(encoder).channels == old(encoder).channels,
        old(encoder).sent_header ==> stream::contents(r.0) is None && final(stream)@.prelude
            == old(stream)@.prelude,
        !old(encoder).sent_header ==> {
            &&& final(stream)@.prelude == Some(
                wav_header(old(encoder).sample_rate, old(encoder).channels),
            )
            &&& old(stream)@.timing.subscriber_connected ==> stream::contents(r.0)
                == final(stream)@.prelude
            &&& !old(stream)@.timing.subscriber_connected ==> stream::contents(r.0) is None
        },
{
    wav_headers_are_read_back(old(encoder).sample_rate, old(encoder).channels);
}

/// An encoder that did not end well gives an error: that of its writer first,
/// then that of its reader, then that of its exit, with what it said.
pub proof fn the_first_failure_is_reported(
    writer: TaskEnd,
    reader: TaskEnd,
    success: bool,
    status: Option<i32>,
    stderr: Option<String>,
    r: Result<(), EncoderError>,
)
    requires
        call_ensures(encoder_result, (writer, reader, success, status, stderr), r),
    ensures
        r is Ok <==> success && writer is Done && reader is Done,
        writer matches TaskEnd::Io(source) ==> (r matches Err(EncoderError::Io(said)) && said
            == source),
        writer matches TaskEnd::Join(source) ==> (r matches Err(EncoderError::Join(said)) && said
            == source),
        writer is Done ==> (reader matches TaskEnd::Io(source) ==> (r matches Err(
            EncoderError::Io(said),
        ) && said == source)),
        writer is Done ==> (reader matches TaskEnd::Join(source) ==> (r matches Err(
            EncoderError::Join(said),
        ) && said == source)),
        writer is Done && reader is Done && !success ==> (r matches Err(
            EncoderError::Exited { status: code, stderr: words },
        ) && code == status && (stderr matches Some(said) ==> words@ == said@) && (stderr is None
            ==> words@ == ""@)),
{
}

/// Encoded audio is published like any other: whole to a player that is
/// connected, unless it is held back.
pub proof fn encoded_audio_is_published(
    stream: &mut LiveStream,
    bytes: Vec<u8>,
    now: u64,
    r: Option<Bytes>,
)
    requires
        call_ensures(publish_encoded, (stream, bytes, now), r),
        0 < bytes@.len() <= u64::MAX,
    ensures
        old(stream)@.timing.subscriber_connected && !old(stream)@.held ==> stream::contents(r)
            == Some(bytes@),
        !old(stream)@.timing.subscriber_connected || old(stream)@.held ==> stream::contents(r)
            is None,
        final(stream)@.ready,
        final(stream)@.timing.encoded_bytes == old(stream)@.timing.encoded_bytes.wrapping_add(
            bytes@.len() as u64,
        ),
{
    stream::chunks_are_counted(old(stream)@, bytes@, now, old(stream)@.held);
}

/// The words on an encoder that ended badly name its exit code, with its sign, if
/// it has one, and end in what it said.
pub proof fn words_name_the_exit_code(
    status: Option<i32>,
    stderr: String,
    error: &EncoderError,
    r: String,
)
    requires
        *error == (EncoderError::Exited { status, stderr }),
        call_ensures(EncoderError::message, (error,), r),
    ensures
        stderr@.is_suffix_of(r@),
        status matches Some(code) ==> code >= 0 ==> exists|digits: Seq<char>|
            r@ == #[trigger] ("ffmpeg exited with status "@ + "Some("@ + digits + ")"@ + ": "@
                + stderr@) && text::all_digits(digits) && text::digits_value(digits) == code,
        status matches Some(code) ==> code < 0 ==> exists|digits: Seq<char>|
            r@ == #[trigger] ("ffmpeg exited with status "@ + "Some("@ + seq!['-'] + digits + ")"@
                + ": "@ + stderr@) && text::all_digits(digits) && text::digits_value(digits)
                == -code,
        status is None ==> r@ == "ffmpeg exited with status None: "@ + stderr@,
{
    assert(stderr@ =~= r@.skip(r@.len() - stderr@.len()));
    match status {
        Some(code) => {
            if code < 0 {
                let digits = text::decimal((-code) as nat);
                text::lemma_decimal_digits((-code) as nat);
                assert(text::signed_decimal(code as int) == seq!['-'] + digits);
                assert(r@ =~= "ffmpeg exited with status "@ + "Some("@ + seq!['-'] + digits + ")"@
                    + ": "@ + stderr@);
            } else {
                let digits = text::decimal(code as nat);
                text::lemma_decimal_digits(code as nat);
                assert(r@ =~= "ffmpeg exited with status "@ + "Some("@ + digits + ")"@ + ": "@
                    + stderr@);
            }
        },
        None => {
            reveal_strlit("ffmpeg exited with status ");
            reveal_strlit("None");
            reveal_strlit(": ");
            reveal_strlit("ffmpeg exited with status None: ");
            assert(r@ =~= "ffmpeg exited with status None: "@ + stderr@);
        },
    }
}

/// The program that encodes reads samples of 16 bits from its input, in the format
/// of the audio, and writes MP3 to its output, in this order.
pub proof fn encoders_read_samples_and_write_mp3(config: &FfmpegEncoderConfig, r: Vec<String>)
    requires
        call_ensures(encoder_arguments, (config,), r),
    ensures
        exists|i: int, j: int, k: int|
            #![trigger r@[i], r@[j], r@[k]]
            {
                &&& 0 <= i && i + 1 < j && j + 1 < k && k + 1 < r@.len() - 1
                &&& r@[i]@ == "-f"@ && r@[i + 1]@ == "s16le"@
                &&& r@[j]@ == "-i"@ && r@[j + 1]@ == "pipe:0"@
                &&& r@[k]@ == "-f"@ && r@[k + 1]@ == "mp3"@
                &&& exists|n: int|
                    i < n < j && (#[trigger] r@[n])@ == "-ar"@ && text::digits_value(r@[n + 1]@)
                        == config.sample_rate
                &&& exists|n: int|
                    i < n < j && (#[trigger] r@[n])@ == "-ac"@ && text::digits_value(r@[n + 1]@)
                        == config.channels
                &&& exists|n: int|
                    k < n < r@.len() && (#[trigger] r@[n])@ == "-codec:a"@ && r@[n + 1]@
                        == "libmp3lame"@
            },
        r@.last()@ == "pipe:1"@,
{
    let a = encoder_command(*config);
    text::lemma_decimal_digits(config.sample_rate as nat);
    text::lemma_decimal_digits(config.channels as nat);
    assert(a.len() == 24);
    assert(texts(r@).len() == r@.len());
    assert forall|n: int| 0 <= n < 24 implies (#[trigger] r@[n])@ == a[n] by {
        assert(texts(r@)[n] == r@[n]@);
    }
    assert(r@[5]@ == a[5] && r@[6]@ == a[6]);
    assert(r@[7]@ == a[7] && r@[8]@ == a[8]);
    assert(r@[9]@ == a[9] && r@[10]@ == a[10]);
    assert(r@[11]@ == a[11] && r@[12]@ == a[12]);
    assert(r@[13]@ == a[13] && r@[14]@ == a[14]);
    assert(r@[15]@ == a[15] && r@[16]@ == a[16]);
    assert(r@[23]@ == a[23]);
}

/// The audio of a frame is sent whole, after the header, where it is presented
/// later than the anchor and a player takes it; it is skipped while there is no
/// anchor, and dropped while no player is there or it is held back.
pub proof fn frames_are_sent_after_the_anchor(
    encoder: &mut WavEncoder,
    stream: &mut LiveStream,
    pcm: Vec<u8>,
    presented: u64,
    sample_rate: u32,
    channels: u8,
    clock: TimedPcmClock,
    r: (Option<Bytes>, Option<Bytes>),
)
    requires
        old(encoder).sample_rate * (old(encoder).channels * 2) <= u32::MAX,
        call_ensures(
            WavEncoder::write_frame,
            (encoder, stream, pcm, Some(presented), sample_rate, channels, clock),
            r,
        ),
        0 < pcm@.len() <= u64::MAX,
    ensures
        ({
            let s = old(stream)@;
            let flows = s.timing.subscriber_connected && !s.held;
            &&& flows && (s.anchor matches PlaybackAnchorState::At(at) && presented > at)
                ==> stream::contents(r.1) == Some(pcm@)
            &&& flows && s.anchor is Unset ==> stream::contents(r.1) is None
                && final(stream)@.timing.bytes_skipped == s.timing.bytes_skipped.wrapping_add(
                pcm@.len() as u64,
            )
            &&& !flows ==> stream::contents(r.1) is None
            &&& final(stream)@.held == s.held
            &&& final(stream)@.timing.subscriber_connected == s.timing.subscriber_connected
        }),
{
    let s = old(stream)@;
    let header = wav_header(old(encoder).sample_rate, old(encoder).channels);
    let kept = stream::StreamState { prelude: Some(header), ..s };
    wav_headers_are_read_back(old(encoder).sample_rate, old(encoder).channels);
    stream::chunks_are_counted(kept, header, clock.now, false);
    let ready = if old(encoder).sent_header {
        s
    } else {
        kept.published(header, clock.now, false).0
    };
    assert(ready.anchor == s.anchor && ready.held == s.held);
    assert(ready.timing.bytes_skipped == s.timing.bytes_skipped);
    if s.timing.subscriber_connected && !s.held {
        if let PlaybackAnchorState::At(at) = s.anchor {
            if presented > at {
                stream::audio_from_the_anchor_on_is_sent_whole(
                    ready,
                    pcm@,
                    presented,
                    at,
                    sample_rate,
                    channels,
                    clock,
                );
            }
        }
    }
}

} // verus!
