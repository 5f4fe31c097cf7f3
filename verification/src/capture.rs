//! Recording decisions: constant-frame-rate pacing of captured video,
//! silence insertion across audio dropouts, and planar-to-interleaved audio.
//!
//! Video slot N is the output frame at `start + N/fps`. Incoming frames land
//! in the nearest slot, missed slots repeat the previous frame, and a frame
//! landing in an already-written slot replaces nothing (it only refreshes
//! the pixels that later repeats copy). Audio packets that start later than
//! the previous one ended, beyond a small jitter allowance, get the hole
//! filled with zero samples so A/V sync survives dropouts.
use vstd::prelude::*;

use crate::project::{Clip, Project, Take};
use crate::text::{decimal, push_decimal};

verus! {

#[derive(Debug, Clone, Copy)]
pub struct RecordConfig {
    pub fps: u32,
}

impl RecordConfig {
    /// Sixty frames per second.
    pub fn default_config() -> (r: RecordConfig)
        ensures
            r.fps == 60,
    {
        RecordConfig { fps: 60 }
    }
}

#[derive(Debug, Clone, Copy)]
pub struct TakeSummary {
    pub take_id: u32,
    pub width: u32,
    pub height: u32,
    pub fps: u32,
    pub duration_ns: u64,
    pub video_frames: u64,
    pub audio_packets: u64,
}

/// Length of a take of `frames` frames at `fps`.
pub open spec fn take_duration(frames: nat, fps: nat) -> nat {
    frames * 1_000_000_000 / fps
}

/// Length of a take of `frames` frames at `fps`, in nanoseconds.
pub fn take_duration_ns(frames: u64, fps: u32) -> (r: u64)
    requires
        fps > 0,
        frames * 1_000_000_000 <= u64::MAX,
    ensures
        r == take_duration(frames as nat, fps as nat),
{
    frames * 1_000_000_000 / (fps as u64)
}

/// The files a finished take wrote, package-relative, and what its streams
/// counted.
pub struct TakeMedia {
    pub video: String,
    pub audio: Option<String>,
    pub events: Option<String>,
    pub width: u32,
    pub height: u32,
    pub video_frames: u64,
    pub audio_packets: u64,
}

/// The take a recording adds to `project`, numbered after the takes already
/// there.
pub open spec fn recorded_take(project: Project, media: TakeMedia, fps: nat) -> Take {
    Take {
        id: project.takes@.len() as u32,
        video: media.video,
        audio: media.audio,
        events: media.events,
        width: media.width,
        height: media.height,
        fps: fps as u32,
        duration_ns: take_duration(media.video_frames as nat, fps) as u64,
    }
}

/// Append a finished take to the project and summarize it. A timeline that
/// is still empty gets one clip playing the whole take at normal speed, so a
/// first recording opens ready to edit; later takes leave the timeline as
/// the user arranged it.
pub fn add_take(project: &mut Project, media: TakeMedia, fps: u32) -> (r: TakeSummary)
    requires
        old(project).takes@.len() < u32::MAX,
        fps > 0,
        media.video_frames * 1_000_000_000 <= u64::MAX,
    ensures
        final(project).takes@ == old(project).takes@.push(recorded_take(*old(project), media, fps as nat)),
        old(project).timeline.clips@.len() == 0 ==> final(project).timeline.clips@ == seq![
            Clip {
                take: old(project).takes@.len() as u32,
                src_in_ns: 0,
                src_out_ns: take_duration(media.video_frames as nat, fps as nat) as u64,
                speed_millionths: 1_000_000,
            },
        ],
        old(project).timeline.clips@.len() > 0 ==> final(project).timeline.clips@ == old(
            project,
        ).timeline.clips@,
        final(project).timeline.zoom@ == old(project).timeline.zoom@,
        final(project).timeline.music@ == old(project).timeline.music@,
        final(project).name@ == old(project).name@,
        final(project).system_audio_gain_millionths == old(project).system_audio_gain_millionths,
        r == (TakeSummary {
            take_id: old(project).takes@.len() as u32,
            width: media.width,
            height: media.height,
            fps,
            duration_ns: take_duration(media.video_frames as nat, fps as nat) as u64,
            video_frames: media.video_frames,
            audio_packets: media.audio_packets,
        }),
{
    let take_id = project.takes.len() as u32;
    let duration_ns = take_duration_ns(media.video_frames, fps);
    let summary = TakeSummary {
        take_id,
        width: media.width,
        height: media.height,
        fps,
        duration_ns,
        video_frames: media.video_frames,
        audio_packets: media.audio_packets,
    };
    project.takes.push(
        Take {
            id: take_id,
            video: media.video,
            audio: media.audio,
            events: media.events,
            width: media.width,
            height: media.height,
            fps,
            duration_ns,
        },
    );
    if project.timeline.clips.len() == 0 {
        project.timeline.clips.push(
            Clip { take: take_id, src_in_ns: 0, src_out_ns: duration_ns, speed_millionths: 1_000_000 },
        );
    }
    summary
}

// ---------------------------------------------------------------------
// The capture loop.
// ---------------------------------------------------------------------
/// Why a recording failed.
#[derive(Debug, Clone, PartialEq, Eq)]
pub enum CaptureError {
    /// The capture session failed.
    Pinray(String),
    /// An encoder failed.
    Codec(String),
    /// The package could not be read or written.
    Package(String),
    /// A stream the recorder cannot take.
    Unsupported(String),
    /// The capture thread panicked.
    ThreadPanic,
}

/// How a recording failure reads.
pub open spec fn capture_error_text(e: CaptureError) -> Seq<char> {
    match e {
        CaptureError::Pinray(m) => "capture: "@ + m@,
        CaptureError::Codec(m) => m@,
        CaptureError::Package(m) => m@,
        CaptureError::Unsupported(m) => "unsupported stream: "@ + m@,
        CaptureError::ThreadPanic => "capture thread panicked"@,
    }
}

impl CaptureError {
    /// How the failure reads.
    pub fn message(&self) -> (r: String)
        ensures
            r@ == capture_error_text(*self),
    {
        match self {
            CaptureError::Pinray(m) => {
                let mut r = String::from_str("capture: ");
                r.append(m.as_str());
                r
            },
            CaptureError::Codec(m) => m.clone(),
            CaptureError::Package(m) => m.clone(),
            CaptureError::Unsupported(m) => {
                let mut r = String::from_str("unsupported stream: ");
                r.append(m.as_str());
                r
            },
            CaptureError::ThreadPanic => String::from_str("capture thread panicked"),
        }
    }
}

/// What one wait on the capture session brought.
#[derive(Debug, Clone, PartialEq, Eq)]
pub enum SessionEvent {
    /// A video frame.
    Video,
    /// An audio packet.
    Audio,
    /// The backend dropped frames; video slots refill from the last frame
    /// and audio with silence on the next packet.
    Gap,
    /// The backend ended the session.
    End,
    /// Nothing arrived within the wait.
    Timeout,
    /// The session failed, with its message.
    Failed(String),
}

/// What the capture loop does next.
#[derive(Debug, Clone, PartialEq, Eq)]
pub enum CaptureStep {
    /// Pace and encode the video frame, then wait again.
    PushVideo,
    /// Encode the audio packet, then wait again.
    PushAudio,
    /// Wait again.
    Wait,
    /// Leave the loop and finish the take.
    Stop,
    /// Leave the loop; the recording failed.
    Fail(CaptureError),
}

/// The capture loop's decision on one event: frames and packets are
/// encoded, gaps and timeouts waited through, the end of the session ends
/// the take, and any other session error fails it.
pub fn capture_step(event: SessionEvent) -> (r: CaptureStep)
    ensures
        match event {
            SessionEvent::Video => r == CaptureStep::PushVideo,
            SessionEvent::Audio => r == CaptureStep::PushAudio,
            SessionEvent::Gap => r == CaptureStep::Wait,
            SessionEvent::Timeout => r == CaptureStep::Wait,
            SessionEvent::End => r == CaptureStep::Stop,
            SessionEvent::Failed(m) => r == CaptureStep::Fail(CaptureError::Pinray(m)),
        },
{
    match event {
        SessionEvent::Video => CaptureStep::PushVideo,
        SessionEvent::Audio => CaptureStep::PushAudio,
        SessionEvent::Gap => CaptureStep::Wait,
        SessionEvent::Timeout => CaptureStep::Wait,
        SessionEvent::End => CaptureStep::Stop,
        SessionEvent::Failed(m) => CaptureStep::Fail(CaptureError::Pinray(m)),
    }
}

/// The message for a take whose session never delivered a video frame.
pub open spec fn no_video_message() -> Seq<char> {
    "no video frames captured"@
}

// ---------------------------------------------------------------------
// Video pacing.
// ---------------------------------------------------------------------
/// The slot nearest to a frame `elapsed_ns` after the first one (halves
/// round up).
pub open spec fn nearest_slot(elapsed_ns: nat, fps: nat) -> nat {
    (elapsed_ns * fps + 500_000_000) / 1_000_000_000
}

/// What to do with one captured frame.
#[derive(Debug, Clone, Copy, PartialEq, Eq, Structural)]
pub enum Placement {
    /// Its slot was already written: keep its pixels for later repeats only.
    Refresh,
    /// Write `repeats` copies of the previous frame into the missed slots,
    /// then the frame itself.
    Emit { repeats: u64 },
}

/// CFR pacing state of one video stream.
pub struct VideoPacer {
    fps: u32,
    started: bool,
    width: u32,
    height: u32,
    start_ns: i64,
    next_slot: u64,
    frames: u64,
}

/// The message for a stream whose resolution changed mid-take.
pub open spec fn resolution_message(w0: nat, h0: nat, w1: nat, h1: nat) -> Seq<char> {
    "resolution changed mid-take: "@ + decimal(w0) + "x"@ + decimal(h0) + " -> "@ + decimal(w1)
        + "x"@ + decimal(h1)
}

impl VideoPacer {
    pub closed spec fn fps(&self) -> nat {
        self.fps as nat
    }

    /// Whether the first frame has arrived (it fixes size and time origin).
    pub closed spec fn started(&self) -> bool {
        self.started
    }

    pub closed spec fn size(&self) -> (u32, u32) {
        (self.width, self.height)
    }

    /// Stream time of the first frame.
    pub closed spec fn origin(&self) -> int {
        self.start_ns as int
    }

    /// The next slot not yet written.
    pub closed spec fn next_slot(&self) -> nat {
        self.next_slot as nat
    }

    /// Frames written so far.
    pub closed spec fn frames(&self) -> nat {
        self.frames as nat
    }

    /// Every slot before the next one was written exactly once.
    pub closed spec fn wf(&self) -> bool {
        &&& self.frames == self.next_slot
        &&& self.fps > 0
        &&& !self.started ==> self.next_slot == 0
    }

    pub fn new(fps: u32) -> (r: Self)
        requires
            fps > 0,
        ensures
            r.wf(),
            r.fps() == fps,
            !r.started(),
            r.frames() == 0,
            r.next_slot() == 0,
    {
        VideoPacer { fps, started: false, width: 0, height: 0, start_ns: 0, next_slot: 0, frames: 0 }
    }

    /// Frames written so far.
    pub fn frame_count(&self) -> (r: u64)
        ensures
            r == self.frames(),
    {
        self.frames
    }

    /// Width and height fixed by the first frame.
    pub fn frame_size(&self) -> (r: (u32, u32))
        ensures
            r == self.size(),
    {
        (self.width, self.height)
    }

    /// The video stream's summary once the session is over: its size and
    /// frame count, or a failure when no frame ever arrived (there is no
    /// video file to finish).
    pub fn finish(&self) -> (r: Result<(u32, u32, u64), CaptureError>)
        ensures
            !self.started() ==> (r matches Err(CaptureError::Unsupported(m)) && m@
                == no_video_message()),
            self.started() ==> r == Ok::<(u32, u32, u64), CaptureError>(
                (self.size().0, self.size().1, self.frames() as u64),
            ),
    {
        if !self.started {
            return Err(CaptureError::Unsupported(String::from_str("no video frames captured")));
        }
        Ok((self.width, self.height, self.frames))
    }

    /// Place one captured frame of `width` by `height` taken at
    /// `stream_time_ns`. The first frame fixes the size and time origin; a
    /// later frame of another size is refused.
    #[verifier::spinoff_prover]
    pub fn place(&mut self, width: u32, height: u32, stream_time_ns: i64) -> (r: Result<
        Placement,
        String,
    >)
        requires
            old(self).wf(),
            nearest_slot(
                (stream_time_ns - if old(self).started() {
                    old(self).origin()
                } else {
                    stream_time_ns as int
                }) as nat,
                old(self).fps(),
            ) < u64::MAX,
        ensures
            final(self).wf(),
            final(self).fps() == old(self).fps(),
            final(self).frames() == final(self).next_slot(),
            old(self).started() && old(self).size() != (width, height) ==> {
                &&& r matches Err(m) && m@ == resolution_message(
                    old(self).size().0 as nat,
                    old(self).size().1 as nat,
                    width as nat,
                    height as nat,
                )
                &&& final(self).frames() == old(self).frames()
                &&& final(self).next_slot() == old(self).next_slot()
            },
            !old(self).started() ==> final(self).started() && final(self).size() == (width, height)
                && final(self).origin() == stream_time_ns && r == Ok::<Placement, String>(
                Placement::Emit { repeats: 0 },
            ) && final(self).next_slot() == 1,
            old(self).started() && old(self).size() == (width, height) ==> ({
                let elapsed = if stream_time_ns >= old(self).origin() {
                    (stream_time_ns - old(self).origin()) as nat
                } else {
                    0nat
                };
                let slot = nearest_slot(elapsed, old(self).fps());
                &&& final(self).started()
                &&& final(self).size() == old(self).size()
                &&& final(self).origin() == old(self).origin()
                &&& slot < old(self).next_slot() ==> r == Ok::<Placement, String>(
                    Placement::Refresh,
                ) && final(self).next_slot() == old(self).next_slot()
                &&& slot >= old(self).next_slot() ==> r == Ok::<Placement, String>(
                    Placement::Emit { repeats: (slot - old(self).next_slot()) as u64 },
                ) && final(self).next_slot() == slot + 1
            }),
    {
        if !self.started {
            self.started = true;
            self.width = width;
            self.height = height;
            self.start_ns = stream_time_ns;
            self.next_slot = 1;
            self.frames = 1;
            return Ok(Placement::Emit { repeats: 0 });
        }
        if width != self.width || height != self.height {
            let mut message = String::new();
            message.append("resolution changed mid-take: ");
            push_decimal(&mut message, self.width as u64);
            message.append("x");
            push_decimal(&mut message, self.height as u64);
            message.append(" -> ");
            push_decimal(&mut message, width as u64);
            message.append("x");
            push_decimal(&mut message, height as u64);
            assert(message@ =~= resolution_message(
                self.width as nat,
                self.height as nat,
                width as nat,
                height as nat,
            ));
            return Err(message);
        }
        let elapsed: u128 = if stream_time_ns >= self.start_ns {
            ((stream_time_ns as i128) - (self.start_ns as i128)) as u128
        } else {
            0
        };
        assert(elapsed * (self.fps as u128) <= 0x1_0000_0000_0000_0000 * 0x1_0000_0000) by (
        nonlinear_arith)
            requires
                elapsed < 0x1_0000_0000_0000_0000,
                self.fps < 0x1_0000_0000,
        ;
        let slot128: u128 = (elapsed * (self.fps as u128) + 500_000_000) / 1_000_000_000;
        let slot = slot128 as u64;
        if slot < self.next_slot {
            // Faster than fps: the caller keeps the newest pixels for
            // future duplicates.
            return Ok(Placement::Refresh);
        }
        let repeats = slot - self.next_slot;
        self.frames = slot + 1;
        self.next_slot = slot + 1;
        Ok(Placement::Emit { repeats })
    }
}

/// A placement writes each slot once: in a well-formed pacer the frames
/// written equal the next unwritten slot, so an emitted frame with its
/// repeats adds exactly the slots it fills to the frame count, and a refresh
/// adds none.
pub proof fn law_each_slot_written_once(before: VideoPacer, after: VideoPacer, placed: Placement)
    requires
        before.wf(),
        after.wf(),
        before.started(),
        placed matches Placement::Emit { repeats } ==> after.next_slot() == before.next_slot()
            + repeats + 1,
        placed is Refresh ==> after.next_slot() == before.next_slot(),
    ensures
        after.frames() == after.next_slot(),
        placed matches Placement::Emit { repeats } ==> after.frames() == before.frames() + repeats
            + 1,
        placed is Refresh ==> after.frames() == before.frames(),
{
}

// ---------------------------------------------------------------------
// Audio silence insertion.
// ---------------------------------------------------------------------
/// Jitter allowed between one packet's end and the next packet's start.
pub const AUDIO_GAP_TOLERANCE_NS: i64 = 20_000_000;

/// Audio clock of one stream: where the next packet should start.
pub struct AudioClock {
    sample_rate: u32,
    channels: u16,
    expected_ns: Option<i64>,
    packets: u64,
}

/// Bytes per second of interleaved f32 samples.
pub open spec fn bytes_per_second(sample_rate: nat, channels: nat) -> nat {
    sample_rate * channels * 4
}

/// Zero bytes to insert for a hole of `gap_ns`: the hole's length in bytes,
/// cut down to whole sample frames.
pub open spec fn silence_len(gap_ns: nat, sample_rate: nat, channels: nat) -> nat {
    let raw = gap_ns * bytes_per_second(sample_rate, channels) / 1_000_000_000;
    (raw - raw % (channels * 4)) as nat
}

impl AudioClock {
    pub closed spec fn format(&self) -> (u32, u16) {
        (self.sample_rate, self.channels)
    }

    /// Stream time at which the next packet is expected, once one arrived.
    pub closed spec fn expected(&self) -> Option<i64> {
        self.expected_ns
    }

    pub closed spec fn packets(&self) -> nat {
        self.packets as nat
    }

    pub fn new(sample_rate: u32, channels: u16) -> (r: Self)
        requires
            sample_rate > 0,
            channels > 0,
        ensures
            r.format() == (sample_rate, channels),
            r.expected() is None,
            r.packets() == 0,
    {
        AudioClock { sample_rate, channels, expected_ns: None, packets: 0 }
    }

    /// Packets taken so far.
    pub fn packet_count(&self) -> (r: u64)
        ensures
            r == self.packets(),
    {
        self.packets
    }

    /// Zero bytes to write before a packet starting at `stream_time_ns`.
    pub fn silence_before(&self, stream_time_ns: i64) -> (r: usize)
        requires
            self.format().0 > 0,
            self.format().1 > 0,
            self.expected() is Some ==> silence_len(
                (stream_time_ns - self.expected()->0) as nat,
                self.format().0 as nat,
                self.format().1 as nat,
            ) <= usize::MAX,
        ensures
            self.expected() is Some && stream_time_ns - self.expected()->0 > AUDIO_GAP_TOLERANCE_NS
                ==> r == silence_len(
                (stream_time_ns - self.expected()->0) as nat,
                self.format().0 as nat,
                self.format().1 as nat,
            ),
            !(self.expected() is Some && stream_time_ns - self.expected()->0
                > AUDIO_GAP_TOLERANCE_NS) ==> r == 0,
            r as nat % (self.format().1 as nat * 4) == 0,
    {
        match self.expected_ns {
            Some(expected) => {
                let gap: i128 = (stream_time_ns as i128) - (expected as i128);
                if gap > AUDIO_GAP_TOLERANCE_NS as i128 {
                    let gap_ns = gap as u128;
                    let rate = self.sample_rate as u128;
                    let channels = self.channels as u128;
                    assert(rate * channels <= 0x1_0000_0000 * 0x1_0000) by (nonlinear_arith)
                        requires
                            rate < 0x1_0000_0000,
                            channels < 0x1_0000,
                    ;
                    let bps: u128 = rate * channels * 4;
                    assert(gap_ns * bps <= 0x1_0000_0000_0000_0000 * (0x1_0000_0000 * 0x1_0000
                        * 4)) by (nonlinear_arith)
                        requires
                            gap_ns < 0x1_0000_0000_0000_0000,
                            bps <= 0x1_0000_0000 * 0x1_0000 * 4,
                    ;
                    let raw = gap_ns * bps / 1_000_000_000;
                    let frame = (self.channels as u128) * 4;
                    assert(raw % frame <= raw) by (nonlinear_arith)
                        requires
                            frame > 0,
                    ;
                    let bytes = raw - raw % frame;
                    assert(bytes as nat % frame as nat == 0) by (nonlinear_arith)
                        requires
                            bytes == raw - raw % frame,
                            frame > 0,
                    ;
                    bytes as usize
                } else {
                    0
                }
            },
            None => 0,
        }
    }

    /// Take a packet of `len` bytes starting at `stream_time_ns`: the next
    /// one is expected where this one's whole samples end.
    pub fn advance(&mut self, stream_time_ns: i64, len: usize)
        requires
            old(self).format().0 > 0,
            old(self).format().1 > 0,
            old(self).packets() < u64::MAX,
            stream_time_ns + (len as nat / (old(self).format().1 as nat * 4)) * 1_000_000_000
                / old(self).format().0 as nat <= i64::MAX,
        ensures
            final(self).format() == old(self).format(),
            final(self).packets() == old(self).packets() + 1,
            final(self).expected() == Some(
                (stream_time_ns + (len as nat / (old(self).format().1 as nat * 4)) * 1_000_000_000
                    / old(self).format().0 as nat) as i64,
            ),
    {
        self.packets = self.packets + 1;
        let samples = (len as u128) / ((self.channels as u128) * 4);
        assert(samples * 1_000_000_000 <= 0x1_0000_0000_0000_0000 * 1_000_000_000) by (
        nonlinear_arith)
            requires
                samples <= len,
                len < 0x1_0000_0000_0000_0000,
        ;
        let duration = samples * 1_000_000_000 / (self.sample_rate as u128);
        self.expected_ns = Some(((stream_time_ns as i128) + (duration as i128)) as i64);
    }
}

/// Silence always covers whole sample frames, and never more than the hole.
pub proof fn law_silence_is_whole_frames(gap_ns: nat, sample_rate: nat, channels: nat)
    requires
        channels > 0,
    ensures
        silence_len(gap_ns, sample_rate, channels) % (channels * 4) == 0,
        silence_len(gap_ns, sample_rate, channels) * 1_000_000_000 <= gap_ns * bytes_per_second(
            sample_rate,
            channels,
        ),
{
    let raw = gap_ns * bytes_per_second(sample_rate, channels) / 1_000_000_000;
    let f = channels * 4;
    assert(((raw - raw % f) as nat) % f == 0) by (nonlinear_arith)
        requires
            f > 0,
    ;
    assert(raw * 1_000_000_000 <= gap_ns * bytes_per_second(sample_rate, channels)) by (
    nonlinear_arith)
        requires
            raw == gap_ns * bytes_per_second(sample_rate, channels) / 1_000_000_000,
    ;
    assert(raw % f >= 0 && raw % f <= raw) by (nonlinear_arith)
        requires
            f > 0,
    ;
}

// ---------------------------------------------------------------------
// Planar to interleaved samples.
// ---------------------------------------------------------------------
/// Byte `i` of the interleaved stream: sample `i / (4 * channels)`, channel
/// `(i / 4) % channels`, byte `i % 4` of that sample.
pub open spec fn interleaved_byte(planes: Seq<Seq<u8>>, i: int) -> u8 {
    let ch = planes.len() as int;
    planes[(i / 4) % ch][(i / (4 * ch)) * 4 + i % 4]
}

/// Interleave planar f32 sample bytes: whole 4-byte samples of the first
/// plane's length, one from each plane in turn.
#[verifier::spinoff_prover]
pub fn interleave_f32(planes: &Vec<Vec<u8>>) -> (out: Vec<u8>)
    requires
        forall|p: int|
            0 <= p < planes@.len() ==> #[trigger] planes@[p]@.len() >= planes@[0]@.len(),
        planes@.len() > 0 ==> planes@[0]@.len() * planes@.len() <= usize::MAX,
    ensures
        planes@.len() == 0 ==> out@.len() == 0,
        planes@.len() > 0 ==> out@.len() == (planes@[0]@.len() / 4) * 4 * planes@.len(),
        forall|i: int|
            0 <= i < out@.len() ==> #[trigger] out@[i] == interleaved_byte(
                planes@.map_values(|p: Vec<u8>| p@),
                i,
            ),
{
    let channels = planes.len();
    let plane_len = if channels > 0 {
        planes[0].len()
    } else {
        0
    };
    let ghost views = planes@.map_values(|p: Vec<u8>| p@);
    let mut out: Vec<u8> = Vec::new();
    let mut offset: usize = 0;
    while plane_len - offset >= 4
        invariant
            channels == planes@.len(),
            views == planes@.map_values(|p: Vec<u8>| p@),
            channels > 0 ==> plane_len == planes@[0]@.len(),
            channels == 0 ==> plane_len == 0,
            forall|p: int| 0 <= p < channels ==> #[trigger] planes@[p]@.len() >= plane_len,
            channels > 0 ==> plane_len * channels <= usize::MAX,
            offset % 4 == 0,
            offset <= plane_len,
            out@.len() == offset * channels,
            forall|i: int| 0 <= i < out@.len() ==> #[trigger] out@[i] == interleaved_byte(views, i),
        decreases plane_len - offset,
    {
        assert((offset + 4) * channels <= plane_len * channels) by (nonlinear_arith)
            requires
                offset + 4 <= plane_len,
        ;
        let mut c: usize = 0;
        while c < channels
            invariant
                channels == planes@.len(),
                views == planes@.map_values(|p: Vec<u8>| p@),
                forall|p: int| 0 <= p < channels ==> #[trigger] planes@[p]@.len() >= plane_len,
                offset + 4 <= plane_len,
                offset % 4 == 0,
                (offset + 4) * channels <= plane_len * channels,
                channels > 0 ==> plane_len * channels <= usize::MAX,
                c <= channels,
                out@.len() == offset * channels + 4 * c,
                forall|i: int| 0 <= i < out@.len() ==> #[trigger] out@[i] == interleaved_byte(views, i),
            decreases channels - c,
        {
            let plane = &planes[c];
            assert(planes@[c as int]@.len() >= plane_len);
            let mut b: usize = 0;
            while b < 4
                invariant
                    channels == planes@.len(),
                    views == planes@.map_values(|p: Vec<u8>| p@),
                    plane@ == planes@[c as int]@,
                    plane@.len() >= offset + 4,
                    offset % 4 == 0,
                    c < channels,
                    (offset + 4) * channels <= plane_len * channels,
                    channels > 0 ==> plane_len * channels <= usize::MAX,
                    b <= 4,
                    out@.len() == offset * channels + 4 * c + b,
                    forall|i: int|
                        0 <= i < out@.len() ==> #[trigger] out@[i] == interleaved_byte(views, i),
                decreases 4 - b,
            {
                let ghost i = out@.len() as int;
                proof {
                    let ch = channels as int;
                    let k = offset as int / 4;
                    assert(i == (k * ch + c) * 4 + b) by (nonlinear_arith)
                        requires
                            i == offset * ch + 4 * c + b,
                            offset == 4 * k,
                    ;
                    assert(i / 4 == k * ch + c && i % 4 == b) by (nonlinear_arith)
                        requires
                            i == (k * ch + c) * 4 + b,
                            0 <= b < 4,
                            0 <= c,
                            0 <= k,
                    ;
                    assert((i / 4) % ch == c && (i / (4 * ch)) == k) by (nonlinear_arith)
                        requires
                            i / 4 == k * ch + c,
                            i == (k * ch + c) * 4 + b,
                            0 <= b < 4,
                            0 <= c < ch,
                            0 <= k,
                    ;
                    assert(views[c as int] == plane@);
                    assert(i < (offset + 4) * ch) by (nonlinear_arith)
                        requires
                            i == offset * ch + 4 * c + b,
                            c < ch,
                            b < 4,
                    ;
                }
                out.push(plane[offset + b]);
                b = b + 1;
            }
            c = c + 1;
        }
        assert(out@.len() == (offset + 4) * channels) by (nonlinear_arith)
            requires
                out@.len() == offset * channels + 4 * channels,
        ;
        offset = offset + 4;
    }
    proof {
        if channels > 0 {
            assert(offset == (plane_len / 4) * 4);
        }
    }
    out
}

/// A frame lands in the slot nearest to its time: slot `n` is the instant
/// `n / fps` after the first frame, and the frame's time lies within half a
/// slot of it (halves going to the later slot).
pub proof fn law_frame_lands_in_the_nearest_slot(elapsed_ns: nat, fps: nat)
    ensures
        nearest_slot(elapsed_ns, fps) * 1_000_000_000 <= elapsed_ns * fps + 500_000_000,
        elapsed_ns * fps < nearest_slot(elapsed_ns, fps) * 1_000_000_000 + 500_000_000,
{
    let x = elapsed_ns * fps + 500_000_000;
    let q = x / 1_000_000_000;
    assert(q * 1_000_000_000 <= x && x < q * 1_000_000_000 + 1_000_000_000) by (nonlinear_arith)
        requires
            q == x / 1_000_000_000,
            x >= 0,
    ;
}

} // verus!
