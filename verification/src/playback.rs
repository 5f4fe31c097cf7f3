//! Preview playback decisions: the playhead, the decoder's seek protocol and
//! the frame pacing. The caller owns the decode thread, the frame cache,
//! audio output and the texture, performs what these decisions ask for, and
//! hands back what happened.
//!
//! Every decoder seek carries a generation number; decoded frames echo it
//! back so frames from a superseded position are discarded. A paused scrub
//! keeps at most one seek in flight: a newer one waits until the first
//! lands, and only the newest waiting one is issued.
use vstd::prelude::*;

use std::path::PathBuf;

use crate::cache::FrameKey;
use crate::media::VideoFrame;

verus! {

/// The frame of a take at `src_ns`: the nearest one at `fps` (halves round
/// up).
pub open spec fn frame_at(src_ns: nat, fps: nat) -> nat {
    (src_ns * fps + 500_000_000) / 1_000_000_000
}

/// `frame_at`, held at the largest index a `u64` holds.
pub open spec fn frame_index_of(src_ns: nat, fps: nat) -> nat {
    if frame_at(src_ns, fps) <= u64::MAX {
        frame_at(src_ns, fps)
    } else {
        u64::MAX as nat
    }
}

/// Index of the frame shown at source time `src_ns`.
pub fn frame_index(src_ns: u64, fps: u32) -> (r: u64)
    ensures
        r == frame_index_of(src_ns as nat, fps as nat),
{
    let src = src_ns as u128;
    let rate = fps as u128;
    assert(src * rate <= 0xffff_ffff_ffff_ffff * 0xffff_ffff) by (nonlinear_arith)
        requires
            src <= 0xffff_ffff_ffff_ffff,
            rate <= 0xffff_ffff,
    ;
    let index = (src * rate + 500_000_000) / 1_000_000_000;
    if index > u64::MAX as u128 {
        u64::MAX
    } else {
        index as u64
    }
}

/// Half a frame at `fps`, the tolerance for "this frame is due".
pub open spec fn half_frame(fps: nat) -> nat {
    500_000_000nat / fps
}

/// Whether the decoder, about to emit `pos` of take `pos_take`, is already
/// within half a frame of where playback needs it.
pub fn decoder_near(decoder_pos: Option<(u32, u64)>, take: u32, src_ns: u64, fps: u32) -> (r: bool)
    requires
        fps > 0,
    ensures
        r == (decoder_pos matches Some(p) && p.0 == take && (if p.1 >= src_ns {
            p.1 - src_ns
        } else {
            src_ns - p.1
        }) <= half_frame(fps as nat)),
{
    match decoder_pos {
        Some(p) => {
            let diff = if p.1 >= src_ns {
                p.1 - src_ns
            } else {
                src_ns - p.1
            };
            p.0 == take && diff <= 500_000_000 / (fps as u64)
        },
        None => false,
    }
}

/// The latest presentation time still shown for source time `src_ns`.
pub fn present_deadline(src_ns: u64, fps: u32) -> (r: u64)
    requires
        fps > 0,
        src_ns + half_frame(fps as nat) <= u64::MAX,
    ensures
        r == src_ns + half_frame(fps as nat),
{
    src_ns + 500_000_000 / (fps as u64)
}

/// How many queued frames, in presentation order, are due by `deadline`:
/// all of them are dropped and the last one is shown.
pub fn due_count(queued_pts: &Vec<u64>, deadline: u64) -> (r: usize)
    ensures
        r <= queued_pts@.len(),
        forall|i: int| 0 <= i < r ==> #[trigger] queued_pts@[i] <= deadline,
        r < queued_pts@.len() ==> queued_pts@[r as int] > deadline,
{
    let mut n: usize = 0;
    while n < queued_pts.len() && queued_pts[n] <= deadline
        invariant
            n <= queued_pts@.len(),
            forall|i: int| 0 <= i < n ==> #[trigger] queued_pts@[i] <= deadline,
        decreases queued_pts.len() - n,
    {
        n = n + 1;
    }
    n
}

/// Where the playhead goes once a trim drag stops: a trim may have
/// shortened the timeline under it, and a playhead past the new end seeks to
/// the end; otherwise it stays.
pub fn trim_reseek(playhead_ns: u64, duration_ns: u64) -> (r: Option<u64>)
    ensures
        r == if playhead_ns > duration_ns {
            Some(duration_ns)
        } else {
            None::<u64>
        },
{
    if playhead_ns > duration_ns {
        Some(duration_ns)
    } else {
        None
    }
}

/// The playhead while the audio drives it: the audio source position plus
/// the timeline offset of that source, never before zero.
pub fn audio_clock(offset_ns: i64, pos_ns: u64) -> (r: u64)
    requires
        offset_ns + pos_ns <= i64::MAX,
    ensures
        r == if offset_ns + pos_ns >= 0 {
            (offset_ns + pos_ns) as nat
        } else {
            0nat
        },
{
    let t = (offset_ns as i128) + (pos_ns as i128);
    if t < 0 {
        0
    } else {
        t as u64
    }
}

/// The timeline offset of an audio source positioned at `src_ns` while the
/// playhead is at `playhead_ns` (speed 1.0 clips).
pub fn audio_offset(playhead_ns: u64, src_ns: u64) -> (r: i64)
    requires
        playhead_ns <= i64::MAX,
        src_ns <= i64::MAX,
    ensures
        r == playhead_ns - src_ns,
{
    (playhead_ns as i64) - (src_ns as i64)
}

/// What a paused seek asks of the caller.
/// A seek request to the decode thread. Every seek carries a generation;
/// frames echo it back so output from a superseded position is discarded.
pub struct SeekCmd {
    pub generation: u64,
    pub path: PathBuf,
    pub start_ns: u64,
}

/// What the decode thread sends back for a generation: a frame, or `None`
/// once the generation produced nothing more (the open or seek failed, the
/// decode errored, or the stream ended). That report is what ends the wait
/// for a seek, so every generation gets one.
pub struct DecodedFrame {
    pub generation: u64,
    pub frame: Option<VideoFrame>,
}

#[derive(Debug, Clone, Copy, PartialEq, Eq, Structural)]
pub enum PausedSeek {
    /// Upload the cached frame; the decoder stream no longer matches.
    ShowCached,
    /// A seek is in flight; this position waits until it lands.
    Deferred,
    /// Seek the decoder to the playhead.
    SeekDecoder,
}

/// What the decode channel delivered.
#[derive(Debug, Clone, Copy, PartialEq, Eq, Structural)]
pub enum Delivery {
    /// From a superseded position: discard it.
    Stale,
    /// The generation finished without another frame; seek to `reseek`
    /// when a position was waiting.
    Ended { reseek: Option<u64> },
    /// A frame of the current generation: cache it under `key` (when the
    /// decoder's take is known), and show it at once when it is the first
    /// after a seek.
    Frame { key: Option<FrameKey>, first_after_seek: bool },
}

/// The playback state of a preview session.
pub struct PlaybackState {
    pub generation: u64,
    /// A decoder seek was issued and its first frame has not arrived yet.
    pub awaiting_seek: bool,
    /// Seek requested while one was in flight; issued once the first lands.
    pub deferred_seek_ns: Option<u64>,
    /// (take, source ns) the decoder will emit next; `None` = needs a seek.
    pub decoder_pos: Option<(u32, u64)>,
    pub playing: bool,
    pub playhead_ns: u64,
    pub current_clip: Option<usize>,
}

impl PlaybackState {
    pub fn new() -> (r: Self)
        ensures
            r.generation == 0,
            !r.awaiting_seek,
            r.deferred_seek_ns is None,
            r.decoder_pos is None,
            !r.playing,
            r.playhead_ns == 0,
            r.current_clip is None,
    {
        PlaybackState {
            generation: 0,
            awaiting_seek: false,
            deferred_seek_ns: None,
            decoder_pos: None,
            playing: false,
            playhead_ns: 0,
            current_clip: None,
        }
    }

    /// Move the playhead to `t_ns`, held within the timeline. Returns the
    /// time to resolve: the exact end resolves inside the last frame.
    pub fn move_playhead(&mut self, t_ns: u64, duration_ns: u64) -> (target: u64)
        ensures
            final(self).playhead_ns == if t_ns < duration_ns {
                t_ns
            } else {
                duration_ns
            },
            target == if final(self).playhead_ns < duration_ns {
                final(self).playhead_ns as int
            } else if duration_ns > 0 {
                duration_ns - 1
            } else {
                0
            },
            final(self).generation == old(self).generation,
            final(self).awaiting_seek == old(self).awaiting_seek,
            final(self).deferred_seek_ns == old(self).deferred_seek_ns,
            final(self).decoder_pos == old(self).decoder_pos,
            final(self).playing == old(self).playing,
            final(self).current_clip == old(self).current_clip,
    {
        self.playhead_ns = if t_ns < duration_ns {
            t_ns
        } else {
            duration_ns
        };
        let last = duration_ns.saturating_sub(1);
        if self.playhead_ns < last {
            self.playhead_ns
        } else {
            last
        }
    }

    /// Issue a decoder seek to `src_ns` of `take`: a new generation, the
    /// position it starts from, and nothing shown until its first frame.
    /// Returns the generation to tag the command with.
    pub fn start_seek(&mut self, take: u32, src_ns: u64) -> (generation: u64)
        requires
            old(self).generation < u64::MAX,
        ensures
            generation == old(self).generation + 1,
            final(self).generation == generation,
            final(self).awaiting_seek,
            final(self).decoder_pos == Some((take, src_ns)),
            final(self).deferred_seek_ns == old(self).deferred_seek_ns,
            final(self).playing == old(self).playing,
            final(self).playhead_ns == old(self).playhead_ns,
            final(self).current_clip == old(self).current_clip,
    {
        self.generation = self.generation + 1;
        self.awaiting_seek = true;
        self.decoder_pos = Some((take, src_ns));
        self.generation
    }

    /// A seek while paused. A cached frame is shown at once (and retargets
    /// any seek still in flight, so its frame cannot land after this one);
    /// otherwise the decoder seeks, unless a seek is already in flight, in
    /// which case this position waits for it.
    pub fn paused_seek(&mut self, cache_hit: bool) -> (r: PausedSeek)
        ensures
            cache_hit ==> r == PausedSeek::ShowCached && final(self).decoder_pos is None,
            !cache_hit ==> final(self).decoder_pos == old(self).decoder_pos,
            !cache_hit && old(self).awaiting_seek ==> r == PausedSeek::Deferred,
            !cache_hit && !old(self).awaiting_seek ==> r == PausedSeek::SeekDecoder,
            old(self).awaiting_seek ==> final(self).deferred_seek_ns == Some(old(self).playhead_ns),
            !old(self).awaiting_seek ==> final(self).deferred_seek_ns == old(self).deferred_seek_ns,
            final(self).generation == old(self).generation,
            final(self).awaiting_seek == old(self).awaiting_seek,
            final(self).playing == old(self).playing,
            final(self).playhead_ns == old(self).playhead_ns,
            final(self).current_clip == old(self).current_clip,
    {
        if cache_hit {
            self.decoder_pos = None;
            if self.awaiting_seek {
                self.deferred_seek_ns = Some(self.playhead_ns);
            }
            return PausedSeek::ShowCached;
        }
        if self.awaiting_seek {
            self.deferred_seek_ns = Some(self.playhead_ns);
            PausedSeek::Deferred
        } else {
            PausedSeek::SeekDecoder
        }
    }

    /// Whether the decode channel should be drained at all: only while
    /// playing or waiting on a seek, since a parked channel is what pauses
    /// the decoder.
    pub fn drains(&self) -> (r: bool)
        ensures
            r == (self.playing || self.awaiting_seek),
    {
        self.playing || self.awaiting_seek
    }

    /// Take one delivery of `generation` from the decode channel: a frame
    /// presented at `pts_ns`, or `None` when that generation produced
    /// nothing more. `fps` is the frame rate of the decoder's take.
    pub fn deliver(&mut self, generation: u64, pts_ns: Option<u64>, fps: u32) -> (r: Delivery)
        requires
            fps > 0,
            pts_ns matches Some(p) ==> p + 1_000_000_000nat / (fps as nat) <= u64::MAX,
        ensures
            generation != old(self).generation ==> r == Delivery::Stale && *final(self) == *old(self),
            generation == old(self).generation && pts_ns is None ==> r == (Delivery::Ended {
                reseek: old(self).deferred_seek_ns,
            }) && !final(self).awaiting_seek && final(self).deferred_seek_ns is None
                && final(self).decoder_pos == old(self).decoder_pos,
            generation == old(self).generation && pts_ns is Some ==> {
                let p = pts_ns->0;
                &&& r == (Delivery::Frame {
                    key: match old(self).decoder_pos {
                        Some(pos) => Some(
                            FrameKey { take: pos.0, frame: frame_index_of(p as nat, fps as nat) as u64 },
                        ),
                        None => None,
                    },
                    first_after_seek: old(self).awaiting_seek,
                })
                &&& !final(self).awaiting_seek
                &&& final(self).decoder_pos == match old(self).decoder_pos {
                    Some(pos) => Some((pos.0, (p + 1_000_000_000nat / (fps as nat)) as u64)),
                    None => None,
                }
                &&& final(self).deferred_seek_ns == old(self).deferred_seek_ns
            },
            final(self).generation == old(self).generation,
            final(self).playing == old(self).playing,
            final(self).playhead_ns == old(self).playhead_ns,
            final(self).current_clip == old(self).current_clip,
    {
        if generation != self.generation {
            return Delivery::Stale;
        }
        match pts_ns {
            None => {
                // This generation is finished and produced nothing further.
                // Clearing the flag is what keeps a later scrub able to issue
                // a fresh seek instead of deferring forever.
                self.awaiting_seek = false;
                let reseek = self.deferred_seek_ns;
                self.deferred_seek_ns = None;
                Delivery::Ended { reseek }
            },
            Some(pts) => {
                let key = match self.decoder_pos {
                    Some(pos) => {
                        let key = FrameKey { take: pos.0, frame: frame_index(pts, fps) };
                        self.decoder_pos = Some((pos.0, pts + 1_000_000_000 / (fps as u64)));
                        Some(key)
                    },
                    None => None,
                };
                let first = self.awaiting_seek;
                self.awaiting_seek = false;
                Delivery::Frame { key, first_after_seek: first }
            },
        }
    }

    /// After taking a frame: whether to keep pulling. Stop once satisfied
    /// (paused) or far enough ahead; leaving the channel full is what parks
    /// the decoder.
    pub fn keep_draining(&self, queued: usize) -> (r: bool)
        ensures
            r == (self.awaiting_seek || (self.playing && queued < 8)),
    {
        self.awaiting_seek || (self.playing && queued < 8)
    }

    /// The waiting seek, if any, now that the one in flight has landed.
    pub fn take_deferred(&mut self) -> (r: Option<u64>)
        ensures
            r == old(self).deferred_seek_ns,
            final(self).deferred_seek_ns is None,
            final(self).generation == old(self).generation,
            final(self).awaiting_seek == old(self).awaiting_seek,
            final(self).decoder_pos == old(self).decoder_pos,
            final(self).playing == old(self).playing,
            final(self).playhead_ns == old(self).playhead_ns,
            final(self).current_clip == old(self).current_clip,
    {
        let r = self.deferred_seek_ns;
        self.deferred_seek_ns = None;
        r
    }

    /// Whether playback may start on a timeline of `duration_ns`: not when
    /// it is empty or already playing. A playhead at the end rewinds to the
    /// start.
    pub fn prepare_play(&mut self, duration_ns: u64) -> (r: bool)
        ensures
            r == (duration_ns > 0 && !old(self).playing),
            r && old(self).playhead_ns >= duration_ns ==> final(self).playhead_ns == 0,
            !(r && old(self).playhead_ns >= duration_ns) ==> final(self).playhead_ns == old(
                self,
            ).playhead_ns,
            final(self).playing == old(self).playing,
            final(self).generation == old(self).generation,
            final(self).awaiting_seek == old(self).awaiting_seek,
            final(self).deferred_seek_ns == old(self).deferred_seek_ns,
            final(self).decoder_pos == old(self).decoder_pos,
            final(self).current_clip == old(self).current_clip,
    {
        if duration_ns == 0 || self.playing {
            return false;
        }
        if self.playhead_ns >= duration_ns {
            self.playhead_ns = 0;
        }
        true
    }

    /// Advance the playhead to the clock while playing. Returns true when
    /// the end was reached, where playback pauses.
    pub fn advance(&mut self, clock_ns: u64, duration_ns: u64) -> (ended: bool)
        ensures
            final(self).playhead_ns == if clock_ns < duration_ns {
                clock_ns
            } else {
                duration_ns
            },
            ended == (clock_ns >= duration_ns),
            ended ==> !final(self).playing,
            !ended ==> final(self).playing == old(self).playing,
            final(self).generation == old(self).generation,
            final(self).awaiting_seek == old(self).awaiting_seek,
            final(self).deferred_seek_ns == old(self).deferred_seek_ns,
            final(self).decoder_pos == old(self).decoder_pos,
            final(self).current_clip == old(self).current_clip,
    {
        if clock_ns < duration_ns {
            self.playhead_ns = clock_ns;
            false
        } else {
            self.playhead_ns = duration_ns;
            self.playing = false;
            true
        }
    }

    /// Whether playback just crossed into `clip`, which repositions the
    /// decoder and the audio.
    pub fn crossed_into(&self, clip: usize) -> (r: bool)
        ensures
            r == (self.playing && self.current_clip != Some(clip)),
    {
        match self.current_clip {
            Some(c) => self.playing && c != clip,
            None => self.playing,
        }
    }
}

} // verus!
