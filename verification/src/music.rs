//! Music tracks: which picked files are imported, the track an import adds,
//! the media length the waveform pass measures, and the per-track state of
//! the preview player that keeps each track's audio in step with the
//! playhead.
use vstd::prelude::*;
use vstd::string::StrSliceExecFns;

use crate::project::MusicTrack;

verus! {

/// Extensions offered by the import dialog, in lower case.
pub open spec fn audio_exts() -> Seq<Seq<char>> {
    seq![
        seq!['m', 'p', '3'],
        seq!['m', '4', 'a'],
        seq!['a', 'a', 'c'],
        seq!['w', 'a', 'v'],
        seq!['f', 'l', 'a', 'c'],
        seq!['o', 'g', 'g'],
    ]
}

/// `c` lowercases to `t` in ASCII.
pub open spec fn lowers_to(c: char, t: char) -> bool {
    c == t || ('A' <= c <= 'Z' && c as u32 + 32 == t as u32)
}

/// `ext` spells `name` up to the case of its ASCII letters.
pub open spec fn spells(ext: Seq<char>, name: Seq<char>) -> bool {
    ext.len() == name.len() && forall|i: int| 0 <= i < ext.len() ==> lowers_to(ext[i], name[i])
}

/// `ext` names an audio file: one of the import extensions in any case.
pub open spec fn is_audio_ext_spec(ext: Seq<char>) -> bool {
    exists|k: int| 0 <= k < audio_exts().len() && spells(ext, #[trigger] audio_exts()[k])
}

fn spells_name(ext: &str, name: &Vec<char>) -> (r: bool)
    ensures
        r == spells(ext@, name@),
{
    let n = ext.unicode_len();
    if n != name.len() {
        return false;
    }
    let mut i: usize = 0;
    while i < n
        invariant
            n == ext@.len(),
            n == name@.len(),
            i <= n,
            forall|j: int| 0 <= j < i ==> lowers_to(#[trigger] ext@[j], name@[j]),
        decreases n - i,
    {
        let c = ext.get_char(i);
        let t = name[i];
        let code = c as u32;
        let ok = c == t || (65 <= code && code <= 90 && code + 32 == t as u32);
        if !ok {
            return false;
        }
        i = i + 1;
    }
    true
}

/// Whether a picked file's extension is one of the audio formats: the
/// file dialog's "All files" option can let anything through.
pub fn is_audio_ext(ext: &str) -> (r: bool)
    ensures
        r == is_audio_ext_spec(ext@),
{
    let names: Vec<Vec<char>> = vec![
        vec!['m', 'p', '3'],
        vec!['m', '4', 'a'],
        vec!['a', 'a', 'c'],
        vec!['w', 'a', 'v'],
        vec!['f', 'l', 'a', 'c'],
        vec!['o', 'g', 'g'],
    ];
    assert(names@.len() == audio_exts().len());
    assert forall|k: int| 0 <= k < names@.len() implies #[trigger] names@[k]@ == audio_exts()[k] by {
        assert(names@[0]@ =~= audio_exts()[0]);
        assert(names@[1]@ =~= audio_exts()[1]);
        assert(names@[2]@ =~= audio_exts()[2]);
        assert(names@[3]@ =~= audio_exts()[3]);
        assert(names@[4]@ =~= audio_exts()[4]);
        assert(names@[5]@ =~= audio_exts()[5]);
    }
    let mut k: usize = 0;
    while k < names.len()
        invariant
            k <= names@.len(),
            names@.len() == audio_exts().len(),
            forall|m: int| 0 <= m < names@.len() ==> #[trigger] names@[m]@ == audio_exts()[m],
            forall|m: int| 0 <= m < k ==> !spells(ext@, #[trigger] audio_exts()[m]),
        decreases names.len() - k,
    {
        if spells_name(ext, &names[k]) {
            return true;
        }
        k = k + 1;
    }
    false
}

/// The track an import adds: at the timeline start, at half gain, with a
/// half-second fade-in and a one-second fade-out, its length unknown until
/// the waveform pass measures it.
pub open spec fn imported(file: Seq<char>, track: MusicTrack) -> bool {
    &&& track.file@ == file
    &&& track.offset_ns == 0
    &&& track.gain_millionths == 500_000
    &&& track.fade_in_ns == 500_000_000
    &&& track.fade_out_ns == 1_000_000_000
    &&& track.duration_ns == 0
}

/// A new music track for the package-relative `file`.
pub fn imported_track(file: String) -> (r: MusicTrack)
    ensures
        imported(file@, r),
{
    MusicTrack {
        file,
        offset_ns: 0,
        gain_millionths: 500_000,
        fade_in_ns: 500_000_000,
        fade_out_ns: 1_000_000_000,
        duration_ns: 0,
    }
}

/// The index of the first track playing `file`.
pub open spec fn track_index(music: Seq<MusicTrack>, file: Seq<char>) -> Option<int>
    decreases music.len(),
{
    if music.len() == 0 {
        None
    } else {
        match track_index(music.drop_last(), file) {
            Some(i) => Some(i),
            None => if music.last().file@ == file {
                Some(music.len() - 1)
            } else {
                None
            },
        }
    }
}

pub(crate) proof fn lemma_track_index(music: Seq<MusicTrack>, file: Seq<char>)
    ensures
        track_index(music, file) matches Some(i) ==> 0 <= i < music.len() && music[i].file@ == file
            && forall|j: int| 0 <= j < i ==> music[j].file@ != file,
        track_index(music, file) is None ==> forall|j: int|
            0 <= j < music.len() ==> music[j].file@ != file,
    decreases music.len(),
{
    if music.len() > 0 {
        let front = music.drop_last();
        lemma_track_index(front, file);
        assert forall|j: int| 0 <= j < front.len() implies front[j] == music[j] by {}
    }
}

/// Tracks at the same places playing the same files are found at the same
/// index.
pub(crate) proof fn lemma_track_index_same_files(a: Seq<MusicTrack>, b: Seq<MusicTrack>, file: Seq<char>)
    requires
        a.len() == b.len(),
        forall|i: int| 0 <= i < a.len() ==> #[trigger] a[i].file@ == b[i].file@,
    ensures
        track_index(a, file) == track_index(b, file),
    decreases a.len(),
{
    if a.len() > 0 {
        lemma_track_index_same_files(a.drop_last(), b.drop_last(), file);
    }
}

/// Track `i` still waits for its length: it is unknown, and `i` is the
/// first track playing its file.
pub open spec fn awaiting_length(music: Seq<MusicTrack>, i: int) -> bool {
    music[i].duration_ns == 0 && track_index(music, music[i].file@) == Some(i)
}

/// `track` is track `i` of `before`, its length filled in only if that
/// track was waiting for it.
pub open spec fn filled_or_kept(before: Seq<MusicTrack>, track: MusicTrack, i: int) -> bool {
    &&& track.file@ == before[i].file@
    &&& track.offset_ns == before[i].offset_ns
    &&& track.gain_millionths == before[i].gain_millionths
    &&& track.fade_in_ns == before[i].fade_in_ns
    &&& track.fade_out_ns == before[i].fade_out_ns
    &&& track.duration_ns != before[i].duration_ns ==> awaiting_length(before, i)
}

/// `after` is `before` with at most the lengths of waiting tracks filled in.
pub open spec fn only_lengths_filled(before: Seq<MusicTrack>, after: Seq<MusicTrack>) -> bool {
    &&& after.len() == before.len()
    &&& forall|i: int| 0 <= i < before.len() ==> #[trigger] filled_or_kept(before, after[i], i)
}

/// Fill in the measured length of the track playing `file`, unless it is
/// already known. Returns whether the project changed.
pub fn backfill_duration(music: &mut Vec<MusicTrack>, file: &String, duration_ns: u64) -> (changed:
    bool)
    ensures
        final(music)@.len() == old(music)@.len(),
        changed == (track_index(old(music)@, file@) matches Some(i) && old(
            music,
        )@[i].duration_ns == 0),
        !changed ==> final(music)@ == old(music)@,
        changed ==> ({
            let i = track_index(old(music)@, file@)->0;
            &&& final(music)@[i].duration_ns == duration_ns
            &&& final(music)@[i].file@ == old(music)@[i].file@
            &&& final(music)@[i].offset_ns == old(music)@[i].offset_ns
            &&& final(music)@[i].gain_millionths == old(music)@[i].gain_millionths
            &&& final(music)@[i].fade_in_ns == old(music)@[i].fade_in_ns
            &&& final(music)@[i].fade_out_ns == old(music)@[i].fade_out_ns
            &&& forall|j: int|
                0 <= j < final(music)@.len() && j != i ==> #[trigger] final(music)@[j] == old(
                    music,
                )@[j]
        }),
{
    proof {
        lemma_track_index(music@, file@);
    }
    let mut i: usize = 0;
    while i < music.len()
        invariant
            music@ == old(music)@,
            i <= music@.len(),
            forall|j: int| 0 <= j < i ==> music@[j].file@ != file@,
        decreases music.len() - i,
    {
        if music[i].file == *file {
            proof {
                lemma_track_index(music@, file@);
                assert(music@[i as int].file@ == file@);
                assert(track_index(music@, file@) == Some(i as int));
            }
            if music[i].duration_ns != 0 {
                return false;
            }
            let track = &music[i];
            let measured = MusicTrack {
                file: track.file.clone(),
                offset_ns: track.offset_ns,
                gain_millionths: track.gain_millionths,
                fade_in_ns: track.fade_in_ns,
                fade_out_ns: track.fade_out_ns,
                duration_ns,
            };
            music.set(i, measured);
            return true;
        }
        i = i + 1;
    }
    false
}

/// Re-seek a track's player when it is this far from where the playhead says
/// it should be (seeks, offset drags, newly entered spans).
pub const RESYNC_NS: u64 = 250_000_000;

/// Consecutive seek failures tolerated before a track is treated as
/// undecodable.
pub const MAX_SEEK_FAILURES: u8 = 3;

/// What the preview player of one track does next.
#[derive(Debug, Clone, Copy, PartialEq, Eq, Structural)]
pub enum TrackStep {
    /// Nothing: the track failed for the session, or its source is over.
    Skip,
    /// Decode the file into a fresh player, then position it.
    Load,
    /// Position the loaded player.
    Position,
}

/// The preview player's bookkeeping for one track: whether a player is
/// loaded, whether the track gave up for the session, where its source last
/// ran dry, and the current run of failed seeks.
#[derive(Debug, Clone, Copy, PartialEq, Eq, Structural)]
pub struct TrackState {
    pub loaded: bool,
    pub failed: bool,
    /// Source position at which the player last ran dry: a playhead at or
    /// after it has nothing left to play, so the file is not decoded again.
    pub ended_ns: Option<u64>,
    pub seek_failures: u8,
}

/// One more failed seek: the player is dropped to retry from a fresh
/// decoder, and a run of `MAX_SEEK_FAILURES` gives up on the track.
pub open spec fn after_seek_failure(s: TrackState) -> TrackState {
    let failures = (s.seek_failures + 1) as u8;
    if failures >= MAX_SEEK_FAILURES {
        TrackState { failed: true, seek_failures: failures, ..s }
    } else {
        TrackState { loaded: false, seek_failures: failures, ..s }
    }
}

/// Whether a player at `pos_ns` has drifted from `src_ns` enough to seek.
pub fn needs_resync(pos_ns: u64, src_ns: u64) -> (r: bool)
    ensures
        r == (if pos_ns >= src_ns {
            pos_ns - src_ns
        } else {
            src_ns - pos_ns
        } > RESYNC_NS),
{
    let drift = if pos_ns >= src_ns {
        pos_ns - src_ns
    } else {
        src_ns - pos_ns
    };
    drift > RESYNC_NS
}

impl TrackState {
    /// A track not yet played: nothing loaded, nothing failed.
    pub fn new() -> (r: Self)
        ensures
            r == (TrackState { loaded: false, failed: false, ended_ns: None, seek_failures: 0 }),
    {
        TrackState { loaded: false, failed: false, ended_ns: None, seek_failures: 0 }
    }

    /// Start one tick of playing the track at source time `src_ns`.
    /// `ran_dry_at` is where the loaded player stopped if it has run out of
    /// source. A failed track stays silent; a player that ran dry is dropped
    /// and its end remembered, so a playhead still past that end does not
    /// decode the file again while one back before it does.
    pub fn begin(&mut self, ran_dry_at: Option<u64>, src_ns: u64) -> (step: TrackStep)
        ensures
            old(self).failed ==> step == TrackStep::Skip && *final(self) == *old(self),
            !old(self).failed ==> ({
                let dry = old(self).loaded && ran_dry_at is Some;
                let ended = if dry {
                    ran_dry_at
                } else {
                    old(self).ended_ns
                };
                let loaded = old(self).loaded && !dry;
                &&& final(self).failed == old(self).failed
                &&& final(self).seek_failures == old(self).seek_failures
                &&& final(self).loaded == loaded
                &&& (ended matches Some(end) && src_ns >= end) ==> step == TrackStep::Skip
                    && final(self).ended_ns == ended
                &&& !(ended matches Some(end) && src_ns >= end) ==> final(self).ended_ns is None
                    && step == if loaded {
                    TrackStep::Position
                } else {
                    TrackStep::Load
                }
            }),
    {
        if self.failed {
            return TrackStep::Skip;
        }
        if self.loaded {
            if let Some(pos) = ran_dry_at {
                self.ended_ns = Some(pos);
                self.loaded = false;
            }
        }
        if let Some(end) = self.ended_ns {
            if src_ns >= end {
                return TrackStep::Skip;
            }
        }
        self.ended_ns = None;
        if self.loaded {
            TrackStep::Position
        } else {
            TrackStep::Load
        }
    }

    /// The outcome of decoding the file into a player: a file that cannot be
    /// decoded is not retried for the session.
    pub fn load_done(&mut self, ok: bool)
        ensures
            ok ==> *final(self) == (TrackState { loaded: true, ..*old(self) }),
            !ok ==> *final(self) == (TrackState { failed: true, ..*old(self) }),
    {
        if ok {
            self.loaded = true;
        } else {
            self.failed = true;
        }
    }

    /// A seek of the loaded player failed.
    pub fn seek_failed(&mut self)
        requires
            old(self).seek_failures < MAX_SEEK_FAILURES,
        ensures
            *final(self) == after_seek_failure(*old(self)),
    {
        self.seek_failures = self.seek_failures + 1;
        if self.seek_failures >= MAX_SEEK_FAILURES {
            self.failed = true;
        } else {
            self.loaded = false;
        }
    }

    /// The player is in step and plays: the run of failed seeks is over.
    pub fn in_step(&mut self)
        ensures
            *final(self) == (TrackState { seek_failures: 0, ..*old(self) }),
    {
        self.seek_failures = 0;
    }
}

/// Starting from a clean run, seeks that keep failing give up exactly at the
/// `MAX_SEEK_FAILURES`-th failure, and not before.
pub proof fn law_gives_up_after_max_seek_failures(s: TrackState)
    requires
        !s.failed,
        s.seek_failures == 0,
    ensures
        !after_seek_failure(s).failed,
        !after_seek_failure(after_seek_failure(s)).failed,
        after_seek_failure(after_seek_failure(after_seek_failure(s))).failed,
{
}

} // verus!
