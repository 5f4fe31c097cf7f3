//! Waveform peaks per music file for the music lane, filled as the peaks
//! worker reports back. A file without an entry is still decoding; an entry
//! without peaks records a decode that failed. The worker also measures
//! each file's duration, which fills in a track's length while it is still
//! unknown.
use std::sync::mpsc::Receiver;
use vstd::prelude::*;

use crate::music::{
    awaiting_length, backfill_duration, filled_or_kept, lemma_track_index,
    lemma_track_index_same_files, only_lengths_filled, track_index,
};
use crate::peaks::AudioPeaks;
use crate::project::MusicTrack;

verus! {

/// One file's entry: its package-relative path and what its decode gave.
struct Shelved {
    file: String,
    peaks: Option<AudioPeaks>,
}

spec fn files_distinct(entries: Seq<Shelved>) -> bool {
    forall|i: int, j: int|
        0 <= i < entries.len() && 0 <= j < entries.len() && i != j ==> entries[i].file@
            != entries[j].file@
}

spec fn has_file(entries: Seq<Shelved>, file: Seq<char>) -> bool {
    exists|i: int| 0 <= i < entries.len() && entries[i].file@ == file
}

spec fn shelf_of(entries: Seq<Shelved>) -> Map<Seq<char>, Option<AudioPeaks>> {
    Map::new(
        |f: Seq<char>| has_file(entries, f),
        |f: Seq<char>|
            entries[choose|i: int| 0 <= i < entries.len() && entries[i].file@ == f].peaks,
    )
}

proof fn lemma_shelf_at(entries: Seq<Shelved>, i: int)
    requires
        files_distinct(entries),
        0 <= i < entries.len(),
    ensures
        shelf_of(entries).contains_key(entries[i].file@),
        shelf_of(entries)[entries[i].file@] == entries[i].peaks,
{
    let f = entries[i].file@;
    assert(has_file(entries, f));
    let j = choose|j: int| 0 <= j < entries.len() && entries[j].file@ == f;
    assert(j == i);
}

proof fn lemma_shelf_update(entries: Seq<Shelved>, i: int, e: Shelved)
    requires
        files_distinct(entries),
        0 <= i < entries.len(),
        e.file@ == entries[i].file@,
    ensures
        files_distinct(entries.update(i, e)),
        shelf_of(entries.update(i, e)) == shelf_of(entries).insert(e.file@, e.peaks),
{
    let after = entries.update(i, e);
    assert(files_distinct(after));
    assert forall|f: Seq<char>| #[trigger] has_file(after, f) == has_file(entries, f) by {
        if has_file(entries, f) {
            let j = choose|j: int| 0 <= j < entries.len() && entries[j].file@ == f;
            assert(after[j].file@ == f);
        }
        if has_file(after, f) {
            let j = choose|j: int| 0 <= j < after.len() && after[j].file@ == f;
            assert(entries[j].file@ == f);
        }
    }
    assert forall|f: Seq<char>| #[trigger] has_file(after, f) implies shelf_of(after)[f]
        == shelf_of(entries).insert(e.file@, e.peaks)[f] by {
        let j = choose|j: int| 0 <= j < after.len() && after[j].file@ == f;
        lemma_shelf_at(after, j);
        lemma_shelf_at(entries, j);
    }
    assert(shelf_of(after) =~= shelf_of(entries).insert(e.file@, e.peaks));
}

proof fn lemma_shelf_push(entries: Seq<Shelved>, e: Shelved)
    requires
        files_distinct(entries),
        !has_file(entries, e.file@),
    ensures
        files_distinct(entries.push(e)),
        shelf_of(entries.push(e)) == shelf_of(entries).insert(e.file@, e.peaks),
{
    let after = entries.push(e);
    assert(files_distinct(after)) by {
        assert forall|i: int, j: int|
            0 <= i < after.len() && 0 <= j < after.len() && i != j implies after[i].file@
                != after[j].file@ by {
            if i == entries.len() {
                assert(entries[j].file@ != e.file@);
            } else if j == entries.len() {
                assert(entries[i].file@ != e.file@);
            }
        }
    }
    assert forall|f: Seq<char>| #[trigger] has_file(after, f) == (has_file(entries, f) || f
        == e.file@) by {
        if has_file(entries, f) {
            let j = choose|j: int| 0 <= j < entries.len() && entries[j].file@ == f;
            assert(after[j].file@ == f);
        }
        if f == e.file@ {
            assert(after[entries.len() as int].file@ == f);
        }
        if has_file(after, f) && f != e.file@ {
            let j = choose|j: int| 0 <= j < after.len() && after[j].file@ == f;
            assert(j < entries.len());
            assert(entries[j].file@ == f);
        }
    }
    assert forall|f: Seq<char>| #[trigger] has_file(after, f) implies shelf_of(after)[f]
        == shelf_of(entries).insert(e.file@, e.peaks)[f] by {
        let j = choose|j: int| 0 <= j < after.len() && after[j].file@ == f;
        lemma_shelf_at(after, j);
        if j < entries.len() {
            lemma_shelf_at(entries, j);
        }
    }
    assert(shelf_of(after) =~= shelf_of(entries).insert(e.file@, e.peaks));
}

/// `Receiver::try_recv` on the peaks worker's results: a queued result, or
/// none when the queue is empty or the worker is gone. What comes back
/// depends on the worker thread, so nothing is stated of it.
#[verifier::external_body]
fn try_result(rx: &Receiver<(String, Option<AudioPeaks>)>) -> Option<(String, Option<AudioPeaks>)> {
    match rx.try_recv() {
        Ok(result) => Some(result),
        Err(_) => None,
    }
}

/// The peaks the worker has reported, per package-relative music file.
pub struct Waveforms {
    pub rx: Receiver<(String, Option<AudioPeaks>)>,
    entries: Vec<Shelved>,
}

impl Waveforms {
    /// What the worker reported for each file so far.
    pub closed spec fn view(&self) -> Map<Seq<char>, Option<AudioPeaks>> {
        shelf_of(self.entries@)
    }

    pub closed spec fn wf(&self) -> bool {
        files_distinct(self.entries@)
    }

    /// The channel results arrive over.
    pub closed spec fn source(&self) -> Receiver<(String, Option<AudioPeaks>)> {
        self.rx
    }

    /// Nothing reported yet; results arrive over `rx`.
    pub fn new(rx: Receiver<(String, Option<AudioPeaks>)>) -> (r: Self)
        ensures
            r.wf(),
            r@ == Map::<Seq<char>, Option<AudioPeaks>>::empty(),
            r.source() == rx,
    {
        let r = Waveforms { rx, entries: Vec::new() };
        assert(r@ =~= Map::<Seq<char>, Option<AudioPeaks>>::empty());
        r
    }

    fn position(&self, file: &String) -> (r: Option<usize>)
        requires
            self.wf(),
        ensures
            r matches Some(i) ==> i < self.entries@.len() && self.entries@[i as int].file@ == file@,
            r is None ==> !has_file(self.entries@, file@),
    {
        let mut i: usize = 0;
        while i < self.entries.len()
            invariant
                i <= self.entries@.len(),
                forall|j: int| 0 <= j < i ==> self.entries@[j].file@ != file@,
            decreases self.entries.len() - i,
        {
            if self.entries[i].file == *file {
                return Some(i);
            }
            i = i + 1;
        }
        None
    }

    /// Record what the worker reported for `file`, replacing an earlier
    /// report.
    pub fn record(&mut self, file: String, peaks: Option<AudioPeaks>)
        requires
            old(self).wf(),
        ensures
            final(self).wf(),
            final(self)@ == old(self)@.insert(file@, peaks),
            final(self).source() == old(self).source(),
    {
        let ghost before = self.entries@;
        match self.position(&file) {
            Some(i) => {
                let e = Shelved { file, peaks };
                proof {
                    lemma_shelf_update(before, i as int, e);
                }
                self.entries.set(i, e);
            },
            None => {
                let e = Shelved { file, peaks };
                proof {
                    lemma_shelf_push(before, e);
                }
                self.entries.push(e);
            },
        }
    }

    /// The peaks of `file`, once its decode succeeded.
    pub fn get(&self, file: &String) -> (r: Option<&AudioPeaks>)
        requires
            self.wf(),
        ensures
            r is Some <==> (self@.contains_key(file@) && self@[file@] is Some),
            r matches Some(p) ==> self@[file@] == Some(*p),
    {
        match self.position(file) {
            Some(i) => {
                proof {
                    lemma_shelf_at(self.entries@, i as int);
                }
                match &self.entries[i].peaks {
                    Some(p) => Some(p),
                    None => None,
                }
            },
            None => None,
        }
    }

    /// Take in everything the worker has reported. A measured duration
    /// fills in the length of the first track playing that file while its
    /// length is still unknown; returns whether it filled in any, that is
    /// whether the project changed.
    pub fn poll(&mut self, music: &mut Vec<MusicTrack>) -> (dirty: bool)
        requires
            old(self).wf(),
        ensures
            final(self).wf(),
            final(self).source() == old(self).source(),
            final(music)@.len() == old(music)@.len(),
            only_lengths_filled(old(music)@, final(music)@),
            dirty ==> exists|i: int|
                0 <= i < old(music)@.len() && #[trigger] awaiting_length(old(music)@, i),
            !dirty ==> final(music)@ == old(music)@,
            forall|f: Seq<char>| #[trigger]
                old(self)@.contains_key(f) ==> final(self)@.contains_key(f),
    {
        let mut dirty = false;
        // One result per file the worker was asked for, so the bound on the
        // rounds is never what ends the drain.
        let mut rounds: u64 = 0;
        while rounds < u64::MAX
            invariant
                self.wf(),
                self.rx == old(self).rx,
                music@.len() == old(music)@.len(),
                only_lengths_filled(old(music)@, music@),
                dirty ==> exists|i: int|
                    0 <= i < old(music)@.len() && #[trigger] awaiting_length(old(music)@, i),
                !dirty ==> music@ == old(music)@,
                forall|f: Seq<char>| #[trigger]
                    old(self)@.contains_key(f) ==> self@.contains_key(f),
            decreases u64::MAX - rounds,
        {
            let (file, result) = match try_result(&self.rx) {
                Some(got) => got,
                None => {
                    return dirty;
                },
            };
            if let Some(peaks) = &result {
                let ghost mid = music@;
                let filled = backfill_duration(music, &file, peaks.duration_ns);
                proof {
                    let before = old(music)@;
                    assert forall|j: int| 0 <= j < before.len() implies #[trigger] before[j].file@
                        == mid[j].file@ by {
                        assert(filled_or_kept(before, mid[j], j));
                    }
                    lemma_track_index_same_files(before, mid, file@);
                    if filled {
                        let i = track_index(mid, file@)->0;
                        lemma_track_index(mid, file@);
                        assert(filled_or_kept(before, mid[i], i));
                        assert(awaiting_length(before, i));
                        assert forall|j: int| 0 <= j < before.len() implies #[trigger] filled_or_kept(
                            before,
                            music@[j],
                            j,
                        ) by {
                            assert(filled_or_kept(before, mid[j], j));
                        }
                    }
                }
                if filled {
                    dirty = true;
                }
            }
            self.record(file, result);
            rounds = rounds + 1;
        }
        dirty
    }
}

} // verus!
