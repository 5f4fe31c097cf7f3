//! The project model the editor and the export read: takes, the timeline's
//! clips, zoom segments and music tracks. Ratios and gains are held in
//! integer units (millionths, hundredths) rather than as floats.
use vstd::prelude::*;

use crate::text::{padded, push_padded};

verus! {

/// One clip on the timeline: a source range of a take, played at a speed
/// held in millionths (`1_000_000` is normal speed).
#[derive(Debug, Clone, Copy, PartialEq, Eq, Structural)]
pub struct Clip {
    pub take: u32,
    pub src_in_ns: u64,
    pub src_out_ns: u64,
    pub speed_millionths: u64,
}

/// One recorded take: its media files (package-relative) and video format.
#[derive(Debug, Clone)]
pub struct Take {
    pub id: u32,
    pub video: String,
    pub audio: Option<String>,
    pub events: Option<String>,
    pub width: u32,
    pub height: u32,
    pub fps: u32,
    pub duration_ns: u64,
}

/// One imported music track placed on the timeline. `duration_ns` is zero
/// while the media length is still unknown.
#[derive(Debug, Clone)]
pub struct MusicTrack {
    pub file: String,
    pub offset_ns: u64,
    pub gain_millionths: u64,
    pub fade_in_ns: u64,
    pub fade_out_ns: u64,
    pub duration_ns: u64,
}

#[derive(Debug, Clone, Copy, PartialEq, Eq, Structural)]
pub enum Easing {
    Linear,
    Smooth,
    Snap,
}

/// One zoom keyframe segment on the timeline. The zoom level is held in
/// hundredths (`180` zooms 1.8x) and the anchor in halves of the frame on
/// each axis (`1` is the centre).
#[derive(Debug, Clone, Copy, PartialEq, Eq, Structural)]
pub struct ZoomSegment {
    pub in_ns: u64,
    pub out_ns: u64,
    pub level_hundredths: u32,
    pub anchor_x_halves: u8,
    pub anchor_y_halves: u8,
    pub follow_cursor: bool,
    pub easing: Easing,
}

pub struct Timeline {
    pub clips: Vec<Clip>,
    pub zoom: Vec<ZoomSegment>,
    pub music: Vec<MusicTrack>,
}

pub struct Project {
    pub name: String,
    pub takes: Vec<Take>,
    pub timeline: Timeline,
    /// Gain of the take's system audio, in millionths.
    pub system_audio_gain_millionths: u64,
}

/// The index of the first take with `id`, if any.
pub open spec fn take_index(takes: Seq<Take>, id: u32) -> Option<int>
    decreases takes.len(),
{
    if takes.len() == 0 {
        None
    } else {
        match take_index(takes.drop_last(), id) {
            Some(i) => Some(i),
            None => if takes.last().id == id {
                Some(takes.len() - 1)
            } else {
                None
            },
        }
    }
}

pub proof fn lemma_take_index(takes: Seq<Take>, id: u32)
    ensures
        take_index(takes, id) matches Some(i) ==> 0 <= i < takes.len() && takes[i].id == id
            && forall|j: int| 0 <= j < i ==> takes[j].id != id,
        take_index(takes, id) is None ==> forall|j: int| 0 <= j < takes.len() ==> takes[j].id != id,
    decreases takes.len(),
{
    if takes.len() > 0 {
        let front = takes.drop_last();
        lemma_take_index(front, id);
        assert forall|j: int| 0 <= j < front.len() implies front[j] == takes[j] by {}
    }
}

/// The take that export renders: the one the first clip plays, not the
/// first take in the package (a package can hold takes the timeline never
/// uses).
pub open spec fn primary_take_index(project: Project) -> Option<int> {
    if project.timeline.clips@.len() == 0 {
        None
    } else {
        take_index(project.takes@, project.timeline.clips@[0].take)
    }
}

impl Project {
    /// An empty project named `name`: no takes, an empty timeline, and the
    /// system audio at its recorded level.
    pub fn new(name: &str) -> (r: Project)
        ensures
            r.name@ == name@,
            r.takes@.len() == 0,
            r.timeline.clips@.len() == 0,
            r.timeline.zoom@.len() == 0,
            r.timeline.music@.len() == 0,
            r.system_audio_gain_millionths == 1_000_000,
    {
        Project {
            name: name.to_owned(),
            takes: Vec::new(),
            timeline: Timeline { clips: Vec::new(), zoom: Vec::new(), music: Vec::new() },
            system_audio_gain_millionths: 1_000_000,
        }
    }

    /// The take the timeline's first clip plays.
    pub fn primary_take(&self) -> (r: Option<&Take>)
        ensures
            r is Some <==> primary_take_index(*self) is Some,
            r matches Some(t) ==> *t == self.takes@[primary_take_index(*self)->0],
    {
        if self.timeline.clips.len() == 0 {
            return None;
        }
        let id = self.timeline.clips[0].take;
        let mut i: usize = 0;
        proof {
            lemma_take_index(self.takes@, id);
        }
        while i < self.takes.len()
            invariant
                i <= self.takes@.len(),
                forall|j: int| 0 <= j < i ==> self.takes@[j].id != id,
                self.timeline.clips@.len() > 0,
                id == self.timeline.clips@[0].take,
            decreases self.takes.len() - i,
        {
            if self.takes[i].id == id {
                proof {
                    lemma_take_index(self.takes@, id);
                    assert(primary_take_index(*self) == take_index(self.takes@, id));
                    if let Some(k) = take_index(self.takes@, id) {
                        assert(k == i);
                    }
                }
                return Some(&self.takes[i]);
            }
            i = i + 1;
        }
        proof {
            lemma_take_index(self.takes@, id);
        }
        None
    }
}

/// `Untitled-NNN.rec`: the name of the `n`-th untitled package.
pub open spec fn untitled_name(n: nat) -> Seq<char> {
    "Untitled-"@ + padded(n, 3) + ".rec"@
}

/// The file name a new recording's package gets when `n` is the first free
/// number.
pub fn untitled_package_name(n: u32) -> (r: String)
    ensures
        r@ == untitled_name(n as nat),
{
    let mut s = String::new();
    s.append("Untitled-");
    push_padded(&mut s, n as u64, 3);
    s.append(".rec");
    assert(s@ =~= untitled_name(n as nat));
    s
}

} // verus!
