//! Turning a project into an export's audio plan: which slices of the
//! take's audio the timeline selects, and which music tracks are audible.
//!
//! A track's audible span follows the `min(offset + media, timeline end)`
//! rule, including its "media length unknown means span to the timeline
//! end" case, the same rule the music lane paints.
use vstd::prelude::*;

use crate::media::AudioClip;
use crate::project::{Clip, MusicTrack, Project, Take, Timeline, primary_take_index};

verus! {

/// The end of a track's audible span on the timeline: its media end when
/// known, capped at the timeline end.
pub open spec fn audible_end(track: MusicTrack, timeline_ns: nat) -> nat {
    if track.duration_ns > 0 && track.offset_ns + track.duration_ns < timeline_ns {
        (track.offset_ns + track.duration_ns) as nat
    } else {
        timeline_ns
    }
}

/// Length of a track's audible span, measured from its offset; zero for a
/// track placed at or past the timeline end.
pub open spec fn audible_len(track: MusicTrack, timeline_ns: nat) -> nat {
    if audible_end(track, timeline_ns) > track.offset_ns {
        (audible_end(track, timeline_ns) - track.offset_ns) as nat
    } else {
        0
    }
}

/// How long `track` is audible on a timeline of `timeline_ns`:
/// `min(offset + media, timeline end) - offset`, spanning to the timeline
/// end while the media length is unknown.
pub fn audible_span_ns(track: &MusicTrack, timeline_ns: u64) -> (r: u64)
    ensures
        r == audible_len(*track, timeline_ns as nat),
{
    let mut end = timeline_ns;
    if track.duration_ns > 0 {
        let media_end = track.offset_ns.saturating_add(track.duration_ns);
        if media_end < end {
            end = media_end;
        }
    }
    end.saturating_sub(track.offset_ns)
}

/// Audible span on the timeline: from the offset (held at the timeline end)
/// to the media end when known, or the timeline end.
pub fn span(music: &MusicTrack, timeline_ns: u64) -> (r: (u64, u64))
    ensures
        r.0 == if music.offset_ns < timeline_ns {
            music.offset_ns
        } else {
            timeline_ns
        },
        r.1 == if music.duration_ns > 0 && music.offset_ns + music.duration_ns < timeline_ns {
            (music.offset_ns + music.duration_ns) as nat
        } else {
            timeline_ns as nat
        },
{
    let mut end = timeline_ns;
    if music.duration_ns > 0 {
        let media_end = music.offset_ns.saturating_add(music.duration_ns);
        if media_end < end {
            end = media_end;
        }
    }
    (if music.offset_ns < timeline_ns {
        music.offset_ns
    } else {
        timeline_ns
    }, end)
}

/// One clip's slice of the take audio.
pub open spec fn audio_clip_of(clip: Clip) -> AudioClip {
    AudioClip {
        src_in_ns: clip.src_in_ns,
        src_out_ns: clip.src_out_ns,
        speed_millionths: clip.speed_millionths,
    }
}

/// The slices, in timeline order, of the clips that play take `take_id`.
pub open spec fn clips_of_take(clips: Seq<Clip>, take_id: u32) -> Seq<AudioClip>
    decreases clips.len(),
{
    if clips.len() == 0 {
        Seq::empty()
    } else if clips.last().take == take_id {
        clips_of_take(clips.drop_last(), take_id).push(audio_clip_of(clips.last()))
    } else {
        clips_of_take(clips.drop_last(), take_id)
    }
}

/// The slices of `take`'s audio that the timeline's clips select. Clips from
/// other takes are skipped: one export carries one system-audio input, so
/// slicing take A's audio with take B's trims would be worse than silence.
pub fn system_clips(timeline: &Timeline, take_id: u32) -> (r: Vec<AudioClip>)
    ensures
        r@ == clips_of_take(timeline.clips@, take_id),
{
    let mut out: Vec<AudioClip> = Vec::new();
    for i in 0..timeline.clips.len()
        invariant
            out@ == clips_of_take(timeline.clips@.take(i as int), take_id),
    {
        let clip = timeline.clips[i];
        assert(timeline.clips@.take(i + 1).drop_last() =~= timeline.clips@.take(i as int));
        if clip.take == take_id {
            out.push(
                AudioClip {
                    src_in_ns: clip.src_in_ns,
                    src_out_ns: clip.src_out_ns,
                    speed_millionths: clip.speed_millionths,
                },
            );
        }
    }
    assert(timeline.clips@.take(timeline.clips@.len() as int) =~= timeline.clips@);
    out
}

/// The take's system audio as the export will read it: the package-relative
/// file, the gain, and the clips that select from it.
pub struct SystemPlan {
    pub file: String,
    pub gain_millionths: u64,
    pub clips: Vec<AudioClip>,
}

/// One audible music track as the export will read it.
pub struct MusicPlan {
    pub file: String,
    pub gain_millionths: u64,
    pub offset_ns: u64,
    pub fade_in_ns: u64,
    pub fade_out_ns: u64,
    pub audible_ns: u64,
}

/// The music plan of a track, when it is audible at all and its file
/// resolves inside the package.
pub open spec fn music_plan_of(track: MusicTrack, resolves: bool, timeline_ns: nat) -> Option<
    (MusicTrack, nat),
> {
    if audible_len(track, timeline_ns) == 0 || !resolves {
        None
    } else {
        Some((track, audible_len(track, timeline_ns)))
    }
}

/// The audible tracks whose files resolve (`resolves[i]` for track `i`), in
/// timeline order, each with its audible length.
pub open spec fn audible_tracks(tracks: Seq<MusicTrack>, resolves: Seq<bool>, timeline_ns: nat) -> Seq<
    (MusicTrack, nat),
>
    decreases tracks.len(),
{
    if tracks.len() == 0 {
        Seq::empty()
    } else {
        match music_plan_of(tracks.last(), resolves[tracks.len() - 1], timeline_ns) {
            Some(p) => audible_tracks(tracks.drop_last(), resolves, timeline_ns).push(p),
            None => audible_tracks(tracks.drop_last(), resolves, timeline_ns),
        }
    }
}

/// A music plan says what its track says, with the audible length added.
pub open spec fn music_plan_matches(plan: MusicPlan, track: MusicTrack, audible: nat) -> bool {
    &&& plan.file@ == track.file@
    &&& plan.gain_millionths == track.gain_millionths
    &&& plan.offset_ns == track.offset_ns
    &&& plan.fade_in_ns == track.fade_in_ns
    &&& plan.fade_out_ns == track.fade_out_ns
    &&& plan.audible_ns == audible
}

/// The system audio an export plays: the primary take's audio file, when it
/// has one, the file resolves inside the package, and the timeline selects
/// at least one clip of that take.
pub open spec fn system_plan_ok(project: Project, audio_resolves: bool, plan: Option<SystemPlan>) -> bool {
    match primary_take_index(project) {
        None => plan is None,
        Some(i) => {
            let take = project.takes@[i];
            match take.audio {
                None => plan is None,
                Some(audio) => {
                    let clips = clips_of_take(project.timeline.clips@, take.id);
                    if !audio_resolves || clips.len() == 0 {
                        plan is None
                    } else {
                        plan matches Some(p) && p.file@ == audio@ && p.gain_millionths
                            == project.system_audio_gain_millionths && p.clips@ == clips
                    }
                },
            }
        },
    }
}

/// Resolve every audio input for the export. Tracks that fall past the
/// timeline end are dropped: they contribute nothing the preview played.
/// Whether each file resolves inside the package is the caller's to find
/// out: `audio_resolves` for the rendered take's audio, `music_resolves[i]`
/// for music track `i`; a file that does not resolve is left out.
#[verifier::spinoff_prover]
pub fn audio_sources(
    project: &Project,
    duration_ns: u64,
    audio_resolves: bool,
    music_resolves: &Vec<bool>,
) -> (r: (Option<SystemPlan>, Vec<MusicPlan>))
    requires
        music_resolves@.len() == project.timeline.music@.len(),
    ensures
        system_plan_ok(*project, audio_resolves, r.0),
        r.1@.len() == audible_tracks(project.timeline.music@, music_resolves@, duration_ns as nat).len(),
        forall|i: int|
            0 <= i < r.1@.len() ==> music_plan_matches(
                #[trigger] r.1@[i],
                audible_tracks(project.timeline.music@, music_resolves@, duration_ns as nat)[i].0,
                audible_tracks(project.timeline.music@, music_resolves@, duration_ns as nat)[i].1,
            ),
{
    let system = match project.primary_take() {
        Some(take) => match &take.audio {
            Some(audio) => {
                let clips = system_clips(&project.timeline, take.id);
                if audio_resolves && clips.len() > 0 {
                    Some(
                        SystemPlan {
                            file: audio.clone(),
                            gain_millionths: project.system_audio_gain_millionths,
                            clips,
                        },
                    )
                } else {
                    None
                }
            },
            None => None,
        },
        None => None,
    };

    let music = &project.timeline.music;
    let mut plans: Vec<MusicPlan> = Vec::new();
    for i in 0..music.len()
        invariant
            music_resolves@.len() == music@.len(),
            plans@.len() == audible_tracks(music@.take(i as int), music_resolves@, duration_ns as nat).len(),
            forall|k: int|
                0 <= k < plans@.len() ==> music_plan_matches(
                    #[trigger] plans@[k],
                    audible_tracks(music@.take(i as int), music_resolves@, duration_ns as nat)[k].0,
                    audible_tracks(music@.take(i as int), music_resolves@, duration_ns as nat)[k].1,
                ),
    {
        let track = &music[i];
        assert(music@.take(i + 1).drop_last() =~= music@.take(i as int));
        assert(music@.take(i + 1).last() == music@[i as int]);
        let audible = audible_span_ns(track, duration_ns);
        if audible > 0 && music_resolves[i] {
            plans.push(
                MusicPlan {
                    file: track.file.clone(),
                    gain_millionths: track.gain_millionths,
                    offset_ns: track.offset_ns,
                    fade_in_ns: track.fade_in_ns,
                    fade_out_ns: track.fade_out_ns,
                    audible_ns: audible,
                },
            );
        }
    }
    assert(music@.take(music@.len() as int) =~= music@);
    (system, plans)
}

/// The audible span the lane paints is exactly the length the export
/// plays: both read the same `min(offset + media, timeline end)` rule.
pub proof fn law_span_matches_audible(track: MusicTrack, timeline_ns: nat)
    ensures
        ({
            let start = if track.offset_ns < timeline_ns {
                track.offset_ns as nat
            } else {
                timeline_ns
            };
            let end = audible_end(track, timeline_ns);
            &&& (if end > start {
                (end - start) as nat
            } else {
                0nat
            }) == audible_len(track, timeline_ns)
        }),
{
}

/// A track is audible for no longer than the timeline has left after its
/// offset, nor (once known) than its media; it is silent exactly when it
/// starts at or past the timeline end.
pub proof fn law_audible_within_bounds(track: MusicTrack, timeline_ns: nat)
    ensures
        audible_len(track, timeline_ns) + track.offset_ns <= timeline_ns || audible_len(
            track,
            timeline_ns,
        ) == 0,
        track.duration_ns > 0 ==> audible_len(track, timeline_ns) <= track.duration_ns,
        audible_len(track, timeline_ns) == 0 <==> track.offset_ns >= timeline_ns,
{
}

} // verus!
