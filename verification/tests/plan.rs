use breez::plan::{audible_span_ns, audio_sources, span, system_clips};
use breez::project::{Clip, MusicTrack, Project, Take, Timeline};

fn track(offset_ns: u64, duration_ns: u64) -> MusicTrack {
    MusicTrack {
        file: "media/music/a.mp3".to_owned(),
        offset_ns,
        gain_millionths: 500_000,
        fade_in_ns: 0,
        fade_out_ns: 0,
        duration_ns,
    }
}

fn clip(take: u32, src_in_ns: u64, src_out_ns: u64) -> Clip {
    Clip {
        take,
        src_in_ns,
        src_out_ns,
        speed_millionths: 1_000_000,
    }
}

fn timeline(clips: Vec<Clip>) -> Timeline {
    Timeline {
        clips,
        zoom: Vec::new(),
        music: Vec::new(),
    }
}

fn take(id: u32, video: &str, width: u32, height: u32, fps: u32) -> Take {
    Take {
        id,
        video: video.to_owned(),
        audio: None,
        events: None,
        width,
        height,
        fps,
        duration_ns: 1_000_000_000,
    }
}

fn project(name: &str) -> Project {
    Project {
        name: name.to_owned(),
        takes: Vec::new(),
        timeline: timeline(Vec::new()),
        system_audio_gain_millionths: 1_000_000,
    }
}

#[test]
fn system_clips_should_carry_each_clip_trim_across() {
    let timeline = timeline(vec![clip(0, 1_000_000_000, 3_000_000_000)]);
    let clips = system_clips(&timeline, 0);
    assert_eq!(clips.len(), 1);
    assert_eq!(clips[0].src_in_ns, 1_000_000_000);
    assert_eq!(clips[0].src_out_ns, 3_000_000_000);
}

#[test]
fn system_clips_should_skip_clips_from_another_take() {
    let timeline = timeline(vec![
        clip(0, 0, 1_000_000_000),
        clip(1, 4_000_000_000, 5_000_000_000),
    ]);
    assert_eq!(system_clips(&timeline, 0).len(), 1);
    assert_eq!(system_clips(&timeline, 1)[0].src_in_ns, 4_000_000_000);
}

#[test]
fn primary_take_should_follow_the_first_clip_not_the_first_take() {
    let mut project = project("t");
    project.takes = vec![take(0, "a", 1280, 720, 30), take(1, "b", 1920, 1080, 60)];
    project.timeline.clips = vec![clip(1, 0, 1_000_000_000)];
    assert_eq!(project.primary_take().map(|t| t.id), Some(1));
}

#[test]
fn audible_should_stop_at_the_timeline_end() {
    assert_eq!(
        audible_span_ns(&track(1_000_000_000, 30_000_000_000), 5_000_000_000),
        4_000_000_000
    );
}

#[test]
fn audible_should_stop_at_the_media_end() {
    assert_eq!(
        audible_span_ns(&track(0, 3_000_000_000), 10_000_000_000),
        3_000_000_000
    );
}

#[test]
fn audible_should_span_to_the_timeline_end_when_the_media_length_is_unknown() {
    assert_eq!(
        audible_span_ns(&track(1_000_000_000, 0), 10_000_000_000),
        9_000_000_000
    );
}

#[test]
fn audible_should_be_zero_for_a_track_past_the_end() {
    assert_eq!(
        audible_span_ns(&track(20_000_000_000, 3_000_000_000), 10_000_000_000),
        0
    );
}

#[test]
fn span_should_start_at_the_offset_and_end_at_the_audible_end() {
    let t = track(1_000_000_000, 2_000_000_000);
    assert_eq!(span(&t, 10_000_000_000), (1_000_000_000, 3_000_000_000));
    let late = track(20_000_000_000, 2_000_000_000);
    assert_eq!(span(&late, 10_000_000_000), (10_000_000_000, 10_000_000_000));
    let unknown = track(1_000_000_000, 0);
    assert_eq!(span(&unknown, 10_000_000_000), (1_000_000_000, 10_000_000_000));
}

#[test]
fn primary_take_should_be_none_without_clips() {
    let mut project = project("t");
    project.takes = vec![take(0, "a", 1280, 720, 30)];
    assert!(project.primary_take().is_none());
}

#[test]
fn primary_take_should_be_none_when_the_clip_names_a_missing_take() {
    let mut project = project("t");
    project.takes = vec![take(0, "a", 1280, 720, 30)];
    project.timeline.clips = vec![clip(7, 0, 1_000_000_000)];
    assert!(project.primary_take().is_none());
}

#[test]
fn audio_sources_should_drop_tracks_past_the_end_and_keep_the_take_audio() {
    let mut project = project("t");
    let mut t = take(0, "a", 1280, 720, 30);
    t.audio = Some("media/take-0/audio.m4a".to_owned());
    project.takes = vec![t];
    project.timeline.clips = vec![clip(0, 0, 1_000_000_000), clip(1, 0, 1_000_000_000)];
    project.timeline.music = vec![
        track(0, 3_000_000_000),
        track(20_000_000_000, 1_000_000_000),
    ];
    let (system, music) = audio_sources(&project, 10_000_000_000, true, &vec![true, true]);
    let system = system.expect("take audio");
    assert_eq!(system.file, "media/take-0/audio.m4a");
    assert_eq!(system.clips.len(), 1);
    assert_eq!(system.gain_millionths, 1_000_000);
    assert_eq!(music.len(), 1);
    assert_eq!(music[0].audible_ns, 3_000_000_000);
    assert_eq!(music[0].file, "media/music/a.mp3");
}

#[test]
fn audio_sources_should_have_no_system_audio_for_a_silent_take() {
    let mut project = project("t");
    project.takes = vec![take(0, "a", 1280, 720, 30)];
    project.timeline.clips = vec![clip(0, 0, 1_000_000_000)];
    let (system, music) = audio_sources(&project, 10_000_000_000, true, &Vec::new());
    assert!(system.is_none());
    assert!(music.is_empty());
}

#[test]
fn audio_sources_should_leave_out_files_that_do_not_resolve() {
    let mut project = project("t");
    let mut t = take(0, "a", 1280, 720, 30);
    t.audio = Some("media/take-0/audio.m4a".to_owned());
    project.takes = vec![t];
    project.timeline.clips = vec![clip(0, 0, 1_000_000_000)];
    project.timeline.music = vec![track(0, 3_000_000_000), track(1_000_000_000, 3_000_000_000)];
    let (system, music) = audio_sources(&project, 10_000_000_000, false, &vec![false, true]);
    assert!(system.is_none());
    assert_eq!(music.len(), 1);
    assert_eq!(music[0].offset_ns, 1_000_000_000);
}
