use breez::capture::{add_take, TakeMedia};
use breez::project::{untitled_package_name, Clip, Project};

fn media(frames: u64) -> TakeMedia {
    TakeMedia {
        video: "media/take-0/video.mp4".to_owned(),
        audio: Some("media/take-0/audio.m4a".to_owned()),
        events: None,
        width: 1920,
        height: 1080,
        video_frames: frames,
        audio_packets: 12,
    }
}

#[test]
fn a_new_project_should_be_empty() {
    let p = Project::new("demo");
    assert_eq!(p.name, "demo");
    assert!(p.takes.is_empty());
    assert!(p.timeline.clips.is_empty());
    assert!(p.timeline.music.is_empty());
    assert_eq!(p.system_audio_gain_millionths, 1_000_000);
}

#[test]
fn the_first_take_should_fill_the_empty_timeline() {
    let mut p = Project::new("demo");
    let summary = add_take(&mut p, media(120), 60);
    assert_eq!(summary.take_id, 0);
    assert_eq!(summary.duration_ns, 2_000_000_000);
    assert_eq!(summary.video_frames, 120);
    assert_eq!(summary.audio_packets, 12);
    assert_eq!((summary.width, summary.height, summary.fps), (1920, 1080, 60));
    assert_eq!(p.takes.len(), 1);
    assert_eq!(p.takes[0].duration_ns, 2_000_000_000);
    assert_eq!(p.takes[0].audio.as_deref(), Some("media/take-0/audio.m4a"));
    assert_eq!(
        p.timeline.clips,
        vec![Clip { take: 0, src_in_ns: 0, src_out_ns: 2_000_000_000, speed_millionths: 1_000_000 }]
    );
}

#[test]
fn a_later_take_should_leave_the_timeline_alone() {
    let mut p = Project::new("demo");
    add_take(&mut p, media(60), 60);
    let summary = add_take(&mut p, media(30), 30);
    assert_eq!(summary.take_id, 1);
    assert_eq!(summary.duration_ns, 1_000_000_000);
    assert_eq!(p.takes.len(), 2);
    assert_eq!(p.takes[1].id, 1);
    assert_eq!(p.timeline.clips.len(), 1);
    assert_eq!(p.timeline.clips[0].take, 0);
}

#[test]
fn untitled_packages_should_be_numbered_with_three_digits() {
    assert_eq!(untitled_package_name(1), "Untitled-001.rec");
    assert_eq!(untitled_package_name(42), "Untitled-042.rec");
    assert_eq!(untitled_package_name(999), "Untitled-999.rec");
}
