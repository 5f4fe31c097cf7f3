use breez::music::{
    backfill_duration, imported_track, is_audio_ext, needs_resync, TrackState, TrackStep,
    MAX_SEEK_FAILURES, RESYNC_NS,
};
use breez::project::MusicTrack;

fn track(file: &str, duration_ns: u64) -> MusicTrack {
    MusicTrack {
        file: file.to_owned(),
        offset_ns: 3,
        gain_millionths: 250_000,
        fade_in_ns: 4,
        fade_out_ns: 5,
        duration_ns,
    }
}

#[test]
fn audio_extensions_should_match_in_any_case() {
    for ext in ["mp3", "m4a", "aac", "wav", "flac", "ogg", "MP3", "Flac", "OgG"] {
        assert!(is_audio_ext(ext), "{ext}");
    }
    for ext in ["mp4", "txt", "", "mp33", "fla", "m4á", "ogg "] {
        assert!(!is_audio_ext(ext), "{ext}");
    }
}

#[test]
fn an_import_should_start_at_zero_with_default_gain_and_fades() {
    let t = imported_track("media/music/a.mp3".to_owned());
    assert_eq!(t.file, "media/music/a.mp3");
    assert_eq!(t.offset_ns, 0);
    assert_eq!(t.gain_millionths, 500_000);
    assert_eq!(t.fade_in_ns, 500_000_000);
    assert_eq!(t.fade_out_ns, 1_000_000_000);
    assert_eq!(t.duration_ns, 0);
}

#[test]
fn backfill_should_fill_only_an_unknown_length_of_the_first_match() {
    let mut music = vec![track("a", 0), track("b", 0), track("b", 0)];
    assert!(backfill_duration(&mut music, &"b".to_owned(), 7_000));
    assert_eq!(music[1].duration_ns, 7_000);
    assert_eq!(music[1].offset_ns, 3);
    assert_eq!(music[2].duration_ns, 0);
    assert!(!backfill_duration(&mut music, &"b".to_owned(), 9_000));
    assert_eq!(music[1].duration_ns, 7_000);
    assert!(!backfill_duration(&mut music, &"c".to_owned(), 9_000));
    assert_eq!(music[0].duration_ns, 0);
}

#[test]
fn resync_should_wait_for_a_quarter_second_of_drift() {
    assert!(!needs_resync(1_000_000_000, 1_000_000_000 + RESYNC_NS));
    assert!(needs_resync(1_000_000_000, 1_000_000_001 + RESYNC_NS));
    assert!(needs_resync(1_000_000_001 + RESYNC_NS, 1_000_000_000));
}

#[test]
fn a_track_should_load_then_position_its_player() {
    let mut s = TrackState::new();
    assert_eq!(s.begin(None, 0), TrackStep::Load);
    s.load_done(true);
    assert!(s.loaded);
    assert_eq!(s.begin(None, 10), TrackStep::Position);
}

#[test]
fn an_undecodable_track_should_stay_silent() {
    let mut s = TrackState::new();
    assert_eq!(s.begin(None, 0), TrackStep::Load);
    s.load_done(false);
    assert!(s.failed);
    assert_eq!(s.begin(None, 0), TrackStep::Skip);
    assert_eq!(s.begin(Some(5), 0), TrackStep::Skip);
}

#[test]
fn a_player_that_ran_dry_should_reload_only_for_an_earlier_playhead() {
    let mut s = TrackState::new();
    s.begin(None, 0);
    s.load_done(true);
    assert_eq!(s.begin(Some(3_000), 3_100), TrackStep::Skip);
    assert!(!s.loaded);
    assert_eq!(s.ended_ns, Some(3_000));
    assert_eq!(s.begin(None, 5_000), TrackStep::Skip);
    assert_eq!(s.begin(None, 1_000), TrackStep::Load);
    assert_eq!(s.ended_ns, None);
}

#[test]
fn seeks_should_give_up_after_the_third_failure_in_a_row() {
    let mut s = TrackState::new();
    s.begin(None, 0);
    s.load_done(true);
    s.seek_failed();
    assert!(!s.failed && !s.loaded);
    s.begin(None, 0);
    s.load_done(true);
    s.seek_failed();
    assert!(!s.failed);
    s.begin(None, 0);
    s.load_done(true);
    s.seek_failed();
    assert!(s.failed);
    assert_eq!(s.seek_failures, MAX_SEEK_FAILURES);
}

#[test]
fn a_good_seek_should_end_the_run_of_failures() {
    let mut s = TrackState::new();
    s.begin(None, 0);
    s.load_done(true);
    s.seek_failed();
    s.begin(None, 0);
    s.load_done(true);
    s.in_step();
    assert_eq!(s.seek_failures, 0);
}
