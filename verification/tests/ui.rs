use breez::export::{ExportJob, Preset, Progress, Quality};
use breez::project::{Clip, Project, Take};
use std::sync::atomic::AtomicBool;
use std::sync::Arc;
use breez::thumbs::{thumb_count, thumb_file_name, thumb_file_names, thumb_set_name, THUMB_WIDTH};
use breez::ui::{
    export_short_side, pick_destination, rail_active, rail_click, rail_enabled, EditorAction,
    RailKind, preset_choice, progress_label, quality_choice, Picked,
    click_segment, format_ns, format_secs, mode_of_segment, mode_segments, record_click,
    timer_text, toggle_tool, Mode, RecordAction, RecordState, Segment, State, TitlebarState, Tool,
};
use std::path::PathBuf;
use std::time::Duration;

#[test]
fn format_should_pad_seconds_to_two_digits() {
    assert_eq!(format_secs(0), "0:00");
    assert_eq!(format_secs(65), "1:05");
    assert_eq!(format_secs(3_600), "60:00");
    assert_eq!(format_ns(125_999_999_999), "2:05");
}

#[test]
fn timer_should_show_the_elapsed_whole_seconds() {
    assert_eq!(timer_text(&RecordState::Idle), "0:00");
    assert_eq!(
        timer_text(&RecordState::Recording { elapsed: Duration::from_millis(61_900) }),
        "1:01"
    );
    assert_eq!(timer_text(&RecordState::Saving), "Saving\u{2026}");
}

#[test]
fn record_button_should_start_stop_and_wait() {
    assert_eq!(record_click(&RecordState::Idle), Some(RecordAction::Start));
    assert_eq!(
        record_click(&RecordState::Recording { elapsed: Duration::from_secs(3) }),
        Some(RecordAction::Stop)
    );
    assert_eq!(record_click(&RecordState::Saving), None);
}

#[test]
fn tool_buttons_should_toggle_their_panel() {
    assert_eq!(toggle_tool(None, Tool::Music), Some(Tool::Music));
    assert_eq!(toggle_tool(Some(Tool::Music), Tool::Music), None);
    assert_eq!(toggle_tool(Some(Tool::Media), Tool::Music), Some(Tool::Music));
    assert_eq!(Tool::Media.title(), "Media");
    assert_eq!(Tool::Music.title(), "Music");
}

#[test]
fn segments_should_change_only_on_an_enabled_other_choice() {
    let mut selected = 0usize;
    assert!(!click_segment(&mut selected, 0, true));
    assert!(!click_segment(&mut selected, 1, false));
    assert_eq!(selected, 0);
    assert!(click_segment(&mut selected, 1, true));
    assert_eq!(selected, 1);
    let seg = Segment::new("Edit");
    assert!(seg.enabled);
    let off = Segment::disabled("Edit");
    assert!(!off.enabled);
    assert_eq!(off.label, "Edit");
}

#[test]
fn mode_toggle_should_block_while_busy_and_need_a_session_to_edit() {
    let state = TitlebarState { mode: Mode::Edit, project_name: Some("demo"), can_edit: true, busy: false };
    assert_eq!(mode_segments(&state), (1, true, true));
    let busy = TitlebarState { mode: Mode::Record, project_name: None, can_edit: true, busy: true };
    assert_eq!(mode_segments(&busy), (0, false, false));
    let fresh = TitlebarState { mode: Mode::Record, project_name: None, can_edit: false, busy: false };
    assert_eq!(mode_segments(&fresh), (0, true, false));
    assert_eq!(mode_of_segment(0), Mode::Record);
    assert_eq!(mode_of_segment(1), Mode::Edit);
}

#[test]
fn export_dialog_should_open_with_the_last_result_cleared() {
    let mut state = State::closed();
    assert!(!state.open);
    state.preset = 2;
    state.result = Some(Err("boom".to_owned()));
    state.open();
    assert!(state.open);
    assert!(state.result.is_none());
    assert_eq!(state.preset, 2);
}

#[test]
fn quality_and_preset_should_map_to_encoder_settings() {
    assert_eq!(Quality::High.crf(), 18);
    assert_eq!(Quality::Balanced.crf(), 23);
    assert_eq!(Quality::Small.crf(), 28);
    assert_eq!(Quality::Balanced.label(), "Balanced");
    assert_eq!(Preset::P1080.short_side(720), 1080);
    assert_eq!(Preset::P1440.short_side(720), 1440);
    assert_eq!(Preset::Source.short_side(720), 720);
    assert_eq!(Preset::Source.short_side(1), 2);
    assert_eq!(Preset::Source.label(), "Source");
    assert_eq!(Preset::P1080.label(), "1080p");
}

#[test]
fn progress_should_keep_the_largest_total() {
    let latest = Progress { done: 3, total: 100, finished: None };
    let report = Progress { done: 4, total: 90, finished: None };
    let merged = Progress::merged(&latest, report);
    assert_eq!((merged.done, merged.total), (4, 100));
    let done = Progress {
        done: 100,
        total: 120,
        finished: Some(Ok(PathBuf::from("/tmp/out.mp4"))),
    };
    let merged = Progress::merged(&merged, done);
    assert_eq!((merged.done, merged.total), (100, 120));
    assert_eq!(merged.finished, Some(Ok(PathBuf::from("/tmp/out.mp4"))));
}

#[test]
fn a_vanished_worker_should_be_reported_as_failed() {
    let gone = Progress::after_disconnect(Progress { done: 3, total: 10, finished: None });
    assert_eq!(gone.finished, Some(Err("the export worker stopped unexpectedly".to_owned())));
    assert_eq!((gone.done, gone.total), (3, 10));
    let ended = Progress::after_disconnect(Progress {
        done: 10,
        total: 10,
        finished: Some(Err("export cancelled".to_owned())),
    });
    assert_eq!(ended.finished, Some(Err("export cancelled".to_owned())));
}

#[test]
fn thumbs_should_come_every_two_seconds_within_bounds() {
    assert_eq!(thumb_count(0), 8);
    assert_eq!(thumb_count(40_000_000_000), 20);
    assert_eq!(thumb_count(1_000_000_000_000), 60);
    assert_eq!(THUMB_WIDTH, 160);
}

#[test]
fn thumb_sets_and_files_should_be_named_for_their_request() {
    assert_eq!(thumb_set_name(20, 160), "20x160");
    assert_eq!(thumb_file_name(1), "001.jpg");
    assert_eq!(thumb_file_name(42), "042.jpg");
    assert_eq!(thumb_file_name(1234), "1234.jpg");
    assert_eq!(thumb_file_names(3), vec!["001.jpg", "002.jpg", "003.jpg"]);
}

#[test]
fn a_picked_path_without_extension_should_get_mp4() {
    let (dest, waiting) = pick_destination(None, Picked::Chosen(Some(PathBuf::from("/tmp/demo"))));
    assert_eq!(dest, Some(PathBuf::from("/tmp/demo.mp4")));
    assert!(!waiting);
    let (dest, _) = pick_destination(None, Picked::Chosen(Some(PathBuf::from("/tmp/demo.mov"))));
    assert_eq!(dest, Some(PathBuf::from("/tmp/demo.mov")));
    let kept = Some(PathBuf::from("/tmp/old.mp4"));
    assert_eq!(pick_destination(kept.clone(), Picked::Pending), (kept.clone(), true));
    assert_eq!(pick_destination(kept.clone(), Picked::Gone), (kept.clone(), false));
    assert_eq!(pick_destination(kept.clone(), Picked::Chosen(None)), (kept, false));
}

#[test]
fn poll_picker_should_land_the_choice_and_drop_the_picker() {
    let (tx, rx) = std::sync::mpsc::channel();
    let mut state = State::closed();
    state.poll_picker();
    assert!(state.dest.is_none());
    state.picker = Some(rx);
    state.poll_picker();
    assert!(state.picker.is_some());
    tx.send(Some(PathBuf::from("/tmp/out"))).unwrap();
    state.poll_picker();
    assert!(state.picker.is_none());
    assert_eq!(state.dest, Some(PathBuf::from("/tmp/out.mp4")));
}

#[test]
fn a_picker_that_went_away_should_leave_the_destination() {
    let (tx, rx) = std::sync::mpsc::channel::<Option<PathBuf>>();
    let mut state = State::closed();
    state.dest = Some(PathBuf::from("/tmp/keep.mp4"));
    state.picker = Some(rx);
    drop(tx);
    state.poll_picker();
    assert!(state.picker.is_none());
    assert_eq!(state.dest, Some(PathBuf::from("/tmp/keep.mp4")));
}

fn take(id: u32, width: u32, height: u32) -> Take {
    Take {
        id,
        video: "v".to_owned(),
        audio: None,
        events: None,
        width,
        height,
        fps: 30,
        duration_ns: 1_000_000_000,
    }
}

#[test]
fn the_dialog_choices_should_follow_the_segment_order() {
    assert_eq!(preset_choice(0), Preset::P1080);
    assert_eq!(preset_choice(1), Preset::P1440);
    assert_eq!(preset_choice(2), Preset::Source);
    assert_eq!(quality_choice(0), Quality::High);
    assert_eq!(quality_choice(2), Quality::Small);
}

#[test]
fn the_source_preset_should_follow_the_rendered_take() {
    let mut project = Project::new("p");
    assert_eq!(export_short_side(&project, 2), 1080);
    project.takes = vec![take(0, 1280, 720), take(1, 1920, 1600)];
    project.timeline.clips =
        vec![Clip { take: 1, src_in_ns: 0, src_out_ns: 1, speed_millionths: 1_000_000 }];
    assert_eq!(export_short_side(&project, 2), 1600);
    assert_eq!(export_short_side(&project, 0), 1080);
    assert_eq!(export_short_side(&project, 1), 1440);
}

#[test]
fn a_portrait_take_should_export_at_its_short_side() {
    let mut project = Project::new("p");
    project.takes = vec![take(0, 1080, 1920)];
    project.timeline.clips =
        vec![Clip { take: 0, src_in_ns: 0, src_out_ns: 1, speed_millionths: 1_000_000 }];
    assert_eq!(export_short_side(&project, 2), 1080);
}

#[test]
fn progress_should_read_frame_of_total() {
    assert_eq!(progress_label(12, 300), "frame 12 of 300");
}

#[test]
fn export_should_wait_for_a_destination() {
    let mut state = State::closed();
    state.quality = 1;
    assert!(state.settings().is_none());
    state.dest = Some(PathBuf::from("/tmp/a.mp4"));
    let settings = state.settings().expect("settings");
    assert_eq!(settings.preset, Preset::P1080);
    assert_eq!(settings.quality, Quality::Balanced);
    assert_eq!(settings.dest, PathBuf::from("/tmp/a.mp4"));
}

#[test]
fn a_finished_job_should_leave_its_outcome_to_show() {
    let (tx, rx) = std::sync::mpsc::channel();
    let mut state = State::closed();
    assert!(state.follow_job().is_none());
    state.job = Some(ExportJob {
        rx,
        cancel: Arc::new(AtomicBool::new(false)),
        latest: Progress { done: 0, total: 10, finished: None },
        partial: PathBuf::from("/tmp/.a.mp4.part"),
    });
    tx.send(Progress { done: 4, total: 10, finished: None }).unwrap();
    let (p, vanished) = state.follow_job().expect("job");
    assert_eq!(p.done, 4);
    assert!(!vanished);
    assert!(state.job.is_some());
    tx.send(Progress { done: 10, total: 10, finished: Some(Ok(PathBuf::from("/tmp/a.mp4"))) })
        .unwrap();
    let (p, _) = state.follow_job().expect("job");
    assert!(p.finished.is_some());
    assert!(state.job.is_none());
    assert_eq!(state.result, Some(Ok(PathBuf::from("/tmp/a.mp4"))));
}

#[test]
fn sets_for_different_requests_should_never_share_a_directory() {
    assert_ne!(thumb_set_name(20, 160), thumb_set_name(201, 60));
    assert_ne!(thumb_set_name(2, 160), thumb_set_name(21, 60));
    assert_eq!(thumb_set_name(8, 160), "8x160");
}

#[test]
fn the_rail_should_toggle_tools_jump_to_record_and_skip_unbuilt_items() {
    let mut open = None;
    assert_eq!(rail_click(RailKind::Tool(Tool::Music), &mut open), None);
    assert_eq!(open, Some(Tool::Music));
    assert!(rail_active(RailKind::Tool(Tool::Music), open));
    assert!(!rail_active(RailKind::Tool(Tool::Media), open));
    assert_eq!(rail_click(RailKind::Record, &mut open), Some(EditorAction::OpenRecord));
    assert_eq!(open, Some(Tool::Music));
    assert_eq!(rail_click(RailKind::Soon, &mut open), None);
    assert!(!rail_enabled(RailKind::Soon));
    assert!(rail_enabled(RailKind::Record));
    rail_click(RailKind::Tool(Tool::Music), &mut open);
    assert_eq!(open, None);
}
