use breez::cache::FrameKey;
use breez::playback::{
    audio_clock, audio_offset, decoder_near, due_count, frame_index, present_deadline, Delivery,
    trim_reseek, PausedSeek, PlaybackState,
};

#[test]
fn frame_index_should_round_to_the_nearest_frame() {
    assert_eq!(frame_index(0, 30), 0);
    assert_eq!(frame_index(16_666_666, 30), 0);
    assert_eq!(frame_index(16_666_667, 30), 1);
    assert_eq!(frame_index(1_000_000_000, 60), 60);
    assert_eq!(frame_index(u64::MAX, u32::MAX), u64::MAX);
}

#[test]
fn decoder_should_count_as_near_within_half_a_frame_of_the_same_take() {
    assert!(decoder_near(Some((0, 1_000_000_000)), 0, 1_016_000_000, 30));
    assert!(!decoder_near(Some((0, 1_000_000_000)), 0, 1_017_000_000, 30));
    assert!(!decoder_near(Some((1, 1_000_000_000)), 0, 1_000_000_000, 30));
    assert!(!decoder_near(None, 0, 0, 30));
}

#[test]
fn deadline_and_due_count_should_present_frames_up_to_half_a_frame_ahead() {
    assert_eq!(present_deadline(1_000_000_000, 50), 1_010_000_000);
    let queued = vec![990_000_000u64, 1_010_000_000, 1_030_000_000];
    assert_eq!(due_count(&queued, 1_010_000_000), 2);
    assert_eq!(due_count(&queued, 0), 0);
    assert_eq!(due_count(&Vec::new(), 5), 0);
}

#[test]
fn audio_clock_should_never_run_before_zero() {
    assert_eq!(audio_clock(-500, 200), 0);
    assert_eq!(audio_clock(1_000, 200), 1_200);
    assert_eq!(audio_offset(5_000, 2_000), 3_000);
    assert_eq!(audio_offset(2_000, 5_000), -3_000);
}

#[test]
fn move_playhead_should_clamp_and_target_the_last_frame() {
    let mut state = PlaybackState::new();
    assert_eq!(state.move_playhead(3_000, 10_000), 3_000);
    assert_eq!(state.playhead_ns, 3_000);
    assert_eq!(state.move_playhead(50_000, 10_000), 9_999);
    assert_eq!(state.playhead_ns, 10_000);
    assert_eq!(state.move_playhead(5, 0), 0);
}

#[test]
fn a_stale_generation_should_be_ignored() {
    let mut state = PlaybackState::new();
    let generation = state.start_seek(2, 1_000);
    assert_eq!(generation, 1);
    assert!(state.awaiting_seek);
    assert_eq!(state.deliver(0, Some(1_000), 30), Delivery::Stale);
    assert!(state.awaiting_seek);
}

#[test]
fn the_first_frame_after_a_seek_should_be_keyed_and_flagged() {
    let mut state = PlaybackState::new();
    let generation = state.start_seek(2, 1_000_000_000);
    let first = state.deliver(generation, Some(1_000_000_000), 30);
    assert_eq!(
        first,
        Delivery::Frame {
            key: Some(FrameKey { take: 2, frame: 30 }),
            first_after_seek: true,
        }
    );
    assert!(!state.awaiting_seek);
    assert_eq!(state.decoder_pos, Some((2, 1_033_333_333)));
    let next = state.deliver(generation, Some(1_033_333_333), 30);
    assert_eq!(
        next,
        Delivery::Frame {
            key: Some(FrameKey { take: 2, frame: 31 }),
            first_after_seek: false,
        }
    );
}

#[test]
fn an_ended_stream_should_hand_back_the_deferred_seek() {
    let mut state = PlaybackState::new();
    let generation = state.start_seek(0, 0);
    state.playhead_ns = 7_000;
    assert_eq!(state.paused_seek(false), PausedSeek::Deferred);
    assert_eq!(state.deferred_seek_ns, Some(7_000));
    assert_eq!(
        state.deliver(generation, None, 30),
        Delivery::Ended { reseek: Some(7_000) }
    );
    assert!(!state.awaiting_seek);
    assert_eq!(state.deferred_seek_ns, None);
    assert_eq!(state.paused_seek(false), PausedSeek::SeekDecoder);
}

#[test]
fn a_cache_hit_should_show_the_frame_and_forget_the_decoder_position() {
    let mut state = PlaybackState::new();
    state.start_seek(0, 0);
    assert_eq!(state.paused_seek(true), PausedSeek::ShowCached);
    assert_eq!(state.decoder_pos, None);
    assert_eq!(state.take_deferred(), Some(0));
    assert_eq!(state.take_deferred(), None);
}

#[test]
fn draining_should_follow_playing_and_seeking() {
    let mut state = PlaybackState::new();
    assert!(!state.drains());
    assert!(!state.keep_draining(0));
    state.playing = true;
    assert!(state.drains());
    assert!(state.keep_draining(7));
    assert!(!state.keep_draining(8));
}

#[test]
fn play_should_rewind_from_the_end_and_stop_there() {
    let mut state = PlaybackState::new();
    assert!(!state.prepare_play(0));
    state.playhead_ns = 10_000;
    assert!(state.prepare_play(10_000));
    assert_eq!(state.playhead_ns, 0);
    state.playing = true;
    assert!(!state.prepare_play(10_000));
    assert!(!state.advance(4_000, 10_000));
    assert_eq!(state.playhead_ns, 4_000);
    assert!(state.advance(12_000, 10_000));
    assert_eq!(state.playhead_ns, 10_000);
    assert!(!state.playing);
}

#[test]
fn crossing_into_another_clip_should_only_count_while_playing() {
    let mut state = PlaybackState::new();
    assert!(!state.crossed_into(0));
    state.playing = true;
    assert!(state.crossed_into(0));
    state.current_clip = Some(0);
    assert!(!state.crossed_into(0));
    assert!(state.crossed_into(1));
}

#[test]
fn a_trim_should_pull_a_playhead_past_the_new_end_back() {
    assert_eq!(trim_reseek(9_000, 5_000), Some(5_000));
    assert_eq!(trim_reseek(5_000, 5_000), None);
    assert_eq!(trim_reseek(1_000, 5_000), None);
}
