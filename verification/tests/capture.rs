use breez::capture::{
    capture_step, interleave_f32, take_duration_ns, AudioClock, CaptureError, CaptureStep,
    Placement, RecordConfig, SessionEvent, VideoPacer, AUDIO_GAP_TOLERANCE_NS,
};

#[test]
fn default_config_should_record_at_sixty_fps() {
    assert_eq!(RecordConfig::default_config().fps, 60);
}

#[test]
fn take_duration_should_follow_the_frame_count() {
    assert_eq!(take_duration_ns(90, 30), 3_000_000_000);
    assert_eq!(take_duration_ns(1, 60), 16_666_666);
    assert_eq!(take_duration_ns(0, 60), 0);
}

#[test]
fn pacer_should_emit_the_first_frame_once() {
    let mut pacer = VideoPacer::new(30);
    assert_eq!(pacer.place(1920, 1080, 5_000), Ok(Placement::Emit { repeats: 0 }));
    assert_eq!(pacer.frame_count(), 1);
    assert_eq!(pacer.frame_size(), (1920, 1080));
}

#[test]
fn pacer_should_repeat_the_last_frame_over_a_gap() {
    let mut pacer = VideoPacer::new(30);
    pacer.place(1920, 1080, 0).unwrap();
    assert_eq!(pacer.place(1920, 1080, 33_333_333), Ok(Placement::Emit { repeats: 0 }));
    assert_eq!(pacer.place(1920, 1080, 133_333_333), Ok(Placement::Emit { repeats: 2 }));
    assert_eq!(pacer.frame_count(), 5);
}

#[test]
fn pacer_should_refresh_a_slot_already_written() {
    let mut pacer = VideoPacer::new(30);
    pacer.place(1920, 1080, 0).unwrap();
    pacer.place(1920, 1080, 100_000_000).unwrap();
    assert_eq!(pacer.frame_count(), 4);
    assert_eq!(pacer.place(1920, 1080, 90_000_000), Ok(Placement::Refresh));
    assert_eq!(pacer.frame_count(), 4);
}

#[test]
fn pacer_should_refuse_a_resolution_change() {
    let mut pacer = VideoPacer::new(30);
    pacer.place(1920, 1080, 0).unwrap();
    assert_eq!(
        pacer.place(1280, 720, 33_333_333),
        Err("resolution changed mid-take: 1920x1080 -> 1280x720".to_owned())
    );
    assert_eq!(pacer.frame_count(), 1);
}

#[test]
fn audio_clock_should_fill_a_gap_with_whole_frames_of_silence() {
    let mut clock = AudioClock::new(48_000, 2);
    assert_eq!(clock.silence_before(0), 0);
    clock.advance(0, 38_400);
    assert_eq!(clock.packet_count(), 1);
    assert_eq!(clock.silence_before(100_000_000), 0);
    assert_eq!(clock.silence_before(100_000_000 + AUDIO_GAP_TOLERANCE_NS), 0);
    assert_eq!(clock.silence_before(200_000_000), 38_400);
    assert_eq!(clock.silence_before(130_000_003), 11_520);
}

#[test]
fn audio_clock_should_ignore_packets_that_arrive_early() {
    let mut clock = AudioClock::new(48_000, 2);
    clock.advance(1_000_000_000, 384);
    assert_eq!(clock.silence_before(500_000_000), 0);
}

#[test]
fn interleave_should_alternate_four_byte_samples_of_each_plane() {
    let planes = vec![
        vec![1u8, 2, 3, 4, 5, 6, 7, 8],
        vec![9u8, 10, 11, 12, 13, 14, 15, 16],
    ];
    assert_eq!(
        interleave_f32(&planes),
        vec![1u8, 2, 3, 4, 9, 10, 11, 12, 5, 6, 7, 8, 13, 14, 15, 16]
    );
}

#[test]
fn interleave_should_drop_a_trailing_partial_sample() {
    let planes = vec![vec![1u8, 2, 3, 4, 5], vec![6u8, 7, 8, 9, 10]];
    assert_eq!(interleave_f32(&planes), vec![1u8, 2, 3, 4, 6, 7, 8, 9]);
    assert!(interleave_f32(&Vec::<Vec<u8>>::new()).is_empty());
}

#[test]
fn the_capture_loop_should_encode_wait_stop_or_fail() {
    assert_eq!(capture_step(SessionEvent::Video), CaptureStep::PushVideo);
    assert_eq!(capture_step(SessionEvent::Audio), CaptureStep::PushAudio);
    assert_eq!(capture_step(SessionEvent::Gap), CaptureStep::Wait);
    assert_eq!(capture_step(SessionEvent::Timeout), CaptureStep::Wait);
    assert_eq!(capture_step(SessionEvent::End), CaptureStep::Stop);
    let failed = capture_step(SessionEvent::Failed("device lost".to_owned()));
    assert_eq!(failed, CaptureStep::Fail(CaptureError::Pinray("device lost".to_owned())));
    match failed {
        CaptureStep::Fail(e) => assert_eq!(e.message(), "capture: device lost"),
        _ => panic!("should fail"),
    }
}

#[test]
fn a_take_without_video_frames_should_fail() {
    let pacer = VideoPacer::new(30);
    let err = pacer.finish().unwrap_err();
    assert_eq!(err, CaptureError::Unsupported("no video frames captured".to_owned()));
    assert_eq!(err.message(), "unsupported stream: no video frames captured");
    assert_eq!(CaptureError::ThreadPanic.message(), "capture thread panicked");
    assert_eq!(CaptureError::Codec("ffmpeg exited".to_owned()).message(), "ffmpeg exited");
}

#[test]
fn a_finished_video_stream_should_report_its_size_and_frames() {
    let mut pacer = VideoPacer::new(30);
    pacer.place(1920, 1080, 0).unwrap();
    pacer.place(1920, 1080, 100_000_000).unwrap();
    assert_eq!(pacer.finish(), Ok((1920, 1080, 4)));
}
