use breez::media::{check_frame_len, export_frame_bytes, frame_bytes, CodecError, ExportConfig, VideoFrame};
use breez::text::{decimal_string, digit_count, push_fixed6, push_padded};
use std::sync::Arc;

fn config(width: u32, height: u32, fps: u32) -> ExportConfig {
    ExportConfig { width, height, fps, crf: 23, system_audio: None, music: Vec::new() }
}

#[test]
fn frames_should_be_four_bytes_a_pixel() {
    assert_eq!(frame_bytes(1920, 1080), 8_294_400);
    assert_eq!(frame_bytes(0, 1080), 0);
}

#[test]
fn a_frame_of_the_wrong_size_should_be_refused() {
    assert!(check_frame_len(16, 16).is_ok());
    match check_frame_len(12, 16) {
        Err(CodecError::BadInput(m)) => assert_eq!(m, "frame is 12 bytes, expected 16"),
        _ => panic!("expected a bad-input error"),
    }
}

#[test]
fn an_export_without_size_or_rate_should_be_refused() {
    assert_eq!(export_frame_bytes(&config(4, 2, 30)).ok(), Some(32));
    for bad in [config(0, 2, 30), config(4, 0, 30), config(4, 2, 0)] {
        match export_frame_bytes(&bad) {
            Err(CodecError::BadInput(m)) => assert_eq!(m, "export size and fps must be non-zero"),
            _ => panic!("expected a bad-input error"),
        }
    }
}

#[test]
fn a_shared_frame_should_point_at_the_same_pixels() {
    let frame = VideoFrame { data: Arc::from(vec![1u8, 2, 3, 4]), width: 1, height: 1, pts_ns: 5 };
    let shared = frame.share();
    assert!(Arc::ptr_eq(&frame.data, &shared.data));
    assert_eq!(shared.pts_ns, 5);
    assert_eq!(shared.byte_len(), 4);
}

#[test]
fn numbers_should_print_in_decimal_and_fixed_point() {
    assert_eq!(decimal_string(0), "0");
    assert_eq!(decimal_string(18_446_744_073_709_551_615), "18446744073709551615");
    assert_eq!(digit_count(0), 1);
    assert_eq!(digit_count(1000), 4);
    let mut s = String::new();
    push_fixed6(&mut s, 2_500_000);
    assert_eq!(s, "2.500000");
    let mut s = String::new();
    push_fixed6(&mut s, 7);
    assert_eq!(s, "0.000007");
    let mut s = String::new();
    push_padded(&mut s, 5, 3);
    assert_eq!(s, "005");
}
