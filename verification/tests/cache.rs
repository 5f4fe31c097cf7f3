use breez::cache::{FrameCache, FrameKey, DEFAULT_CAP_BYTES};
use breez::media::VideoFrame;
use std::sync::Arc;

fn frame(bytes: usize) -> VideoFrame {
    VideoFrame {
        data: Arc::from(vec![0u8; bytes]),
        width: 1,
        height: 1,
        pts_ns: 0,
    }
}

fn key(frame: u64) -> FrameKey {
    FrameKey { take: 0, frame }
}

#[test]
fn insert_should_evict_least_recently_used_over_cap() {
    let mut cache = FrameCache::new(250);
    cache.insert(key(1), frame(100));
    cache.insert(key(2), frame(100));
    assert!(cache.get(key(1)).is_some());
    cache.insert(key(3), frame(100));
    assert!(cache.get(key(2)).is_none());
    assert!(cache.get(key(1)).is_some());
    assert!(cache.get(key(3)).is_some());
}

#[test]
fn insert_should_ignore_frames_larger_than_cap() {
    let mut cache = FrameCache::new(10);
    cache.insert(key(1), frame(11));
    assert!(cache.get(key(1)).is_none());
}

#[test]
fn get_should_share_the_pixels_not_copy_them() {
    let mut cache = FrameCache::new(DEFAULT_CAP_BYTES);
    let f = VideoFrame {
        data: Arc::from(vec![7u8; 4]),
        width: 1,
        height: 1,
        pts_ns: 42,
    };
    let original = f.data.clone();
    cache.insert(key(5), f);
    let got = cache.get(key(5)).expect("hit");
    assert!(Arc::ptr_eq(&got.data, &original));
    assert_eq!(got.pts_ns, 42);
    assert_eq!(&got.data[..], &[7u8, 7, 7, 7]);
}

#[test]
fn insert_should_replace_a_frame_under_the_same_key() {
    let mut cache = FrameCache::new(250);
    cache.insert(key(1), frame(100));
    let mut replacement = frame(50);
    replacement.pts_ns = 9;
    cache.insert(key(1), replacement);
    cache.insert(key(2), frame(200));
    let got = cache.get(key(2));
    assert!(got.is_some());
    assert_eq!(cache.get(key(1)).map(|f| f.pts_ns), Some(9));
}

#[test]
fn keys_of_different_takes_should_not_collide() {
    let mut cache = FrameCache::new(1000);
    cache.insert(FrameKey { take: 0, frame: 1 }, frame(10));
    assert!(cache.get(FrameKey { take: 1, frame: 1 }).is_none());
    assert!(cache.get(FrameKey { take: 0, frame: 1 }).is_some());
}

#[test]
fn uses_should_count_every_lookup_and_store() {
    let mut cache = FrameCache::new(1000);
    assert_eq!(cache.uses(), 0);
    cache.insert(key(1), frame(10));
    cache.get(key(1));
    cache.get(key(2));
    assert_eq!(cache.uses(), 3);
}

#[test]
fn insert_should_evict_only_until_back_under_cap() {
    let mut cache = FrameCache::new(250);
    cache.insert(key(1), frame(10));
    cache.insert(key(2), frame(200));
    cache.insert(key(3), frame(30));
    cache.insert(key(4), frame(100));
    assert!(cache.get(key(1)).is_none());
    assert!(cache.get(key(2)).is_none());
    assert!(cache.get(key(3)).is_some());
    assert!(cache.get(key(4)).is_some());
}
