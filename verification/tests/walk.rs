use breez::walk::FrameWalk;

#[test]
fn walk_should_show_nothing_before_the_first_frame() {
    let walk: FrameWalk<u32> = FrameWalk::new();
    assert!(walk.current().is_none());
}

#[test]
fn walk_should_hold_a_frame_ahead_of_the_request_as_pending() {
    let mut walk: FrameWalk<u32> = FrameWalk::new();
    walk.take(0, 10, 50);
    assert_eq!(walk.current(), Some(&10));
    walk.take(100, 11, 50);
    assert_eq!(walk.current(), Some(&10));
    assert!(!walk.settle(50));
    assert!(walk.settle(100));
    assert_eq!(walk.current(), Some(&11));
}

#[test]
fn walk_should_show_a_pending_frame_when_nothing_came_before() {
    let mut walk: FrameWalk<u32> = FrameWalk::new();
    walk.take(100, 7, 50);
    assert_eq!(walk.current(), Some(&7));
}

#[test]
fn walk_should_ask_for_a_seek_when_the_request_goes_backwards() {
    let mut walk: FrameWalk<u32> = FrameWalk::new();
    walk.take(100, 1, 100);
    assert!(!walk.rewind(150));
    assert_eq!(walk.current(), Some(&1));
    assert!(walk.rewind(40));
    assert!(walk.current().is_none());
}

#[test]
fn walk_should_need_frames_while_nothing_is_pending() {
    let mut walk: FrameWalk<u32> = FrameWalk::new();
    assert!(walk.settle(0));
    walk.take(0, 3, 0);
    assert!(walk.settle(10));
    assert_eq!(walk.current(), Some(&3));
}
