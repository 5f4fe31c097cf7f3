use breez::export::{copy_progress, poll_step, ExportJob, PollStep, Progress, Received};
use std::path::PathBuf;
use std::sync::atomic::{AtomicBool, Ordering};
use std::sync::mpsc;
use std::sync::Arc;

fn progress(done: u64, total: u64) -> Progress {
    Progress { done, total, finished: None }
}

fn job(rx: mpsc::Receiver<Progress>, latest: Progress) -> ExportJob {
    ExportJob {
        rx,
        cancel: Arc::new(AtomicBool::new(false)),
        latest,
        partial: PathBuf::from("/tmp/.out.mp4.part-1-0.mp4"),
    }
}

#[test]
fn a_step_should_keep_draining_until_a_final_report() {
    match poll_step(progress(1, 10), Received::Report(progress(2, 8))) {
        PollStep::Continue(p) => assert_eq!((p.done, p.total), (2, 10)),
        PollStep::Done(..) => panic!("should continue"),
    }
    let last = Progress { done: 10, total: 10, finished: Some(Ok(PathBuf::from("/tmp/x.mp4"))) };
    match poll_step(progress(9, 10), Received::Report(last)) {
        PollStep::Done(p, vanished) => {
            assert!(!vanished);
            assert_eq!(p.finished, Some(Ok(PathBuf::from("/tmp/x.mp4"))));
        }
        PollStep::Continue(_) => panic!("should stop"),
    }
    match poll_step(progress(3, 10), Received::Empty) {
        PollStep::Done(p, vanished) => assert!(!vanished && p.done == 3),
        PollStep::Continue(_) => panic!("should stop"),
    }
}

#[test]
fn a_hung_up_worker_without_a_final_report_should_fail_the_job() {
    match poll_step(progress(3, 10), Received::Disconnected) {
        PollStep::Done(p, vanished) => {
            assert!(vanished);
            assert_eq!(p.finished, Some(Err("the export worker stopped unexpectedly".to_owned())));
        }
        PollStep::Continue(_) => panic!("should stop"),
    }
    let done = Progress { done: 10, total: 10, finished: Some(Err("export cancelled".to_owned())) };
    match poll_step(done, Received::Disconnected) {
        PollStep::Done(p, vanished) => {
            assert!(!vanished);
            assert_eq!(p.finished, Some(Err("export cancelled".to_owned())));
        }
        PollStep::Continue(_) => panic!("should stop"),
    }
}

#[test]
fn poll_should_drain_every_queued_report() {
    let (tx, rx) = mpsc::channel();
    let mut job = job(rx, progress(0, 100));
    tx.send(progress(1, 100)).unwrap();
    tx.send(progress(2, 100)).unwrap();
    tx.send(progress(3, 90)).unwrap();
    let (p, vanished) = job.poll();
    assert!(!vanished);
    assert_eq!((p.done, p.total), (3, 100));
    assert_eq!(job.latest.done, 3);
    let (p, vanished) = job.poll();
    assert!(!vanished);
    assert_eq!(p.done, 3);
    drop(tx);
}

#[test]
fn poll_should_report_a_worker_that_vanished() {
    let (tx, rx) = mpsc::channel();
    let mut job = job(rx, progress(0, 100));
    tx.send(progress(4, 100)).unwrap();
    drop(tx);
    let (p, vanished) = job.poll();
    assert!(vanished);
    assert_eq!(p.done, 4);
    assert_eq!(p.finished, Some(Err("the export worker stopped unexpectedly".to_owned())));
    let (p, vanished) = job.poll();
    assert!(!vanished);
    assert!(p.finished.is_some());
}

#[test]
fn poll_should_stop_at_the_final_report() {
    let (tx, rx) = mpsc::channel();
    let mut job = job(rx, progress(0, 100));
    tx.send(Progress { done: 100, total: 100, finished: Some(Ok(PathBuf::from("/tmp/o.mp4"))) }).unwrap();
    tx.send(progress(7, 100)).unwrap();
    let (p, _) = job.poll();
    assert_eq!(p.finished, Some(Ok(PathBuf::from("/tmp/o.mp4"))));
    assert_eq!(p.done, 100);
}

#[test]
fn cancel_should_raise_the_flag() {
    let (_tx, rx) = mpsc::channel();
    let job = job(rx, progress(0, 1));
    job.cancel();
    assert!(job.cancel.load(Ordering::Relaxed));
    let copy = copy_progress(&job.latest);
    assert_eq!((copy.done, copy.total), (0, 1));
}

#[test]
fn a_job_should_start_with_nothing_done() {
    let p = Progress::started(120);
    assert_eq!((p.done, p.total), (0, 120));
    assert!(p.finished.is_none());
    let (_tx, rx) = mpsc::channel();
    let j = ExportJob::new(rx, Arc::new(AtomicBool::new(false)), 120, PathBuf::from("/tmp/p.mp4"));
    assert_eq!((j.latest.done, j.latest.total), (0, 120));
    assert!(j.latest.finished.is_none());
    assert_eq!(j.partial, PathBuf::from("/tmp/p.mp4"));
}

#[test]
fn a_worker_that_could_not_start_should_fail_the_job() {
    let p = Progress::not_started(50);
    assert_eq!((p.done, p.total), (0, 50));
    assert_eq!(p.finished, Some(Err("could not start the export thread".to_owned())));
}

#[test]
fn the_final_report_should_count_every_frame() {
    let p = Progress::final_report(50, Err("export cancelled".to_owned()));
    assert_eq!((p.done, p.total), (50, 50));
    assert_eq!(p.finished, Some(Err("export cancelled".to_owned())));
    let p = Progress::final_report(7, Ok(PathBuf::from("/tmp/out.mp4")));
    assert_eq!((p.done, p.total), (7, 7));
    assert_eq!(p.finished, Some(Ok(PathBuf::from("/tmp/out.mp4"))));
}

#[test]
fn progress_should_never_go_back_across_polls() {
    let (tx, rx) = mpsc::channel();
    let mut j = ExportJob::new(rx, Arc::new(AtomicBool::new(false)), 3, PathBuf::from("/tmp/p.mp4"));
    tx.send(progress(1, 3)).unwrap();
    let (p1, _) = j.poll();
    tx.send(progress(2, 3)).unwrap();
    let (p2, _) = j.poll();
    assert!(p2.done >= p1.done && p2.total >= p1.total);
    tx.send(Progress::final_report(3, Ok(PathBuf::from("/tmp/out.mp4")))).unwrap();
    drop(tx);
    let (p3, vanished) = j.poll();
    assert!(!vanished);
    let (p4, vanished) = j.poll();
    assert!(!vanished);
    assert_eq!(p4.finished, p3.finished);
    assert_eq!((p4.done, p4.total), (3, 3));
}
