use breez::export_run::{export_step, plan_export, ExportAction, ExportEvent, ExportRun};
use breez::project::{Clip, Project, Take};
use std::path::PathBuf;

fn planned(inside_package: bool, has_take: bool, total: u64) -> ExportEvent {
    ExportEvent::Planned { inside_package, has_take, video: Ok(()), total }
}

#[test]
fn a_destination_inside_the_package_should_be_refused_first() {
    let (state, action) = export_step(&ExportRun::Start, planned(true, false, 0));
    assert_eq!(state, ExportRun::Ended);
    assert_eq!(
        action,
        ExportAction::Refuse("choose a destination outside the .rec package".to_owned())
    );
}

#[test]
fn the_checks_should_refuse_in_order() {
    assert_eq!(
        export_step(&ExportRun::Start, planned(false, false, 0)).1,
        ExportAction::Refuse("timeline references no take".to_owned())
    );
    let unresolved = ExportEvent::Planned {
        inside_package: false,
        has_take: true,
        video: Err("no such file".to_owned()),
        total: 0,
    };
    assert_eq!(
        export_step(&ExportRun::Start, unresolved).1,
        ExportAction::Refuse("no such file".to_owned())
    );
    assert_eq!(
        export_step(&ExportRun::Start, planned(false, true, 0)).1,
        ExportAction::Refuse("timeline is empty".to_owned())
    );
}

#[test]
fn a_run_should_push_every_frame_then_finish() {
    let (s, a) = export_step(&ExportRun::Start, planned(false, true, 2));
    assert_eq!((s, a), (ExportRun::Opening { total: 2 }, ExportAction::Open));
    let (s, a) = export_step(&s, ExportEvent::Opened);
    assert_eq!((s, a), (ExportRun::Rendering { done: 0, total: 2 }, ExportAction::Next));
    let (s, a) = export_step(&s, ExportEvent::Due { cancelled: false });
    assert_eq!(a, ExportAction::Compose(0));
    let (s, a) = export_step(&s, ExportEvent::Composed(Ok(())));
    assert_eq!(a, ExportAction::Report { done: 1, total: 2 });
    let (s, a) = export_step(&s, ExportEvent::Due { cancelled: false });
    assert_eq!(a, ExportAction::Compose(1));
    let (s, a) = export_step(&s, ExportEvent::Composed(Ok(())));
    assert_eq!((s, a), (ExportRun::Finishing { total: 2 }, ExportAction::Report { done: 2, total: 2 }));
    let (s, a) = export_step(&s, ExportEvent::Due { cancelled: true });
    assert_eq!((s, a), (ExportRun::Closing { total: 2 }, ExportAction::Finish));
    let (s, a) = export_step(&s, ExportEvent::Closed(Ok(())));
    assert_eq!((s, a), (ExportRun::Ended, ExportAction::Succeed));
}

#[test]
fn a_cancel_or_failure_should_remove_the_partial() {
    let rendering = ExportRun::Rendering { done: 3, total: 10 };
    assert_eq!(
        export_step(&rendering, ExportEvent::Due { cancelled: true }),
        (ExportRun::Ended, ExportAction::Abort("export cancelled".to_owned()))
    );
    let composing = ExportRun::Composing { done: 3, total: 10 };
    assert_eq!(
        export_step(&composing, ExportEvent::Composed(Err("decode".to_owned()))).1,
        ExportAction::Abort("decode".to_owned())
    );
    let closing = ExportRun::Closing { total: 10 };
    assert_eq!(
        export_step(&closing, ExportEvent::Closed(Err("rename".to_owned()))).1,
        ExportAction::Abort("rename".to_owned())
    );
    let opening = ExportRun::Opening { total: 10 };
    assert_eq!(
        export_step(&opening, ExportEvent::OpenFailed("encoder".to_owned())).1,
        ExportAction::Abort("encoder".to_owned())
    );
    assert_eq!(
        export_step(&opening, ExportEvent::PartialRefused("exists".to_owned())).1,
        ExportAction::Refuse("exists".to_owned())
    );
}

#[test]
fn an_event_out_of_place_should_be_ignored() {
    let rendering = ExportRun::Rendering { done: 1, total: 4 };
    assert_eq!(export_step(&rendering, ExportEvent::Opened), (rendering, ExportAction::Ignore));
}

#[test]
fn the_plan_should_see_a_destination_inside_the_package() {
    let mut project = Project::new("p");
    project.takes = vec![Take {
        id: 0,
        video: "v".to_owned(),
        audio: None,
        events: None,
        width: 2,
        height: 2,
        fps: 30,
        duration_ns: 1,
    }];
    project.timeline.clips =
        vec![Clip { take: 0, src_in_ns: 0, src_out_ns: 1, speed_millionths: 1_000_000 }];
    let root = PathBuf::from("/home/a/Demo.rec");
    let inside = plan_export(&PathBuf::from("/home/a/Demo.rec/out.mp4"), &root, &project, Ok(()), 5);
    assert_eq!(inside, planned(true, true, 5));
    let outside = plan_export(&PathBuf::from("/home/a/Demo.mp4"), &root, &project, Ok(()), 5);
    assert_eq!(outside, planned(false, true, 5));
    let sibling = plan_export(&PathBuf::from("/home/a/Demo.rec2/out.mp4"), &root, &Project::new("q"), Ok(()), 5);
    assert_eq!(sibling, planned(false, false, 5));
}

#[test]
fn reports_should_count_up_to_the_total_before_the_destination_is_written() {
    let (mut s, _) = export_step(&ExportRun::Start, planned(false, true, 3));
    let mut reports = Vec::new();
    let mut finished_after = None;
    let mut event = ExportEvent::Opened;
    loop {
        let (next, action) = export_step(&s, event);
        s = next;
        event = match action {
            ExportAction::Next => ExportEvent::Due { cancelled: false },
            ExportAction::Compose(_) => ExportEvent::Composed(Ok(())),
            ExportAction::Report { done, total } => {
                reports.push((done, total));
                ExportEvent::Due { cancelled: false }
            }
            ExportAction::Finish => {
                finished_after = reports.last().copied();
                ExportEvent::Closed(Ok(()))
            }
            ExportAction::Succeed => break,
            other => panic!("unexpected {other:?}"),
        };
    }
    assert_eq!(reports, vec![(1, 3), (2, 3), (3, 3)]);
    assert_eq!(finished_after, Some((3, 3)));
}
