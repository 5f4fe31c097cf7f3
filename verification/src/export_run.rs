//! The decisions of an export run, as a state machine the export worker
//! drives: the caller performs each action (opening the encoder, composing a
//! frame, closing and renaming) and hands back what happened.
//!
//! The encoder writes to a partial file beside the destination, renamed over
//! it only once every frame is in and the encoder closed cleanly. So a run
//! that is refused touches nothing, and one that is cancelled or fails once
//! the partial file exists removes it and leaves the destination as it was.
use std::path::PathBuf;
use vstd::prelude::*;

use crate::project::{primary_take_index, Project};

verus! {

/// Where an export run stands.
#[derive(Debug, Clone, Copy, PartialEq, Eq, Structural)]
pub enum ExportRun {
    /// Nothing checked or opened yet.
    Start,
    /// Checked; the partial file, the encoder and the source are opening.
    Opening { total: u64 },
    /// `done` of `total` frames are pushed; the next one is due.
    Rendering { done: u64, total: u64 },
    /// Frame `done` is being composed and pushed.
    Composing { done: u64, total: u64 },
    /// Every frame is pushed; closing is due.
    Finishing { total: u64 },
    /// The encoder is closing and the partial file is being renamed.
    Closing { total: u64 },
    /// The run is over.
    Ended,
}

/// What happened since the last action.
#[derive(Debug, PartialEq, Eq)]
pub enum ExportEvent {
    /// The checks before anything is written: whether the destination lies
    /// inside the package, whether the timeline plays a take, whether that
    /// take's video resolves, and how many frames the timeline has.
    Planned { inside_package: bool, has_take: bool, video: Result<(), String>, total: u64 },
    /// The partial file could not be created: something is already at its
    /// path, which is not the run's to remove.
    PartialRefused(String),
    /// The partial file was created, but the encoder or the source failed to
    /// open.
    OpenFailed(String),
    /// The encoder and the source are open.
    Opened,
    /// A frame is due; whether a cancel was asked for.
    Due { cancelled: bool },
    /// The due frame was composed and pushed, or failed.
    Composed(Result<(), String>),
    /// The encoder closed and the partial file was renamed over the
    /// destination, or that failed.
    Closed(Result<(), String>),
}

/// What the caller does next.
#[derive(Debug, Clone, PartialEq, Eq)]
pub enum ExportAction {
    /// End the run with this error; nothing was written.
    Refuse(String),
    /// Create the partial file (refusing anything already at its path), then
    /// open the encoder on it and the source video.
    Open,
    /// Read the cancel flag and report it as `Due`.
    Next,
    /// Compose frame `index` and push it to the encoder.
    Compose(u64),
    /// Report that `done` of `total` frames are pushed, then read the cancel
    /// flag and report it as `Due`.
    Report { done: u64, total: u64 },
    /// Close the encoder and rename the partial file over the destination.
    Finish,
    /// Stop the encoder, remove the partial file, end the run with this
    /// error.
    Abort(String),
    /// End the run: the destination holds the export.
    Succeed,
    /// Nothing: the event does not belong to where the run stands.
    Ignore,
}

/// An action as the contracts speak of it: messages by their text.
pub ghost enum Act {
    Refuse(Seq<char>),
    Open,
    Next,
    Compose(u64),
    Report { done: u64, total: u64 },
    Finish,
    Abort(Seq<char>),
    Succeed,
    Ignore,
}

/// The contracts' view of an action.
pub open spec fn act_of(action: ExportAction) -> Act {
    match action {
        ExportAction::Refuse(m) => Act::Refuse(m@),
        ExportAction::Open => Act::Open,
        ExportAction::Next => Act::Next,
        ExportAction::Compose(i) => Act::Compose(i),
        ExportAction::Report { done, total } => Act::Report { done, total },
        ExportAction::Finish => Act::Finish,
        ExportAction::Abort(m) => Act::Abort(m@),
        ExportAction::Succeed => Act::Succeed,
        ExportAction::Ignore => Act::Ignore,
    }
}

/// The frame counts a run's states carry are consistent.
pub open spec fn run_wf(run: ExportRun) -> bool {
    match run {
        ExportRun::Opening { total } => total > 0,
        ExportRun::Rendering { done, total } => done < total,
        ExportRun::Composing { done, total } => done < total,
        _ => true,
    }
}

/// Frames pushed so far.
pub open spec fn pushed(run: ExportRun) -> nat {
    match run {
        ExportRun::Rendering { done, .. } => done as nat,
        ExportRun::Composing { done, .. } => done as nat,
        ExportRun::Finishing { total } => total as nat,
        ExportRun::Closing { total } => total as nat,
        _ => 0,
    }
}

/// Frames the run has to push.
pub open spec fn frames_total(run: ExportRun) -> nat {
    match run {
        ExportRun::Opening { total } => total as nat,
        ExportRun::Rendering { total, .. } => total as nat,
        ExportRun::Composing { total, .. } => total as nat,
        ExportRun::Finishing { total } => total as nat,
        ExportRun::Closing { total } => total as nat,
        _ => 0,
    }
}

pub open spec fn inside_package_message() -> Seq<char> {
    "choose a destination outside the .rec package"@
}

pub open spec fn no_take_message() -> Seq<char> {
    "timeline references no take"@
}

pub open spec fn empty_message() -> Seq<char> {
    "timeline is empty"@
}

pub open spec fn cancelled_message() -> Seq<char> {
    "export cancelled"@
}

/// One step of a run: where it stands next and what the caller does. The
/// checks refuse, in this order, a destination inside the package (writing
/// there would overwrite the recording the export reads), a timeline that
/// plays no take, a take whose video does not resolve, and an empty
/// timeline. Before each frame a cancel aborts; a frame that fails aborts;
/// after the last frame the encoder closes and the partial file is renamed.
pub open spec fn export_next(run: ExportRun, event: ExportEvent) -> (ExportRun, Act) {
    match (run, event) {
        (ExportRun::Start, ExportEvent::Planned { inside_package, has_take, video, total }) => {
            if inside_package {
                (ExportRun::Ended, Act::Refuse(inside_package_message()))
            } else if !has_take {
                (ExportRun::Ended, Act::Refuse(no_take_message()))
            } else if video is Err {
                (ExportRun::Ended, Act::Refuse(video->Err_0@))
            } else if total == 0 {
                (ExportRun::Ended, Act::Refuse(empty_message()))
            } else {
                (ExportRun::Opening { total }, Act::Open)
            }
        },
        (ExportRun::Opening { .. }, ExportEvent::PartialRefused(e)) => (
            ExportRun::Ended,
            Act::Refuse(e@),
        ),
        (ExportRun::Opening { .. }, ExportEvent::OpenFailed(e)) => (
            ExportRun::Ended,
            Act::Abort(e@),
        ),
        (ExportRun::Opening { total }, ExportEvent::Opened) => (
            ExportRun::Rendering { done: 0, total },
            Act::Next,
        ),
        (ExportRun::Rendering { done, total }, ExportEvent::Due { cancelled }) => {
            if cancelled {
                (ExportRun::Ended, Act::Abort(cancelled_message()))
            } else {
                (ExportRun::Composing { done, total }, Act::Compose(done))
            }
        },
        (ExportRun::Composing { done, total }, ExportEvent::Composed(outcome)) => {
            match outcome {
                Err(e) => (ExportRun::Ended, Act::Abort(e@)),
                Ok(()) => {
                    let next = (done + 1) as u64;
                    if next < total {
                        (
                            ExportRun::Rendering { done: next, total },
                            Act::Report { done: next, total },
                        )
                    } else {
                        (ExportRun::Finishing { total }, Act::Report { done: next, total })
                    }
                },
            }
        },
        (ExportRun::Finishing { total }, ExportEvent::Due { .. }) => (
            ExportRun::Closing { total },
            Act::Finish,
        ),
        (ExportRun::Closing { .. }, ExportEvent::Closed(outcome)) => {
            match outcome {
                Ok(()) => (ExportRun::Ended, Act::Succeed),
                Err(e) => (ExportRun::Ended, Act::Abort(e@)),
            }
        },
        (run, _) => (run, Act::Ignore),
    }
}

/// The next state of a run and what the caller does next.
pub fn export_step(state: &ExportRun, event: ExportEvent) -> (r: (ExportRun, ExportAction))
    requires
        run_wf(*state),
    ensures
        (r.0, act_of(r.1)) == export_next(*state, event),
        run_wf(r.0),
{
    match (*state, event) {
        (ExportRun::Start, ExportEvent::Planned { inside_package, has_take, video, total }) => {
            if inside_package {
                (
                    ExportRun::Ended,
                    ExportAction::Refuse(
                        String::from_str("choose a destination outside the .rec package"),
                    ),
                )
            } else if !has_take {
                (
                    ExportRun::Ended,
                    ExportAction::Refuse(String::from_str("timeline references no take")),
                )
            } else if let Err(e) = video {
                (ExportRun::Ended, ExportAction::Refuse(e))
            } else if total == 0 {
                (ExportRun::Ended, ExportAction::Refuse(String::from_str("timeline is empty")))
            } else {
                (ExportRun::Opening { total }, ExportAction::Open)
            }
        },
        (ExportRun::Opening { .. }, ExportEvent::PartialRefused(e)) => (
            ExportRun::Ended,
            ExportAction::Refuse(e),
        ),
        (ExportRun::Opening { .. }, ExportEvent::OpenFailed(e)) => (
            ExportRun::Ended,
            ExportAction::Abort(e),
        ),
        (ExportRun::Opening { total }, ExportEvent::Opened) => (
            ExportRun::Rendering { done: 0, total },
            ExportAction::Next,
        ),
        (ExportRun::Rendering { done, total }, ExportEvent::Due { cancelled }) => {
            if cancelled {
                (ExportRun::Ended, ExportAction::Abort(String::from_str("export cancelled")))
            } else {
                (ExportRun::Composing { done, total }, ExportAction::Compose(done))
            }
        },
        (ExportRun::Composing { done, total }, ExportEvent::Composed(outcome)) => {
            match outcome {
                Err(e) => (ExportRun::Ended, ExportAction::Abort(e)),
                Ok(()) => {
                    let next = done + 1;
                    if next < total {
                        (
                            ExportRun::Rendering { done: next, total },
                            ExportAction::Report { done: next, total },
                        )
                    } else {
                        (ExportRun::Finishing { total }, ExportAction::Report { done: next, total })
                    }
                },
            }
        },
        (ExportRun::Finishing { total }, ExportEvent::Due { .. }) => (
            ExportRun::Closing { total },
            ExportAction::Finish,
        ),
        (ExportRun::Closing { .. }, ExportEvent::Closed(outcome)) => {
            match outcome {
                Ok(()) => (ExportRun::Ended, ExportAction::Succeed),
                Err(e) => (ExportRun::Ended, ExportAction::Abort(e)),
            }
        },
        (run, _) => (run, ExportAction::Ignore),
    }
}

/// Whether `dest` lies under `root`, as `Path::starts_with` compares their
/// components.
pub uninterp spec fn path_within(dest: PathBuf, root: PathBuf) -> bool;

/// `Path::starts_with`.
#[verifier::external_body]
fn starts_with(dest: &PathBuf, root: &PathBuf) -> (r: bool)
    ensures
        r == path_within(*dest, *root),
{
    dest.starts_with(root)
}

/// The checks a run starts with, for a destination, the package root, the
/// project, whether the rendered take's video resolves, and the timeline's
/// frame count.
pub fn plan_export(
    dest: &PathBuf,
    package_root: &PathBuf,
    project: &Project,
    video: Result<(), String>,
    total: u64,
) -> (r: ExportEvent)
    ensures
        r == (ExportEvent::Planned {
            inside_package: path_within(*dest, *package_root),
            has_take: primary_take_index(*project) is Some,
            video,
            total,
        }),
{
    ExportEvent::Planned {
        inside_package: starts_with(dest, package_root),
        has_take: project.primary_take().is_some(),
        video,
        total,
    }
}

/// An export into the package is refused before anything is written,
/// whatever else the plan holds.
pub proof fn law_inside_package_refused(has_take: bool, video: Result<(), String>, total: u64)
    ensures
        export_next(
            ExportRun::Start,
            ExportEvent::Planned { inside_package: true, has_take, video, total },
        ) == (ExportRun::Ended, Act::Refuse(inside_package_message())),
{
}

/// A run never touches what it does not own: before the partial file is
/// created it only refuses and never aborts, and once the partial file is
/// its own every failure or cancel aborts (removing it) rather than
/// refusing.
pub proof fn law_failures_clean_up_the_partial(run: ExportRun, event: ExportEvent)
    requires
        run_wf(run),
    ensures
        run is Start ==> !(export_next(run, event).1 is Abort),
        (run is Rendering || run is Composing || run is Finishing || run is Closing) ==> !(export_next(
            run,
            event,
        ).1 is Refuse),
{
}

/// The destination is written only after every frame: frames are counted
/// one per report, no step loses a counted frame, and `Finish` (the only
/// action that writes the destination) comes only once all `total` frames
/// are pushed. A run that ends any other way leaves the destination alone.
pub proof fn law_destination_only_after_every_frame(run: ExportRun, event: ExportEvent)
    requires
        run_wf(run),
    ensures
        ({
            let (next, action) = export_next(run, event);
            &&& run_wf(next)
            &&& !(next is Ended) ==> frames_total(next) == frames_total(run) || run is Start
            &&& !(next is Ended) ==> pushed(next) == pushed(run) + if action is Report {
                1nat
            } else {
                0nat
            }
            &&& action matches Act::Report { done, total } ==> done == pushed(next)
                && total == frames_total(next)
            &&& action is Finish ==> run is Finishing && pushed(run) == frames_total(run)
            &&& action is Succeed ==> run is Closing
        }),
{
}

/// Where a run stands after a list of events, and the actions it answered
/// them with, in order.
pub open spec fn replay(run: ExportRun, events: Seq<ExportEvent>) -> (ExportRun, Seq<Act>)
    decreases events.len(),
{
    if events.len() == 0 {
        (run, Seq::empty())
    } else {
        let (mid, acts) = replay(run, events.drop_last());
        let (next, act) = export_next(mid, events.last());
        (next, acts.push(act))
    }
}

/// The progress reports among a list of actions, as `(done, total)`, in
/// order.
pub open spec fn reports_of(acts: Seq<Act>) -> Seq<(u64, u64)>
    decreases acts.len(),
{
    if acts.len() == 0 {
        Seq::empty()
    } else {
        match acts.last() {
            Act::Report { done, total } => reports_of(acts.drop_last()).push((done, total)),
            _ => reports_of(acts.drop_last()),
        }
    }
}

/// What holds of the reports after every prefix of a run from the start.
pub open spec fn reports_inv(end: ExportRun, acts: Seq<Act>) -> bool {
    let reports = reports_of(acts);
    &&& run_wf(end)
    &&& forall|i: int| 0 <= i < reports.len() ==> #[trigger] reports[i].0 == i + 1
    &&& forall|i: int|
        0 <= i < reports.len() ==> #[trigger] reports[i].1 == reports[0].1 && reports[i].0
            <= reports[i].1
    &&& !(end is Ended || end is Start) ==> reports.len() == pushed(end)
    &&& (!(end is Ended || end is Start) && reports.len() > 0) ==> reports[0].1 == frames_total(
        end,
    )
    &&& (end is Finishing || end is Closing) ==> reports.len() > 0 && reports.last().0
        == reports.last().1
    &&& (acts.contains(Act::Finish) || acts.contains(Act::Succeed)) ==> (end is Closing
        || end is Ended) && reports.len() > 0 && reports.last().0 == reports.last().1
    &&& end is Start ==> acts.len() == 0 || reports.len() == 0
}

proof fn lemma_replay_reports(events: Seq<ExportEvent>)
    ensures
        reports_inv(replay(ExportRun::Start, events).0, replay(ExportRun::Start, events).1),
    decreases events.len(),
{
    if events.len() > 0 {
        let (mid, acts) = replay(ExportRun::Start, events.drop_last());
        lemma_replay_reports(events.drop_last());
        let (next, act) = export_next(mid, events.last());
        let acts2 = acts.push(act);
        assert(acts2.drop_last() =~= acts);
        assert(acts2.last() == act);
        let reports = reports_of(acts);
        let reports2 = reports_of(acts2);
        if act is Report {
            assert(reports2 == reports.push((act->done, act->total)));
        } else {
            assert(reports2 == reports);
        }
        assert forall|x: Act| acts2.contains(x) implies acts.contains(x) || x == act by {
            if acts2.contains(x) {
                let k = choose|k: int| 0 <= k < acts2.len() && acts2[k] == x;
                if k < acts.len() {
                    assert(acts[k] == x);
                }
            }
        }
        assert forall|x: Act| acts.contains(x) implies acts2.contains(x) by {
            let k = choose|k: int| 0 <= k < acts.len() && acts[k] == x;
            assert(acts2[k] == x);
        }
    }
}

/// Progress only ever goes forward within a run: from the start, whatever
/// happens, the run reports frame 1, then 2, and so on, every report against
/// the same total, and the destination is written (`Finish`) or the run
/// succeeds only after a report that all `total` frames are done.
pub proof fn law_progress_goes_forward(events: Seq<ExportEvent>)
    ensures
        ({
            let (end, acts) = replay(ExportRun::Start, events);
            let reports = reports_of(acts);
            &&& forall|i: int| 0 <= i < reports.len() ==> #[trigger] reports[i].0 == i + 1
            &&& forall|i: int, j: int|
                0 <= i < j < reports.len() ==> #[trigger] reports[i].0 < #[trigger] reports[j].0
                    && reports[i].1 == reports[j].1
            &&& forall|i: int| 0 <= i < reports.len() ==> #[trigger] reports[i].0 <= reports[i].1
            &&& (acts.contains(Act::Finish) || acts.contains(Act::Succeed)) ==> reports.len() > 0
                && reports.last().0 == reports.last().1
        }),
{
    lemma_replay_reports(events);
    let (end, acts) = replay(ExportRun::Start, events);
    let reports = reports_of(acts);
    assert forall|i: int, j: int|
        0 <= i < j < reports.len() implies #[trigger] reports[i].0 < #[trigger] reports[j].0
        && reports[i].1 == reports[j].1 by {
        assert(reports[i].0 == i + 1);
        assert(reports[j].0 == j + 1);
        assert(reports[i].1 == reports[0].1);
        assert(reports[j].1 == reports[0].1);
    }
}

} // verus!
