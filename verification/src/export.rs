//! Export settings, progress reports and the handle on a running export.
//!
//! The UI thread only ever touches the progress channel and the cancel
//! flag, so a long export never blocks a repaint.
use std::path::PathBuf;
use std::sync::atomic::AtomicBool;
use std::sync::mpsc::{Receiver, TryRecvError};
use std::sync::Arc;
use vstd::prelude::*;

verus! {

#[derive(Debug, Clone, Copy, PartialEq, Eq, Structural)]
pub enum Quality {
    High,
    Balanced,
    Small,
}

impl Quality {
    /// x264 constant rate factor; lower is better quality.
    pub fn crf(self) -> (r: u8)
        ensures
            r == match self {
                Quality::High => 18u8,
                Quality::Balanced => 23u8,
                Quality::Small => 28u8,
            },
    {
        match self {
            Quality::High => 18,
            Quality::Balanced => 23,
            Quality::Small => 28,
        }
    }

    pub fn label(self) -> (r: &'static str)
        ensures
            r@ == match self {
                Quality::High => "High"@,
                Quality::Balanced => "Balanced"@,
                Quality::Small => "Small"@,
            },
    {
        match self {
            Quality::High => "High",
            Quality::Balanced => "Balanced",
            Quality::Small => "Small",
        }
    }
}

#[derive(Debug, Clone, Copy, PartialEq, Eq, Structural)]
pub enum Preset {
    P1080,
    P1440,
    Source,
}

impl Preset {
    /// Short side of the output in pixels; the ratio sets the other.
    /// `take_short` is the source's short side, so a portrait take does not
    /// export at its long side.
    pub fn short_side(self, take_short: u32) -> (r: u32)
        ensures
            r == match self {
                Preset::P1080 => 1080,
                Preset::P1440 => 1440,
                Preset::Source => if take_short >= 2 {
                    take_short
                } else {
                    2
                },
            },
    {
        match self {
            Preset::P1080 => 1080,
            Preset::P1440 => 1440,
            Preset::Source => if take_short >= 2 {
                take_short
            } else {
                2
            },
        }
    }

    pub fn label(self) -> (r: &'static str)
        ensures
            r@ == match self {
                Preset::P1080 => "1080p"@,
                Preset::P1440 => "1440p"@,
                Preset::Source => "Source"@,
            },
    {
        match self {
            Preset::P1080 => "1080p",
            Preset::P1440 => "1440p",
            Preset::Source => "Source",
        }
    }
}

#[derive(Debug, Clone)]
pub struct Settings {
    pub preset: Preset,
    pub quality: Quality,
    pub dest: PathBuf,
}

#[derive(Debug, Clone)]
pub struct Progress {
    pub done: u64,
    pub total: u64,
    /// `Some` once the job ended: the written path, or the error message.
    pub finished: Option<Result<PathBuf, String>>,
}

impl Progress {
    /// Fold a report from the worker into the latest one: the report wins,
    /// except that the total never shrinks.
    pub fn merged(latest: &Progress, report: Progress) -> (r: Progress)
        ensures
            r.done == report.done,
            r.total == if latest.total >= report.total {
                latest.total
            } else {
                report.total
            },
            r.finished == report.finished,
    {
        let total = if latest.total >= report.total {
            latest.total
        } else {
            report.total
        };
        Progress { done: report.done, total, finished: report.finished }
    }

    /// The progress a job starts with: no frame of `total` done yet.
    pub fn started(total: u64) -> (r: Progress)
        ensures
            r.done == 0,
            r.total == total,
            r.finished is None,
    {
        Progress { done: 0, total, finished: None }
    }

    /// The report a job sends itself when its worker thread could not be
    /// started: nothing done, and failed.
    pub fn not_started(total: u64) -> (r: Progress)
        ensures
            r.done == 0,
            r.total == total,
            r.finished matches Some(Err(m)) && m@ == not_started_message(),
    {
        Progress {
            done: 0,
            total,
            finished: Some(Err(String::from_str("could not start the export thread"))),
        }
    }

    /// The last report a worker sends, once its run returned: every frame
    /// counted, with the outcome (the written path, or the error).
    pub fn final_report(total: u64, outcome: Result<PathBuf, String>) -> (r: Progress)
        ensures
            r.done == total,
            r.total == total,
            r.finished == Some(outcome),
    {
        Progress { done: total, total, finished: Some(outcome) }
    }

    /// What the dialog shows once the worker is gone: a job that ended on
    /// its own keeps its outcome, one that vanished without a final report
    /// (it panicked) is reported as failed, so the dialog can leave the
    /// progress view.
    pub fn after_disconnect(latest: Progress) -> (r: Progress)
        ensures
            r.done == latest.done,
            r.total == latest.total,
            latest.finished is Some ==> r.finished == latest.finished,
            latest.finished is None ==> (r.finished matches Some(Err(m)) && m@
                == "the export worker stopped unexpectedly"@),
    {
        match latest.finished {
            Some(outcome) => Progress { done: latest.done, total: latest.total, finished: Some(outcome) },
            None => Progress {
                done: latest.done,
                total: latest.total,
                finished: Some(Err(String::from_str("the export worker stopped unexpectedly"))),
            },
        }
    }
}

/// A copy of a progress report.
pub fn copy_progress(p: &Progress) -> (r: Progress)
    ensures
        r == *p,
{
    let finished = match &p.finished {
        Some(Ok(path)) => Some(Ok(path.clone())),
        Some(Err(message)) => Some(Err(message.clone())),
        None => None,
    };
    Progress { done: p.done, total: p.total, finished }
}

/// What one look at the progress channel found.
pub enum Received {
    Report(Progress),
    Empty,
    /// The worker dropped its end of the channel.
    Disconnected,
}

/// What a poll does with what it found: keep draining with the merged
/// progress, or stop with the progress to show and whether the worker
/// vanished without a final report.
pub enum PollStep {
    Continue(Progress),
    Done(Progress, bool),
}

/// The message a job reports when its worker thread could not be started.
pub open spec fn not_started_message() -> Seq<char> {
    "could not start the export thread"@
}

/// The progress a poll step leaves to show.
pub open spec fn progress_of(step: PollStep) -> Progress {
    match step {
        PollStep::Continue(p) => p,
        PollStep::Done(p, _) => p,
    }
}

/// Progress that does not go back on `latest`: no fewer frames done, no
/// smaller total, and an outcome, once there is one, kept.
pub open spec fn keeps_progress(latest: Progress, p: Progress) -> bool {
    &&& p.done >= latest.done
    &&& p.total >= latest.total
    &&& latest.finished is Some ==> p.finished == latest.finished
}

/// The message a job reports when its worker vanished without a final report.
pub open spec fn vanished_message() -> Seq<char> {
    "the export worker stopped unexpectedly"@
}

/// A report folded into the latest one: the report wins, except that the
/// total never shrinks.
pub open spec fn merged_spec(latest: Progress, report: Progress) -> Progress {
    Progress {
        done: report.done,
        total: if latest.total >= report.total {
            latest.total
        } else {
            report.total
        },
        finished: report.finished,
    }
}

/// One step of draining the channel. A report is merged in and ends the
/// poll once it is final; an empty channel ends the poll; a hung-up channel
/// ends it too, and a job that never sent its final report is then failed.
pub fn poll_step(latest: Progress, got: Received) -> (r: PollStep)
    ensures
        match got {
            Received::Report(report) => {
                let m = merged_spec(latest, report);
                if m.finished is Some {
                    r == PollStep::Done(m, false)
                } else {
                    r == PollStep::Continue(m)
                }
            },
            Received::Empty => r == PollStep::Done(latest, false),
            Received::Disconnected => if latest.finished is None {
                &&& r matches PollStep::Done(p, true)
                &&& r->Done_0.done == latest.done
                &&& r->Done_0.total == latest.total
                &&& (r->Done_0.finished matches Some(Err(m)) && m@ == vanished_message())
            } else {
                r == PollStep::Done(latest, false)
            },
        },
        // A worker that reports each frame at least as far as the last and
        // nothing after its final report never sees its progress go back.
        (got matches Received::Report(report) ==> latest.finished is None && report.done
            >= latest.done) ==> keeps_progress(latest, progress_of(r)),
{
    match got {
        Received::Report(report) => {
            let m = Progress::merged(&latest, report);
            if m.finished.is_some() {
                PollStep::Done(m, false)
            } else {
                PollStep::Continue(m)
            }
        },
        Received::Empty => PollStep::Done(latest, false),
        Received::Disconnected => {
            if latest.finished.is_none() {
                PollStep::Done(Progress::after_disconnect(latest), true)
            } else {
                PollStep::Done(latest, false)
            }
        },
    }
}

/// `Receiver::try_recv` on the progress channel: a queued report, nothing
/// yet, or a worker that has hung up. What comes back depends on the worker
/// thread, so nothing is stated of it.
#[verifier::external_body]
fn try_receive(rx: &Receiver<Progress>) -> Received {
    match rx.try_recv() {
        Ok(report) => Received::Report(report),
        Err(TryRecvError::Empty) => Received::Empty,
        Err(TryRecvError::Disconnected) => Received::Disconnected,
    }
}

/// A running export: the progress channel from the worker, the cancel flag
/// it polls, the latest progress seen, and the partial file it writes.
pub struct ExportJob {
    pub rx: Receiver<Progress>,
    pub cancel: Arc<AtomicBool>,
    pub latest: Progress,
    pub partial: PathBuf,
}

impl ExportJob {
    /// The handle on a job just started: the worker's channel and cancel
    /// flag, its partial file, and no frame of `total` done yet.
    pub fn new(rx: Receiver<Progress>, cancel: Arc<AtomicBool>, total: u64, partial: PathBuf) -> (r: ExportJob)
        ensures
            r.latest.done == 0,
            r.latest.total == total,
            r.latest.finished is None,
            r.partial == partial,
    {
        ExportJob { rx, cancel, latest: Progress::started(total), partial }
    }

    /// Latest progress, draining everything queued so a slow UI frame does
    /// not fall behind the worker. The flag is set when the worker vanished
    /// without its final report (it panicked): its partial file is then
    /// left for the caller to remove, and the job reports itself failed.
    pub fn poll(&mut self) -> (r: (Progress, bool))
        ensures
            r.0 == final(self).latest,
            final(self).latest.total >= old(self).latest.total,
            final(self).partial == old(self).partial,
            r.1 ==> (r.0.finished matches Some(Err(m)) && m@ == vanished_message()),
    {
        // A worker sends one report per frame and a final one, so the bound
        // on the rounds is never what ends the loop.
        let mut rounds: u64 = 0;
        while rounds < u64::MAX
            invariant
                self.latest.total >= old(self).latest.total,
                self.partial == old(self).partial,
            decreases u64::MAX - rounds,
        {
            let got = try_receive(&self.rx);
            let latest = copy_progress(&self.latest);
            match poll_step(latest, got) {
                PollStep::Continue(progress) => {
                    self.latest = progress;
                },
                PollStep::Done(progress, vanished) => {
                    self.latest = progress;
                    return (copy_progress(&self.latest), vanished);
                },
            }
            rounds = rounds + 1;
        }
        (copy_progress(&self.latest), false)
    }

    /// Ask the worker to stop; it aborts at the next frame.
    pub fn cancel(&self) {
        self.cancel.store(true, std::sync::atomic::Ordering::Relaxed);
    }
}

} // verus!
