//! Plain UI state and the decisions the views make: app mode, tools and
//! actions, segmented controls, the record button, time readouts, and the
//! export dialog's state.
use std::path::PathBuf;
use std::sync::mpsc::{Receiver, TryRecvError};
use std::time::Duration;
use vstd::prelude::*;

use crate::export::{copy_progress, ExportJob, Preset, Progress, Quality, Settings};
use crate::project::{primary_take_index, Project};
use crate::text::{decimal, padded, push_decimal, push_padded};

verus! {

#[derive(Debug, Clone, Copy, PartialEq, Eq, Structural)]
pub enum Mode {
    Record,
    Edit,
}

#[derive(Debug, Clone, Copy, PartialEq, Eq, Structural)]
pub enum Tool {
    Media,
    Music,
}

impl Tool {
    pub fn title(self) -> (r: &'static str)
        ensures
            r@ == match self {
                Tool::Media => "Media"@,
                Tool::Music => "Music"@,
            },
    {
        match self {
            Tool::Media => "Media",
            Tool::Music => "Music",
        }
    }
}

/// Clicking a tool's rail button opens its panel, or closes it when it is
/// already open.
pub fn toggle_tool(open: Option<Tool>, clicked: Tool) -> (r: Option<Tool>)
    ensures
        r == if open == Some(clicked) {
            None
        } else {
            Some(clicked)
        },
{
    match open {
        Some(t) => if t == clicked {
            None
        } else {
            Some(clicked)
        },
        None => Some(clicked),
    }
}

#[derive(Debug, Clone, Copy, PartialEq, Eq, Structural)]
pub enum EditorAction {
    OpenRecord,
}

/// What a button of the tool rail stands for: a tool panel, the jump back to
/// the record view, or an item not built yet (shown disabled).
#[derive(Debug, Clone, Copy, PartialEq, Eq, Structural)]
pub enum RailKind {
    Tool(Tool),
    Record,
    Soon,
}

/// Whether a rail button can be clicked: every item but those not built yet.
pub fn rail_enabled(kind: RailKind) -> (r: bool)
    ensures
        r == !(kind is Soon),
{
    match kind {
        RailKind::Soon => false,
        _ => true,
    }
}

/// Whether a rail button shows as active: the tool whose panel is open.
pub fn rail_active(kind: RailKind, open: Option<Tool>) -> (r: bool)
    ensures
        r == (kind matches RailKind::Tool(t) && open == Some(t)),
{
    match kind {
        RailKind::Tool(t) => match open {
            Some(o) => o == t,
            None => false,
        },
        _ => false,
    }
}

/// A click on a rail button: a tool button opens its panel or closes it
/// when already open, Record asks to go back to the record view, and an
/// item not built yet does nothing.
pub fn rail_click(kind: RailKind, open_tool: &mut Option<Tool>) -> (r: Option<EditorAction>)
    ensures
        match kind {
            RailKind::Tool(t) => *final(open_tool) == (if *old(open_tool) == Some(t) {
                None::<Tool>
            } else {
                Some(t)
            }) && r is None,
            RailKind::Record => *final(open_tool) == *old(open_tool) && r == Some(
                EditorAction::OpenRecord,
            ),
            RailKind::Soon => *final(open_tool) == *old(open_tool) && r is None,
        },
{
    match kind {
        RailKind::Tool(t) => {
            *open_tool = toggle_tool(*open_tool, t);
            None
        },
        RailKind::Record => Some(EditorAction::OpenRecord),
        RailKind::Soon => None,
    }
}

/// What the record view shows.
pub enum RecordState {
    Idle,
    Recording { elapsed: Duration },
    Saving,
}

#[derive(Debug, Clone, Copy, PartialEq, Eq, Structural)]
pub enum RecordAction {
    Start,
    Stop,
}

/// What a click on the record button asks for: start when idle, stop while
/// recording, nothing while the take is being saved.
pub fn record_click(state: &RecordState) -> (r: Option<RecordAction>)
    ensures
        r == match *state {
            RecordState::Idle => Some(RecordAction::Start),
            RecordState::Recording { .. } => Some(RecordAction::Stop),
            RecordState::Saving => None::<RecordAction>,
        },
{
    match state {
        RecordState::Idle => Some(RecordAction::Start),
        RecordState::Recording { .. } => Some(RecordAction::Stop),
        RecordState::Saving => None,
    }
}

/// The whole seconds of a duration, as `Duration::as_secs` counts them.
pub uninterp spec fn duration_secs(elapsed: Duration) -> u64;

/// `Duration::as_secs`: the whole seconds of a duration. Its value is named
/// by `duration_secs`; nothing more of it is stated here.
#[verifier::external_body]
fn whole_secs(elapsed: &Duration) -> (r: u64)
    ensures
        r == duration_secs(*elapsed),
{
    elapsed.as_secs()
}

/// The timer next to the record button: `0:00` while idle, the elapsed
/// whole seconds as `m:ss` while recording, and a note while saving.
pub fn timer_text(state: &RecordState) -> (r: String)
    ensures
        r@ == match *state {
            RecordState::Idle => "0:00"@,
            RecordState::Recording { elapsed } => clock_text(duration_secs(elapsed) as nat),
            RecordState::Saving => "Saving\u{2026}"@,
        },
{
    match state {
        RecordState::Idle => String::from_str("0:00"),
        RecordState::Recording { elapsed } => format_secs(whole_secs(elapsed)),
        RecordState::Saving => String::from_str("Saving\u{2026}"),
    }
}

pub struct TitlebarState<'a> {
    pub mode: Mode,
    pub project_name: Option<&'a str>,
    pub can_edit: bool,
    /// Recording or saving: mode switching is blocked.
    pub busy: bool,
}

#[derive(Debug, Clone, Copy, PartialEq, Eq, Structural)]
pub enum TitlebarAction {
    SetMode(Mode),
    Export,
}

/// One choice of a segmented control.
pub struct Segment<'a> {
    pub label: &'a str,
    pub enabled: bool,
}

impl<'a> Segment<'a> {
    pub fn new(label: &'a str) -> (r: Self)
        ensures
            r.label == label,
            r.enabled,
    {
        Segment { label, enabled: true }
    }

    pub fn disabled(label: &'a str) -> (r: Self)
        ensures
            r.label == label,
            !r.enabled,
    {
        Segment { label, enabled: false }
    }
}

/// A click on segment `index`: an enabled segment that is not already
/// active becomes the selection. Returns whether the selection changed.
pub fn click_segment(selected: &mut usize, index: usize, enabled: bool) -> (changed: bool)
    ensures
        changed == (enabled && index != *old(selected)),
        *final(selected) == if changed {
            index
        } else {
            *old(selected)
        },
{
    if enabled && index != *selected {
        *selected = index;
        true
    } else {
        false
    }
}

/// The titlebar's Record/Edit toggle: which segment is active, and whether
/// each may be picked. Switching is blocked while busy, and Edit needs a
/// session.
pub fn mode_segments(state: &TitlebarState) -> (r: (usize, bool, bool))
    ensures
        r.0 == if state.mode == Mode::Record {
            0usize
        } else {
            1usize
        },
        r.1 == !state.busy,
        r.2 == (state.can_edit && !state.busy),
{
    let selected = match state.mode {
        Mode::Record => 0,
        Mode::Edit => 1,
    };
    (selected, !state.busy, state.can_edit && !state.busy)
}

/// The mode a toggle to segment `selected` asks for.
pub fn mode_of_segment(selected: usize) -> (r: Mode)
    ensures
        r == if selected == 0 {
            Mode::Record
        } else {
            Mode::Edit
        },
{
    if selected == 0 {
        Mode::Record
    } else {
        Mode::Edit
    }
}

/// `m:ss`: whole minutes, a colon, and the seconds padded to two digits.
pub open spec fn clock_text(secs: nat) -> Seq<char> {
    decimal(secs / 60) + ":"@ + padded(secs % 60, 2)
}

/// `m:ss` display time from whole seconds.
pub fn format_secs(secs: u64) -> (r: String)
    ensures
        r@ == clock_text(secs as nat),
{
    let mut s = String::new();
    push_decimal(&mut s, secs / 60);
    s.append(":");
    push_padded(&mut s, secs % 60, 2);
    assert(s@ =~= clock_text(secs as nat));
    s
}

/// `m:ss` display time from nanoseconds.
pub fn format_ns(ns: u64) -> (r: String)
    ensures
        r@ == clock_text(ns as nat / 1_000_000_000),
{
    format_secs(ns / 1_000_000_000)
}

/// What one look at the destination picker's channel found.
pub enum Picked {
    /// The dialog closed: with the chosen path, or `None` when cancelled.
    Chosen(Option<PathBuf>),
    /// The dialog is still up.
    Pending,
    /// The picker thread went away without an answer.
    Gone,
}

/// `Receiver::try_recv` on the picker's channel. What comes back depends on
/// the picker thread, so nothing is stated of it.
#[verifier::external_body]
fn try_pick(rx: &Receiver<Option<PathBuf>>) -> Picked {
    match rx.try_recv() {
        Ok(picked) => Picked::Chosen(picked),
        Err(TryRecvError::Empty) => Picked::Pending,
        Err(TryRecvError::Disconnected) => Picked::Gone,
    }
}

/// Whether `path` has an extension, as `Path::extension` finds one.
pub uninterp spec fn has_extension(path: PathBuf) -> bool;

/// `path` with its extension set to `ext`, as `PathBuf::set_extension` does.
pub uninterp spec fn with_extension(path: PathBuf, ext: Seq<char>) -> PathBuf;

/// `Path::extension(..).is_none()`.
#[verifier::external_body]
fn extension_missing(path: &PathBuf) -> (r: bool)
    ensures
        r == !has_extension(*path),
{
    path.extension().is_none()
}

/// `PathBuf::set_extension`: the path with its extension replaced by `ext`
/// (or added, where it had none). It panics on an extension that holds a
/// path separator, which `requires` leaves out.
#[verifier::external_body]
fn set_extension(path: &mut PathBuf, ext: &str)
    requires
        !ext@.contains('/'),
        !ext@.contains('\\'),
    ensures
        *final(path) == with_extension(*old(path), ext@),
{
    path.set_extension(ext);
}

/// The destination a picked path makes: the path itself, with `.mp4` added
/// when it has no extension at all (the portal's "All files" choice can let
/// one through).
pub open spec fn destination_of(path: PathBuf) -> PathBuf {
    if has_extension(path) {
        path
    } else {
        with_extension(path, "mp4"@)
    }
}

/// What an answer of the picker does to the destination, and whether the
/// dialog is still to be waited for: a chosen path becomes the destination,
/// a cancelled or vanished picker leaves it as it was.
pub fn pick_destination(dest: Option<PathBuf>, got: Picked) -> (r: (Option<PathBuf>, bool))
    ensures
        match got {
            Picked::Pending => r == (dest, true),
            Picked::Gone => r == (dest, false),
            Picked::Chosen(None) => r == (dest, false),
            Picked::Chosen(Some(path)) => r == (Some(destination_of(path)), false),
        },
{
    match got {
        Picked::Pending => (dest, true),
        Picked::Gone => (dest, false),
        Picked::Chosen(None) => (dest, false),
        Picked::Chosen(Some(path)) => {
            let mut path = path;
            if extension_missing(&path) {
                let ext = "mp4";
                proof {
                    reveal_strlit("mp4");
                    assert(!ext@.contains('/'));
                    assert(!ext@.contains('\\'));
                }
                set_extension(&mut path, ext);
            }
            (Some(path), false)
        },
    }
}

/// The resolution presets in the order the dialog offers them.
pub open spec fn preset_at(i: nat) -> Preset {
    if i == 0 {
        Preset::P1080
    } else if i == 1 {
        Preset::P1440
    } else {
        Preset::Source
    }
}

/// The qualities in the order the dialog offers them.
pub open spec fn quality_at(i: nat) -> Quality {
    if i == 0 {
        Quality::High
    } else if i == 1 {
        Quality::Balanced
    } else {
        Quality::Small
    }
}

/// Resolution choice `i` of the dialog.
pub fn preset_choice(i: usize) -> (r: Preset)
    requires
        i < 3,
    ensures
        r == preset_at(i as nat),
{
    if i == 0 {
        Preset::P1080
    } else if i == 1 {
        Preset::P1440
    } else {
        Preset::Source
    }
}

/// Quality choice `i` of the dialog.
pub fn quality_choice(i: usize) -> (r: Quality)
    requires
        i < 3,
    ensures
        r == quality_at(i as nat),
{
    if i == 0 {
        Quality::High
    } else if i == 1 {
        Quality::Balanced
    } else {
        Quality::Small
    }
}

/// The source short side the resolution presets scale from: the smaller of
/// the width and height of the take the export renders, so a portrait take
/// does not export at its long side; 1080 when the timeline plays no take.
pub open spec fn export_take_short(project: Project) -> u32 {
    match primary_take_index(project) {
        Some(i) => if project.takes@[i].width <= project.takes@[i].height {
            project.takes@[i].width
        } else {
            project.takes@[i].height
        },
        None => 1080,
    }
}

/// The short side of the output for resolution choice `preset`, as the
/// export renders it: the take the export renders, not the package's first
/// take, sets what `Source` means, by its short side.
pub fn export_short_side(project: &Project, preset: usize) -> (r: u32)
    requires
        preset < 3,
    ensures
        r == match preset_at(preset as nat) {
            Preset::P1080 => 1080,
            Preset::P1440 => 1440,
            Preset::Source => if export_take_short(*project) >= 2 {
                export_take_short(*project)
            } else {
                2
            },
        },
{
    let short = match project.primary_take() {
        Some(take) => if take.width <= take.height {
            take.width
        } else {
            take.height
        },
        None => 1080,
    };
    preset_choice(preset).short_side(short)
}

/// `frame {done} of {total}`: the progress line under the bar.
pub open spec fn progress_text(done: nat, total: nat) -> Seq<char> {
    "frame "@ + decimal(done) + " of "@ + decimal(total)
}

pub fn progress_label(done: u64, total: u64) -> (r: String)
    ensures
        r@ == progress_text(done as nat, total as nat),
{
    let mut s = String::new();
    s.append("frame ");
    push_decimal(&mut s, done);
    s.append(" of ");
    push_decimal(&mut s, total);
    assert(s@ =~= progress_text(done as nat, total as nat));
    s
}

/// The export dialog: resolution preset, quality and destination, then the
/// running job. The destination picker runs on its own thread and reports
/// back over `picker`.
pub struct State {
    pub open: bool,
    pub preset: usize,
    pub quality: usize,
    pub dest: Option<PathBuf>,
    pub picker: Option<Receiver<Option<PathBuf>>>,
    pub job: Option<ExportJob>,
    /// Outcome of the last finished export, shown until dismissed.
    pub result: Option<Result<PathBuf, String>>,
}

impl State {
    /// A closed dialog with the first preset and quality, nothing chosen.
    pub fn closed() -> (r: State)
        ensures
            !r.open,
            r.preset == 0,
            r.quality == 0,
            r.dest is None,
            r.picker is None,
            r.job is None,
            r.result is None,
    {
        State { open: false, preset: 0, quality: 0, dest: None, picker: None, job: None, result: None }
    }

    /// Open the dialog, clearing whatever the previous export left behind.
    pub fn open(&mut self)
        ensures
            final(self).open,
            final(self).result is None,
            final(self).preset == old(self).preset,
            final(self).quality == old(self).quality,
            final(self).dest == old(self).dest,
            final(self).picker == old(self).picker,
            final(self).job == old(self).job,
    {
        self.open = true;
        self.result = None;
    }

    /// The settings an Export click starts a job with: the chosen preset
    /// and quality and the destination, once one is chosen (the button is
    /// disabled until then).
    pub fn settings(&self) -> (r: Option<Settings>)
        requires
            self.preset < 3,
            self.quality < 3,
        ensures
            r is Some <==> self.dest is Some,
            r matches Some(s) ==> s.preset == preset_at(self.preset as nat) && s.quality
                == quality_at(self.quality as nat) && self.dest == Some(s.dest),
    {
        match &self.dest {
            Some(dest) => Some(
                Settings {
                    preset: preset_choice(self.preset),
                    quality: quality_choice(self.quality),
                    dest: dest.clone(),
                },
            ),
            None => None,
        }
    }

    /// Follow the running export: poll it, and once it finished drop it and
    /// keep its outcome to show. Returns the progress to draw and whether
    /// the worker vanished leaving its partial file behind, or `None` when
    /// no export runs.
    pub fn follow_job(&mut self) -> (r: Option<(Progress, bool)>)
        ensures
            old(self).job is None <==> r is None,
            old(self).job is None ==> *final(self) == *old(self),
            r matches Some((p, _)) ==> (p.finished matches Some(outcome) ==> final(self).job is None
                && final(self).result == Some(outcome)),
            r matches Some((p, _)) ==> (p.finished is None ==> final(self).job is Some
                && final(self).result == old(self).result),
            final(self).open == old(self).open,
            final(self).preset == old(self).preset,
            final(self).quality == old(self).quality,
            final(self).dest == old(self).dest,
            final(self).picker == old(self).picker,
    {
        let mut job = match self.job.take() {
            Some(job) => job,
            None => {
                return None;
            },
        };
        let (progress, vanished) = job.poll();
        let shown = copy_progress(&progress);
        match progress.finished {
            Some(outcome) => {
                self.result = Some(outcome);
            },
            None => {
                self.job = Some(job);
            },
        }
        Some((shown, vanished))
    }

    /// Collect the picked destination. Called every frame, so it lands even
    /// if the dialog outlived the modal. Once the picker answered or went
    /// away it is dropped; the destination changes only to a chosen path.
    pub fn poll_picker(&mut self)
        ensures
            old(self).picker is None ==> *final(self) == *old(self),
            final(self).picker is Some ==> final(self).picker == old(self).picker && final(self).dest
                == old(self).dest,
            final(self).dest != old(self).dest ==> old(self).picker is Some,
            final(self).dest != old(self).dest ==> final(self).picker is None,
            final(self).dest != old(self).dest ==> exists|path: PathBuf|
                final(self).dest == Some(#[trigger] destination_of(path)),
            final(self).open == old(self).open,
            final(self).preset == old(self).preset,
            final(self).quality == old(self).quality,
            final(self).job == old(self).job,
            final(self).result == old(self).result,
    {
        let got = match &self.picker {
            Some(rx) => try_pick(rx),
            None => {
                return;
            },
        };
        let dest = self.dest.take();
        let (dest, waiting) = pick_destination(dest, got);
        self.dest = dest;
        if !waiting {
            self.picker = None;
        }
    }
}

} // verus!
