//! Timeline edits made by dragging in the lanes: trimming clips, adding,
//! moving and resizing zoom segments, moving music tracks and their fades.
//!
//! Drags apply their pointer delta (already converted to nanoseconds) to
//! the values captured at drag start, so a drag stays stable even when
//! intermediate clamping bites. Zoom edits keep the lane sorted and
//! non-overlapping by clamping against the neighbouring segments, without
//! ever reordering it.
use vstd::prelude::*;

use crate::plan::audible_end;
use crate::project::{Clip, Easing, MusicTrack, Project, Take, ZoomSegment, take_index};

verus! {

/// Shortest clip a trim leaves.
pub const MIN_CLIP_NS: u64 = 100_000_000;

/// Shortest zoom segment.
pub const MIN_SEGMENT_NS: u64 = 200_000_000;

/// Length of a zoom segment added by a double-click.
pub const DEFAULT_SEGMENT_NS: u64 = 2_000_000_000;

/// Keep at least this much of a music track on the timeline when dragging
/// it toward the end.
pub const MIN_VISIBLE_NS: u64 = 100_000_000;

/// `v` raised to `lo`, then capped at `hi` (the cap wins when they cross).
pub open spec fn clamp_spec(v: nat, lo: nat, hi: nat) -> nat {
    if v < lo {
        if lo < hi {
            lo
        } else {
            hi
        }
    } else if v > hi {
        hi
    } else {
        v
    }
}

/// `v` raised to `lo`, then capped at `hi`.
pub fn clamp_ns(v: u64, lo: u64, hi: u64) -> (r: u64)
    ensures
        r == clamp_spec(v as nat, lo as nat, hi as nat),
{
    let raised = if v < lo {
        lo
    } else {
        v
    };
    if raised > hi {
        hi
    } else {
        raised
    }
}

/// A drag start value moved by `delta_ns`, held at zero and at the top of
/// the range.
pub open spec fn shifted_spec(base: nat, delta_ns: int) -> nat {
    if base + delta_ns < 0 {
        0
    } else if base + delta_ns > u64::MAX {
        u64::MAX as nat
    } else {
        (base + delta_ns) as nat
    }
}

pub fn shifted(base: u64, delta_ns: i64) -> (r: u64)
    ensures
        r == shifted_spec(base as nat, delta_ns as int),
{
    let moved = (base as i128) + (delta_ns as i128);
    if moved < 0 {
        0
    } else if moved > u64::MAX as i128 {
        u64::MAX
    } else {
        moved as u64
    }
}

/// A drag start value moved against `delta_ns`.
pub fn shifted_back(base: u64, delta_ns: i64) -> (r: u64)
    ensures
        r == shifted_spec(base as nat, -delta_ns),
{
    let moved = (base as i128) - (delta_ns as i128);
    if moved < 0 {
        0
    } else if moved > u64::MAX as i128 {
        u64::MAX
    } else {
        moved as u64
    }
}

// ---------------------------------------------------------------------
// Clip trims.
// ---------------------------------------------------------------------
/// Which trim handle a drag started on, and the source time it started at.
#[derive(Debug, Clone, Copy)]
pub struct TrimDrag {
    pub clip: usize,
    pub right: bool,
    pub start_src_ns: u64,
}

/// Move a clip's trim handle by `delta_ns` from where the drag started. The
/// out point stays at least `MIN_CLIP_NS` past the in point and within the
/// take; the in point stays at least `MIN_CLIP_NS` before the out point. A
/// clip whose take is missing is left alone.
#[verifier::spinoff_prover]
pub fn apply_trim(project: &mut Project, drag: &TrimDrag, delta_ns: i64)
    requires
        drag.clip < old(project).timeline.clips@.len(),
    ensures
        final(project).takes@ == old(project).takes@,
        final(project).timeline.zoom@ == old(project).timeline.zoom@,
        final(project).timeline.music@ == old(project).timeline.music@,
        final(project).timeline.clips@.len() == old(project).timeline.clips@.len(),
        forall|i: int|
            0 <= i < final(project).timeline.clips@.len() && i != drag.clip ==> #[trigger] final(project).timeline.clips@[i] == old(project).timeline.clips@[i],
        ({
            let before = old(project).timeline.clips@[drag.clip as int];
            let after = final(project).timeline.clips@[drag.clip as int];
            let target = shifted_spec(drag.start_src_ns as nat, delta_ns as int);
            match take_index(old(project).takes@, before.take) {
                None => after == before,
                Some(t) => {
                    let take_ns = old(project).takes@[t].duration_ns;
                    &&& after.take == before.take
                    &&& after.speed_millionths == before.speed_millionths
                    &&& drag.right ==> after.src_in_ns == before.src_in_ns && after.src_out_ns
                        == clamp_spec(
                        target,
                        if before.src_in_ns + MIN_CLIP_NS <= u64::MAX {
                            (before.src_in_ns + MIN_CLIP_NS) as nat
                        } else {
                            u64::MAX as nat
                        },
                        take_ns as nat,
                    )
                    &&& !drag.right ==> after.src_out_ns == before.src_out_ns && after.src_in_ns
                        == if target <= before.src_out_ns - MIN_CLIP_NS {
                        target
                    } else if before.src_out_ns >= MIN_CLIP_NS {
                        (before.src_out_ns - MIN_CLIP_NS) as nat
                    } else {
                        0
                    }
                },
            }
        }),
{
    let index = drag.clip;
    let clip = project.timeline.clips[index];
    let take_ns = match find_take(&project.takes, clip.take) {
        Some(t) => project.takes[t].duration_ns,
        None => {
            return;
        },
    };
    let target = shifted(drag.start_src_ns, delta_ns);
    let mut trimmed = clip;
    if drag.right {
        trimmed.src_out_ns = clamp_ns(target, clip.src_in_ns.saturating_add(MIN_CLIP_NS), take_ns);
    } else {
        let latest = clip.src_out_ns.saturating_sub(MIN_CLIP_NS);
        trimmed.src_in_ns = if target < latest {
            target
        } else {
            latest
        };
    }
    project.timeline.clips.set(index, trimmed);
}

/// Index of the first take with `id`.
pub fn find_take(takes: &Vec<Take>, id: u32) -> (r: Option<usize>)
    ensures
        r matches Some(i) ==> take_index(takes@, id) == Some(i as int) && i < takes@.len()
            && takes@[i as int].id == id,
        r is None ==> take_index(takes@, id) is None,
{
    proof {
        crate::project::lemma_take_index(takes@, id);
    }
    let mut i: usize = 0;
    while i < takes.len()
        invariant
            i <= takes@.len(),
            forall|j: int| 0 <= j < i ==> takes@[j].id != id,
        decreases takes.len() - i,
    {
        if takes[i].id == id {
            proof {
                crate::project::lemma_take_index(takes@, id);
                if let Some(k) = take_index(takes@, id) {
                    assert(k == i);
                }
            }
            return Some(i);
        }
        i = i + 1;
    }
    proof {
        crate::project::lemma_take_index(takes@, id);
    }
    None
}

/// A trim to the right keeps the clip at least `MIN_CLIP_NS` long and
/// inside its take whenever the take has room for that; a trim to the left
/// keeps it at least `MIN_CLIP_NS` long whenever the clip's out point
/// allows it.
pub proof fn law_trim_keeps_clip_length(before: Clip, after: Clip, right: bool, target: nat, take_ns: nat)
    requires
        take_ns <= u64::MAX,
        right ==> after.src_in_ns == before.src_in_ns && after.src_out_ns == clamp_spec(
            target,
            if before.src_in_ns + MIN_CLIP_NS <= u64::MAX {
                (before.src_in_ns + MIN_CLIP_NS) as nat
            } else {
                u64::MAX as nat
            },
            take_ns,
        ),
        !right ==> after.src_out_ns == before.src_out_ns && after.src_in_ns == if target
            <= before.src_out_ns - MIN_CLIP_NS {
            target
        } else if before.src_out_ns >= MIN_CLIP_NS {
            (before.src_out_ns - MIN_CLIP_NS) as nat
        } else {
            0
        },
    ensures
        right && before.src_in_ns + MIN_CLIP_NS <= take_ns ==> after.src_out_ns >= after.src_in_ns
            + MIN_CLIP_NS && after.src_out_ns <= take_ns,
        !right && before.src_out_ns >= MIN_CLIP_NS ==> after.src_in_ns + MIN_CLIP_NS
            <= after.src_out_ns,
{
}

// ---------------------------------------------------------------------
// Zoom segments.
// ---------------------------------------------------------------------
/// A sorted lane: each segment non-empty and within the timeline, the
/// segments in order and non-overlapping.
pub open spec fn lane_sorted(zoom: Seq<ZoomSegment>, duration_ns: nat) -> bool {
    &&& forall|i: int|
        0 <= i < zoom.len() ==> #[trigger] zoom[i].in_ns < zoom[i].out_ns && zoom[i].out_ns
            <= duration_ns
    &&& forall|i: int, j: int|
        0 <= i < j < zoom.len() ==> #[trigger] zoom[i].out_ns <= #[trigger] zoom[j].in_ns
}

/// The zoom lane's invariant: segments sorted and non-overlapping, each at
/// least `MIN_SEGMENT_NS` long, all within the timeline.
pub open spec fn lane_wf(zoom: Seq<ZoomSegment>, duration_ns: nat) -> bool {
    &&& forall|i: int|
        0 <= i < zoom.len() ==> #[trigger] zoom[i].in_ns + MIN_SEGMENT_NS <= zoom[i].out_ns
            && zoom[i].out_ns <= duration_ns
    &&& forall|i: int, j: int|
        0 <= i < j < zoom.len() ==> #[trigger] zoom[i].out_ns <= #[trigger] zoom[j].in_ns
}

/// What a click to add a zoom segment did.
#[derive(Debug, Clone, Copy, PartialEq, Eq, Structural)]
pub enum AddOutcome {
    /// The time lies inside this segment, which becomes the selection.
    Selected(usize),
    /// A new segment was inserted at this index and becomes the selection.
    Inserted(usize),
    /// Nothing changed: an empty timeline, or a gap too small for a
    /// minimum-length segment.
    Unchanged,
}

/// The segment a double-click or the transport diamond adds.
pub open spec fn new_segment(in_ns: u64, out_ns: u64) -> ZoomSegment {
    ZoomSegment {
        in_ns,
        out_ns,
        level_hundredths: 180,
        anchor_x_halves: 1,
        anchor_y_halves: 1,
        follow_cursor: true,
        easing: Easing::Smooth,
    }
}

/// The first segment containing `t`.
pub open spec fn containing(zoom: Seq<ZoomSegment>, t: nat) -> Option<int>
    decreases zoom.len(),
{
    if zoom.len() == 0 {
        None
    } else {
        match containing(zoom.drop_last(), t) {
            Some(i) => Some(i),
            None => if zoom.last().in_ns <= t && t < zoom.last().out_ns {
                Some(zoom.len() - 1)
            } else {
                None
            },
        }
    }
}

proof fn lemma_containing(zoom: Seq<ZoomSegment>, t: nat)
    ensures
        containing(zoom, t) matches Some(i) ==> 0 <= i < zoom.len() && zoom[i].in_ns <= t
            < zoom[i].out_ns && forall|j: int|
            0 <= j < i ==> !(zoom[j].in_ns <= t && t < zoom[j].out_ns),
        containing(zoom, t) is None ==> forall|j: int|
            0 <= j < zoom.len() ==> !(zoom[j].in_ns <= t && t < zoom[j].out_ns),
    decreases zoom.len(),
{
    if zoom.len() > 0 {
        let front = zoom.drop_last();
        lemma_containing(front, t);
        assert forall|j: int| 0 <= j < front.len() implies front[j] == zoom[j] by {}
    }
}

/// The insertion index for a segment starting at `t`: the first segment
/// starting after it.
pub open spec fn insertion_index(zoom: Seq<ZoomSegment>, t: nat) -> int
    decreases zoom.len(),
{
    if zoom.len() == 0 {
        0
    } else if insertion_index(zoom.drop_last(), t) < zoom.len() - 1 {
        insertion_index(zoom.drop_last(), t)
    } else if zoom.last().in_ns <= t {
        zoom.len() as int
    } else {
        zoom.len() - 1
    }
}

proof fn lemma_insertion_index(zoom: Seq<ZoomSegment>, t: nat)
    ensures
        0 <= insertion_index(zoom, t) <= zoom.len(),
        forall|j: int| 0 <= j < insertion_index(zoom, t) ==> zoom[j].in_ns <= t,
        insertion_index(zoom, t) < zoom.len() ==> zoom[insertion_index(zoom, t)].in_ns > t,
    decreases zoom.len(),
{
    if zoom.len() > 0 {
        let front = zoom.drop_last();
        lemma_insertion_index(front, t);
        assert forall|j: int| 0 <= j < front.len() implies front[j] == zoom[j] by {}
    }
}

/// What adding at `t_ns` does to the lane.
pub open spec fn add_result(zoom: Seq<ZoomSegment>, duration_ns: nat, t_ns: nat) -> (Seq<ZoomSegment>, AddOutcome) {
    if duration_ns == 0 {
        (zoom, AddOutcome::Unchanged)
    } else {
        let t = if t_ns < duration_ns {
            t_ns
        } else {
            (duration_ns - 1) as nat
        };
        match containing(zoom, t) {
            Some(i) => (zoom, AddOutcome::Selected(i as usize)),
            None => {
                let index = insertion_index(zoom, t);
                let gap_end = if index < zoom.len() {
                    zoom[index].in_ns as nat
                } else {
                    duration_ns
                };
                let out = if t + DEFAULT_SEGMENT_NS < gap_end {
                    (t + DEFAULT_SEGMENT_NS) as nat
                } else {
                    gap_end
                };
                if out < t + MIN_SEGMENT_NS {
                    (zoom, AddOutcome::Unchanged)
                } else {
                    (
                        zoom.insert(index, new_segment(t as u64, out as u64)),
                        AddOutcome::Inserted(index as usize),
                    )
                }
            },
        }
    }
}

/// Insert a segment starting at `t_ns` (transport diamond and lane
/// double-click). Inside an existing segment it selects that one instead;
/// a gap too small for a minimum-length segment is left alone.
#[verifier::spinoff_prover]
pub fn add_at(zoom: &mut Vec<ZoomSegment>, duration_ns: u64, t_ns: u64) -> (r: AddOutcome)
    ensures
        (final(zoom)@, r) == add_result(old(zoom)@, duration_ns as nat, t_ns as nat),
{
    if duration_ns == 0 {
        return AddOutcome::Unchanged;
    }
    let t = if t_ns < duration_ns {
        t_ns
    } else {
        duration_ns - 1
    };
    let ghost z = zoom@;
    proof {
        lemma_containing(z, t as nat);
        lemma_insertion_index(z, t as nat);
    }
    let mut i: usize = 0;
    while i < zoom.len()
        invariant
            z == zoom@,
            duration_ns > 0,
            t == if t_ns < duration_ns {
                t_ns
            } else {
                (duration_ns - 1) as u64
            },
            i <= z.len(),
            forall|j: int| 0 <= j < i ==> !(z[j].in_ns <= t && t < z[j].out_ns),
        decreases zoom.len() - i,
    {
        if zoom[i].in_ns <= t && t < zoom[i].out_ns {
            proof {
                lemma_containing(z, t as nat);
                assert(containing(z, t as nat) is Some);
                let k = containing(z, t as nat)->0;
                assert(k == i);
                assert(add_result(z, duration_ns as nat, t_ns as nat) == (z, AddOutcome::Selected(
                    i,
                )));
            }
            return AddOutcome::Selected(i);
        }
        i = i + 1;
    }
    proof {
        lemma_containing(z, t as nat);
    }
    assert(containing(z, t as nat) is None);
    let mut index: usize = 0;
    while index < zoom.len() && zoom[index].in_ns <= t
        invariant
            z == zoom@,
            index <= z.len(),
            forall|j: int| 0 <= j < index ==> z[j].in_ns <= t,
        decreases zoom.len() - index,
    {
        index = index + 1;
    }
    proof {
        // The first segment starting after `t`, as in the spec.
        let k = insertion_index(z, t as nat);
        if k < index {
            assert(z[k].in_ns <= t);
        }
        if index < k {
            assert(z[index as int].in_ns <= t);
        }
        assert(k == index);
    }
    let gap_end = if index < zoom.len() {
        zoom[index].in_ns
    } else {
        duration_ns
    };
    let wanted = t.saturating_add(DEFAULT_SEGMENT_NS);
    let out_ns = if wanted < gap_end {
        wanted
    } else {
        gap_end
    };
    if out_ns < t || out_ns - t < MIN_SEGMENT_NS {
        return AddOutcome::Unchanged;
    }
    zoom.insert(
        index,
        ZoomSegment {
            in_ns: t,
            out_ns,
            level_hundredths: 180,
            anchor_x_halves: 1,
            anchor_y_halves: 1,
            follow_cursor: true,
            easing: Easing::Smooth,
        },
    );
    AddOutcome::Inserted(index)
}

/// Adding a zoom segment keeps a sorted, non-overlapping lane sorted and
/// non-overlapping; where every segment had the minimum length, they all
/// still have it.
#[verifier::spinoff_prover]
pub proof fn law_add_keeps_lane(zoom: Seq<ZoomSegment>, duration_ns: nat, t_ns: nat)
    requires
        lane_sorted(zoom, duration_ns),
        duration_ns <= u64::MAX,
    ensures
        lane_sorted(add_result(zoom, duration_ns, t_ns).0, duration_ns),
        lane_wf(zoom, duration_ns) ==> lane_wf(add_result(zoom, duration_ns, t_ns).0, duration_ns),
{
    if duration_ns > 0 {
        let t = if t_ns < duration_ns {
            t_ns
        } else {
            (duration_ns - 1) as nat
        };
        lemma_containing(zoom, t);
        lemma_insertion_index(zoom, t);
        if containing(zoom, t) is None {
            let index = insertion_index(zoom, t);
            let gap_end = if index < zoom.len() {
                zoom[index].in_ns as nat
            } else {
                duration_ns
            };
            let out = if t + DEFAULT_SEGMENT_NS < gap_end {
                (t + DEFAULT_SEGMENT_NS) as nat
            } else {
                gap_end
            };
            if out >= t + MIN_SEGMENT_NS {
                let seg = new_segment(t as u64, out as u64);
                let after = zoom.insert(index, seg);
                assert(out <= duration_ns) by {
                    if index < zoom.len() {
                        assert(zoom[index].in_ns <= zoom[index].out_ns);
                    }
                }
                assert(out <= u64::MAX) by {
                    if index < zoom.len() {
                    } else {
                        assert(t < duration_ns);
                    }
                }
                // The segment before the gap ends before `t`.
                if index > 0 {
                    let p = index - 1;
                    assert(zoom[p].in_ns <= t);
                    assert(!(zoom[p].in_ns <= t && t < zoom[p].out_ns));
                    assert(zoom[p].out_ns <= t);
                }
                assert forall|a: int, b: int|
                    0 <= a < b < after.len() implies #[trigger] after[a].out_ns
                    <= #[trigger] after[b].in_ns by {
                    if a < index && b < index {
                        assert(after[a] == zoom[a] && after[b] == zoom[b]);
                    } else if a < index && b == index {
                        assert(zoom[a].out_ns <= zoom[index - 1].out_ns) by {
                            if a < index - 1 {
                                assert(zoom[a].out_ns <= zoom[index - 1].in_ns);
                            }
                        }
                    } else if a < index {
                        assert(after[a] == zoom[a] && after[b] == zoom[b - 1]);
                    } else if a == index {
                        assert(after[b] == zoom[b - 1]);
                        assert(zoom[index].in_ns <= zoom[b - 1].in_ns) by {
                            if b - 1 > index {
                                assert(zoom[index].out_ns <= zoom[b - 1].in_ns);
                            }
                        }
                    } else {
                        assert(after[a] == zoom[a - 1] && after[b] == zoom[b - 1]);
                    }
                }
                assert forall|a: int| 0 <= a < after.len() implies #[trigger] after[a].in_ns
                    < after[a].out_ns && after[a].out_ns <= duration_ns by {
                    if a < index {
                        assert(after[a] == zoom[a]);
                    } else if a > index {
                        assert(after[a] == zoom[a - 1]);
                    }
                }
                if lane_wf(zoom, duration_ns) {
                    assert forall|a: int| 0 <= a < after.len() implies #[trigger] after[a].in_ns
                        + MIN_SEGMENT_NS <= after[a].out_ns by {
                        if a < index {
                            assert(after[a] == zoom[a]);
                        } else if a > index {
                            assert(after[a] == zoom[a - 1]);
                        }
                    }
                }
            }
        }
    }
}

/// Which part of a zoom segment a drag grabbed.
#[derive(Debug, Clone, Copy, PartialEq, Eq, Structural)]
pub enum DragPart {
    Body,
    Left,
    Right,
}

/// An in-flight segment drag: which part, and the segment bounds at drag
/// start (deltas apply to these).
#[derive(Debug, Clone, Copy)]
pub struct ZoomDrag {
    pub index: usize,
    pub part: DragPart,
    pub start_in_ns: u64,
    pub start_out_ns: u64,
}

/// The new bounds of the dragged segment.
pub open spec fn dragged_bounds(
    zoom: Seq<ZoomSegment>,
    duration_ns: nat,
    drag: ZoomDrag,
    delta_ns: int,
) -> (nat, nat) {
    let i = drag.index as int;
    let prev_end = if i > 0 {
        zoom[i - 1].out_ns as nat
    } else {
        0
    };
    let next_start = if i + 1 < zoom.len() {
        zoom[i + 1].in_ns as nat
    } else {
        duration_ns
    };
    let seg = zoom[i];
    match drag.part {
        DragPart::Body => {
            let len = (drag.start_out_ns - drag.start_in_ns) as nat;
            let hi = if next_start >= len {
                (next_start - len) as nat
            } else {
                0
            };
            let in_ns = clamp_spec(shifted_spec(drag.start_in_ns as nat, delta_ns), prev_end, hi);
            (in_ns, in_ns + len)
        },
        DragPart::Left => {
            let hi = if seg.out_ns >= MIN_SEGMENT_NS {
                (seg.out_ns - MIN_SEGMENT_NS) as nat
            } else {
                0
            };
            (
                clamp_spec(shifted_spec(drag.start_in_ns as nat, delta_ns), prev_end, hi),
                seg.out_ns as nat,
            )
        },
        DragPart::Right => {
            let lo = if seg.in_ns + MIN_SEGMENT_NS <= u64::MAX {
                (seg.in_ns + MIN_SEGMENT_NS) as nat
            } else {
                u64::MAX as nat
            };
            (
                seg.in_ns as nat,
                clamp_spec(shifted_spec(drag.start_out_ns as nat, delta_ns), lo, next_start),
            )
        },
    }
}

/// Move or resize the dragged segment against its drag-start bounds,
/// clamped to the neighbouring segments and the timeline ends.
#[verifier::spinoff_prover]
pub fn apply_zoom_drag(zoom: &mut Vec<ZoomSegment>, duration_ns: u64, drag: &ZoomDrag, delta_ns: i64)
    requires
        drag.index < old(zoom)@.len(),
        drag.start_in_ns <= drag.start_out_ns,
    ensures
        final(zoom)@.len() == old(zoom)@.len(),
        forall|i: int|
            0 <= i < final(zoom)@.len() && i != drag.index ==> #[trigger] final(zoom)@[i] == old(zoom)@[i],
        ({
            let b = dragged_bounds(old(zoom)@, duration_ns as nat, *drag, delta_ns as int);
            let seg = final(zoom)@[drag.index as int];
            &&& seg.in_ns == b.0
            &&& seg.out_ns == b.1
            &&& seg.level_hundredths == old(zoom)@[drag.index as int].level_hundredths
            &&& seg.anchor_x_halves == old(zoom)@[drag.index as int].anchor_x_halves
            &&& seg.anchor_y_halves == old(zoom)@[drag.index as int].anchor_y_halves
            &&& seg.follow_cursor == old(zoom)@[drag.index as int].follow_cursor
            &&& seg.easing == old(zoom)@[drag.index as int].easing
        }),
{
    let i = drag.index;
    let prev_end = if i > 0 {
        zoom[i - 1].out_ns
    } else {
        0
    };
    let next_start = if i < zoom.len() - 1 {
        zoom[i + 1].in_ns
    } else {
        duration_ns
    };
    let mut segment = zoom[i];
    match drag.part {
        DragPart::Body => {
            let len = drag.start_out_ns - drag.start_in_ns;
            segment.in_ns = clamp_ns(
                shifted(drag.start_in_ns, delta_ns),
                prev_end,
                next_start.saturating_sub(len),
            );
            assert(segment.in_ns <= next_start || segment.in_ns == 0);
            assert(segment.in_ns + len <= u64::MAX) by {
                if next_start >= len {
                    assert(segment.in_ns <= next_start - len);
                } else {
                    assert(segment.in_ns == 0);
                }
            }
            segment.out_ns = segment.in_ns + len;
        },
        DragPart::Left => {
            segment.in_ns = clamp_ns(
                shifted(drag.start_in_ns, delta_ns),
                prev_end,
                segment.out_ns.saturating_sub(MIN_SEGMENT_NS),
            );
        },
        DragPart::Right => {
            segment.out_ns = clamp_ns(
                shifted(drag.start_out_ns, delta_ns),
                segment.in_ns.saturating_add(MIN_SEGMENT_NS),
                next_start,
            );
        },
    }
    zoom.set(i, segment);
}

/// Dragging a segment keeps a well-formed lane well-formed, provided a body
/// drag moves the segment at the length it had when the drag started.
#[verifier::spinoff_prover]
pub proof fn law_drag_keeps_lane(
    zoom: Seq<ZoomSegment>,
    duration_ns: nat,
    drag: ZoomDrag,
    delta_ns: int,
    after: Seq<ZoomSegment>,
)
    requires
        lane_wf(zoom, duration_ns),
        drag.index < zoom.len(),
        drag.part is Body ==> drag.start_out_ns - drag.start_in_ns == zoom[drag.index as int].out_ns
            - zoom[drag.index as int].in_ns,
        drag.start_in_ns <= drag.start_out_ns,
        after.len() == zoom.len(),
        forall|i: int| 0 <= i < after.len() && i != drag.index ==> #[trigger] after[i] == zoom[i],
        after[drag.index as int].in_ns == dragged_bounds(zoom, duration_ns, drag, delta_ns).0,
        after[drag.index as int].out_ns == dragged_bounds(zoom, duration_ns, drag, delta_ns).1,
    ensures
        lane_wf(after, duration_ns),
{
    let i = drag.index as int;
    let seg = zoom[i];
    let prev_end = if i > 0 {
        zoom[i - 1].out_ns as nat
    } else {
        0
    };
    let next_start = if i + 1 < zoom.len() {
        zoom[i + 1].in_ns as nat
    } else {
        duration_ns
    };
    assert(prev_end <= seg.in_ns);
    assert(seg.out_ns <= next_start);
    assert(next_start <= duration_ns) by {
        if i + 1 < zoom.len() {
            assert(zoom[i + 1].in_ns <= zoom[i + 1].out_ns);
        }
    }
    let b = dragged_bounds(zoom, duration_ns, drag, delta_ns);
    assert(prev_end <= b.0 && b.0 + MIN_SEGMENT_NS <= b.1 && b.1 <= next_start);
    assert forall|a: int| 0 <= a < after.len() implies #[trigger] after[a].in_ns + MIN_SEGMENT_NS
        <= after[a].out_ns && after[a].out_ns <= duration_ns by {
        if a != i {
            assert(after[a] == zoom[a]);
        }
    }
    assert forall|a: int, c: int| 0 <= a < c < after.len() implies #[trigger] after[a].out_ns
        <= #[trigger] after[c].in_ns by {
        if a != i && c != i {
            assert(after[a] == zoom[a] && after[c] == zoom[c]);
        } else if a == i {
            assert(after[c] == zoom[c]);
            if c > i + 1 {
                assert(zoom[i + 1].out_ns <= zoom[c].in_ns);
                assert(zoom[i + 1].in_ns <= zoom[i + 1].out_ns);
            }
        } else {
            assert(after[a] == zoom[a]);
            if a < i - 1 {
                assert(zoom[a].out_ns <= zoom[i - 1].in_ns);
                assert(zoom[i - 1].in_ns <= zoom[i - 1].out_ns);
            }
        }
    }
}

// ---------------------------------------------------------------------
// Music tracks.
// ---------------------------------------------------------------------
/// Which part of a music track a drag grabbed.
#[derive(Debug, Clone, Copy, PartialEq, Eq, Structural)]
pub enum MusicPart {
    Body,
    FadeIn,
    FadeOut,
}

/// An in-flight music drag: deltas apply to the value at drag start (the
/// offset for the body, the fade length for a fade handle).
#[derive(Debug, Clone, Copy)]
pub struct MusicDrag {
    pub index: usize,
    pub part: MusicPart,
    pub start_ns: u64,
}

/// Length of a track's span on the lane.
pub open spec fn span_len(track: MusicTrack, timeline_ns: nat) -> nat {
    let start = if track.offset_ns < timeline_ns {
        track.offset_ns as nat
    } else {
        timeline_ns
    };
    let end = audible_end(track, timeline_ns);
    if end > start {
        (end - start) as nat
    } else {
        0
    }
}

/// Move the dragged track's offset, or resize one of its fades: the offset
/// keeps at least `MIN_VISIBLE_NS` of the track on the timeline, and each
/// fade stays within the track's span. A fade-out grows leftward, so its
/// delta runs against the drag.
#[verifier::spinoff_prover]
pub fn apply_music_drag(music: &mut Vec<MusicTrack>, drag: &MusicDrag, delta_ns: i64, timeline_ns: u64)
    requires
        drag.index < old(music)@.len(),
    ensures
        final(music)@.len() == old(music)@.len(),
        forall|i: int|
            0 <= i < final(music)@.len() && i != drag.index ==> #[trigger] final(music)@[i] == old(music)@[i],
        ({
            let before = old(music)@[drag.index as int];
            let after = final(music)@[drag.index as int];
            let room = if timeline_ns >= MIN_VISIBLE_NS {
                (timeline_ns - MIN_VISIBLE_NS) as nat
            } else {
                0nat
            };
            let forward = shifted_spec(drag.start_ns as nat, delta_ns as int);
            let backward = shifted_spec(drag.start_ns as nat, -delta_ns);
            let span = span_len(before, timeline_ns as nat);
            &&& after.file@ == before.file@
            &&& after.gain_millionths == before.gain_millionths
            &&& after.duration_ns == before.duration_ns
            &&& drag.part is Body ==> after.offset_ns == if forward < room {
                forward
            } else {
                room
            } && after.fade_in_ns == before.fade_in_ns && after.fade_out_ns == before.fade_out_ns
            &&& drag.part is FadeIn ==> after.offset_ns == before.offset_ns && after.fade_out_ns
                == before.fade_out_ns && after.fade_in_ns == if forward < span {
                forward
            } else {
                span
            }
            &&& drag.part is FadeOut ==> after.offset_ns == before.offset_ns && after.fade_in_ns
                == before.fade_in_ns && after.fade_out_ns == if backward < span {
                backward
            } else {
                span
            }
        }),
{
    let i = drag.index;
    let track = &music[i];
    let mut moved = MusicTrack {
        file: track.file.clone(),
        offset_ns: track.offset_ns,
        gain_millionths: track.gain_millionths,
        fade_in_ns: track.fade_in_ns,
        fade_out_ns: track.fade_out_ns,
        duration_ns: track.duration_ns,
    };
    let forward = shifted(drag.start_ns, delta_ns);
    match drag.part {
        MusicPart::Body => {
            let room = timeline_ns.saturating_sub(MIN_VISIBLE_NS);
            moved.offset_ns = if forward < room {
                forward
            } else {
                room
            };
        },
        part => {
            let (start_ns, end_ns) = crate::plan::span(track, timeline_ns);
            let span_ns = end_ns.saturating_sub(start_ns);
            let fade = if part == MusicPart::FadeOut {
                shifted_back(drag.start_ns, delta_ns)
            } else {
                forward
            };
            let fade = if fade < span_ns {
                fade
            } else {
                span_ns
            };
            if part == MusicPart::FadeIn {
                moved.fade_in_ns = fade;
            } else {
                moved.fade_out_ns = fade;
            }
        },
    }
    music.set(i, moved);
}

/// A drag applies its delta to the bounds the segment had when the drag
/// started, whatever the segment's bounds are now: a body drag keeps the
/// length it started with, and where the moved bounds fit between the
/// neighbours (or the timeline ends) they are exactly the start bounds moved
/// by the delta. Edge drags move only their own edge the same way.
pub proof fn law_drag_moves_from_the_start_bounds(
    zoom: Seq<ZoomSegment>,
    duration_ns: nat,
    drag: ZoomDrag,
    delta_ns: int,
)
    requires
        drag.index < zoom.len(),
        drag.start_in_ns <= drag.start_out_ns,
        drag.start_in_ns + delta_ns >= 0,
        drag.start_out_ns + delta_ns <= u64::MAX,
    ensures
        ({
            let i = drag.index as int;
            let prev_end: int = if i > 0 {
                zoom[i - 1].out_ns as int
            } else {
                0
            };
            let next_start: int = if i + 1 < zoom.len() {
                zoom[i + 1].in_ns as int
            } else {
                duration_ns as int
            };
            let (in_ns, out_ns) = dragged_bounds(zoom, duration_ns, drag, delta_ns);
            &&& drag.part is Body ==> out_ns - in_ns == drag.start_out_ns - drag.start_in_ns
            &&& (drag.part is Body && prev_end <= drag.start_in_ns + delta_ns
                && drag.start_out_ns + delta_ns <= next_start) ==> in_ns == drag.start_in_ns
                + delta_ns && out_ns == drag.start_out_ns + delta_ns
            &&& (drag.part is Left && prev_end <= drag.start_in_ns + delta_ns
                && drag.start_in_ns + delta_ns + MIN_SEGMENT_NS <= zoom[i].out_ns) ==> in_ns
                == drag.start_in_ns + delta_ns && out_ns == zoom[i].out_ns
            &&& (drag.part is Right && zoom[i].in_ns + MIN_SEGMENT_NS <= drag.start_out_ns
                + delta_ns && drag.start_out_ns + delta_ns <= next_start) ==> out_ns
                == drag.start_out_ns + delta_ns && in_ns == zoom[i].in_ns
        }),
{
}

/// A fade drag keeps the fade within the track's audible span on the
/// timeline, which runs from the track's offset (held at the timeline end)
/// to where its media ends or the timeline ends, whichever comes first; a
/// dragged length that fits is taken as it is.
pub proof fn law_fade_stays_within_the_audible_span(track: MusicTrack, timeline_ns: nat, dragged: nat)
    ensures
        ({
            let span = span_len(track, timeline_ns);
            let fade = if dragged < span {
                dragged
            } else {
                span
            };
            let start: int = if track.offset_ns < timeline_ns {
                track.offset_ns as int
            } else {
                timeline_ns as int
            };
            &&& fade <= dragged
            &&& start + fade <= timeline_ns
            &&& track.duration_ns > 0 ==> start + fade <= track.offset_ns + track.duration_ns
            &&& (start + dragged <= timeline_ns && (track.duration_ns > 0 ==> start + dragged
                <= track.offset_ns + track.duration_ns)) ==> fade == dragged
        }),
{
}

} // verus!
