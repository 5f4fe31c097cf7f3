//! A decoder walked forward across a timeline, one output frame at a time.
//!
//! Export samples source times in order, so the open decoder is reused and
//! only a backwards jump costs a seek. The walk keeps the last frame it
//! decoded, so a take whose declared duration runs slightly past its last
//! decodable frame holds on the final frame instead of failing the export,
//! and it holds back a frame decoded past the requested time for a later
//! request rather than throwing it away.
//!
//! The caller owns the decoder and runs the loop:
//! `rewind` (seek when asked), then `settle` / `take` until `settle` says
//! no more frames are needed or the stream ends, then `current`.
use vstd::prelude::*;

verus! {

/// Frames with their presentation times, newest at or before the last
/// requested time and the one decoded past it.
pub struct FrameWalk<T> {
    last: Option<(u64, T)>,
    pending: Option<(u64, T)>,
}

/// The walk is positioned at `src_ns`: what it holds as current is at or
/// before that time, and what it holds back is after it.
pub open spec fn brackets<T>(last: Option<(u64, T)>, pending: Option<(u64, T)>, src_ns: u64) -> bool {
    &&& last matches Some(f) ==> f.0 <= src_ns
    &&& pending matches Some(f) ==> f.0 > src_ns
}

/// Presentation time of a held frame.
pub open spec fn pts<T>(f: (u64, T)) -> u64 {
    f.0
}

/// The frame itself.
pub open spec fn payload<T>(f: (u64, T)) -> T {
    f.1
}

impl<T> FrameWalk<T> {
    /// Newest frame at or before the last requested time.
    pub closed spec fn last(&self) -> Option<(u64, T)> {
        self.last
    }

    /// A frame decoded past the last requested time, held for later.
    pub closed spec fn pending(&self) -> Option<(u64, T)> {
        self.pending
    }

    pub fn new() -> (r: Self)
        ensures
            r.last() is None,
            r.pending() is None,
    {
        FrameWalk { last: None, pending: None }
    }

    /// Start a request for source time `src_ns`. Returns true when the walk
    /// has already passed that time: the caller must seek the decoder there,
    /// and the walk starts over.
    pub fn rewind(&mut self, src_ns: u64) -> (seek: bool)
        ensures
            seek == (old(self).last() is Some && pts(old(self).last()->0) > src_ns),
            seek ==> final(self).last() is None && final(self).pending() is None,
            !seek ==> final(self).last() == old(self).last() && final(self).pending() == old(
                self,
            ).pending(),
    {
        let behind = match &self.last {
            Some(f) => f.0 > src_ns,
            None => false,
        };
        if behind {
            self.last = None;
            self.pending = None;
        }
        behind
    }

    /// Promote a held-back frame that is due at `src_ns`. Returns true when
    /// the walk needs the next decoded frame, false once it holds a frame
    /// past `src_ns`.
    pub fn settle(&mut self, src_ns: u64) -> (need: bool)
        ensures
            (old(self).pending() matches Some(f) && f.0 <= src_ns) ==> need && final(self).last()
                == old(self).pending() && final(self).pending() is None,
            (old(self).pending() matches Some(f) && f.0 > src_ns) ==> !need && final(self).last()
                == old(self).last() && final(self).pending() == old(self).pending(),
            old(self).pending() is None ==> need && final(self).last() == old(self).last()
                && final(self).pending() is None,
    {
        let due = match &self.pending {
            Some(f) => f.0 <= src_ns,
            None => {
                return true;
            },
        };
        if due {
            self.last = self.pending.take();
            true
        } else {
            false
        }
    }

    /// Take the next decoded frame, presented at `pts_ns`: current when it
    /// is due at `src_ns`, otherwise held back for a later request.
    pub fn take(&mut self, pts_ns: u64, frame: T, src_ns: u64)
        ensures
            pts_ns <= src_ns ==> final(self).last() == Some((pts_ns, frame)) && final(self).pending()
                == old(self).pending(),
            pts_ns > src_ns ==> final(self).pending() == Some((pts_ns, frame)) && final(self).last()
                == old(self).last(),
    {
        if pts_ns <= src_ns {
            self.last = Some((pts_ns, frame));
        } else {
            self.pending = Some((pts_ns, frame));
        }
    }

    /// The frame on screen: the newest one at or before the requested time,
    /// or, before the first frame (a seek can land late), the earliest one
    /// available.
    pub fn current(&self) -> (r: Option<&T>)
        ensures
            self.last() matches Some(f) ==> r == Some(&f.1),
            self.last() is None && self.pending() is Some ==> r == Some(&payload(self.pending()->0)),
            self.last() is None && self.pending() is None ==> r is None,
    {
        match &self.last {
            Some(f) => Some(&f.1),
            None => match &self.pending {
                Some(f) => Some(&f.1),
                None => None,
            },
        }
    }
}

/// Taking a frame keeps a bracketed walk bracketed.
pub proof fn law_take_keeps_bracket<T>(
    last: Option<(u64, T)>,
    pending: Option<(u64, T)>,
    pts_ns: u64,
    frame: T,
    src_ns: u64,
)
    requires
        brackets(last, pending, src_ns),
    ensures
        pts_ns <= src_ns ==> brackets(Some((pts_ns, frame)), pending, src_ns),
        pts_ns > src_ns ==> brackets(last, Some((pts_ns, frame)), src_ns),
{
}

/// Requests that never go backwards never seek: after a request has been
/// served (`rewind`, `settle` and `take` leave the current frame at or before
/// it), a later request at or after it finds no current frame past it, so
/// `rewind` asks for no seek and every frame is decoded once.
pub proof fn law_forward_requests_never_seek<T>(walk: FrameWalk<T>, served_ns: u64, next_ns: u64)
    requires
        walk.last() matches Some(f) ==> f.0 <= served_ns,
        served_ns <= next_ns,
    ensures
        !(walk.last() is Some && pts(walk.last()->0) > next_ns),
{
}

} // verus!
