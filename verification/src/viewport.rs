//! The viewport tracker: remembers the size that the host reported last and
//! tells on which ticks it changed.

use vstd::prelude::*;

verus! {

/// Width and height of the viewport in physical pixels.
#[derive(Clone, Copy, Debug, PartialEq, Eq, Structural)]
pub struct ViewportSize {
    pub width: u32,
    pub height: u32,
}

impl ViewportSize {
    /// A viewport without area: it holds no cell.
    pub open spec fn is_degenerate(self) -> bool {
        self.width == 0 || self.height == 0
    }

    /// A viewport of the given width and height in pixels.
    pub fn new(width: u32, height: u32) -> (size: Self)
        ensures
            size.width == width,
            size.height == height,
    {
        ViewportSize { width, height }
    }

    /// The baseline that a tracker starts from.
    pub fn zero() -> (size: Self)
        ensures
            size.width == 0,
            size.height == 0,
    {
        ViewportSize { width: 0, height: 0 }
    }

    /// Whether the viewport has no area.
    pub fn degenerate(&self) -> (b: bool)
        ensures
            b == self.is_degenerate(),
    {
        self.width == 0 || self.height == 0
    }
}

/// What the host reports of its viewport on one tick: the size in physical
/// pixels, which all cell arithmetic uses, and the size in logical (device
/// independent) pixels, which is compared as well to notice a change.
#[derive(Clone, Copy, Debug, PartialEq, Eq, Structural)]
pub struct ViewportReading {
    pub physical: ViewportSize,
    pub logical: ViewportSize,
}

/// Why a tick could not be served.
#[derive(Clone, Copy, Debug, PartialEq, Eq, Structural)]
pub enum PipelineError {
    /// The host has no primary viewport and never had one.
    ViewportUnavailable,
}

/// What one look at the viewport found.
#[derive(Clone, Copy, Debug, PartialEq, Eq, Structural)]
pub enum Observation {
    /// The reading differs from the one before: the physical size is given.
    Changed(ViewportSize),
    /// The reading is the one that was seen last.
    Unchanged,
    /// There is no viewport on this tick; the tick's check is left out.
    Skipped,
}

/// Remembers the reading seen last. It starts from a reading of zero, so that
/// the first real reading counts as a change.
#[derive(Clone, Copy, Debug)]
pub struct ViewportTracker {
    last: ViewportReading,
    seen: bool,
}

impl ViewportTracker {
    /// The reading seen last, or the zero baseline.
    pub closed spec fn last(self) -> ViewportReading {
        self.last
    }

    /// Whether the host has reported a viewport at least once.
    pub closed spec fn has_seen(self) -> bool {
        self.seen
    }

    /// The outcome of looking at `reading` from this state.
    pub open spec fn spec_observe(self, reading: Option<ViewportReading>) -> Result<
        Observation,
        PipelineError,
    > {
        match reading {
            None => if self.has_seen() {
                Ok(Observation::Skipped)
            } else {
                Err(PipelineError::ViewportUnavailable)
            },
            Some(r) => if r == self.last() {
                Ok(Observation::Unchanged)
            } else {
                Ok(Observation::Changed(r.physical))
            },
        }
    }

    /// A tracker that has seen no viewport: it stands at the zero baseline.
    pub fn new() -> (tracker: Self)
        ensures
            !tracker.has_seen(),
            tracker.last().physical == (ViewportSize { width: 0, height: 0 }),
            tracker.last().logical == (ViewportSize { width: 0, height: 0 }),
    {
        ViewportTracker {
            last: ViewportReading { physical: ViewportSize::zero(), logical: ViewportSize::zero() },
            seen: false,
        }
    }

    /// The physical size seen last: the unit of all cell arithmetic.
    pub fn current(&self) -> (size: ViewportSize)
        ensures
            size == self.last().physical,
    {
        self.last.physical
    }

    /// Whether the host has reported a viewport at least once.
    pub fn seen(&self) -> (b: bool)
        ensures
            b == self.has_seen(),
    {
        self.seen
    }

    /// Takes the host's report for this tick. A reading is remembered and
    /// compared with the one before, in both units. Without a viewport the
    /// tick is skipped, unless none was ever seen: then the pipeline cannot
    /// start.
    pub fn observe(&mut self, reading: Option<ViewportReading>) -> (result: Result<
        Observation,
        PipelineError,
    >)
        ensures
            result == old(self).spec_observe(reading),
            final(self).last() == match reading {
                Some(r) => r,
                None => old(self).last(),
            },
            final(self).has_seen() == (old(self).has_seen() || reading is Some),
    {
        match reading {
            None => {
                if self.seen {
                    Ok(Observation::Skipped)
                } else {
                    Err(PipelineError::ViewportUnavailable)
                }
            },
            Some(r) => {
                self.seen = true;
                if r.physical.width == self.last.physical.width && r.physical.height
                    == self.last.physical.height && r.logical.width == self.last.logical.width
                    && r.logical.height == self.last.logical.height {
                    Ok(Observation::Unchanged)
                } else {
                    self.last = r;
                    Ok(Observation::Changed(r.physical))
                }
            },
        }
    }
}

} // verus!
