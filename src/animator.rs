use vstd::prelude::*;
use crate::grid::TileId;
use crate::orientation::Orientation;

verus! {

/// How long one slide takes on screen, in milliseconds.
pub const MOVE_DURATION_MS: u64 = 300;

/// One slide in flight: the tile, the cells it leaves and reaches, and its
/// orientation before and after the roll.
#[derive(Clone, Copy, Debug, PartialEq, Eq, Structural)]
pub struct Motion {
    pub tile: TileId,
    pub from: usize,
    pub to: usize,
    pub start: Orientation,
    pub end: Orientation,
}

/// The one shared move timer and the slide that it drives, if any. The board
/// itself changes when a slide is accepted; this only drives what is drawn.
pub struct TileAnimator {
    motion: Option<Motion>,
    elapsed_ms: u64,
}

impl TileAnimator {
    pub closed spec fn motion_spec(&self) -> Option<Motion> {
        self.motion
    }

    pub closed spec fn elapsed_spec(&self) -> u64 {
        self.elapsed_ms
    }

    pub open spec fn is_moving_spec(&self) -> bool {
        self.motion_spec() is Some
    }

    /// Nothing in flight.
    pub fn new() -> (r: TileAnimator)
        ensures
            r.motion_spec() is None,
            r.elapsed_spec() == 0,
    {
        TileAnimator { motion: None, elapsed_ms: 0 }
    }

    pub fn is_moving(&self) -> (r: bool)
        ensures
            r == self.is_moving_spec(),
    {
        self.motion.is_some()
    }

    pub fn motion(&self) -> (r: Option<Motion>)
        ensures
            r == self.motion_spec(),
    {
        self.motion
    }

    /// Starts a slide, with the timer at zero.
    pub fn begin(&mut self, m: Motion)
        ensures
            final(self).motion_spec() == Some(m),
            final(self).elapsed_spec() == 0,
    {
        self.motion = Some(m);
        self.elapsed_ms = 0;
    }

    /// Lets `delta_ms` pass. When a slide's time is up it ends, settled at its
    /// end pose; the result says whether it ended on this tick.
    pub fn tick(&mut self, delta_ms: u64) -> (finished: bool)
        ensures
            ({
                let t = if old(self).elapsed_spec() + delta_ms <= u64::MAX {
                    (old(self).elapsed_spec() + delta_ms) as u64
                } else {
                    u64::MAX
                };
                &&& final(self).elapsed_spec() == t
                &&& finished == (old(self).is_moving_spec() && t >= MOVE_DURATION_MS)
                &&& final(self).motion_spec() == (if finished {
                    None
                } else {
                    old(self).motion_spec()
                })
            }),
    {
        self.elapsed_ms = self.elapsed_ms.saturating_add(delta_ms);
        if self.motion.is_some() && self.elapsed_ms >= MOVE_DURATION_MS {
            self.motion = None;
            true
        } else {
            false
        }
    }

    /// How far the slide in flight has gone, in thousandths.
    pub fn progress_permille(&self) -> (r: u64)
        ensures
            r == (if self.elapsed_spec() >= MOVE_DURATION_MS {
                1000
            } else {
                self.elapsed_spec() * 1000 / (MOVE_DURATION_MS as int)
            }),
            r <= 1000,
    {
        if self.elapsed_ms >= MOVE_DURATION_MS {
            1000
        } else {
            self.elapsed_ms * 1000 / MOVE_DURATION_MS
        }
    }
}

} // verus!
