//! The flour fill bar: a clamped fill fraction plus the rectangle the
//! host fills when it draws the bar.

use vstd::prelude::*;
use crate::core_elements::FILL_SCALE_PPM;

verus! {

/// Bound on screen coordinates handed to the fill bar.
pub const SCREEN_COORD_BOUND: i32 = 100_000;

/// An axis-aligned rectangle in screen pixels.
#[derive(Debug, Copy, Clone, PartialEq, Eq, Structural)]
pub struct ScreenRect {
    pub x: i32,
    pub y: i32,
    pub width: i32,
    pub height: i32,
}

/// A vertical bar whose filled part grows from the bottom; the fill
/// fraction is clamped to the bar and measured in parts per million.
#[derive(Debug)]
pub struct FillBar {
    fill_ppm: u64,
    full_fill_rect: ScreenRect,
    dirty: bool,
}

impl FillBar {
    pub closed spec fn wf(&self) -> bool {
        &&& self.fill_ppm <= FILL_SCALE_PPM
        &&& 0 <= self.full_fill_rect.height <= 10_000
        &&& -SCREEN_COORD_BOUND - 100 <= self.full_fill_rect.y <= SCREEN_COORD_BOUND
    }

    pub closed spec fn spec_fill_ppm(&self) -> u64 {
        self.fill_ppm
    }

    pub closed spec fn spec_dirty(&self) -> bool {
        self.dirty
    }

    pub closed spec fn spec_full_rect(&self) -> ScreenRect {
        self.full_fill_rect
    }

    /// An empty bar whose background sprite sits at `pos`.
    pub fn new(pos: (i32, i32)) -> (r: FillBar)
        requires
            -SCREEN_COORD_BOUND < pos.0 < SCREEN_COORD_BOUND,
            -SCREEN_COORD_BOUND < pos.1 < SCREEN_COORD_BOUND,
        ensures
            r.wf(),
            r.spec_fill_ppm() == 0,
            r.spec_dirty(),
            r.spec_full_rect() == (ScreenRect {
                x: (pos.0 - 3) as i32,
                y: (pos.1 - 16) as i32,
                width: 5,
                height: 32,
            }),
    {
        let (x, y) = pos;
        FillBar {
            fill_ppm: 0,
            full_fill_rect: ScreenRect { x: x - 3, y: y - 16, width: 5, height: 32 },
            dirty: true,
        }
    }

    /// Whether the host must redraw the bar this frame; asking clears it.
    pub fn update(&mut self) -> (redraw: bool)
        ensures
            redraw == old(self).spec_dirty(),
            !final(self).spec_dirty(),
            final(self).spec_fill_ppm() == old(self).spec_fill_ppm(),
            final(self).spec_full_rect() == old(self).spec_full_rect(),
            final(self).wf() == old(self).wf(),
    {
        let was_dirty = self.dirty;
        self.dirty = false;
        was_dirty
    }

    /// The filled part: the bar's rectangle scaled by the fill fraction,
    /// anchored at the bottom edge.
    pub fn get_fill_rect(&self) -> (r: ScreenRect)
        requires
            self.wf(),
        ensures
            r.height == self.spec_full_rect().height * self.spec_fill_ppm() / (
            FILL_SCALE_PPM as int),
            r.y == self.spec_full_rect().y + (self.spec_full_rect().height - r.height),
            r.x == self.spec_full_rect().x,
            r.width == self.spec_full_rect().width,
    {
        let full_height: u64 = self.full_fill_rect.height as u64;
        proof {
            assert(full_height * self.fill_ppm <= 10_000 * FILL_SCALE_PPM) by (nonlinear_arith)
                requires
                    full_height <= 10_000,
                    self.fill_ppm <= FILL_SCALE_PPM,
            ;
            assert(full_height * self.fill_ppm / (FILL_SCALE_PPM as int) <= full_height) by (
            nonlinear_arith)
                requires
                    self.fill_ppm <= FILL_SCALE_PPM,
            ;
        }
        let height: i32 = (full_height * self.fill_ppm / FILL_SCALE_PPM) as i32;
        let y_diff: i32 = self.full_fill_rect.height - height;
        ScreenRect {
            x: self.full_fill_rect.x,
            y: self.full_fill_rect.y + y_diff,
            width: self.full_fill_rect.width,
            height,
        }
    }

    /// Set the fill fraction, clamped to a full bar.
    pub fn set_fill_pct(&mut self, ppm: u64)
        ensures
            final(self).spec_fill_ppm() == (if ppm <= FILL_SCALE_PPM {
                ppm
            } else {
                FILL_SCALE_PPM as u64
            }),
            final(self).spec_dirty(),
            final(self).spec_full_rect() == old(self).spec_full_rect(),
            old(self).wf() ==> final(self).wf(),
            final(self).spec_fill_ppm() <= FILL_SCALE_PPM,
    {
        self.fill_ppm = if ppm <= FILL_SCALE_PPM {
            ppm
        } else {
            FILL_SCALE_PPM
        };
        self.dirty = true;
    }

    /// Add to the fill fraction, clamped to a full bar.
    pub fn incr_fill_pct(&mut self, ppm: u64)
        requires
            old(self).wf(),
            ppm <= 0xF000_0000_0000_0000,
        ensures
            final(self).spec_fill_ppm() == (if old(self).spec_fill_ppm() + ppm <= FILL_SCALE_PPM {
                (old(self).spec_fill_ppm() + ppm) as u64
            } else {
                FILL_SCALE_PPM as u64
            }),
            final(self).spec_dirty(),
            final(self).spec_full_rect() == old(self).spec_full_rect(),
            final(self).wf(),
            final(self).spec_fill_ppm() <= FILL_SCALE_PPM,
    {
        let sum = self.fill_ppm + ppm;
        self.set_fill_pct(sum);
    }

    pub fn get_fill_pct(&self) -> (r: u64)
        ensures
            r == self.spec_fill_ppm(),
    {
        self.fill_ppm
    }
}

} // verus!
