//! The monochrome pixel grid: 64 columns by 32 rows, stored row-major,
//! together with a "changed since last consumed" flag.  The execution
//! engine is the only mutator; an external renderer reads the grid and
//! resets the flag after consuming it.

use vstd::prelude::*;

verus! {

/// Width of the pixel grid in columns.
pub const SCREEN_WIDTH: usize = 64;

/// Height of the pixel grid in rows.
pub const SCREEN_HEIGHT: usize = 32;

/// Number of pixels in the grid.
pub const SCREEN_PIXELS: usize = 2048;

/// A grid in which every pixel is off.
pub open spec fn all_pixels_off() -> Seq<bool> {
    Seq::new(2048, |i: int| false)
}

/// The pixel grid plus the redraw-needed flag.  Pixel `(x, y)` lives at
/// index `y * 64 + x` of `buffer`.
pub struct Display {
    pub buffer: Vec<bool>,
    pub draw: bool,
}

impl Display {
    /// The buffer holds exactly one value per pixel of the 64x32 grid.
    pub open spec fn wf(&self) -> bool {
        self.buffer@.len() == 2048
    }

    /// The pixel at column `x`, row `y`, as the model sees it.
    pub open spec fn spec_pixel(&self, x: int, y: int) -> bool {
        self.buffer@[y * 64 + x]
    }

    /// A fresh grid: every pixel off, no redraw pending.
    pub fn new() -> (d: Display)
        ensures
            d.wf(),
            d.buffer@ == all_pixels_off(),
            !d.draw,
    {
        let mut buffer: Vec<bool> = Vec::new();
        let mut i: usize = 0;
        while i < SCREEN_PIXELS
            invariant
                i <= 2048,
                buffer@.len() == i,
                forall|j: int| 0 <= j < i ==> !buffer@[j],
            decreases 2048 - i,
        {
            buffer.push(false);
            i += 1;
        }
        proof {
            assert(buffer@ =~= all_pixels_off());
        }
        Display { buffer, draw: false }
    }

    /// Turns every pixel off and marks the display changed, regardless of
    /// the prior state.
    pub fn clear(&mut self)
        requires
            old(self).wf(),
        ensures
            final(self).wf(),
            final(self).buffer@ == all_pixels_off(),
            final(self).draw,
    {
        let mut i: usize = 0;
        while i < SCREEN_PIXELS
            invariant
                i <= 2048,
                self.buffer@.len() == 2048,
                forall|j: int| 0 <= j < i ==> !self.buffer@[j],
            decreases 2048 - i,
        {
            self.buffer.set(i, false);
            i += 1;
        }
        proof {
            assert(self.buffer@ =~= all_pixels_off());
        }
        self.draw = true;
    }

    /// Reads the pixel at column `x`, row `y`.
    pub fn pixel(&self, x: usize, y: usize) -> (b: bool)
        requires
            self.wf(),
            x < 64,
            y < 32,
        ensures
            b == self.spec_pixel(x as int, y as int),
    {
        self.buffer[y * SCREEN_WIDTH + x]
    }
}

impl Default for Display {
    /// Same as `Display::new`.
    fn default() -> (d: Display)
        ensures
            d.wf(),
            d.buffer@ == all_pixels_off(),
            !d.draw,
    {
        Display::new()
    }
}

} // verus!
