//! The two-frame activity spinner shown while scanning.

use vstd::prelude::*;

verus! {

/// Number of frames the spinner cycles through.
pub const SPINNER_FRAMES: usize = 2;

/// A tiny animation: `index` is the current frame.
#[derive(Debug, Clone, Copy, PartialEq, Eq, Structural)]
pub struct Spinner {
    pub active: bool,
    pub index: usize,
}

/// The glyph of each frame.
pub open spec fn spinner_glyph(index: usize) -> char {
    if index == 0 {
        '\u{29be}'
    } else {
        '\u{29bf}'
    }
}

impl Default for Spinner {
    fn default() -> (r: Self)
        ensures
            !r.active,
            r.index == 0,
    {
        Spinner { active: false, index: 0 }
    }
}

impl Spinner {
    /// The spinner only ever shows one of its frames.
    pub open spec fn wf(self) -> bool {
        self.index < SPINNER_FRAMES
    }

    /// The glyph for the current frame.
    pub fn draw(&self) -> (r: char)
        requires
            self.wf(),
        ensures
            r == spinner_glyph(self.index),
    {
        if self.index == 0 {
            '\u{29be}'
        } else {
            '\u{29bf}'
        }
    }

    /// Advances to the next frame, wrapping around.
    pub fn update(&mut self)
        requires
            old(self).wf(),
        ensures
            final(self).wf(),
            final(self).active == old(self).active,
            final(self).index == (old(self).index + 1) % (SPINNER_FRAMES as int),
    {
        self.index = (self.index + 1) % SPINNER_FRAMES;
    }
}

} // verus!
