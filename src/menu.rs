//! The title menu's state: the chosen window size and how the menu was left.

use vstd::prelude::*;

verus! {

#[derive(Clone, Copy, PartialEq, Eq, Debug, Structural)]
pub enum Resolution {
    Small,
    Medium,
    Big,
    Fullscreen,
}

#[derive(Clone, Copy, PartialEq, Eq, Debug, Structural)]
pub enum ExitCode {
    Game,
    Exit,
}

/// The window size that goes with a resolution; full screen takes the size of the
/// screen.
pub open spec fn size_of(r: Resolution, screen: (i32, i32)) -> (i32, i32) {
    match r {
        Resolution::Small => (640, 360),
        Resolution::Medium => (960, 540),
        Resolution::Big => (1280, 720),
        Resolution::Fullscreen => screen,
    }
}

pub open spec fn next_resolution(r: Resolution) -> Resolution {
    match r {
        Resolution::Small => Resolution::Medium,
        Resolution::Medium => Resolution::Big,
        Resolution::Big => Resolution::Fullscreen,
        Resolution::Fullscreen => Resolution::Small,
    }
}

impl Resolution {
    /// The next choice in the cycle small, medium, big, full screen.
    pub fn next(&self) -> (r: Resolution)
        ensures
            r == next_resolution(*self),
    {
        match self {
            Resolution::Small => Resolution::Medium,
            Resolution::Medium => Resolution::Big,
            Resolution::Big => Resolution::Fullscreen,
            Resolution::Fullscreen => Resolution::Small,
        }
    }
}

/// The menu's choice of window size.
#[derive(Clone, Copy, Debug)]
pub struct Menu {
    pub resolution: Resolution,
    pub window_resolution: (i32, i32),
}

impl Menu {
    pub const INITIAL_WIDTH: i32 = 640;

    pub const INITIAL_HEIGHT: i32 = 360;

    pub fn new() -> (r: Menu)
        ensures
            r.resolution == Resolution::Small,
            r.window_resolution == (Self::INITIAL_WIDTH, Self::INITIAL_HEIGHT),
    {
        Menu { resolution: Resolution::Small, window_resolution: (640, 360) }
    }

    /// The window size for the current choice, given the size of the screen.
    pub fn get_window_resolution(&self, screen: (i32, i32)) -> (r: (i32, i32))
        ensures
            r == size_of(self.resolution, screen),
    {
        match self.resolution {
            Resolution::Small => (640, 360),
            Resolution::Medium => (960, 540),
            Resolution::Big => (1280, 720),
            Resolution::Fullscreen => screen,
        }
    }

    /// Moves to the next resolution and returns whether it is full screen.
    pub fn resize(&mut self, screen: (i32, i32)) -> (r: bool)
        ensures
            final(self).resolution == next_resolution(old(self).resolution),
            final(self).window_resolution == size_of(final(self).resolution, screen),
            r == (final(self).resolution == Resolution::Fullscreen),
    {
        self.resolution = self.resolution.next();
        self.window_resolution = self.get_window_resolution(screen);
        self.resolution == Resolution::Fullscreen
    }
}

} // verus!
