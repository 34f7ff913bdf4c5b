//! The user's preferences, and the theme switch of the application shell.

use vstd::prelude::*;

verus! {

/// The scramble length used when none was chosen.
pub const DEFAULT_SHUFFLE_LENGTH: u64 = 25;

#[derive(Clone, Copy, Debug, PartialEq, Eq, Structural)]
pub struct Preferences {
    pub shuffle_length: u64,
    pub dark_mode: bool,
}

impl Default for Preferences {
    fn default() -> (r: Self)
        ensures
            r.shuffle_length == DEFAULT_SHUFFLE_LENGTH,
            !r.dark_mode,
    {
        Self { shuffle_length: DEFAULT_SHUFFLE_LENGTH, dark_mode: false }
    }
}

/// The application shell: whether the dark theme is on.
pub struct App {
    pub dark: bool,
}

impl App {
    pub fn new(dark: bool) -> (r: Self)
        ensures
            r.dark == dark,
    {
        Self { dark }
    }

    /// Switches the theme and returns the new setting, to be stored.
    pub fn toggle_dark_mode(&mut self) -> (r: bool)
        ensures
            final(self).dark == !old(self).dark,
            r == final(self).dark,
    {
        self.dark = !self.dark;
        self.dark
    }
}

} // verus!
