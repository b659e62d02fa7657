//! Curses color values and color pairs.

use vstd::prelude::*;

verus! {

/// A color as curses stores it: each channel in the range `0..=1000`.
#[derive(Debug, Copy, Clone, Hash, PartialEq, Eq, Structural)]
pub struct CursesColor {
    pub r: i16,
    pub g: i16,
    pub b: i16,
}

impl CursesColor {
    pub fn new(r: i16, g: i16, b: i16) -> (color: Self)
        ensures
            color == (CursesColor { r, g, b }),
    {
        CursesColor { r, g, b }
    }
}

impl Default for CursesColor {
    /// Full white.
    fn default() -> (color: Self)
        ensures
            color == (CursesColor { r: 1000, g: 1000, b: 1000 }),
    {
        CursesColor { r: 1000, g: 1000, b: 1000 }
    }
}

/// A foreground / background pair of curses colors.
#[derive(Debug, Copy, Clone, Hash, PartialEq, Eq, Structural)]
pub struct CursesColorPair {
    pub foreground: CursesColor,
    pub background: CursesColor,
}

impl CursesColorPair {
    pub fn new(foreground: CursesColor, background: CursesColor) -> (pair: Self)
        ensures
            pair == (CursesColorPair { foreground, background }),
    {
        CursesColorPair { foreground, background }
    }
}

impl Default for CursesColorPair {
    /// White text on a black background.
    fn default() -> (pair: Self)
        ensures
            pair == (CursesColorPair {
                foreground: CursesColor { r: 1000, g: 1000, b: 1000 },
                background: CursesColor { r: 0, g: 0, b: 0 },
            }),
    {
        CursesColorPair::new(CursesColor::new(1000, 1000, 1000), CursesColor::new(0, 0, 0))
    }
}

} // verus!
