//! Colors with integer channels, pairs of them, and the component that
//! gives an entity a color pair.

use vstd::prelude::*;

verus! {

/// A color of three channels of an ordered type.
#[derive(Debug, Copy, Clone, Hash, PartialEq, Eq)]
pub struct ColorRGB<T: Default + Ord> {
    pub r: T,
    pub g: T,
    pub b: T,
}

impl<T: Default + Ord> ColorRGB<T> {
    pub fn new(r: T, g: T, b: T) -> (color: Self)
        ensures
            color.r == r,
            color.g == g,
            color.b == b,
    {
        ColorRGB { r, g, b }
    }
}

/// A curses color: three channels in `0..=1000`.
pub type PancursesColor = ColorRGB<i16>;

impl<T: Default + Ord> Default for ColorRGB<T> {
    /// Every channel at its type's default (black for curses colors).
    fn default() -> (color: Self)
        ensures
            call_ensures(T::default, (), color.r),
            call_ensures(T::default, (), color.g),
            call_ensures(T::default, (), color.b),
    {
        ColorRGB { r: T::default(), g: T::default(), b: T::default() }
    }
}

/// A foreground and a background color.
#[derive(Debug, Copy, Clone, Hash, PartialEq, Eq)]
pub struct PancursesColorPair {
    pub foreground: PancursesColor,
    pub background: PancursesColor,
}

impl PancursesColorPair {
    pub fn new(foreground: PancursesColor, background: PancursesColor) -> (pair: Self)
        ensures
            pair.foreground == foreground,
            pair.background == background,
    {
        PancursesColorPair { foreground, background }
    }
}

impl Default for PancursesColorPair {
    /// White on black.
    fn default() -> (pair: Self)
        ensures
            pair.foreground == (ColorRGB::<i16> { r: 1000, g: 1000, b: 1000 }),
            pair.background == (ColorRGB::<i16> { r: 0, g: 0, b: 0 }),
    {
        PancursesColorPair::new(ColorRGB::new(1000, 1000, 1000), ColorRGB::new(0, 0, 0))
    }
}

/// Gives an entity a color pair.
#[derive(Debug, Copy, Clone, PartialEq, Eq)]
pub struct PancursesColorPairComponent {
    pub color_pair: PancursesColorPair,
}

impl PancursesColorPairComponent {
    pub fn new(color_pair: PancursesColorPair) -> (component: Self)
        ensures
            component.color_pair == color_pair,
    {
        PancursesColorPairComponent { color_pair }
    }
}

impl Default for PancursesColorPairComponent {
    /// White on black.
    fn default() -> (component: Self)
        ensures
            component.color_pair.foreground == (ColorRGB::<i16> { r: 1000, g: 1000, b: 1000 }),
            component.color_pair.background == (ColorRGB::<i16> { r: 0, g: 0, b: 0 }),
    {
        PancursesColorPairComponent::new(PancursesColorPair::default())
    }
}

} // verus!
