//! Plain value types shared by the components and systems: integer vectors,
//! keys, input events, and exact keys for floating-point colors.

use vstd::prelude::*;

verus! {

/// A two-dimensional integer vector (x, y).
#[derive(Debug, Copy, Clone, Hash, PartialEq, Eq, Structural)]
pub struct Vector2I(pub i64, pub i64);

impl Default for Vector2I {
    /// The origin.
    fn default() -> (v: Self)
        ensures
            v == Vector2I(0, 0),
    {
        Vector2I(0, 0)
    }
}

impl Vector2I {
    /// Component-wise sum. Overflow panics, so it is not callable.
    pub fn plus(self, other: Vector2I) -> (sum: Vector2I)
        requires
            i64::MIN <= self.0 + other.0 <= i64::MAX,
            i64::MIN <= self.1 + other.1 <= i64::MAX,
        ensures
            sum.0 == self.0 + other.0,
            sum.1 == self.1 + other.1,
    {
        Vector2I(self.0 + other.0, self.1 + other.1)
    }

    /// Component-wise difference. Overflow panics, so it is not callable.
    pub fn minus(self, other: Vector2I) -> (difference: Vector2I)
        requires
            i64::MIN <= self.0 - other.0 <= i64::MAX,
            i64::MIN <= self.1 - other.1 <= i64::MAX,
        ensures
            difference.0 == self.0 - other.0,
            difference.1 == self.1 - other.1,
    {
        Vector2I(self.0 - other.0, self.1 - other.1)
    }
}

/// A key of the keyboard, independent of the terminal backend.
#[derive(Debug, Copy, Clone, Hash, PartialEq, Eq, Structural)]
pub enum Key {
    Unknown,
    Escape,
    Space,
    Left,
    Right,
    Up,
    Down,
    Char(char),
}

/// An input event as the systems exchange it.
#[derive(Debug, Copy, Clone, Hash, PartialEq, Eq, Structural)]
#[allow(inconsistent_fields)]
pub enum InputEvent {
    KeyPress { key_code: Key },
    KeyRelease { key_code: Key },
    MouseMove { position: Vector2I, delta: Vector2I },
    MouseScroll { delta: i64 },
    MousePress { button_mask: usize },
    MouseRelease { button_mask: usize },
}

/// An exact stand-in for an RGB color of three `f32` channels: the bit
/// patterns of the channels. Two keys are equal exactly when the channels
/// have the same bits.
#[derive(Debug, Copy, Clone, Hash, PartialEq, Eq, Structural)]
pub struct ColorKey {
    pub r: u32,
    pub g: u32,
    pub b: u32,
}

impl ColorKey {
    /// The bits of `1.0f32`.
    pub open spec fn one_bits() -> u32 {
        0x3F80_0000u32
    }

    /// Black: all channels `0.0`.
    pub fn black() -> (color: ColorKey)
        ensures
            color == (ColorKey { r: 0, g: 0, b: 0 }),
    {
        ColorKey { r: 0, g: 0, b: 0 }
    }

    /// White: all channels `1.0`.
    pub fn white() -> (color: ColorKey)
        ensures
            color == (ColorKey { r: Self::one_bits(), g: Self::one_bits(), b: Self::one_bits() }),
    {
        ColorKey { r: 0x3F80_0000, g: 0x3F80_0000, b: 0x3F80_0000 }
    }
}

/// What the debug inspector shows.
#[derive(Debug, Copy, Clone, Hash, PartialEq, Eq, Structural)]
pub enum DebugData {
    Entities,
    Components,
    ComponentData,
    EntityComponents,
}

/// A request to the curses terminal that the decisions of this crate produce
/// and a terminal driver carries out in order.
#[derive(Debug, Copy, Clone, Hash, PartialEq, Eq, Structural)]
pub enum CursesCommand {
    /// Define color `index` with the given channels (`0..=1000`).
    InitColor { index: i16, r: i16, g: i16, b: i16 },
    /// Define color pair `index` from two color indices.
    InitPair { index: i16, foreground: i16, background: i16 },
    /// Adopt the terminal's new size.
    ResizeTerm,
}

} // verus!
