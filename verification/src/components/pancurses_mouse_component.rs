//! The mouse state: position and reported buttons.

use vstd::prelude::*;

use crate::primitive_types::Vector2I;

verus! {

/// Holds the mouse position and the last reported button bits.
#[derive(Debug, Copy, Clone)]
pub struct PancursesMouseComponent {
    position: Vector2I,
    button_mask: i64,
}

impl PancursesMouseComponent {
    /// The mouse position.
    pub closed spec fn position(&self) -> Vector2I {
        self.position
    }

    /// The last reported button bits.
    pub closed spec fn button_mask(&self) -> i64 {
        self.button_mask
    }

    /// At the origin with no buttons reported.
    pub fn new() -> (mouse: Self)
        ensures
            mouse.position() == Vector2I(0, 0),
            mouse.button_mask() == 0,
    {
        PancursesMouseComponent { position: Vector2I(0, 0), button_mask: 0 }
    }

    pub fn get_position(&self) -> (position: Vector2I)
        ensures
            position == self.position(),
    {
        self.position
    }

    pub fn get_button_mask(&self) -> (button_mask: i64)
        ensures
            button_mask == self.button_mask(),
    {
        self.button_mask
    }

    pub fn set_mouse_x(&mut self, x: i64)
        ensures
            final(self).position() == Vector2I(x, old(self).position().1),
            final(self).button_mask() == old(self).button_mask(),
    {
        self.position.0 = x;
    }

    pub fn set_mouse_y(&mut self, y: i64)
        ensures
            final(self).position() == Vector2I(old(self).position().0, y),
            final(self).button_mask() == old(self).button_mask(),
    {
        self.position.1 = y;
    }

    pub fn set_button_mask(&mut self, button_mask: i64)
        ensures
            final(self).position() == old(self).position(),
            final(self).button_mask() == button_mask,
    {
        self.button_mask = button_mask;
    }
}

impl Default for PancursesMouseComponent {
    fn default() -> (mouse: Self)
        ensures
            mouse.position() == Vector2I(0, 0),
            mouse.button_mask() == 0,
    {
        PancursesMouseComponent::new()
    }
}

} // verus!
