//! The mouse position relative to an entity.

use vstd::prelude::*;

use crate::primitive_types::Vector2I;

verus! {

/// The mouse position in the local space of its entity.
#[derive(Debug, Copy, Clone, PartialEq, Eq, Structural)]
pub struct LocalMousePositionComponent {
    data: Vector2I,
}

impl LocalMousePositionComponent {
    /// The stored local mouse position.
    pub closed spec fn position(&self) -> Vector2I {
        self.data
    }

    /// At the origin.
    pub fn new() -> (component: Self)
        ensures
            component.position() == Vector2I(0, 0),
    {
        LocalMousePositionComponent { data: Vector2I(0, 0) }
    }

    pub fn get_local_mouse_position(&self) -> (position: Vector2I)
        ensures
            position == self.position(),
    {
        self.data
    }

    pub fn set_local_mouse_position(&mut self, local_mouse_position: Vector2I)
        ensures
            final(self).position() == local_mouse_position,
    {
        self.data = local_mouse_position;
    }
}

impl Default for LocalMousePositionComponent {
    fn default() -> (component: Self)
        ensures
            component.position() == Vector2I(0, 0),
    {
        LocalMousePositionComponent::new()
    }
}

} // verus!
