//! Per-cell shaders for filled rectangles: given a cell's position inside
//! the rectangle, the rectangle's size and its color, a shader decides the
//! cell's color, or leaves the cell undrawn.

use vstd::prelude::*;

use crate::primitive_types::{ColorKey, Vector2I};

verus! {

/// What a shader sees of a cell.
#[derive(Debug, Copy, Clone, PartialEq, Eq, Structural)]
pub struct CPUShaderInput {
    local_pos: Vector2I,
    size: Vector2I,
    color: ColorKey,
}

impl CPUShaderInput {
    pub closed spec fn spec_new(local_pos: Vector2I, size: Vector2I, color: ColorKey) -> CPUShaderInput {
        CPUShaderInput { local_pos, size, color }
    }

    pub closed spec fn local_pos_view(&self) -> Vector2I {
        self.local_pos
    }

    pub closed spec fn size_view(&self) -> Vector2I {
        self.size
    }

    pub closed spec fn color_view(&self) -> ColorKey {
        self.color
    }

    pub fn new(local_pos: Vector2I, size: Vector2I, color: ColorKey) -> (input: CPUShaderInput)
        ensures
            input == Self::spec_new(local_pos, size, color),
            input.local_pos_view() == local_pos,
            input.size_view() == size,
            input.color_view() == color,
    {
        CPUShaderInput { local_pos, size, color }
    }

    /// The cell's position relative to the rectangle's top-left corner.
    pub fn local_pos(&self) -> (p: Vector2I)
        ensures
            p == self.local_pos_view(),
    {
        self.local_pos
    }

    /// The rectangle's size.
    pub fn size(&self) -> (s: Vector2I)
        ensures
            s == self.size_view(),
    {
        self.size
    }

    /// The rectangle's color.
    pub fn color(&self) -> (c: ColorKey)
        ensures
            c == self.color_view(),
    {
        self.color
    }
}

/// A shader input made from a position, a size and a color shows them.
pub proof fn lemma_shader_input_views(local_pos: Vector2I, size: Vector2I, color: ColorKey)
    ensures
        CPUShaderInput::spec_new(local_pos, size, color).local_pos_view() == local_pos,
        CPUShaderInput::spec_new(local_pos, size, color).size_view() == size,
        CPUShaderInput::spec_new(local_pos, size, color).color_view() == color,
{
}

/// A cell lies on the rectangle's border: in its first or last row or
/// column.
pub open spec fn on_border(local_pos: Vector2I, size: Vector2I) -> bool {
    !(local_pos.0 > 0 && local_pos.0 < size.0 - 1 && local_pos.1 > 0 && local_pos.1 < size.1 - 1)
}

/// The shaders that need no floating-point arithmetic.
pub struct CPUShader;

impl CPUShader {
    /// Draws only the rectangle's border, in the rectangle's color.
    pub fn rect(input: CPUShaderInput) -> (color: Option<ColorKey>)
        requires
            input.size_view().0 > i64::MIN,
            input.size_view().1 > i64::MIN,
        ensures
            color == (if on_border(input.local_pos_view(), input.size_view()) {
                Some(input.color_view())
            } else {
                None
            }),
    {
        let local_pos = input.local_pos;
        let size = input.size;
        if local_pos.0 > 0 && local_pos.0 < size.0 - 1 && local_pos.1 > 0 && local_pos.1 < size.1 - 1 {
            return None;
        }
        Self::color_passthrough(input)
    }

    /// Fills the whole rectangle with its color.
    pub fn color_passthrough(input: CPUShaderInput) -> (color: Option<ColorKey>)
        ensures
            color == Some(input.color_view()),
    {
        Some(input.color)
    }
}

} // verus!
