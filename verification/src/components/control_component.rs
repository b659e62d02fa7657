//! Tags and descriptions of user-interface controls.

use vstd::prelude::*;

verus! {

/// Tags an entity for rendering by the user-interface systems.
#[derive(Debug, Default, Copy, Clone, PartialEq, Eq, Structural)]
pub struct ControlComponent;

/// Asks a primitive shape to be drawn filled.
#[derive(Debug, Default, Copy, Clone, PartialEq, Eq, Structural)]
pub struct FillComponent;

/// What a control draws: a string, or a rectangle that may be filled.
#[derive(Debug, Copy, Clone, PartialEq, Eq, Structural)]
pub enum ControlData {
    String,
    Rect { filled: bool },
}

impl Default for ControlData {
    /// A string control.
    fn default() -> (data: Self)
        ensures
            data == ControlData::String,
    {
        ControlData::String
    }
}

/// A user-interface control drawn on the curses terminal.
#[derive(Debug, Copy, Clone, PartialEq, Eq, Structural)]
pub struct PancursesControlComponent {
    pub control_data: ControlData,
}

impl PancursesControlComponent {
    pub fn new(control_data: ControlData) -> (component: Self)
        ensures
            component.control_data == control_data,
    {
        PancursesControlComponent { control_data }
    }
}

impl Default for PancursesControlComponent {
    /// A string control.
    fn default() -> (component: Self)
        ensures
            component.control_data == ControlData::String,
    {
        PancursesControlComponent::new(ControlData::default())
    }
}

} // verus!
