//! Choosing what the debug inspector shows from a tab index.

use vstd::prelude::*;

use crate::primitive_types::DebugData;

verus! {

/// What tab `index` of the inspector shows: tabs 0 to 3 show entities,
/// components, component data and entity components; any other index shows
/// entities.
pub open spec fn debug_data_of(index: i64) -> DebugData {
    if index == 1 {
        DebugData::Components
    } else if index == 2 {
        DebugData::ComponentData
    } else if index == 3 {
        DebugData::EntityComponents
    } else {
        DebugData::Entities
    }
}

/// Switches the debug inspector between its tabs.
#[derive(Debug, Copy, Clone)]
pub struct DebugTabSystem;

impl DebugTabSystem {
    pub fn new() -> (system: Self) {
        DebugTabSystem
    }

    /// What the inspector shows when tab `index` is selected.
    pub fn debug_data(&self, index: i64) -> (data: DebugData)
        ensures
            data == debug_data_of(index),
    {
        match index {
            0 => DebugData::Entities,
            1 => DebugData::Components,
            2 => DebugData::ComponentData,
            3 => DebugData::EntityComponents,
            _ => DebugData::Entities,
        }
    }
}

} // verus!
