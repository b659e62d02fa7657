//! Destroying tagged entities when their key is pressed.

use vstd::prelude::*;

use crate::primitive_types::{InputEvent, Key};
use crate::systems::input_velocity_system::press_count;

verus! {

/// Counts the presses of `key` among the events.
pub fn count_presses(events: &Vec<InputEvent>, key: Key) -> (count: usize)
    ensures
        count == press_count(events@, key),
{
    let mut count: usize = 0;
    let mut i: usize = 0;
    while i < events.len()
        invariant
            0 <= i <= events@.len(),
            count == press_count(events@.subrange(0, i as int), key),
            count <= i,
        decreases events@.len() - i,
    {
        assert(events@.subrange(0, i + 1).drop_last() =~= events@.subrange(0, i as int));
        if events[i] == (InputEvent::KeyPress { key_code: key }) {
            count = count + 1;
        }
        i = i + 1;
    }
    assert(events@.subrange(0, events@.len() as int) =~= events@);
    count
}

/// Destroys an entity tagged for destruction testing once per press of its
/// key (event-queue variant).
#[derive(Debug, Copy, Clone)]
pub struct DestructionTestInput;

impl DestructionTestInput {
    /// How many times an entity tagged with `key` is destroyed.
    pub fn destructions(&self, events: &Vec<InputEvent>, key: Key) -> (count: usize)
        ensures
            count == press_count(events@, key),
    {
        count_presses(events, key)
    }
}

/// Destroys an entity tagged for destruction testing once per press of its
/// key.
#[derive(Debug, Copy, Clone)]
pub struct DestructionTestInputSystem;

impl DestructionTestInputSystem {
    pub fn new() -> (system: Self) {
        DestructionTestInputSystem
    }

    /// How many times an entity tagged with `key` is destroyed.
    pub fn destructions(&self, events: &Vec<InputEvent>, key: Key) -> (count: usize)
        ensures
            count == press_count(events@, key),
    {
        count_presses(events, key)
    }
}

} // verus!
