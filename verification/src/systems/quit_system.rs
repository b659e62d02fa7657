//! Quitting when a key is pressed.

use vstd::prelude::*;

use crate::primitive_types::{InputEvent, Key};

verus! {

/// Some event of the queue is a press of `key`.
pub open spec fn key_pressed(events: Seq<InputEvent>, key: Key) -> bool {
    exists|i: int| 0 <= i < events.len() && events[i] == (InputEvent::KeyPress { key_code: key })
}

fn contains_key_press(events: &Vec<InputEvent>, key: Key) -> (found: bool)
    ensures
        found == key_pressed(events@, key),
{
    let mut i: usize = 0;
    while i < events.len()
        invariant
            0 <= i <= events@.len(),
            forall|j: int| 0 <= j < i ==> events@[j] != (InputEvent::KeyPress { key_code: key }),
        decreases events@.len() - i,
    {
        if events[i] == (InputEvent::KeyPress { key_code: key }) {
            assert(events@[i as int] == (InputEvent::KeyPress { key_code: key }));
            return true;
        }
        i = i + 1;
    }
    false
}

/// Asks to quit when escape is pressed.
#[derive(Debug, Copy, Clone)]
pub struct QuitSystem;

impl QuitSystem {
    /// Whether the events ask to quit: escape was pressed.
    pub fn should_quit(&self, events: &Vec<InputEvent>) -> (quit: bool)
        ensures
            quit == key_pressed(events@, Key::Escape),
    {
        contains_key_press(events, Key::Escape)
    }
}

/// Asks to quit when a chosen key is pressed.
#[derive(Debug, Copy, Clone)]
pub struct QuitKey {
    key: Key,
}

impl QuitKey {
    /// The key that quits.
    pub closed spec fn key(&self) -> Key {
        self.key
    }

    pub fn new(key: Key) -> (quit_key: Self)
        ensures
            quit_key.key() == key,
    {
        QuitKey { key }
    }

    /// Whether the events ask to quit: the key was pressed.
    pub fn should_quit(&self, events: &Vec<InputEvent>) -> (quit: bool)
        ensures
            quit == key_pressed(events@, self.key()),
    {
        contains_key_press(events, self.key)
    }
}

} // verus!
