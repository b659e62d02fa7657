//! Turning arrow-key presses into a unit velocity.

use vstd::prelude::*;

use crate::primitive_types::{InputEvent, Key, Vector2I};

verus! {

/// The number of presses of `key` among the events.
pub open spec fn press_count(events: Seq<InputEvent>, key: Key) -> int
    decreases events.len(),
{
    if events.len() == 0 {
        0
    } else {
        press_count(events.drop_last(), key) + if events.last() == (InputEvent::KeyPress { key_code: key }) {
            1int
        } else {
            0int
        }
    }
}

/// `v` limited to the range -1..=1.
pub open spec fn unit_clamp(v: int) -> int {
    if v < -1 {
        -1
    } else if v > 1 {
        1
    } else {
        v
    }
}

/// The velocity that the arrow-key presses ask for: right minus left and
/// down minus up, each limited to -1..=1.
pub open spec fn velocity_from_presses(events: Seq<InputEvent>) -> Vector2I {
    Vector2I(
        unit_clamp(press_count(events, Key::Right) - press_count(events, Key::Left)) as i64,
        unit_clamp(press_count(events, Key::Down) - press_count(events, Key::Up)) as i64,
    )
}

/// Computes the velocity that the arrow-key presses of the events ask for.
pub fn move_input(events: &Vec<InputEvent>) -> (velocity: Vector2I)
    requires
        events@.len() <= i64::MAX,
    ensures
        velocity == velocity_from_presses(events@),
{
    let mut x: i64 = 0;
    let mut y: i64 = 0;
    let mut i: usize = 0;
    while i < events.len()
        invariant
            0 <= i <= events@.len(),
            events@.len() <= i64::MAX,
            ({
                let prefix = events@.subrange(0, i as int);
                &&& x == press_count(prefix, Key::Right) - press_count(prefix, Key::Left)
                &&& y == press_count(prefix, Key::Down) - press_count(prefix, Key::Up)
            }),
            -i <= x <= i,
            -i <= y <= i,
        decreases events@.len() - i,
    {
        assert(events@.subrange(0, i + 1).drop_last() =~= events@.subrange(0, i as int));
        match events[i] {
            InputEvent::KeyPress { key_code: Key::Left } => {
                x = x - 1;
            },
            InputEvent::KeyPress { key_code: Key::Right } => {
                x = x + 1;
            },
            InputEvent::KeyPress { key_code: Key::Up } => {
                y = y - 1;
            },
            InputEvent::KeyPress { key_code: Key::Down } => {
                y = y + 1;
            },
            _ => {},
        }
        i = i + 1;
    }
    assert(events@.subrange(0, events@.len() as int) =~= events@);
    let x = if x < -1 { -1 } else if x > 1 { 1 } else { x };
    let y = if y < -1 { -1 } else if y > 1 { 1 } else { y };
    Vector2I(x, y)
}

/// Sets velocities from the arrow keys (event-queue variant).
#[derive(Debug, Copy, Clone)]
pub struct InputVelocity;

impl InputVelocity {
    /// The velocity that the events ask for.
    pub fn velocity(&self, events: &Vec<InputEvent>) -> (velocity: Vector2I)
        requires
            events@.len() <= i64::MAX,
        ensures
            velocity == velocity_from_presses(events@),
    {
        move_input(events)
    }
}

/// Sets velocities from the arrow keys.
#[derive(Debug, Copy, Clone)]
pub struct InputVelocitySystem;

impl InputVelocitySystem {
    pub fn new() -> (system: Self) {
        InputVelocitySystem
    }

    /// The velocity that the events ask for.
    pub fn velocity(&self, events: &Vec<InputEvent>) -> (velocity: Vector2I)
        requires
            events@.len() <= i64::MAX,
        ensures
            velocity == velocity_from_presses(events@),
    {
        move_input(events)
    }
}

} // verus!
