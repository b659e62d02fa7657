//! Moving an index back and forth with a pair of keys.

use vstd::prelude::*;

use crate::components::input_axis::InputAxisComponent;
use crate::components::int_range::{clamp_index, IntRangeComponent};
use crate::primitive_types::{InputEvent, Key};

verus! {

/// How much one event moves the axis: a press of the negative key moves it
/// back one step, a press of the positive key (when it differs from the
/// negative key) moves it forward one step.
pub open spec fn axis_step(event: InputEvent, negative: Key, positive: Key) -> int {
    match event {
        InputEvent::KeyPress { key_code } => if key_code == negative {
            -1
        } else if key_code == positive {
            1
        } else {
            0
        },
        _ => 0,
    }
}

/// How much a queue of events moves the axis.
pub open spec fn axis_offset(events: Seq<InputEvent>, negative: Key, positive: Key) -> int
    decreases events.len(),
{
    if events.len() == 0 {
        0
    } else {
        axis_offset(events.drop_last(), negative, positive) + axis_step(events.last(), negative, positive)
    }
}

/// Computes how much the events move an axis with the given keys.
pub fn compute_axis_offset(events: &Vec<InputEvent>, negative: Key, positive: Key) -> (offset: i64)
    requires
        events@.len() <= i64::MAX,
    ensures
        offset == axis_offset(events@, negative, positive),
{
    let mut offset: i64 = 0;
    let mut i: usize = 0;
    while i < events.len()
        invariant
            0 <= i <= events@.len(),
            events@.len() <= i64::MAX,
            offset == axis_offset(events@.subrange(0, i as int), negative, positive),
            -i <= offset <= i,
        decreases events@.len() - i,
    {
        assert(events@.subrange(0, i + 1).drop_last() =~= events@.subrange(0, i as int));
        match events[i] {
            InputEvent::KeyPress { key_code } => {
                if key_code == negative {
                    offset = offset - 1;
                } else if key_code == positive {
                    offset = offset + 1;
                }
            },
            _ => {},
        }
        i = i + 1;
    }
    assert(events@.subrange(0, events@.len() as int) =~= events@);
    offset
}

/// Moves an index with the keys of an input axis (event-queue variant).
#[derive(Debug, Copy, Clone)]
pub struct InputAxis;

impl InputAxis {
    /// How much the events move an axis with the given keys.
    pub fn offset(&self, events: &Vec<InputEvent>, negative: Key, positive: Key) -> (offset: i64)
        requires
            events@.len() <= i64::MAX,
        ensures
            offset == axis_offset(events@, negative, positive),
    {
        compute_axis_offset(events, negative, positive)
    }
}

/// Moves an index with the keys of an input axis.
#[derive(Debug, Copy, Clone)]
pub struct InputAxisSystem;

impl InputAxisSystem {
    pub fn new() -> (system: Self) {
        InputAxisSystem
    }

    /// How much the events move an axis with the given keys.
    pub fn offset(&self, events: &Vec<InputEvent>, negative: Key, positive: Key) -> (offset: i64)
        requires
            events@.len() <= i64::MAX,
        ensures
            offset == axis_offset(events@, negative, positive),
    {
        compute_axis_offset(events, negative, positive)
    }

    /// Moves the selection of an entity by what the events ask of its axis,
    /// limited to the range.
    pub fn apply(&self, events: &Vec<InputEvent>, axis: &InputAxisComponent, range: &mut IntRangeComponent)
        requires
            events@.len() <= i64::MAX,
            old(range).end() > i64::MIN,
            i64::MIN <= old(range).index() + axis_offset(events@, axis.negative(), axis.positive()) <= i64::MAX,
        ensures
            final(range).index() == clamp_index(
                old(range).index() + axis_offset(events@, axis.negative(), axis.positive()),
                old(range).start() as int,
                old(range).end() as int,
            ),
            final(range).start() == old(range).start(),
            final(range).end() == old(range).end(),
    {
        let offset = compute_axis_offset(events, axis.get_negative_input(), axis.get_positive_input());
        let index = range.get_index();
        range.set_index(index + offset);
    }
}

} // verus!
