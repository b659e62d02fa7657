//! Moving a selection along an input axis by the buffered curses inputs.

use vstd::prelude::*;

use crate::components::input_axis::InputAxisComponent;
use crate::components::int_range::{clamp_index, IntRangeComponent};
use crate::components::pancurses_input_buffer_component::PancursesInputBufferComponent;
use crate::curses_input::{key_of, CursesInput};
use crate::primitive_types::Key;

verus! {

/// Whether the key of an input is one of the two keys of the axis.
pub open spec fn is_axis_input(input: CursesInput, negative: Key, positive: Key) -> bool {
    key_of(input) == negative || key_of(input) == positive
}

/// The move one input asks for: back one for the negative key (which wins
/// when both directions share a key), forward one for the positive key.
pub open spec fn axis_input_step(input: CursesInput, negative: Key, positive: Key) -> int {
    if key_of(input) == negative {
        -1
    } else if key_of(input) == positive {
        1
    } else {
        0
    }
}

/// The sum of the moves of the inputs.
pub open spec fn axis_input_total(inputs: Seq<CursesInput>, negative: Key, positive: Key) -> int
    decreases inputs.len(),
{
    if inputs.len() == 0 {
        0
    } else {
        axis_input_total(inputs.drop_last(), negative, positive) + axis_input_step(inputs.last(), negative, positive)
    }
}

/// Whether the key of every input is one of the two keys of the axis.
pub open spec fn all_axis_inputs(inputs: Seq<CursesInput>, negative: Key, positive: Key) -> bool {
    forall|i: int| 0 <= i < inputs.len() ==> is_axis_input(#[trigger] inputs[i], negative, positive)
}

/// An entity moved along an axis: its keys, its input buffer and its
/// selection.
#[derive(Debug, Clone)]
pub struct AxisTarget {
    pub axis: InputAxisComponent,
    pub buffer: PancursesInputBufferComponent,
    pub range: IntRangeComponent,
}

/// Whether moving the selection of an entity stays within `i64` (it is only
/// computed when every buffered input belongs to the axis).
pub open spec fn axis_fits(target: AxisTarget) -> bool {
    let inputs = target.buffer.inputs();
    &&& inputs.len() <= i64::MAX
    &&& all_axis_inputs(inputs, target.axis.negative(), target.axis.positive()) ==> {
        &&& target.range.end() > i64::MIN
        &&& i64::MIN <= target.range.index() + axis_input_total(inputs, target.axis.negative(), target.axis.positive())
            <= i64::MAX
    }
}

/// Whether an entity's buffer holds only inputs of its axis.
pub open spec fn axis_complete(target: AxisTarget) -> bool {
    all_axis_inputs(target.buffer.inputs(), target.axis.negative(), target.axis.positive())
}

/// The selection of an entity after moving it: by the sum of its inputs,
/// limited to the range, when all inputs belong to the axis.
pub open spec fn axis_moved_index(target: AxisTarget) -> int {
    clamp_index(
        target.range.index() + axis_input_total(
            target.buffer.inputs(),
            target.axis.negative(),
            target.axis.positive(),
        ),
        target.range.start() as int,
        target.range.end() as int,
    )
}

/// Whether an entity before `i` holds an input outside its axis, which stops
/// the system there.
pub open spec fn axis_blocked_before(targets: Seq<AxisTarget>, i: int) -> bool {
    exists|j: int| 0 <= j < i && !axis_complete(#[trigger] targets[j])
}

/// Moves selections along their input axes by the buffered inputs, which it
/// reads without taking them out.
#[derive(Debug, Copy, Clone)]
pub struct PancursesInputAxisSystem;

impl PancursesInputAxisSystem {
    pub fn new() -> (system: Self) {
        PancursesInputAxisSystem
    }

    /// Sums the moves of the buffered inputs, oldest first. When all belong
    /// to the axis, the sum comes back; at the first one that does not,
    /// nothing does.
    pub fn offset(&self, axis: &InputAxisComponent, buffer: &PancursesInputBufferComponent) -> (offset: Option<i64>)
        requires
            buffer.inputs().len() <= i64::MAX,
        ensures
            all_axis_inputs(buffer.inputs(), axis.negative(), axis.positive()) ==> offset is Some && offset->0
                == axis_input_total(buffer.inputs(), axis.negative(), axis.positive()),
            !all_axis_inputs(buffer.inputs(), axis.negative(), axis.positive()) ==> offset is None,
    {
        let negative = axis.get_negative_input();
        let positive = axis.get_positive_input();
        let inputs = buffer.get_inputs();
        let mut offset: i64 = 0;
        let mut i: usize = 0;
        while i < inputs.len()
            invariant
                0 <= i <= inputs@.len(),
                inputs@ == buffer.inputs(),
                inputs@.len() <= i64::MAX,
                negative == axis.negative(),
                positive == axis.positive(),
                offset == axis_input_total(inputs@.subrange(0, i as int), negative, positive),
                -i <= offset <= i,
                all_axis_inputs(inputs@.subrange(0, i as int), negative, positive),
            decreases inputs@.len() - i,
        {
            let ghost prefix = inputs@.subrange(0, i + 1);
            assert(prefix.drop_last() =~= inputs@.subrange(0, i as int));
            let key = inputs[i].into_key();
            if key == negative {
                offset = offset - 1;
            } else if key == positive {
                offset = offset + 1;
            } else {
                assert(!is_axis_input(inputs@[i as int], negative, positive));
                return None;
            }
            assert forall|j: int| 0 <= j < prefix.len() implies is_axis_input(#[trigger] prefix[j], negative, positive) by {
                if j < i {
                    assert(prefix[j] == inputs@.subrange(0, i as int)[j]);
                }
            }
            i = i + 1;
        }
        assert(inputs@.subrange(0, inputs@.len() as int) =~= inputs@);
        Some(offset)
    }

    /// Moves the selections of the entities in order and stops at the first
    /// entity that holds an input outside its axis, whose selection stays as
    /// it is, like that of every entity after it. The buffers are kept.
    pub fn run(&self, targets: &mut Vec<AxisTarget>)
        requires
            forall|i: int|
                0 <= i < old(targets)@.len() && !axis_blocked_before(old(targets)@, i) ==> axis_fits(
                    #[trigger] old(targets)@[i],
                ),
        ensures
            final(targets)@.len() == old(targets)@.len(),
            forall|i: int|
                0 <= i < old(targets)@.len() ==> {
                    let before = #[trigger] old(targets)@[i];
                    let after = final(targets)@[i];
                    &&& after.axis == before.axis
                    &&& after.buffer.inputs() == before.buffer.inputs()
                    &&& after.range.start() == before.range.start()
                    &&& after.range.end() == before.range.end()
                    &&& after.range.index() == if !axis_blocked_before(old(targets)@, i) && axis_complete(before) {
                        axis_moved_index(before)
                    } else {
                        before.range.index() as int
                    }
                },
    {
        let ghost initial = targets@;
        let mut i: usize = 0;
        while i < targets.len()
            invariant
                0 <= i <= targets@.len(),
                initial == old(targets)@,
                targets@.len() == initial.len(),
                !axis_blocked_before(initial, i as int),
                forall|j: int|
                    0 <= j < initial.len() && !axis_blocked_before(initial, j) ==> axis_fits(#[trigger] initial[j]),
                forall|j: int|
                    0 <= j < initial.len() ==> {
                        let before = #[trigger] initial[j];
                        let after = targets@[j];
                        &&& after.axis == before.axis
                        &&& after.buffer.inputs() == before.buffer.inputs()
                        &&& after.range.start() == before.range.start()
                        &&& after.range.end() == before.range.end()
                        &&& after.range.index() == if j < i {
                            axis_moved_index(before)
                        } else {
                            before.range.index() as int
                        }
                    },
            ensures
                forall|j: int|
                    0 <= j < initial.len() ==> {
                        let before = #[trigger] initial[j];
                        let after = targets@[j];
                        &&& after.axis == before.axis
                        &&& after.buffer.inputs() == before.buffer.inputs()
                        &&& after.range.start() == before.range.start()
                        &&& after.range.end() == before.range.end()
                        &&& after.range.index() == if !axis_blocked_before(initial, j) && axis_complete(before) {
                            axis_moved_index(before)
                        } else {
                            before.range.index() as int
                        }
                    },
            decreases initial.len() - i,
        {
            assert(axis_fits(initial[i as int]));
            assert(targets@[i as int].buffer.inputs() == initial[i as int].buffer.inputs());
            let offset = self.offset(&targets[i].axis, &targets[i].buffer);
            match offset {
                None => {
                    assert forall|j: int| 0 <= j < initial.len() && j > i implies axis_blocked_before(initial, j) by {
                        assert(!axis_complete(initial[i as int]));
                    }
                    return;
                },
                Some(offset) => {
                    let ghost pre = targets@;
                    let target_ref = &mut targets[i];
                    let index = target_ref.range.get_index();
                    target_ref.range.set_index(index + offset);
                    assert(forall|j: int| 0 <= j < initial.len() && j != i ==> targets@[j] == pre[j]);
                    assert forall|j: int| 0 <= j < i + 1 implies axis_complete(#[trigger] initial[j]) by {
                        if j < i && !axis_complete(initial[j]) {
                            assert(axis_blocked_before(initial, i as int));
                        }
                    }
                },
            }
            i = i + 1;
        }
    }
}

} // verus!
