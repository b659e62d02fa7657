//! Stepping a selection backwards and forwards with two bound inputs.

use vstd::prelude::*;

use crate::components::int_range::{clamp_index, IntRangeComponent};
use crate::components::pancurses_input_buffer_component::{
    PancursesInputBufferComponent, PancursesPrevNextInputComponent,
};
use crate::curses_input::CursesInput;

verus! {

/// Whether an input is one of the two bound inputs.
pub open spec fn is_step(input: CursesInput, prev: CursesInput, next: CursesInput) -> bool {
    input == prev || input == next
}

/// The move one input asks for: back one for the previous input (which wins
/// when both are bound to the same input), forward one for the next input,
/// none otherwise.
pub open spec fn step_of(input: CursesInput, prev: CursesInput, next: CursesInput) -> int {
    if input == prev {
        -1
    } else if input == next {
        1
    } else {
        0
    }
}

/// The sum of the moves of the inputs.
pub open spec fn steps_total(inputs: Seq<CursesInput>, prev: CursesInput, next: CursesInput) -> int
    decreases inputs.len(),
{
    if inputs.len() == 0 {
        0
    } else {
        step_of(inputs[0], prev, next) + steps_total(inputs.drop_first(), prev, next)
    }
}

/// Whether every input is one of the two bound inputs.
pub open spec fn all_steps(inputs: Seq<CursesInput>, prev: CursesInput, next: CursesInput) -> bool {
    forall|i: int| 0 <= i < inputs.len() ==> is_step(#[trigger] inputs[i], prev, next)
}

/// What stays buffered when inputs are taken newest first until one that is
/// not bound has been taken.
pub open spec fn unconsumed(inputs: Seq<CursesInput>, prev: CursesInput, next: CursesInput) -> Seq<CursesInput>
    decreases inputs.len(),
{
    if inputs.len() == 0 {
        inputs
    } else if is_step(inputs.last(), prev, next) {
        unconsumed(inputs.drop_last(), prev, next)
    } else {
        inputs.drop_last()
    }
}

/// Taking inputs newest first stops right after the newest input that is
/// not bound: what stays is the part before it, and every input after it
/// is bound. When all inputs are bound, nothing stays.
pub proof fn lemma_unconsumed_prefix(inputs: Seq<CursesInput>, prev: CursesInput, next: CursesInput)
    ensures
        ({
            let kept = unconsumed(inputs, prev, next);
            &&& kept.len() <= inputs.len()
            &&& kept == inputs.subrange(0, kept.len() as int)
            &&& all_steps(inputs, prev, next) ==> kept.len() == 0
            &&& !all_steps(inputs, prev, next) ==> {
                &&& kept.len() < inputs.len()
                &&& !is_step(inputs[kept.len() as int], prev, next)
                &&& all_steps(inputs.subrange(kept.len() as int + 1, inputs.len() as int), prev, next)
            }
        }),
    decreases inputs.len(),
{
    if inputs.len() > 0 {
        let rest = inputs.drop_last();
        lemma_unconsumed_prefix(rest, prev, next);
        let kept = unconsumed(inputs, prev, next);
        if is_step(inputs.last(), prev, next) {
            assert(kept == unconsumed(rest, prev, next));
            assert(rest.subrange(0, kept.len() as int) =~= inputs.subrange(0, kept.len() as int));
            if all_steps(inputs, prev, next) {
                assert forall|i: int| 0 <= i < rest.len() implies is_step(#[trigger] rest[i], prev, next) by {
                    assert(rest[i] == inputs[i]);
                }
            } else {
                if all_steps(rest, prev, next) {
                    assert forall|i: int| 0 <= i < inputs.len() implies is_step(#[trigger] inputs[i], prev, next) by {
                        if i < rest.len() {
                            assert(rest[i] == inputs[i]);
                        }
                    }
                }
                let k = kept.len() as int;
                assert(inputs[k] == rest[k]);
                assert forall|i: int| 0 <= i < inputs.subrange(k + 1, inputs.len() as int).len() implies is_step(
                    #[trigger] inputs.subrange(k + 1, inputs.len() as int)[i],
                    prev,
                    next,
                ) by {
                    if k + 1 + i < rest.len() {
                        assert(inputs.subrange(k + 1, inputs.len() as int)[i] == rest.subrange(k + 1, rest.len() as int)[i]);
                    }
                }
            }
        } else {
            assert(kept =~= inputs.subrange(0, inputs.len() - 1));
            assert(!is_step(inputs[inputs.len() - 1], prev, next));
            assert(inputs.subrange(inputs.len() as int, inputs.len() as int).len() == 0);
        }
    }
}

/// Whether stepping by the buffered inputs of an entity stays within `i64`
/// (it is only computed when every buffered input is bound).
pub open spec fn step_fits(
    inputs: Seq<CursesInput>,
    controls: PancursesPrevNextInputComponent,
    range: IntRangeComponent,
) -> bool {
    &&& inputs.len() <= i64::MAX
    &&& all_steps(inputs, controls.prev_input, controls.next_input) ==> {
        &&& range.end() > i64::MIN
        &&& i64::MIN <= range.index() + steps_total(inputs, controls.prev_input, controls.next_input) <= i64::MAX
    }
}

/// The selection after stepping by the buffered inputs: moved and limited to
/// its range when every input is bound, unchanged otherwise.
pub open spec fn stepped_index(
    inputs: Seq<CursesInput>,
    controls: PancursesPrevNextInputComponent,
    range: IntRangeComponent,
) -> int {
    if all_steps(inputs, controls.prev_input, controls.next_input) {
        clamp_index(
            range.index() + steps_total(inputs, controls.prev_input, controls.next_input),
            range.start() as int,
            range.end() as int,
        )
    } else {
        range.index() as int
    }
}

/// An entity that steps its selection: its bindings, its input buffer and
/// its selection.
#[derive(Debug, Clone)]
pub struct PrevNextTarget {
    pub controls: PancursesPrevNextInputComponent,
    pub buffer: PancursesInputBufferComponent,
    pub range: IntRangeComponent,
}

/// Whether an entity before `i` holds an input that is not bound, which
/// stops the system there.
pub open spec fn blocked_before(targets: Seq<PrevNextTarget>, i: int) -> bool {
    exists|j: int|
        0 <= j < i && !all_steps(
            #[trigger] targets[j].buffer.inputs(),
            targets[j].controls.prev_input,
            targets[j].controls.next_input,
        )
}

/// Moves a selection back and forth by the inputs bound to previous and next.
#[derive(Debug, Copy, Clone)]
pub struct PancursesPrevNextInputSystem;

impl PancursesPrevNextInputSystem {
    pub fn new() -> (system: Self) {
        PancursesPrevNextInputSystem
    }

    /// Takes the buffered inputs newest first. When all of them are bound,
    /// the selection moves by their sum, limited to its range, and `true`
    /// comes back; at the first input that is not bound, taking stops (that
    /// input is gone too), the selection stays and `false` comes back.
    pub fn step(
        &self,
        controls: &PancursesPrevNextInputComponent,
        buffer: &mut PancursesInputBufferComponent,
        range: &mut IntRangeComponent,
    ) -> (completed: bool)
        requires
            step_fits(old(buffer).inputs(), *controls, *old(range)),
        ensures
            completed == all_steps(old(buffer).inputs(), controls.prev_input, controls.next_input),
            final(buffer).inputs() == unconsumed(old(buffer).inputs(), controls.prev_input, controls.next_input),
            final(range).index() == stepped_index(old(buffer).inputs(), *controls, *old(range)),
            final(range).start() == old(range).start(),
            final(range).end() == old(range).end(),
    {
        let prev = controls.prev_input;
        let next = controls.next_input;
        let ghost inputs = buffer.inputs();
        let ghost n = inputs.len() as int;
        let mut offset: i64 = 0;
        loop
            invariant
                inputs == old(buffer).inputs(),
                buffer.inputs() == inputs.subrange(0, buffer.inputs().len() as int),
                buffer.inputs().len() <= n,
                n == inputs.len(),
                n <= i64::MAX,
                prev == controls.prev_input,
                next == controls.next_input,
                offset == steps_total(inputs.subrange(buffer.inputs().len() as int, n), prev, next),
                -(n - buffer.inputs().len()) <= offset <= n - buffer.inputs().len(),
                all_steps(inputs.subrange(buffer.inputs().len() as int, n), prev, next),
                unconsumed(inputs, prev, next) == unconsumed(buffer.inputs(), prev, next),
                *range == *old(range),
            ensures
                all_steps(inputs, prev, next),
                buffer.inputs().len() == 0,
                offset == steps_total(inputs, prev, next),
                *range == *old(range),
            decreases buffer.inputs().len(),
        {
            let ghost k = buffer.inputs().len() as int;
            let ghost before = buffer.inputs();
            match buffer.pop() {
                None => {
                    assert(inputs.subrange(0, n) == inputs);
                    break;
                },
                Some(input) => {
                    let ghost suffix = inputs.subrange(k - 1, n);
                    assert(suffix.drop_first() =~= inputs.subrange(k, n));
                    assert(suffix[0] == input);
                    assert(before.drop_last() =~= inputs.subrange(0, k - 1));
                    if input == prev {
                        offset = offset - 1;
                    } else if input == next {
                        offset = offset + 1;
                    } else {
                        assert(before.last() == input);
                        assert(inputs[k - 1] == input);
                        assert(!all_steps(inputs, prev, next));
                        assert(unconsumed(before, prev, next) == before.drop_last());
                        return false;
                    }
                    assert forall|i: int| 0 <= i < suffix.len() implies is_step(#[trigger] suffix[i], prev, next) by {
                        if i > 0 {
                            assert(suffix[i] == inputs.subrange(k, n)[i - 1]);
                        }
                    }
                },
            }
        }
        range.set_index(range.get_index() + offset);
        true
    }

    /// Steps the entities in order and stops after the first one that holds
    /// an input that is not bound; entities after it are left as they are.
    pub fn run(&self, targets: &mut Vec<PrevNextTarget>)
        requires
            forall|i: int|
                0 <= i < old(targets)@.len() && !blocked_before(old(targets)@, i) ==> step_fits(
                    #[trigger] old(targets)@[i].buffer.inputs(),
                    old(targets)@[i].controls,
                    old(targets)@[i].range,
                ),
        ensures
            final(targets)@.len() == old(targets)@.len(),
            forall|i: int|
                0 <= i < old(targets)@.len() ==> {
                    let before = #[trigger] old(targets)@[i];
                    let after = final(targets)@[i];
                    &&& after.controls == before.controls
                    &&& !blocked_before(old(targets)@, i) ==> {
                        &&& after.buffer.inputs() == unconsumed(
                            before.buffer.inputs(),
                            before.controls.prev_input,
                            before.controls.next_input,
                        )
                        &&& after.range.index() == stepped_index(before.buffer.inputs(), before.controls, before.range)
                        &&& after.range.start() == before.range.start()
                        &&& after.range.end() == before.range.end()
                    }
                    &&& blocked_before(old(targets)@, i) ==> after.buffer.inputs() == before.buffer.inputs()
                        && after.range == before.range
                },
    {
        let ghost initial = targets@;
        let mut i: usize = 0;
        while i < targets.len()
            invariant
                0 <= i <= targets@.len(),
                initial == old(targets)@,
                targets@.len() == initial.len(),
                !blocked_before(initial, i as int),
                forall|j: int|
                    0 <= j < initial.len() && !blocked_before(initial, j) ==> step_fits(
                        #[trigger] initial[j].buffer.inputs(),
                        initial[j].controls,
                        initial[j].range,
                    ),
                forall|j: int|
                    0 <= j < initial.len() ==> {
                        let before = #[trigger] initial[j];
                        let after = targets@[j];
                        &&& after.controls == before.controls
                        &&& j < i ==> {
                            &&& after.buffer.inputs() == unconsumed(
                                before.buffer.inputs(),
                                before.controls.prev_input,
                                before.controls.next_input,
                            )
                            &&& after.range.index() == stepped_index(before.buffer.inputs(), before.controls, before.range)
                            &&& after.range.start() == before.range.start()
                            &&& after.range.end() == before.range.end()
                        }
                        &&& j >= i ==> after.buffer.inputs() == before.buffer.inputs() && after.range == before.range
                    },
            ensures
                forall|j: int|
                    0 <= j < initial.len() ==> {
                        let before = #[trigger] initial[j];
                        let after = targets@[j];
                        &&& after.controls == before.controls
                        &&& !blocked_before(initial, j) ==> {
                            &&& after.buffer.inputs() == unconsumed(
                                before.buffer.inputs(),
                                before.controls.prev_input,
                                before.controls.next_input,
                            )
                            &&& after.range.index() == stepped_index(before.buffer.inputs(), before.controls, before.range)
                            &&& after.range.start() == before.range.start()
                            &&& after.range.end() == before.range.end()
                        }
                        &&& blocked_before(initial, j) ==> after.buffer.inputs() == before.buffer.inputs()
                            && after.range == before.range
                    },
            decreases initial.len() - i,
        {
            let ghost target = initial[i as int];
            let ghost pre = targets@;
            let target_ref = &mut targets[i];
            let controls = target_ref.controls;
            let completed = self.step(&controls, &mut target_ref.buffer, &mut target_ref.range);
            assert(targets@.len() == initial.len());
            assert(targets@[i as int].controls == initial[i as int].controls);
            assert(forall|j: int| 0 <= j < initial.len() && j != i ==> targets@[j] == pre[j]);
            if !completed {
                assert forall|j: int| 0 <= j < initial.len() && j > i implies blocked_before(initial, j) by {
                    assert(!all_steps(initial[i as int].buffer.inputs(), initial[i as int].controls.prev_input, initial[i as int].controls.next_input));
                }
                return;
            }
            assert forall|j: int| 0 <= j < i + 1 implies all_steps(
                #[trigger] initial[j].buffer.inputs(),
                initial[j].controls.prev_input,
                initial[j].controls.next_input,
            ) by {
                if j < i {
                    if !all_steps(initial[j].buffer.inputs(), initial[j].controls.prev_input, initial[j].controls.next_input) {
                        assert(blocked_before(initial, i as int));
                    }
                }
            }
            i = i + 1;
        }
    }
}

} // verus!
