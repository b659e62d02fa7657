//! A buffer of curses inputs that a system consumes.

use vstd::prelude::*;

use crate::curses_input::CursesInput;

verus! {

/// Popping right after pushing gives back the pushed input and leaves the
/// buffer as it was.
pub proof fn lemma_push_then_pop(inputs: Seq<CursesInput>, input: CursesInput)
    ensures
        inputs.push(input).len() > 0,
        inputs.push(input).last() == input,
        inputs.push(input).drop_last() == inputs,
{
    assert(inputs.push(input).drop_last() =~= inputs);
}

/// Inputs received for an entity, oldest first.
#[derive(Debug, Clone)]
pub struct PancursesInputBufferComponent {
    input_buffer: Vec<CursesInput>,
}

impl PancursesInputBufferComponent {
    /// The buffered inputs, oldest first.
    pub closed spec fn inputs(&self) -> Seq<CursesInput> {
        self.input_buffer@
    }

    /// Empty.
    pub fn new() -> (buffer: Self)
        ensures
            buffer.inputs() == Seq::<CursesInput>::empty(),
    {
        PancursesInputBufferComponent { input_buffer: Vec::new() }
    }

    /// Appends an input.
    pub fn push(&mut self, input: CursesInput)
        ensures
            final(self).inputs() == old(self).inputs().push(input),
    {
        self.input_buffer.push(input);
    }

    /// Takes the newest input out, if there is one.
    pub fn pop(&mut self) -> (input: Option<CursesInput>)
        ensures
            old(self).inputs().len() == 0 ==> input is None && final(self).inputs() == old(self).inputs(),
            old(self).inputs().len() > 0 ==> input == Some(old(self).inputs().last())
                && final(self).inputs() == old(self).inputs().drop_last(),
    {
        self.input_buffer.pop()
    }

    /// Removes all inputs.
    pub fn clear(&mut self)
        ensures
            final(self).inputs() == Seq::<CursesInput>::empty(),
    {
        self.input_buffer.clear();
    }

    /// The buffered inputs, oldest first.
    pub fn get_inputs(&self) -> (inputs: &Vec<CursesInput>)
        ensures
            inputs@ == self.inputs(),
    {
        &self.input_buffer
    }
}

impl Default for PancursesInputBufferComponent {
    /// Empty.
    fn default() -> (buffer: Self)
        ensures
            buffer.inputs() == Seq::<CursesInput>::empty(),
    {
        PancursesInputBufferComponent::new()
    }
}

/// The inputs that step a selection backwards and forwards.
#[derive(Debug, Copy, Clone, PartialEq, Eq, Structural)]
pub struct PancursesPrevNextInputComponent {
    pub prev_input: CursesInput,
    pub next_input: CursesInput,
}

impl PancursesPrevNextInputComponent {
    pub fn new(prev_key: CursesInput, next_key: CursesInput) -> (component: Self)
        ensures
            component.prev_input == prev_key,
            component.next_input == next_key,
    {
        PancursesPrevNextInputComponent { prev_input: prev_key, next_input: next_key }
    }
}

impl Default for PancursesPrevNextInputComponent {
    /// Both directions bound to the unknown input 0.
    fn default() -> (component: Self)
        ensures
            component.prev_input == CursesInput::Unknown(0),
            component.next_input == CursesInput::Unknown(0),
    {
        PancursesPrevNextInputComponent::new(CursesInput::Unknown(0), CursesInput::Unknown(0))
    }
}

} // verus!
