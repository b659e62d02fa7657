//! Turning curses keyboard input into key presses and releases.

use vstd::prelude::*;

use crate::curses_input::{key_of, CursesInput};
use crate::primitive_types::{CursesCommand, InputEvent, Key};

verus! {

/// The number of terminal resize reports among the inputs.
pub open spec fn resize_count(inputs: Seq<CursesInput>) -> nat
    decreases inputs.len(),
{
    if inputs.len() == 0 {
        0
    } else {
        resize_count(inputs.drop_last()) + if inputs.last() == CursesInput::KeyResize {
            1nat
        } else {
            0nat
        }
    }
}

/// One terminal resize command per resize report.
pub open spec fn resize_commands(inputs: Seq<CursesInput>) -> Seq<CursesCommand> {
    Seq::new(resize_count(inputs), |i: int| CursesCommand::ResizeTerm)
}

/// The keys of the inputs that are not resize reports, in order.
pub open spec fn input_keys(inputs: Seq<CursesInput>) -> Seq<Key>
    decreases inputs.len(),
{
    if inputs.len() == 0 {
        Seq::empty()
    } else if inputs.last() == CursesInput::KeyResize {
        input_keys(inputs.drop_last())
    } else {
        input_keys(inputs.drop_last()).push(key_of(inputs.last()))
    }
}

/// A press followed by a release of each known key of the inputs, in order;
/// resize reports and inputs without a known key give no events.
pub open spec fn key_events(inputs: Seq<CursesInput>) -> Seq<InputEvent>
    decreases inputs.len(),
{
    if inputs.len() == 0 {
        Seq::empty()
    } else if inputs.last() == CursesInput::KeyResize || key_of(inputs.last()) == Key::Unknown {
        key_events(inputs.drop_last())
    } else {
        key_events(inputs.drop_last()).push(InputEvent::KeyPress { key_code: key_of(inputs.last()) }).push(
            InputEvent::KeyRelease { key_code: key_of(inputs.last()) },
        )
    }
}

/// Every key that is pressed is released right after: the events come in
/// pairs of a press and a release of the same known key.
pub proof fn lemma_key_events_paired(inputs: Seq<CursesInput>)
    ensures
        key_events(inputs).len() % 2 == 0,
        forall|k: int|
            0 <= k < key_events(inputs).len() / 2 ==> {
                &&& #[trigger] key_events(inputs)[2 * k] matches InputEvent::KeyPress { key_code } && key_code != Key::Unknown
                &&& key_events(inputs)[2 * k + 1] == (InputEvent::KeyRelease { key_code: key_events(inputs)[2 * k]->KeyPress_key_code })
            },
    decreases inputs.len(),
{
    if inputs.len() > 0 {
        lemma_key_events_paired(inputs.drop_last());
        let rest = key_events(inputs.drop_last());
        let events = key_events(inputs);
        if !(inputs.last() == CursesInput::KeyResize || key_of(inputs.last()) == Key::Unknown) {
            assert forall|k: int| 0 <= k < events.len() / 2 implies {
                &&& #[trigger] events[2 * k] matches InputEvent::KeyPress { key_code } && key_code != Key::Unknown
                &&& events[2 * k + 1] == (InputEvent::KeyRelease { key_code: events[2 * k]->KeyPress_key_code })
            } by {
                if k < rest.len() / 2 {
                    assert(events[2 * k] == rest[2 * k]);
                    assert(events[2 * k + 1] == rest[2 * k + 1]);
                } else {
                    assert(2 * k == rest.len());
                }
            }
        }
    }
}

/// Translates curses inputs into a resize command per resize report and a
/// press and release per known key.
pub fn translate_key_inputs(inputs: &Vec<CursesInput>) -> (result: (Vec<CursesCommand>, Vec<InputEvent>))
    ensures
        result.0@ == resize_commands(inputs@),
        result.1@ == key_events(inputs@),
{
    let mut commands: Vec<CursesCommand> = Vec::new();
    let mut events: Vec<InputEvent> = Vec::new();
    let mut i: usize = 0;
    while i < inputs.len()
        invariant
            0 <= i <= inputs@.len(),
            commands@ == resize_commands(inputs@.subrange(0, i as int)),
            events@ == key_events(inputs@.subrange(0, i as int)),
        decreases inputs@.len() - i,
    {
        let ghost prefix = inputs@.subrange(0, i + 1);
        assert(prefix.drop_last() =~= inputs@.subrange(0, i as int));
        let input = inputs[i];
        assert(prefix.last() == input);
        assert(resize_count(prefix) == resize_count(inputs@.subrange(0, i as int)) + if input == CursesInput::KeyResize { 1nat } else { 0nat });
        if input == CursesInput::KeyResize {
            commands.push(CursesCommand::ResizeTerm);
        } else {
            let key = input.into_key();
            if key != Key::Unknown {
                events.push(InputEvent::KeyPress { key_code: key });
                events.push(InputEvent::KeyRelease { key_code: key });
            }
        }
        assert(commands@ =~= resize_commands(prefix));
        i = i + 1;
    }
    assert(inputs@.subrange(0, inputs@.len() as int) =~= inputs@);
    (commands, events)
}

/// Converts curses keyboard input into key events (event-queue variant):
/// every input that is not a resize report yields its key.
#[derive(Debug, Copy, Clone)]
pub struct CursesKeyboard;

impl CursesKeyboard {
    /// A resize command per resize report, and the key of every other
    /// input (pressed and then released).
    pub fn translate(&self, inputs: &Vec<CursesInput>) -> (result: (Vec<CursesCommand>, Vec<Key>))
        ensures
            result.0@ == resize_commands(inputs@),
            result.1@ == input_keys(inputs@),
    {
        let mut commands: Vec<CursesCommand> = Vec::new();
        let mut keys: Vec<Key> = Vec::new();
        let mut i: usize = 0;
        while i < inputs.len()
            invariant
                0 <= i <= inputs@.len(),
                commands@ == resize_commands(inputs@.subrange(0, i as int)),
                keys@ == input_keys(inputs@.subrange(0, i as int)),
            decreases inputs@.len() - i,
        {
            let ghost prefix = inputs@.subrange(0, i + 1);
            assert(prefix.drop_last() =~= inputs@.subrange(0, i as int));
            let input = inputs[i];
            assert(prefix.last() == input);
            assert(resize_count(prefix) == resize_count(inputs@.subrange(0, i as int)) + if input == CursesInput::KeyResize { 1nat } else { 0nat });
            if input == CursesInput::KeyResize {
                commands.push(CursesCommand::ResizeTerm);
            } else {
                keys.push(input.into_key());
            }
            assert(commands@ =~= resize_commands(prefix));
            i = i + 1;
        }
        assert(inputs@.subrange(0, inputs@.len() as int) =~= inputs@);
        (commands, keys)
    }
}

/// Converts curses keyboard input into key presses and releases, dropping
/// inputs without a known key.
#[derive(Debug, Copy, Clone)]
pub struct CursesKeyboardSystem;

impl CursesKeyboardSystem {
    /// A resize command per resize report, and a press and release per
    /// known key.
    pub fn translate(&self, inputs: &Vec<CursesInput>) -> (result: (Vec<CursesCommand>, Vec<InputEvent>))
        ensures
            result.0@ == resize_commands(inputs@),
            result.1@ == key_events(inputs@),
    {
        translate_key_inputs(inputs)
    }
}

} // verus!
