//! Turning buffered arrow-key inputs into a unit velocity.

use vstd::prelude::*;

use crate::curses_input::CursesInput;
use crate::primitive_types::Vector2I;
use crate::systems::input_velocity_system::unit_clamp;

verus! {

/// How often `target` occurs among the inputs.
pub open spec fn input_count(inputs: Seq<CursesInput>, target: CursesInput) -> int
    decreases inputs.len(),
{
    if inputs.len() == 0 {
        0
    } else {
        input_count(inputs.drop_last(), target) + if inputs.last() == target {
            1int
        } else {
            0int
        }
    }
}

/// The velocity the arrow keys among the inputs ask for: right minus left
/// and down minus up, each limited to -1..=1.
pub open spec fn velocity_from_inputs(inputs: Seq<CursesInput>) -> Vector2I {
    Vector2I(
        unit_clamp(input_count(inputs, CursesInput::KeyRight) - input_count(inputs, CursesInput::KeyLeft)) as i64,
        unit_clamp(input_count(inputs, CursesInput::KeyDown) - input_count(inputs, CursesInput::KeyUp)) as i64,
    )
}

/// Whatever the inputs, the velocity moves at most one cell along each axis.
pub proof fn lemma_velocity_is_unit(inputs: Seq<CursesInput>)
    ensures
        -1 <= velocity_from_inputs(inputs).0 <= 1,
        -1 <= velocity_from_inputs(inputs).1 <= 1,
{
}

/// Holds the inputs of a frame and turns their arrow keys into a velocity.
#[derive(Debug, Clone)]
pub struct InputSystem {
    input_buffer: Vec<CursesInput>,
}

impl InputSystem {
    /// The buffered inputs, oldest first.
    pub closed spec fn inputs(&self) -> Seq<CursesInput> {
        self.input_buffer@
    }

    /// With no inputs.
    pub fn new() -> (system: Self)
        ensures
            system.inputs() == Seq::<CursesInput>::empty(),
    {
        InputSystem { input_buffer: Vec::new() }
    }

    /// Replaces the buffered inputs with a copy of `buffer`.
    pub fn set_input_buffer(&mut self, buffer: &[CursesInput])
        ensures
            final(self).inputs() == buffer@,
    {
        self.input_buffer.clear();
        let mut i: usize = 0;
        while i < buffer.len()
            invariant
                0 <= i <= buffer@.len(),
                self.input_buffer@ == buffer@.subrange(0, i as int),
            decreases buffer@.len() - i,
        {
            self.input_buffer.push(buffer[i]);
            i = i + 1;
        }
        assert(buffer@.subrange(0, buffer@.len() as int) =~= buffer@);
    }

    /// Takes out every buffered input, newest first, and returns the velocity
    /// that their arrow keys ask for.
    pub fn run(&mut self) -> (velocity: Vector2I)
        requires
            old(self).inputs().len() <= i64::MAX,
        ensures
            velocity == velocity_from_inputs(old(self).inputs()),
            final(self).inputs() == Seq::<CursesInput>::empty(),
    {
        let ghost inputs = self.input_buffer@;
        let ghost n = inputs.len() as int;
        let mut x: i64 = 0;
        let mut y: i64 = 0;
        while self.input_buffer.len() > 0
            invariant
                inputs == old(self).inputs(),
                n == inputs.len(),
                n <= i64::MAX,
                self.input_buffer@ == inputs.subrange(0, self.input_buffer@.len() as int),
                self.input_buffer@.len() <= n,
                x + input_count(self.input_buffer@, CursesInput::KeyRight) - input_count(self.input_buffer@, CursesInput::KeyLeft)
                    == input_count(inputs, CursesInput::KeyRight) - input_count(inputs, CursesInput::KeyLeft),
                y + input_count(self.input_buffer@, CursesInput::KeyDown) - input_count(self.input_buffer@, CursesInput::KeyUp)
                    == input_count(inputs, CursesInput::KeyDown) - input_count(inputs, CursesInput::KeyUp),
                -(n - self.input_buffer@.len()) <= x <= n - self.input_buffer@.len(),
                -(n - self.input_buffer@.len()) <= y <= n - self.input_buffer@.len(),
            decreases self.input_buffer@.len(),
        {
            let ghost before = self.input_buffer@;
            let input = self.input_buffer.pop().unwrap();
            assert(before.drop_last() =~= inputs.subrange(0, before.len() - 1));
            match input {
                CursesInput::KeyLeft => {
                    x = x - 1;
                },
                CursesInput::KeyRight => {
                    x = x + 1;
                },
                CursesInput::KeyUp => {
                    y = y - 1;
                },
                CursesInput::KeyDown => {
                    y = y + 1;
                },
                _ => {},
            }
        }
        let x = if x < -1 { -1 } else if x > 1 { 1 } else { x };
        let y = if y < -1 { -1 } else if y > 1 { 1 } else { y };
        Vector2I(x, y)
    }
}

} // verus!
