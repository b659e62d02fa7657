//! Reading keyboard and mouse input from the curses terminal.

use vstd::prelude::*;

use crate::components::pancurses_mouse_component::PancursesMouseComponent;
use crate::curses_input::CursesInput;
use crate::primitive_types::{CursesCommand, InputEvent, Vector2I};
use crate::systems::curses_keyboard_system::{key_events, resize_commands, translate_key_inputs};
use crate::systems::curses_mouse::{
    button_bits_of, coordinate_after, curses_button_masks, curses_masks, curses_masks_v1, optional_event, pressed_buttons,
    released_buttons, MouseButtonMasks,
};

verus! {

/// The events of one mouse report for the mouse component: a move when the
/// position changed and, when the reported buttons changed, a press and a
/// release of the buttons that the report shows pressed and released.
pub open spec fn mouse_component_events(
    position: Vector2I,
    button_mask: i64,
    x: i32,
    y: i32,
    report_mask: i64,
    masks: MouseButtonMasks,
) -> Seq<InputEvent> {
    let new_position = Vector2I(coordinate_after(position.0, x), coordinate_after(position.1, y));
    let delta = Vector2I((new_position.0 - position.0) as i64, (new_position.1 - position.1) as i64);
    let pressed = pressed_buttons(report_mask as usize, masks, true);
    let released = released_buttons(report_mask as usize, masks, true);
    optional_event(delta != Vector2I(0, 0), InputEvent::MouseMove { position: new_position, delta })
        + optional_event(
        report_mask != button_mask && pressed != 0,
        InputEvent::MousePress { button_mask: pressed as usize },
    ) + optional_event(
        report_mask != button_mask && released != 0,
        InputEvent::MouseRelease { button_mask: released as usize },
    )
}

/// For the mouse component too, a report at a known position (0 or more
/// in each coordinate, the first column and row included) that differs
/// from the tracked one starts with a move to that position, by the
/// difference between the two.
pub proof fn lemma_component_moves_to_position(
    position: Vector2I,
    button_mask: i64,
    x: i32,
    y: i32,
    report_mask: i64,
    masks: MouseButtonMasks,
)
    requires
        i64::MIN <= x - position.0 <= i64::MAX,
        i64::MIN <= y - position.1 <= i64::MAX,
        x >= 0,
        y >= 0,
        Vector2I(x as i64, y as i64) != position,
    ensures
        mouse_component_events(position, button_mask, x, y, report_mask, masks).len() >= 1,
        mouse_component_events(position, button_mask, x, y, report_mask, masks)[0] == (InputEvent::MouseMove {
            position: Vector2I(x as i64, y as i64),
            delta: Vector2I((x - position.0) as i64, (y - position.1) as i64),
        }),
{
}

/// Reads up to a number of inputs per frame from the curses terminal and
/// turns them, and the mouse reports, into input events.
#[derive(Debug, Copy, Clone)]
pub struct PancursesInputSystem {
    input_buffer_size: i64,
}

impl PancursesInputSystem {
    /// The number of inputs read per frame at most (at least one is read).
    pub closed spec fn input_buffer_size(&self) -> i64 {
        self.input_buffer_size
    }

    pub fn new(input_buffer_size: i64) -> (system: Self)
        ensures
            system.input_buffer_size() == input_buffer_size,
    {
        PancursesInputSystem { input_buffer_size }
    }

    /// How many inputs to read this frame at most: the buffer size, but at
    /// least one (so one for every size up to one).
    pub fn read_limit(&self) -> (limit: u64)
        ensures
            limit == if self.input_buffer_size() <= 1 { 1 } else { self.input_buffer_size() as int },
    {
        if self.input_buffer_size <= 1 {
            1
        } else {
            self.input_buffer_size as u64
        }
    }

    /// A resize command per resize report, and a press and release per
    /// known key, for the inputs read this frame.
    pub fn translate(&self, inputs: &Vec<CursesInput>) -> (result: (Vec<CursesCommand>, Vec<InputEvent>))
        ensures
            result.0@ == resize_commands(inputs@),
            result.1@ == key_events(inputs@),
    {
        translate_key_inputs(inputs)
    }

    /// Applies one mouse report (coordinates and button bits) to the mouse
    /// component and returns the resulting events. Panics (so is not
    /// callable) when a coordinate difference overflows.
    pub fn process_mouse(
        &self,
        mouse: &mut PancursesMouseComponent,
        x: i32,
        y: i32,
        report_mask: i64,
        masks: &MouseButtonMasks,
    ) -> (events: Vec<InputEvent>)
        requires
            x > -1 ==> i64::MIN <= x - old(mouse).position().0 <= i64::MAX,
            y > -1 ==> i64::MIN <= y - old(mouse).position().1 <= i64::MAX,
        ensures
            final(mouse).position() == Vector2I(
                coordinate_after(old(mouse).position().0, x),
                coordinate_after(old(mouse).position().1, y),
            ),
            final(mouse).button_mask() == report_mask,
            events@ == mouse_component_events(old(mouse).position(), old(mouse).button_mask(), x, y, report_mask, *masks),
    {
        let event_x = x as i64;
        let event_y = y as i64;
        let prev_position = mouse.get_position();
        let mut delta = Vector2I(0, 0);
        if event_x > -1 && event_x != prev_position.0 {
            delta.0 = event_x - prev_position.0;
            mouse.set_mouse_x(event_x);
        }
        if event_y > -1 && event_y != prev_position.1 {
            delta.1 = event_y - prev_position.1;
            mouse.set_mouse_y(event_y);
        }
        let prev_button_mask = mouse.get_button_mask();
        let changed = prev_button_mask != report_mask;
        if changed {
            mouse.set_button_mask(report_mask);
        }
        let mut events: Vec<InputEvent> = Vec::new();
        if delta != Vector2I(0, 0) {
            events.push(InputEvent::MouseMove { position: mouse.get_position(), delta });
        }
        let ghost e1 = events@;
        if changed {
            let mask = report_mask as usize;
            let pressed_mask = button_bits_of(mask, masks, true, true);
            let released_mask = button_bits_of(mask, masks, true, false);
            if pressed_mask != 0 {
                events.push(InputEvent::MousePress { button_mask: pressed_mask });
            }
            if released_mask != 0 {
                events.push(InputEvent::MouseRelease { button_mask: released_mask });
            }
        }
        let ghost new_position = Vector2I(coordinate_after(prev_position.0, x), coordinate_after(prev_position.1, y));
        assert(e1 =~= optional_event(delta != Vector2I(0, 0), InputEvent::MouseMove { position: new_position, delta }));
        assert(events@ =~= mouse_component_events(prev_position, prev_button_mask, x, y, report_mask, *masks));
        events
    }

    /// Applies one mouse report to the mouse component with the report bits
    /// of the curses library: the events are those of `process_mouse` with
    /// the bits of `curses_masks`, or of `curses_masks_v1` where ncurses is
    /// built with its older mouse protocol.
    pub fn process_mouse_report(
        &self,
        mouse: &mut PancursesMouseComponent,
        x: i32,
        y: i32,
        report_mask: i64,
    ) -> (events: Vec<InputEvent>)
        requires
            x > -1 ==> i64::MIN <= x - old(mouse).position().0 <= i64::MAX,
            y > -1 ==> i64::MIN <= y - old(mouse).position().1 <= i64::MAX,
        ensures
            final(mouse).position() == Vector2I(
                coordinate_after(old(mouse).position().0, x),
                coordinate_after(old(mouse).position().1, y),
            ),
            final(mouse).button_mask() == report_mask,
            events@ == mouse_component_events(old(mouse).position(), old(mouse).button_mask(), x, y, report_mask, curses_masks())
                || events@ == mouse_component_events(old(mouse).position(), old(mouse).button_mask(), x, y, report_mask, curses_masks_v1()),
    {
        let masks = curses_button_masks();
        self.process_mouse(mouse, x, y, report_mask, &masks)
    }
}

} // verus!
