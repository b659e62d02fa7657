//! Turning curses mouse reports into mouse events: movement, scrolling, and
//! button presses and releases.

use vstd::prelude::*;

use crate::primitive_types::{InputEvent, Vector2I};

verus! {

/// The report bit for the scroll wheel turned up.
pub const WHEEL_UP: usize = 65536;

/// The report bit for the scroll wheel turned down.
pub const WHEEL_DOWN: usize = 2097152;

/// The report bits that curses uses for each of buttons 1 to 5 being
/// pressed and released.
#[derive(Debug, Copy, Clone, PartialEq, Eq, Structural)]
pub struct MouseButtonMasks {
    pub button1_pressed: usize,
    pub button2_pressed: usize,
    pub button3_pressed: usize,
    pub button4_pressed: usize,
    pub button5_pressed: usize,
    pub button1_released: usize,
    pub button2_released: usize,
    pub button3_released: usize,
    pub button4_released: usize,
    pub button5_released: usize,
}

/// The report bits of curses mouse protocol version 2 (ncurses built
/// without its `mouse_v1` feature, and PDCurses): each button has a group
/// of five bits, released being the group's first bit and pressed its
/// second, and the groups of buttons 1 to 5 start at bits 0, 5, 10, 15, 20.
pub open spec fn curses_masks() -> MouseButtonMasks {
    MouseButtonMasks {
        button1_pressed: 0x2,
        button2_pressed: 0x40,
        button3_pressed: 0x800,
        button4_pressed: 0x1_0000,
        button5_pressed: 0x20_0000,
        button1_released: 0x1,
        button2_released: 0x20,
        button3_released: 0x400,
        button4_released: 0x8000,
        button5_released: 0x10_0000,
    }
}

/// The report bits of curses mouse protocol version 1 (ncurses built with
/// its `mouse_v1` feature): as in version 2, but with groups of six bits,
/// starting at bits 0, 6, 12, 18, 24.
pub open spec fn curses_masks_v1() -> MouseButtonMasks {
    MouseButtonMasks {
        button1_pressed: 0x2,
        button2_pressed: 0x80,
        button3_pressed: 0x2000,
        button4_pressed: 0x8_0000,
        button5_pressed: 0x200_0000,
        button1_released: 0x1,
        button2_released: 0x40,
        button3_released: 0x1000,
        button4_released: 0x4_0000,
        button5_released: 0x100_0000,
    }
}

/// The report bits of the curses library in use, read from
/// `pancurses::BUTTON1_PRESSED` .. `pancurses::BUTTON5_RELEASED`. pancurses
/// takes them from ncurses (or PDCurses), which puts button `b`'s released
/// bit at `1 << (b - 1) * shift` and its pressed bit just above, with a
/// shift of 5, or of 6 when ncurses is built with its `mouse_v1` feature
/// (which this crate does not enable): so the bits are those of
/// `curses_masks` or of `curses_masks_v1`.
#[verifier::external_body]
pub(crate) fn curses_button_masks() -> (masks: MouseButtonMasks)
    ensures
        masks == curses_masks() || masks == curses_masks_v1(),
{
    MouseButtonMasks {
        button1_pressed: pancurses::BUTTON1_PRESSED as usize,
        button2_pressed: pancurses::BUTTON2_PRESSED as usize,
        button3_pressed: pancurses::BUTTON3_PRESSED as usize,
        button4_pressed: pancurses::BUTTON4_PRESSED as usize,
        button5_pressed: pancurses::BUTTON5_PRESSED as usize,
        button1_released: pancurses::BUTTON1_RELEASED as usize,
        button2_released: pancurses::BUTTON2_RELEASED as usize,
        button3_released: pancurses::BUTTON3_RELEASED as usize,
        button4_released: pancurses::BUTTON4_RELEASED as usize,
        button5_released: pancurses::BUTTON5_RELEASED as usize,
    }
}

/// 1 if `bit` is set in `mask`, else 0, times `weight`.
pub open spec fn flag(bit: usize, mask: usize, weight: int) -> int {
    if bit & mask > 0 {
        weight
    } else {
        0
    }
}

/// The buttons that a report shows pressed, as a button mask: button 1 is
/// worth 1, button 3 is worth 2, button 2 is worth 4, and (when all five
/// buttons count) button 4 is worth 8 and button 5 is worth 16.
pub open spec fn pressed_buttons(mask: usize, masks: MouseButtonMasks, five: bool) -> int {
    flag(masks.button1_pressed, mask, 1) + flag(masks.button2_pressed, mask, 4) + flag(
        masks.button3_pressed,
        mask,
        2,
    ) + if five {
        flag(masks.button4_pressed, mask, 8) + flag(masks.button5_pressed, mask, 16)
    } else {
        0
    }
}

/// The buttons that a report shows released, weighted as for presses.
pub open spec fn released_buttons(mask: usize, masks: MouseButtonMasks, five: bool) -> int {
    flag(masks.button1_released, mask, 1) + flag(masks.button2_released, mask, 4) + flag(
        masks.button3_released,
        mask,
        2,
    ) + if five {
        flag(masks.button4_released, mask, 8) + flag(masks.button5_released, mask, 16)
    } else {
        0
    }
}

/// A coordinate after a report: reported coordinates of -1 or less mean
/// "unknown" and leave the coordinate unchanged.
pub open spec fn coordinate_after(old: i64, reported: i32) -> i64 {
    if reported > -1 {
        reported as i64
    } else {
        old
    }
}

/// An event list entry that is present only when `present` holds.
pub open spec fn optional_event(present: bool, event: InputEvent) -> Seq<InputEvent> {
    if present {
        seq![event]
    } else {
        Seq::empty()
    }
}

/// The events of one mouse report: a move when the position changed; a
/// scroll up or down for each wheel bit set; and, when the reported buttons
/// changed, a press and a release of the buttons that the report shows
/// pressed and released (when there are any).
pub open spec fn mouse_report_events(
    position: Vector2I,
    button_mask: usize,
    x: i32,
    y: i32,
    report_mask: usize,
    masks: MouseButtonMasks,
    five: bool,
) -> Seq<InputEvent> {
    let new_position = Vector2I(coordinate_after(position.0, x), coordinate_after(position.1, y));
    let delta = Vector2I((new_position.0 - position.0) as i64, (new_position.1 - position.1) as i64);
    let pressed = pressed_buttons(report_mask, masks, five);
    let released = released_buttons(report_mask, masks, five);
    optional_event(delta != Vector2I(0, 0), InputEvent::MouseMove { position: new_position, delta })
        + optional_event(WHEEL_UP & report_mask > 0, InputEvent::MouseScroll { delta: -1i64 })
        + optional_event(WHEEL_DOWN & report_mask > 0, InputEvent::MouseScroll { delta: 1i64 })
        + optional_event(
        report_mask != button_mask && pressed != 0,
        InputEvent::MousePress { button_mask: pressed as usize },
    ) + optional_event(
        report_mask != button_mask && released != 0,
        InputEvent::MouseRelease { button_mask: released as usize },
    )
}

/// Computes the pressed or released button mask of a report.
fn button_bits(
    mask: usize,
    b1: usize,
    b2: usize,
    b3: usize,
    b4: usize,
    b5: usize,
    five: bool,
) -> (bits: usize)
    ensures
        bits == flag(b1, mask, 1) + flag(b2, mask, 4) + flag(b3, mask, 2) + if five {
            flag(b4, mask, 8) + flag(b5, mask, 16)
        } else {
            0
        },
{
    let mut bits = 0usize;
    if (b1 & mask) > 0 {
        bits = bits | 1;
        assert(0usize | 1usize == 1usize) by (bit_vector);
    }
    if (b2 & mask) > 0 {
        assert(forall|p: usize| p < 2 ==> #[trigger] (p | 4usize) == p + 4) by (bit_vector);
        bits = bits | 4;
    }
    if (b3 & mask) > 0 {
        assert(forall|p: usize| (p == 0 || p == 1 || p == 4 || p == 5) ==> #[trigger] (p | 2usize) == p + 2) by (bit_vector);
        bits = bits | 2;
    }
    if five {
        if (b4 & mask) > 0 {
            assert(forall|p: usize| p < 8 ==> #[trigger] (p | 8usize) == p + 8) by (bit_vector);
            bits = bits | 8;
        }
        if (b5 & mask) > 0 {
            assert(forall|p: usize| p < 16 ==> #[trigger] (p | 16usize) == p + 16) by (bit_vector);
            bits = bits | 16;
        }
    }
    bits
}

/// The pressed (or released) button mask of a report, weighted as in
/// `pressed_buttons` and `released_buttons`.
pub fn button_bits_of(mask: usize, masks: &MouseButtonMasks, five: bool, pressed: bool) -> (bits: usize)
    ensures
        bits == if pressed {
            pressed_buttons(mask, *masks, five)
        } else {
            released_buttons(mask, *masks, five)
        },
{
    if pressed {
        button_bits(
            mask,
            masks.button1_pressed,
            masks.button2_pressed,
            masks.button3_pressed,
            masks.button4_pressed,
            masks.button5_pressed,
            five,
        )
    } else {
        button_bits(
            mask,
            masks.button1_released,
            masks.button2_released,
            masks.button3_released,
            masks.button4_released,
            masks.button5_released,
            five,
        )
    }
}

/// Moves the tracked position to the reported coordinates (those that are
/// known) and returns by how much it moved.
fn track_position(position: &mut Vector2I, x: i32, y: i32) -> (delta: Vector2I)
    requires
        0 <= old(position).0 <= i32::MAX,
        0 <= old(position).1 <= i32::MAX,
    ensures
        *final(position) == Vector2I(coordinate_after(old(position).0, x), coordinate_after(old(position).1, y)),
        delta.0 == final(position).0 - old(position).0,
        delta.1 == final(position).1 - old(position).1,
{
    let event_x = x as i64;
    let event_y = y as i64;
    let mut delta = Vector2I(0, 0);
    if event_x > -1 && event_x != position.0 {
        delta.0 = event_x - position.0;
        position.0 = event_x;
    }
    if event_y > -1 && event_y != position.1 {
        delta.1 = event_y - position.1;
        position.1 = event_y;
    }
    delta
}

/// The events of a report, given the movement and whether the buttons
/// changed.
fn report_events(
    new_position: Vector2I,
    delta: Vector2I,
    buttons_changed: bool,
    report_mask: usize,
    masks: &MouseButtonMasks,
    five: bool,
) -> (events: Vec<InputEvent>)
    ensures
        events@ == optional_event(delta != Vector2I(0, 0), InputEvent::MouseMove { position: new_position, delta })
            + optional_event(WHEEL_UP & report_mask > 0, InputEvent::MouseScroll { delta: -1i64 })
            + optional_event(WHEEL_DOWN & report_mask > 0, InputEvent::MouseScroll { delta: 1i64 })
            + optional_event(
            buttons_changed && pressed_buttons(report_mask, *masks, five) != 0,
            InputEvent::MousePress { button_mask: pressed_buttons(report_mask, *masks, five) as usize },
        ) + optional_event(
            buttons_changed && released_buttons(report_mask, *masks, five) != 0,
            InputEvent::MouseRelease { button_mask: released_buttons(report_mask, *masks, five) as usize },
        ),
{
    let mut events: Vec<InputEvent> = Vec::new();
    if delta != Vector2I(0, 0) {
        events.push(InputEvent::MouseMove { position: new_position, delta });
    }
    let ghost e1 = events@;
    if WHEEL_UP & report_mask > 0 {
        events.push(InputEvent::MouseScroll { delta: -1 });
    }
    let ghost e2 = events@;
    if WHEEL_DOWN & report_mask > 0 {
        events.push(InputEvent::MouseScroll { delta: 1 });
    }
    let ghost e3 = events@;
    if buttons_changed {
        let pressed_mask = button_bits(
            report_mask,
            masks.button1_pressed,
            masks.button2_pressed,
            masks.button3_pressed,
            masks.button4_pressed,
            masks.button5_pressed,
            five,
        );
        let released_mask = button_bits(
            report_mask,
            masks.button1_released,
            masks.button2_released,
            masks.button3_released,
            masks.button4_released,
            masks.button5_released,
            five,
        );
        if pressed_mask != 0 {
            events.push(InputEvent::MousePress { button_mask: pressed_mask });
        }
        if released_mask != 0 {
            events.push(InputEvent::MouseRelease { button_mask: released_mask });
        }
    }
    assert(e1 =~= optional_event(delta != Vector2I(0, 0), InputEvent::MouseMove { position: new_position, delta }));
    assert(e2 =~= e1 + optional_event(WHEEL_UP & report_mask > 0, InputEvent::MouseScroll { delta: -1i64 }));
    assert(e3 =~= e2 + optional_event(WHEEL_DOWN & report_mask > 0, InputEvent::MouseScroll { delta: 1i64 }));
    assert(events@ =~= e3 + optional_event(
            buttons_changed && pressed_buttons(report_mask, *masks, five) != 0,
            InputEvent::MousePress { button_mask: pressed_buttons(report_mask, *masks, five) as usize },
        ) + optional_event(
            buttons_changed && released_buttons(report_mask, *masks, five) != 0,
            InputEvent::MouseRelease { button_mask: released_buttons(report_mask, *masks, five) as usize },
        ));
    events
}

/// Applies one curses mouse report to the tracked position and buttons and
/// returns the resulting events.
fn mouse_report(
    position: &mut Vector2I,
    button_mask: &mut usize,
    x: i32,
    y: i32,
    report_mask: usize,
    masks: &MouseButtonMasks,
    five: bool,
) -> (events: Vec<InputEvent>)
    requires
        0 <= old(position).0 <= i32::MAX,
        0 <= old(position).1 <= i32::MAX,
    ensures
        *final(position) == Vector2I(coordinate_after(old(position).0, x), coordinate_after(old(position).1, y)),
        *final(button_mask) == report_mask,
        events@ == mouse_report_events(*old(position), *old(button_mask), x, y, report_mask, *masks, five),
{
    let delta = track_position(position, x, y);
    let changed = *button_mask != report_mask;
    if changed {
        *button_mask = report_mask;
    }
    report_events(*position, delta, changed, report_mask, masks, five)
}

/// Tracks the mouse from curses reports, counting buttons 1 to 3.
#[derive(Debug, Copy, Clone)]
pub struct CursesMouse {
    position: Vector2I,
    button_mask: usize,
}

impl Default for CursesMouse {
    /// At the origin with no buttons reported.
    fn default() -> (mouse: Self)
        ensures
            mouse.wf(),
            mouse.position() == Vector2I(0, 0),
            mouse.button_mask() == 0,
    {
        CursesMouse { position: Vector2I(0, 0), button_mask: 0 }
    }
}

impl CursesMouse {
    /// The last known mouse position.
    pub closed spec fn position(&self) -> Vector2I {
        self.position
    }

    /// The last reported button bits.
    pub closed spec fn button_mask(&self) -> usize {
        self.button_mask
    }

    /// Positions come from curses reports (non-negative `i32` values).
    pub closed spec fn wf(&self) -> bool {
        &&& 0 <= self.position.0 <= i32::MAX
        &&& 0 <= self.position.1 <= i32::MAX
    }

    /// Applies one mouse report (coordinates and button bits) and returns
    /// the resulting events.
    pub fn report(&mut self, x: i32, y: i32, report_mask: usize, masks: &MouseButtonMasks) -> (events: Vec<InputEvent>)
        requires
            old(self).wf(),
        ensures
            final(self).wf(),
            final(self).position() == Vector2I(coordinate_after(old(self).position().0, x), coordinate_after(old(self).position().1, y)),
            final(self).button_mask() == report_mask,
            events@ == mouse_report_events(old(self).position(), old(self).button_mask(), x, y, report_mask, *masks, false),
    {
        mouse_report(&mut self.position, &mut self.button_mask, x, y, report_mask, masks, false)
    }

    /// Applies one mouse report with the report bits of the curses library
    /// in use: those of mouse protocol version 2, or of version 1 when
    /// ncurses is built for it.
    pub fn process(&mut self, x: i32, y: i32, report_mask: usize) -> (events: Vec<InputEvent>)
        requires
            old(self).wf(),
        ensures
            final(self).wf(),
            final(self).position() == Vector2I(coordinate_after(old(self).position().0, x), coordinate_after(old(self).position().1, y)),
            final(self).button_mask() == report_mask,
            events@ == mouse_report_events(old(self).position(), old(self).button_mask(), x, y, report_mask, curses_masks(), false)
                || events@ == mouse_report_events(old(self).position(), old(self).button_mask(), x, y, report_mask, curses_masks_v1(), false),
    {
        let masks = curses_button_masks();
        self.report(x, y, report_mask, &masks)
    }
}

/// Tracks the mouse from curses reports, counting buttons 1 to 5.
#[derive(Debug, Copy, Clone)]
pub struct CursesMouseSystem {
    position: Vector2I,
    button_mask: usize,
}

impl CursesMouseSystem {
    /// The last known mouse position.
    pub closed spec fn position(&self) -> Vector2I {
        self.position
    }

    /// The last reported button bits.
    pub closed spec fn button_mask(&self) -> usize {
        self.button_mask
    }

    /// Positions come from curses reports (non-negative `i32` values).
    pub closed spec fn wf(&self) -> bool {
        &&& 0 <= self.position.0 <= i32::MAX
        &&& 0 <= self.position.1 <= i32::MAX
    }

    /// At the origin with no buttons reported.
    pub fn new() -> (mouse: Self)
        ensures
            mouse.wf(),
            mouse.position() == Vector2I(0, 0),
            mouse.button_mask() == 0,
    {
        CursesMouseSystem { position: Vector2I(0, 0), button_mask: 0 }
    }

    /// Applies one mouse report (coordinates and button bits) and returns
    /// the resulting events.
    pub fn report(&mut self, x: i32, y: i32, report_mask: usize, masks: &MouseButtonMasks) -> (events: Vec<InputEvent>)
        requires
            old(self).wf(),
        ensures
            final(self).wf(),
            final(self).position() == Vector2I(coordinate_after(old(self).position().0, x), coordinate_after(old(self).position().1, y)),
            final(self).button_mask() == report_mask,
            events@ == mouse_report_events(old(self).position(), old(self).button_mask(), x, y, report_mask, *masks, true),
    {
        mouse_report(&mut self.position, &mut self.button_mask, x, y, report_mask, masks, true)
    }

    /// Applies one mouse report with the report bits of the curses library
    /// in use: those of mouse protocol version 2, or of version 1 when
    /// ncurses is built for it.
    pub fn process(&mut self, x: i32, y: i32, report_mask: usize) -> (events: Vec<InputEvent>)
        requires
            old(self).wf(),
        ensures
            final(self).wf(),
            final(self).position() == Vector2I(coordinate_after(old(self).position().0, x), coordinate_after(old(self).position().1, y)),
            final(self).button_mask() == report_mask,
            events@ == mouse_report_events(old(self).position(), old(self).button_mask(), x, y, report_mask, curses_masks(), true)
                || events@ == mouse_report_events(old(self).position(), old(self).button_mask(), x, y, report_mask, curses_masks_v1(), true),
    {
        let masks = curses_button_masks();
        self.report(x, y, report_mask, &masks)
    }
}

/// Every reported coordinate of 0 or more is a known position and becomes
/// the tracked coordinate (column and row 0 included); only coordinates of
/// -1 or less leave the tracked coordinate unchanged.
pub proof fn lemma_known_coordinates(old: i64, reported: i32)
    ensures
        reported >= 0 ==> coordinate_after(old, reported) == reported as i64,
        reported < 0 ==> coordinate_after(old, reported) == old,
{
}

/// A report at a known position that differs from the tracked one starts
/// with a move to that position, by the difference between the two.
pub proof fn lemma_report_moves_to_position(
    position: Vector2I,
    button_mask: usize,
    x: i32,
    y: i32,
    report_mask: usize,
    masks: MouseButtonMasks,
    five: bool,
)
    requires
        0 <= position.0 <= i32::MAX,
        0 <= position.1 <= i32::MAX,
        x >= 0,
        y >= 0,
        Vector2I(x as i64, y as i64) != position,
    ensures
        mouse_report_events(position, button_mask, x, y, report_mask, masks, five).len() >= 1,
        mouse_report_events(position, button_mask, x, y, report_mask, masks, five)[0] == (InputEvent::MouseMove {
            position: Vector2I(x as i64, y as i64),
            delta: Vector2I((x - position.0) as i64, (y - position.1) as i64),
        }),
{
}

/// A report at the tracked position, or at an unknown one, moves nothing:
/// no event of the report is a move.
pub proof fn lemma_report_without_move(
    position: Vector2I,
    button_mask: usize,
    x: i32,
    y: i32,
    report_mask: usize,
    masks: MouseButtonMasks,
    five: bool,
)
    requires
        x < 0 || x == position.0,
        y < 0 || y == position.1,
    ensures
        forall|k: int|
            0 <= k < mouse_report_events(position, button_mask, x, y, report_mask, masks, five).len()
                ==> !(#[trigger] mouse_report_events(position, button_mask, x, y, report_mask, masks, five)[k] is MouseMove),
{
}

/// A mouse report that repeats the last one changes nothing: it moves
/// nothing and presses or releases no button; only the scroll wheel bits,
/// which report motion rather than state, give their events again.
pub proof fn lemma_repeated_report_quiet(
    position: Vector2I,
    button_mask: usize,
    x: i32,
    y: i32,
    report_mask: usize,
    masks: MouseButtonMasks,
    five: bool,
)
    ensures
        ({
            let position1 = Vector2I(coordinate_after(position.0, x), coordinate_after(position.1, y));
            mouse_report_events(position1, report_mask, x, y, report_mask, masks, five)
                == optional_event(WHEEL_UP & report_mask > 0, InputEvent::MouseScroll { delta: -1i64 })
                + optional_event(WHEEL_DOWN & report_mask > 0, InputEvent::MouseScroll { delta: 1i64 })
        }),
{
    let position1 = Vector2I(coordinate_after(position.0, x), coordinate_after(position.1, y));
    let position2 = Vector2I(coordinate_after(position1.0, x), coordinate_after(position1.1, y));
    assert(position2 == position1);
    let scrolls = optional_event(WHEEL_UP & report_mask > 0, InputEvent::MouseScroll { delta: -1i64 })
        + optional_event(WHEEL_DOWN & report_mask > 0, InputEvent::MouseScroll { delta: 1i64 });
    assert(Seq::<InputEvent>::empty() + scrolls + Seq::<InputEvent>::empty() + Seq::<InputEvent>::empty() =~= scrolls);
}

impl Default for CursesMouseSystem {
    fn default() -> (mouse: Self)
        ensures
            mouse.wf(),
            mouse.position() == Vector2I(0, 0),
            mouse.button_mask() == 0,
    {
        CursesMouseSystem::new()
    }
}

} // verus!
