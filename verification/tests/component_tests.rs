use antigen_curses::components::control_component::{ControlData, PancursesControlComponent};
use antigen_curses::components::curses_palette::CursesPalette;
use antigen_curses::components::input_axis::{
    DestructionTestInputComponent, DestructionTestInputData, InputAxisComponent, InputAxisData,
};
use antigen_curses::components::int_range::IntRangeComponent;
use antigen_curses::components::local_mouse_position_component::LocalMousePositionComponent;
use antigen_curses::components::pancurses_color_component::{
    ColorRGB, PancursesColorPair as ComponentColorPair, PancursesColorPairComponent,
};
use antigen_curses::components::pancurses_color_set_component::PancursesColorSetComponent;
use antigen_curses::components::pancurses_input_buffer_component::{
    PancursesInputBufferComponent, PancursesPrevNextInputComponent,
};
use antigen_curses::components::pancurses_mouse_component::PancursesMouseComponent;
use antigen_curses::curses_input::CursesInput;
use antigen_curses::pancurses_color::{PancursesColor, PancursesColorPair};
use antigen_curses::primitive_types::{CursesCommand, Key, Vector2I};

#[test]
fn int_range_set_index_clamps() {
    let mut range = IntRangeComponent::new(0, -1, 3);
    range.set_index(7);
    assert_eq!(range.get_index(), 2);
    range.set_index(-5);
    assert_eq!(range.get_index(), -1);
    range.set_index(1);
    assert_eq!(range.get_index(), 1);
    range.set_range(0, 0);
    assert_eq!(range.get_index(), 1);
    assert_eq!(range.get_range(), (0, 0));
    range.set_index(4);
    assert_eq!(range.get_index(), -1);
}

#[test]
fn int_range_clamp_is_idempotent() {
    let mut range = IntRangeComponent::new(0, 2, 5);
    range.set_index(9);
    let once = range.get_index();
    range.set_index(once);
    assert_eq!(range.get_index(), once);
    assert_eq!(once, 4);
}

#[test]
fn input_buffer_push_pop_clear() {
    let mut buffer = PancursesInputBufferComponent::new();
    assert_eq!(buffer.pop(), None);
    buffer.push(CursesInput::KeyLeft);
    buffer.push(CursesInput::Character('a'));
    assert_eq!(buffer.get_inputs(), &vec![CursesInput::KeyLeft, CursesInput::Character('a')]);
    assert_eq!(buffer.pop(), Some(CursesInput::Character('a')));
    assert_eq!(buffer.get_inputs(), &vec![CursesInput::KeyLeft]);
    buffer.clear();
    assert!(buffer.get_inputs().is_empty());
    assert!(PancursesInputBufferComponent::default().get_inputs().is_empty());
}

#[test]
fn prev_next_component_default_is_unknown() {
    let component = PancursesPrevNextInputComponent::default();
    assert_eq!(component.prev_input, CursesInput::Unknown(0));
    assert_eq!(component.next_input, CursesInput::Unknown(0));
    let component = PancursesPrevNextInputComponent::new(CursesInput::KeyUp, CursesInput::KeyDown);
    assert_eq!((component.prev_input, component.next_input), (CursesInput::KeyUp, CursesInput::KeyDown));
}

#[test]
fn input_axis_components_keep_keys() {
    let data = InputAxisData::new(Key::Left, Key::Right);
    assert_eq!(data.get_negative_input(), Key::Left);
    assert_eq!(data.get_positive_input(), Key::Right);
    let component = InputAxisComponent::new(Key::Up, Key::Down);
    assert_eq!(component.get_negative_input(), Key::Up);
    assert_eq!(component.get_positive_input(), Key::Down);
    let destruction = DestructionTestInputComponent::new(Key::Space);
    assert_eq!(destruction.get_input_key(), Key::Space);
    assert_eq!(DestructionTestInputData(Key::Escape).0, Key::Escape);
}

#[test]
fn local_mouse_position_component_round_trip() {
    let mut component = LocalMousePositionComponent::default();
    assert_eq!(component.get_local_mouse_position(), Vector2I(0, 0));
    component.set_local_mouse_position(Vector2I(-3, 4));
    assert_eq!(component.get_local_mouse_position(), Vector2I(-3, 4));
}

#[test]
fn mouse_component_setters() {
    let mut mouse = PancursesMouseComponent::new();
    assert_eq!(mouse.get_position(), Vector2I(0, 0));
    mouse.set_mouse_x(5);
    mouse.set_mouse_y(7);
    mouse.set_button_mask(2);
    assert_eq!(mouse.get_position(), Vector2I(5, 7));
    assert_eq!(mouse.get_button_mask(), 2);
}

#[test]
fn control_defaults() {
    assert_eq!(ControlData::default(), ControlData::String);
    assert_eq!(PancursesControlComponent::default().control_data, ControlData::String);
    let rect = PancursesControlComponent::new(ControlData::Rect { filled: true });
    assert_eq!(rect.control_data, ControlData::Rect { filled: true });
}

#[test]
fn color_component_defaults() {
    let black: ColorRGB<i16> = ColorRGB::default();
    assert_eq!(black, ColorRGB::new(0, 0, 0));
    let pair = ComponentColorPair::default();
    assert_eq!(pair.foreground, ColorRGB::new(1000, 1000, 1000));
    assert_eq!(pair.background, ColorRGB::new(0, 0, 0));
    assert_eq!(PancursesColorPairComponent::default().color_pair, pair);
    let custom = PancursesColorPairComponent::new(ComponentColorPair::new(ColorRGB::new(1, 2, 3), ColorRGB::new(4, 5, 6)));
    assert_eq!(custom.color_pair.background.b, 6);
}

fn white_on_black() -> PancursesColorPair {
    PancursesColorPair::default()
}

#[test]
fn color_registration_is_idempotent() {
    let mut set = PancursesColorSetComponent::new(vec![(PancursesColor::new(0, 0, 0), 0)], vec![(white_on_black(), 0)]);
    let mut commands: Vec<CursesCommand> = Vec::new();
    let red = PancursesColor::new(1000, 0, 0);
    let first = set.get_color_idx(red, &mut commands);
    assert_eq!(first, 1);
    assert_eq!(commands, vec![CursesCommand::InitColor { index: 1, r: 1000, g: 0, b: 0 }]);
    let second = set.get_color_idx(red, &mut commands);
    assert_eq!(second, first);
    assert_eq!(commands.len(), 1);
    assert_eq!(set.get_color_idx(PancursesColor::new(0, 0, 0), &mut commands), 0);
}

#[test]
fn color_pair_registration_defines_colors_then_pair() {
    let mut set = PancursesColorSetComponent::new(vec![(PancursesColor::new(0, 0, 0), 0)], vec![(white_on_black(), 0)]);
    let mut commands: Vec<CursesCommand> = Vec::new();
    assert_eq!(set.get_color_pair_idx(&white_on_black(), &mut commands), 0);
    assert!(commands.is_empty());
    let pair = PancursesColorPair::new(PancursesColor::new(0, 1000, 0), PancursesColor::new(0, 0, 0));
    let index = set.get_color_pair_idx(&pair, &mut commands);
    assert_eq!(index, 1);
    assert_eq!(
        commands,
        vec![
            CursesCommand::InitColor { index: 1, r: 0, g: 1000, b: 0 },
            CursesCommand::InitPair { index: 1, foreground: 1, background: 0 },
        ]
    );
    assert_eq!(set.get_color_pair_idx(&pair, &mut commands), 1);
    assert_eq!(commands.len(), 2);
    let default_set = PancursesColorSetComponent::default();
    let mut default_set = default_set;
    let mut more: Vec<CursesCommand> = Vec::new();
    assert_eq!(default_set.get_color_pair_idx(&white_on_black(), &mut more), 0);
    assert_eq!(
        more,
        vec![
            CursesCommand::InitColor { index: 0, r: 1000, g: 1000, b: 1000 },
            CursesCommand::InitColor { index: 1, r: 0, g: 0, b: 0 },
            CursesCommand::InitPair { index: 0, foreground: 0, background: 1 },
        ]
    );
}

#[test]
fn curses_palette_keeps_builtin_colors() {
    let mut palette = CursesPalette::default();
    let anchors: [usize; 8] = [0, 200, 30, 230, 7, 207, 37, 255];
    palette.set_palette(anchors);
    for (k, anchor) in anchors.iter().enumerate() {
        assert_eq!(palette.get_color_idx(*anchor), k);
        assert_eq!(palette.get_palette_index(k), *anchor);
    }
    assert_eq!(palette.get_palette_index(8), 1);
    assert_eq!(palette.get_palette_index(9), 2);
    for p in 0..256usize {
        assert_eq!(palette.get_palette_index(palette.get_color_idx(p)), p);
    }
}

#[test]
fn color_pair_registration_checked_for_overflow() {
    let set = PancursesColorSetComponent::default();
    assert!(set.can_register(&white_on_black()));
    let colors: Vec<(PancursesColor, i16)> = (0..i16::MAX).map(|i| (PancursesColor::new(i, 0, 0), i)).collect();
    let full = PancursesColorSetComponent::new(colors, vec![]);
    let known = PancursesColorPair::new(PancursesColor::new(0, 0, 0), PancursesColor::new(1, 0, 0));
    assert!(full.can_register(&known));
    let new_color = PancursesColorPair::new(PancursesColor::new(-1, 0, 0), PancursesColor::new(1, 0, 0));
    assert!(!full.can_register(&new_color));
}
