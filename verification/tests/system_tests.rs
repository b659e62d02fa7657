use antigen_curses::components::curses_palette::CursesPalette;
use antigen_curses::components::input_axis::InputAxisComponent;
use antigen_curses::components::int_range::IntRangeComponent;
use antigen_curses::components::pancurses_input_buffer_component::{
    PancursesInputBufferComponent, PancursesPrevNextInputComponent,
};
use antigen_curses::components::pancurses_mouse_component::PancursesMouseComponent;
use antigen_curses::components::window_component::{CursesWindowComponent, PancursesWindowComponent};
use antigen_curses::cpu_shader::{CPUShader, CPUShaderInput};
use antigen_curses::curses_cell::cell_with_pair;
use antigen_curses::curses_input::CursesInput;
use antigen_curses::primitive_types::{ColorKey, CursesCommand, DebugData, InputEvent, Key, Vector2I};
use antigen_curses::systems::curses_colors::palette_registration;
use antigen_curses::systems::curses_input_buffer_system::{CursesInputBuffer, CursesInputBufferSystem};
use antigen_curses::systems::curses_keyboard_system::{CursesKeyboard, CursesKeyboardSystem};
use antigen_curses::systems::curses_mouse::{CursesMouse, CursesMouseSystem, MouseButtonMasks, WHEEL_UP};
use antigen_curses::systems::curses_renderer::{CursesRenderer, FramebufferCell};
use antigen_curses::systems::curses_window_system::{CursesWindow, CursesWindowSystem};
use antigen_curses::systems::debug_tab_system::DebugTabSystem;
use antigen_curses::systems::destruction_test_input_system::{DestructionTestInput, DestructionTestInputSystem};
use antigen_curses::systems::input_axis_system::{InputAxis, InputAxisSystem};
use antigen_curses::systems::input_system::InputSystem;
use antigen_curses::systems::input_velocity_system::{InputVelocity, InputVelocitySystem};
use antigen_curses::systems::local_mouse_position_system::{EntityNode, LocalMousePositionSystem};
use antigen_curses::systems::pancurses_input_axis_system::{AxisTarget, PancursesInputAxisSystem};
use antigen_curses::systems::pancurses_input_system::PancursesInputSystem;
use antigen_curses::systems::pancurses_prev_next_input_system::{PancursesPrevNextInputSystem, PrevNextTarget};
use antigen_curses::systems::pancurses_renderer_system::PancursesRendererSystem;
use antigen_curses::systems::pancurses_window_system::PancursesWindowSystem;
use antigen_curses::systems::quit_system::{QuitKey, QuitSystem};
use antigen_curses::pancurses_color::{PancursesColor, PancursesColorPair};

fn buffer_of(inputs: &[CursesInput]) -> PancursesInputBufferComponent {
    let mut buffer = PancursesInputBufferComponent::new();
    for input in inputs {
        buffer.push(*input);
    }
    buffer
}

fn press(key: Key) -> InputEvent {
    InputEvent::KeyPress { key_code: key }
}

#[test]
fn prev_next_steps_and_clamps() {
    let system = PancursesPrevNextInputSystem::new();
    let controls = PancursesPrevNextInputComponent::new(CursesInput::KeyLeft, CursesInput::KeyRight);
    let mut buffer = buffer_of(&[CursesInput::KeyRight, CursesInput::KeyRight, CursesInput::KeyLeft]);
    let mut range = IntRangeComponent::new(1, 0, 5);
    assert!(system.step(&controls, &mut buffer, &mut range));
    assert_eq!(range.get_index(), 2);
    assert!(buffer.get_inputs().is_empty());
    let mut buffer = buffer_of(&[CursesInput::KeyRight; 9]);
    assert!(system.step(&controls, &mut buffer, &mut range));
    assert_eq!(range.get_index(), 4);
    let mut buffer = buffer_of(&[CursesInput::KeyLeft; 9]);
    assert!(system.step(&controls, &mut buffer, &mut range));
    assert_eq!(range.get_index(), 0);
}

#[test]
fn prev_next_stops_at_foreign_input() {
    let system = PancursesPrevNextInputSystem::new();
    let controls = PancursesPrevNextInputComponent::new(CursesInput::KeyLeft, CursesInput::KeyRight);
    let mut buffer = buffer_of(&[
        CursesInput::KeyRight,
        CursesInput::Character('x'),
        CursesInput::KeyRight,
        CursesInput::KeyLeft,
    ]);
    let mut range = IntRangeComponent::new(2, 0, 5);
    assert!(!system.step(&controls, &mut buffer, &mut range));
    assert_eq!(range.get_index(), 2);
    assert_eq!(buffer.get_inputs(), &vec![CursesInput::KeyRight]);
}

#[test]
fn prev_next_run_stops_at_blocked_entity() {
    let system = PancursesPrevNextInputSystem::new();
    let controls = PancursesPrevNextInputComponent::new(CursesInput::KeyUp, CursesInput::KeyDown);
    let mut targets = vec![
        PrevNextTarget { controls, buffer: buffer_of(&[CursesInput::KeyDown]), range: IntRangeComponent::new(0, 0, 3) },
        PrevNextTarget { controls, buffer: buffer_of(&[CursesInput::KeyLeft]), range: IntRangeComponent::new(0, 0, 3) },
        PrevNextTarget { controls, buffer: buffer_of(&[CursesInput::KeyDown]), range: IntRangeComponent::new(0, 0, 3) },
    ];
    system.run(&mut targets);
    assert_eq!(targets[0].range.get_index(), 1);
    assert!(targets[1].buffer.get_inputs().is_empty());
    assert_eq!(targets[1].range.get_index(), 0);
    assert_eq!(targets[2].range.get_index(), 0);
    assert_eq!(targets[2].buffer.get_inputs(), &vec![CursesInput::KeyDown]);
}

#[test]
fn input_axis_moves_selection_by_keys() {
    let system = PancursesInputAxisSystem::new();
    let axis = InputAxisComponent::new(Key::Left, Key::Right);
    let buffer = buffer_of(&[CursesInput::KeyRight, CursesInput::KeyRight, CursesInput::KeyLeft, CursesInput::KeyRight]);
    assert_eq!(system.offset(&axis, &buffer), Some(2));
    let blocked = buffer_of(&[CursesInput::KeyRight, CursesInput::Character('q')]);
    assert_eq!(system.offset(&axis, &blocked), None);
    let mut targets = vec![
        AxisTarget { axis, buffer: buffer.clone(), range: IntRangeComponent::new(0, 0, 10) },
        AxisTarget { axis, buffer: blocked, range: IntRangeComponent::new(3, 0, 10) },
        AxisTarget { axis, buffer, range: IntRangeComponent::new(0, 0, 10) },
    ];
    system.run(&mut targets);
    assert_eq!(targets[0].range.get_index(), 2);
    assert_eq!(targets[1].range.get_index(), 3);
    assert_eq!(targets[2].range.get_index(), 0);
    assert_eq!(targets[0].buffer.get_inputs().len(), 4);
}

#[test]
fn event_input_axis_applies_offset() {
    let events = vec![press(Key::Up), press(Key::Up), InputEvent::KeyRelease { key_code: Key::Up }, press(Key::Down)];
    assert_eq!(InputAxis.offset(&events, Key::Up, Key::Down), -1);
    let system = InputAxisSystem::new();
    assert_eq!(system.offset(&events, Key::Down, Key::Up), 1);
    let axis = InputAxisComponent::new(Key::Up, Key::Down);
    let mut range = IntRangeComponent::new(0, 0, 4);
    system.apply(&events, &axis, &mut range);
    assert_eq!(range.get_index(), 0);
    let mut range = IntRangeComponent::new(3, 0, 4);
    system.apply(&events, &axis, &mut range);
    assert_eq!(range.get_index(), 2);
}

#[test]
fn input_system_clamps_velocity() {
    let mut system = InputSystem::new();
    system.set_input_buffer(&[CursesInput::KeyRight, CursesInput::KeyRight, CursesInput::KeyUp, CursesInput::Character('a')]);
    assert_eq!(system.run(), Vector2I(1, -1));
    assert_eq!(system.run(), Vector2I(0, 0));
    system.set_input_buffer(&[CursesInput::KeyLeft, CursesInput::KeyRight, CursesInput::KeyDown, CursesInput::KeyDown]);
    assert_eq!(system.run(), Vector2I(0, 1));
}

#[test]
fn velocity_from_key_presses() {
    let events = vec![press(Key::Left), press(Key::Left), press(Key::Down), InputEvent::KeyRelease { key_code: Key::Right }];
    assert_eq!(InputVelocity.velocity(&events), Vector2I(-1, 1));
    assert_eq!(InputVelocitySystem::new().velocity(&events), Vector2I(-1, 1));
}

#[test]
fn keyboard_pairs_presses_with_releases() {
    let inputs = vec![
        CursesInput::KeyResize,
        CursesInput::Character('\u{1b}'),
        CursesInput::KeyF1,
        CursesInput::Character(' '),
        CursesInput::KeyResize,
    ];
    let (commands, events) = CursesKeyboardSystem.translate(&inputs);
    assert_eq!(commands, vec![CursesCommand::ResizeTerm, CursesCommand::ResizeTerm]);
    assert_eq!(
        events,
        vec![
            press(Key::Escape),
            InputEvent::KeyRelease { key_code: Key::Escape },
            press(Key::Space),
            InputEvent::KeyRelease { key_code: Key::Space },
        ]
    );
    let (_, keys) = CursesKeyboard.translate(&inputs);
    assert_eq!(keys, vec![Key::Escape, Key::Unknown, Key::Space]);
    let (_, events) = PancursesInputSystem::new(4).translate(&inputs);
    assert_eq!(events.len() % 2, 0);
}

#[test]
fn input_system_read_limit() {
    assert_eq!(PancursesInputSystem::new(-3).read_limit(), 1);
    assert_eq!(PancursesInputSystem::new(16).read_limit(), 16);
}

fn masks() -> MouseButtonMasks {
    MouseButtonMasks {
        button1_pressed: 0x2,
        button2_pressed: 0x40,
        button3_pressed: 0x800,
        button4_pressed: 0x10000,
        button5_pressed: 0x200000,
        button1_released: 0x1,
        button2_released: 0x20,
        button3_released: 0x400,
        button4_released: 0x8000,
        button5_released: 0x100000,
    }
}

#[test]
fn mouse_report_moves_and_presses() {
    let mut mouse = CursesMouseSystem::new();
    let events = mouse.report(3, 4, 0x2, &masks());
    assert_eq!(
        events,
        vec![
            InputEvent::MouseMove { position: Vector2I(3, 4), delta: Vector2I(3, 4) },
            InputEvent::MousePress { button_mask: 1 },
        ]
    );
    let events = mouse.report(-1, 6, 0x401, &masks());
    assert_eq!(
        events,
        vec![
            InputEvent::MouseMove { position: Vector2I(3, 6), delta: Vector2I(0, 2) },
            InputEvent::MouseRelease { button_mask: 3 },
        ]
    );
}

#[test]
fn repeated_mouse_report_is_quiet() {
    let mut mouse = CursesMouse::default();
    mouse.report(2, 2, 0x2 | WHEEL_UP, &masks());
    let again = mouse.report(2, 2, 0x2 | WHEEL_UP, &masks());
    assert_eq!(again, vec![InputEvent::MouseScroll { delta: -1 }]);
    let mut system = CursesMouseSystem::default();
    system.report(1, 1, 0x40, &masks());
    assert!(system.report(1, 1, 0x40, &masks()).is_empty());
}

#[test]
fn mouse_component_report() {
    let system = PancursesInputSystem::new(1);
    let mut mouse = PancursesMouseComponent::new();
    let events = system.process_mouse(&mut mouse, 5, -1, 0x40, &masks());
    assert_eq!(
        events,
        vec![
            InputEvent::MouseMove { position: Vector2I(5, 0), delta: Vector2I(5, 0) },
            InputEvent::MousePress { button_mask: 4 },
        ]
    );
    assert_eq!(mouse.get_position(), Vector2I(5, 0));
    assert_eq!(mouse.get_button_mask(), 0x40);
}

#[test]
fn mouse_process_uses_curses_bits() {
    let mut system = CursesMouseSystem::new();
    assert_eq!(
        system.process(3, 4, 0x2),
        vec![
            InputEvent::MouseMove { position: Vector2I(3, 4), delta: Vector2I(3, 4) },
            InputEvent::MousePress { button_mask: 1 },
        ]
    );
    assert_eq!(system.process(3, 4, 0x40), vec![InputEvent::MousePress { button_mask: 4 }]);
    assert_eq!(system.process(3, 4, 0x20), vec![InputEvent::MouseRelease { button_mask: 4 }]);
    let mut mouse = CursesMouse::default();
    assert_eq!(
        mouse.process(1, 0, 0x800),
        vec![
            InputEvent::MouseMove { position: Vector2I(1, 0), delta: Vector2I(1, 0) },
            InputEvent::MousePress { button_mask: 2 },
        ]
    );
    let input = PancursesInputSystem::new(1);
    let mut component = PancursesMouseComponent::new();
    assert_eq!(
        input.process_mouse_report(&mut component, -1, -1, 0x10000),
        vec![InputEvent::MousePress { button_mask: 8 }]
    );
}

#[test]
fn quit_and_destruction_keys() {
    let events = vec![press(Key::Char('q')), press(Key::Space), press(Key::Space)];
    assert!(!QuitSystem.should_quit(&events));
    assert!(QuitKey::new(Key::Char('q')).should_quit(&events));
    assert_eq!(DestructionTestInput.destructions(&events, Key::Space), 2);
    assert_eq!(DestructionTestInputSystem::new().destructions(&events, Key::Escape), 0);
}

#[test]
fn debug_tabs() {
    let system = DebugTabSystem::new();
    assert_eq!(system.debug_data(0), DebugData::Entities);
    assert_eq!(system.debug_data(1), DebugData::Components);
    assert_eq!(system.debug_data(2), DebugData::ComponentData);
    assert_eq!(system.debug_data(3), DebugData::EntityComponents);
    assert_eq!(system.debug_data(9), DebugData::Entities);
}

#[test]
fn rect_shader_draws_border_only() {
    let color = ColorKey::white();
    assert_eq!(CPUShader::rect(CPUShaderInput::new(Vector2I(0, 1), Vector2I(4, 3), color)), Some(color));
    assert_eq!(CPUShader::rect(CPUShaderInput::new(Vector2I(1, 1), Vector2I(4, 3), color)), None);
    assert_eq!(CPUShader::rect(CPUShaderInput::new(Vector2I(3, 1), Vector2I(4, 3), color)), Some(color));
    assert_eq!(CPUShader::color_passthrough(CPUShaderInput::new(Vector2I(1, 1), Vector2I(4, 3), color)), Some(color));
}

#[test]
fn cleared_frame_composites_nothing() {
    let mut renderer = PancursesRendererSystem::new();
    renderer.fit_buffers(3, 2);
    assert!(renderer.composite(3, 2).is_empty());
    renderer.draw_color(1, 1, 3, ColorKey::white(), 0);
    renderer.draw_char(2, 0, 3, '#', ColorKey::white(), 1);
    let cells = renderer.composite(3, 2);
    assert_eq!(cells.len(), 2);
    assert_eq!((cells[0].x, cells[0].y, cells[0].c), (2, 0, '#'));
    assert_eq!(cells[0].background, ColorKey::black());
    assert_eq!((cells[1].x, cells[1].y, cells[1].c), (1, 1, ' '));
    assert_eq!(cells[1].background, ColorKey::white());
    renderer.clear();
    assert!(renderer.composite(3, 2).is_empty());
}

#[test]
fn render_string_lays_out_text() {
    let mut renderer = PancursesRendererSystem::new();
    renderer.fit_buffers(4, 2);
    renderer.render_string(Vector2I(4, 2), Vector2I(-1, 0), "abcdef", ColorKey::white(), 0);
    let cells = renderer.composite(4, 2);
    let text: Vec<char> = cells.iter().map(|cell| cell.c).collect();
    assert_eq!(text, vec!['b', 'c', 'd', 'e']);
}

#[test]
fn render_rect_uses_shader() {
    let mut renderer = PancursesRendererSystem::new();
    renderer.fit_buffers(4, 4);
    renderer.render_rect(Vector2I(4, 4), Vector2I(0, 0), Vector2I(3, 3), ColorKey::white(), ' ', |input| CPUShader::rect(input), 0);
    let cells = renderer.composite(4, 4);
    assert_eq!(cells.len(), 8);
    assert!(cells.iter().all(|cell| !(cell.x == 1 && cell.y == 1)));
}

#[test]
fn curses_cells_carry_pair_bits() {
    assert_eq!(cell_with_pair('A', 0), 65);
    assert_eq!(cell_with_pair('A', 3), 65 | (3 << 8));
    assert_eq!(cell_with_pair(' ', 255), 32 | (255 << 8));
}

fn palette_with_identity_anchors() -> CursesPalette {
    let mut palette = CursesPalette::default();
    palette.set_palette([0, 1, 2, 3, 4, 5, 6, 7]);
    palette
}

fn blank_cell() -> FramebufferCell {
    FramebufferCell { color: ColorKey::black(), palette_index: 0, color_z: -1, c: ' ', char_z: -1 }
}

#[test]
fn curses_renderer_composites_layers() {
    let palette = palette_with_identity_anchors();
    let mut cells = vec![blank_cell(); 4];
    cells[1] = FramebufferCell { color: ColorKey::white(), palette_index: 9, color_z: 2, c: 'x', char_z: 1 };
    cells[2] = FramebufferCell { color: ColorKey::black(), palette_index: 3, color_z: 0, c: 'y', char_z: 0 };
    cells[3] = FramebufferCell { color: ColorKey::white(), palette_index: 5, color_z: -1, c: 'z', char_z: -1 };
    let drawn = CursesRenderer.composite(&palette, &cells, 2, 2);
    assert_eq!(
        drawn,
        vec![(Vector2I(1, 0), cell_with_pair(' ', 9)), (Vector2I(0, 1), cell_with_pair('y', 3))]
    );
    assert!(CursesRenderer.composite(&palette, &cells, 0, 2).is_empty());
}

#[test]
fn palette_registration_interleaves_colors_and_pairs() {
    let commands = palette_registration(&vec![(0, 0, 0), (1000, 0, 0)], &vec![1, 0]);
    assert_eq!(
        commands,
        vec![
            CursesCommand::InitColor { index: 0, r: 0, g: 0, b: 0 },
            CursesCommand::InitPair { index: 0, foreground: 1, background: 0 },
            CursesCommand::InitColor { index: 1, r: 1000, g: 0, b: 0 },
            CursesCommand::InitPair { index: 1, foreground: 0, background: 1 },
        ]
    );
}

#[test]
fn input_buffer_systems_queue_read_input() {
    let mut queue = vec![CursesInput::KeyUp];
    CursesInputBuffer.buffer(&mut queue, Some(CursesInput::KeyDown));
    CursesInputBufferSystem.buffer(&mut queue, None);
    assert_eq!(queue, vec![CursesInput::KeyUp, CursesInput::KeyDown]);
}

#[test]
fn curses_window_setup_and_resizes() {
    let system = CursesWindowSystem::new();
    let setup = system.window_setup(Vector2I(64, 32), None);
    assert_eq!((setup.width, setup.height, setup.title.as_str()), (64, 32, "Antigen"));
    let setup = CursesWindow.window_setup(Vector2I(10, 5), Some("Main".to_string()));
    assert_eq!(setup.title, "Main");
    let inputs = vec![CursesInput::KeyResize, CursesInput::KeyUp, CursesInput::KeyResize];
    assert_eq!(system.queued_resizes(&inputs), vec![CursesCommand::ResizeTerm, CursesCommand::ResizeTerm]);
    assert_eq!(system.settle_resize(&inputs), vec![CursesCommand::ResizeTerm]);
    assert!(CursesWindow.resize_commands(&vec![CursesInput::KeyUp]).is_empty());
    assert_eq!(system.window_size(23, 79), Vector2I(79, 23));
}

#[test]
fn pancurses_window_initial_colors() {
    let contents = [
        (0, 0, 0),
        (680, 0, 0),
        (0, 680, 0),
        (680, 680, 0),
        (0, 0, 680),
        (680, 0, 680),
        (0, 0, 0),
        (680, 680, 680),
    ];
    let mut set = PancursesWindowSystem::initial_color_set(contents);
    let mut commands: Vec<CursesCommand> = Vec::new();
    assert_eq!(set.get_color_idx(PancursesColor::new(0, 0, 0), &mut commands), 6);
    assert_eq!(set.get_color_idx(PancursesColor::new(680, 680, 680), &mut commands), 7);
    assert!(commands.is_empty());
    assert_eq!(set.get_color_idx(PancursesColor::new(1, 2, 3), &mut commands), 7);
    assert_eq!(commands, vec![CursesCommand::InitColor { index: 7, r: 1, g: 2, b: 3 }]);
}

#[test]
fn pancurses_window_setup_registers_background() {
    let contents = [(0, 0, 0), (1000, 1000, 1000), (5, 5, 5), (6, 6, 6), (7, 7, 7), (8, 8, 8), (9, 9, 9), (10, 10, 10)];
    let mut set = PancursesWindowSystem::initial_color_set(contents);
    let mut commands: Vec<CursesCommand> = Vec::new();
    let setup = PancursesWindowSystem.window_setup(Vector2I(80, 25), None, None, None, &mut set, &mut commands);
    assert_eq!((setup.width, setup.height, setup.title.as_str()), (80, 25, "Antigen"));
    assert_eq!(setup.background_pair, 0);
    assert_eq!(setup.background, cell_with_pair(' ', 0));
    assert!(commands.is_empty());
    let pair = PancursesColorPair::new(PancursesColor::new(0, 0, 0), PancursesColor::new(5, 5, 5));
    let setup = PancursesWindowSystem.window_setup(Vector2I(1, 1), Some("T".to_string()), Some('.'), Some(pair), &mut set, &mut commands);
    assert_eq!(setup.background_pair, 1);
    assert_eq!(setup.background, cell_with_pair('.', 1));
    assert_eq!(commands, vec![CursesCommand::InitPair { index: 1, foreground: 0, background: 2 }]);
    assert_eq!(PancursesWindowSystem::window_size(24, 80), Vector2I(80, 24));
}

#[test]
fn local_mouse_position_walks_to_window() {
    let system = LocalMousePositionSystem::new();
    let nodes = vec![
        EntityNode { parent: None, is_window: true, position: Some(Vector2I(10, 5)) },
        EntityNode { parent: Some(0), is_window: false, position: Some(Vector2I(2, 2)) },
        EntityNode { parent: Some(1), is_window: false, position: Some(Vector2I(1, 1)) },
        EntityNode { parent: None, is_window: false, position: Some(Vector2I(0, 0)) },
        EntityNode { parent: Some(7), is_window: false, position: None },
    ];
    assert_eq!(system.window_position(&nodes, 2), Some(Vector2I(10, 5)));
    assert_eq!(system.window_position(&nodes, 3), Some(Vector2I(0, 0)));
    assert_eq!(system.window_position(&nodes, 4), Some(Vector2I(0, 0)));
    let orphan_window = vec![
        EntityNode { parent: None, is_window: true, position: None },
        EntityNode { parent: Some(0), is_window: false, position: Some(Vector2I(0, 0)) },
    ];
    assert_eq!(system.window_position(&orphan_window, 1), None);
    let local = system.local_mouse_position(Vector2I(20, 10), Vector2I(10, 5), None, Vector2I(1, 1));
    assert_eq!(local, Vector2I(9, 4));
    let local = system.local_mouse_position(Vector2I(20, 10), Vector2I(10, 5), Some(Vector2I(3, 3)), Vector2I(1, 1));
    assert_eq!(local, Vector2I(7, 2));
}

#[test]
fn window_opened_only_when_missing() {
    assert!(PancursesWindowSystem::new().needs_window(&PancursesWindowComponent::new()));
    assert!(CursesWindowSystem::new().needs_window(&CursesWindowComponent::new()));
    assert!(CursesWindow.needs_window(&CursesWindowComponent::default()));
}

#[test]
fn rect_fill_checked_before_drawing() {
    let mut renderer = PancursesRendererSystem::new();
    assert!(!renderer.can_render_rect(Vector2I(4, 3), Vector2I(0, 0), Vector2I(1, 1)));
    renderer.fit_buffers(4, 3);
    assert!(renderer.can_render_rect(Vector2I(4, 3), Vector2I(1, 1), Vector2I(2, 2)));
    assert!(renderer.can_render_rect(Vector2I(4, 3), Vector2I(10, 10), Vector2I(2, 2)));
    assert!(!renderer.can_render_rect(Vector2I(4, 3), Vector2I(i64::MAX, 0), Vector2I(1, 1)));
    assert!(!renderer.can_render_rect(Vector2I(4, 4), Vector2I(0, 3), Vector2I(4, 1)));
}
