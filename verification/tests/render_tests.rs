use antigen_curses::components::pancurses_color_set_component::PancursesColorSetComponent;
use antigen_curses::curses_cell::cell_with_pair;
use antigen_curses::pancurses_color::{PancursesColor, PancursesColorPair};
use antigen_curses::primitive_types::{ColorKey, CursesCommand, Vector2I};
use antigen_curses::systems::control_order::{control_order, SceneNode};
use antigen_curses::systems::pancurses_renderer_system::{
    control_drawing, ControlDrawing, PancursesRendererSystem, RenderError, RenderedCell,
};

fn node(id: u64, is_control: bool, z_index: Option<i64>, children: Vec<usize>) -> SceneNode {
    SceneNode { id, is_control, z_index, children }
}

#[test]
fn control_order_inherits_depth_and_sorts() {
    let nodes = vec![
        node(1, false, Some(9), vec![1, 2]),
        node(20, true, Some(3), vec![3]),
        node(5, true, None, vec![]),
        node(7, true, None, vec![4, 99]),
        node(30, false, Some(1), vec![5]),
        node(2, true, Some(-1), vec![]),
    ];
    assert_eq!(control_order(&nodes, 0), vec![(2, -1), (5, 0), (7, 3), (20, 3)]);
    assert_eq!(control_order(&nodes, 4), vec![(2, -1)]);
    assert!(control_order(&nodes, 42).is_empty());
}

#[test]
fn control_order_sorts_equal_ids_by_depth() {
    let nodes = vec![
        node(0, false, None, vec![1, 2]),
        node(4, true, Some(5), vec![]),
        node(4, true, Some(-5), vec![]),
    ];
    assert_eq!(control_order(&nodes, 0), vec![(4, -5), (4, 5)]);
}

#[test]
fn control_drawing_defaults() {
    let red = ColorKey { r: 0x3F80_0000, g: 0, b: 0 };
    match control_drawing(None, Some(Vector2I(1, 2)), None, None, Some(Vector2I(3, 4)), None) {
        Ok(Some(ControlDrawing::Rect { position, size, color, c })) => {
            assert_eq!((position, size, color, c), (Vector2I(1, 2), Vector2I(3, 4), ColorKey::white(), ' '));
        },
        _ => panic!("expected a rectangle"),
    }
    match control_drawing(Some(Vector2I(5, 5)), Some(Vector2I(1, 2)), Some(red), Some('x'), None, Some("hi".to_string())) {
        Ok(Some(ControlDrawing::Text { position, text, color })) => {
            assert_eq!((position, text.as_str(), color), (Vector2I(5, 5), "hi", red));
        },
        _ => panic!("expected a text"),
    }
    match control_drawing(None, Some(Vector2I(0, 0)), None, Some('@'), None, None) {
        Ok(Some(ControlDrawing::Char { c, .. })) => assert_eq!(c, '@'),
        _ => panic!("expected a character"),
    }
    assert!(matches!(control_drawing(None, Some(Vector2I(0, 0)), None, None, None, None), Ok(None)));
    assert!(matches!(control_drawing(None, None, None, Some('@'), None, None), Err(RenderError::MissingPosition)));
}

#[test]
fn render_text_draws_lines_under_each_other() {
    let mut renderer = PancursesRendererSystem::new();
    renderer.fit_buffers(3, 3);
    renderer.render_text(Vector2I(3, 3), Vector2I(1, 0), "ab\ncde\n\nf", ColorKey::white(), 0);
    let cells = renderer.composite(3, 3);
    let placed: Vec<(i32, i32, char)> = cells.iter().map(|cell| (cell.x, cell.y, cell.c)).collect();
    assert_eq!(placed, vec![(1, 0, 'a'), (2, 0, 'b'), (1, 1, 'c'), (2, 1, 'd')]);
}

#[test]
fn composited_cells_get_registered_pairs() {
    let renderer = PancursesRendererSystem::new();
    let mut colors = PancursesColorSetComponent::new(
        vec![(PancursesColor::new(0, 0, 0), 0), (PancursesColor::new(1000, 1000, 1000), 7)],
        vec![(PancursesColorPair::default(), 0)],
    );
    let mut commands: Vec<CursesCommand> = Vec::new();
    let cell = RenderedCell { x: 3, y: 4, c: 'k', foreground: ColorKey::white(), background: ColorKey::black() };
    let drawn = renderer.curses_cell_for(&cell, &PancursesColorPair::default(), &mut colors, &mut commands);
    assert_eq!(drawn, (3, 4, cell_with_pair('k', 0)));
    assert!(commands.is_empty());
    let pair = PancursesColorPair::new(PancursesColor::new(0, 0, 0), PancursesColor::new(1000, 1000, 1000));
    let drawn = renderer.curses_cell_for(&cell, &pair, &mut colors, &mut commands);
    assert_eq!(drawn, (3, 4, cell_with_pair('k', 1)));
    assert_eq!(commands, vec![CursesCommand::InitPair { index: 1, foreground: 0, background: 7 }]);
}

#[test]
fn redrawing_changes_nothing() {
    let mut once = PancursesRendererSystem::new();
    once.fit_buffers(2, 1);
    once.draw_color(0, 0, 2, ColorKey::white(), 3);
    once.draw_char(1, 0, 2, 'q', ColorKey::white(), 3);
    let mut twice = PancursesRendererSystem::new();
    twice.fit_buffers(2, 1);
    for _ in 0..2 {
        twice.draw_color(0, 0, 2, ColorKey::white(), 3);
        twice.draw_char(1, 0, 2, 'q', ColorKey::white(), 3);
    }
    assert_eq!(once.composite(2, 1), twice.composite(2, 1));
}
