use antigen_curses::components::int_range::IntRangeComponent;
use antigen_curses::primitive_types::{InputEvent, Vector2I};
use antigen_curses::systems::list_system::{hovered_item, list_frame, list_line_count, list_lines, split_lines, ListSystem};

fn strings(texts: &[&str]) -> Vec<String> {
    texts.iter().map(|text| text.to_string()).collect()
}

#[test]
fn split_lines_cuts_to_width() {
    assert_eq!(split_lines("ab\ncdef\n", 3), strings(&["ab", "cde", ""]));
    assert_eq!(split_lines("", 3), strings(&[""]));
    assert_eq!(split_lines("héllo", 3), strings(&["hé"]));
    assert_eq!(split_lines("abc", 0), strings(&[""]));
}

#[test]
fn split_lines_rejoins_when_nothing_is_cut() {
    let text = "one\ntwo\n\nthree";
    assert_eq!(split_lines(text, 100).join("\n"), text);
}

#[test]
fn hovered_item_by_line_counts() {
    let counts = vec![2usize, 1, 3];
    assert_eq!(hovered_item(&counts, Some(Vector2I(0, 0)), 5, 10), Some(0));
    assert_eq!(hovered_item(&counts, Some(Vector2I(4, 2)), 5, 10), Some(1));
    assert_eq!(hovered_item(&counts, Some(Vector2I(1, 5)), 5, 10), Some(2));
    assert_eq!(hovered_item(&counts, Some(Vector2I(1, 6)), 5, 10), None);
    assert_eq!(hovered_item(&counts, Some(Vector2I(5, 0)), 5, 10), None);
    assert_eq!(hovered_item(&counts, Some(Vector2I(-1, 0)), 5, 10), None);
    assert_eq!(hovered_item(&counts, None, 5, 10), None);
}

#[test]
fn list_lines_fill_height() {
    let lists = vec![strings(&["a", "b"]), strings(&["c"]), strings(&["d", "e"])];
    let lines = list_lines(&lists, 4, Some(1));
    let texts: Vec<&str> = lines.iter().map(|line| line.text.as_str()).collect();
    assert_eq!(texts, vec!["a", "b", "c", "d"]);
    let items: Vec<usize> = lines.iter().map(|line| line.item).collect();
    assert_eq!(items, vec![0, 0, 1, 2]);
    let focused: Vec<bool> = lines.iter().map(|line| line.focused).collect();
    assert_eq!(focused, vec![false, false, true, false]);
    assert_eq!(lines[3].y, 3);
    assert_eq!(list_lines(&lists, 0, None).len(), 1);
    assert_eq!(list_lines(&lists, 100, None).len(), 5);
}

#[test]
fn list_frame_selects_clicked_item() {
    let texts = strings(&["first\nsecond", "third"]);
    let mut selection = Some(IntRangeComponent::new(0, 0, 0));
    let events = vec![InputEvent::MousePress { button_mask: 1 }];
    let frame = list_frame(&texts, 4, 5, Some(Vector2I(0, 2)), &events, &mut selection);
    assert_eq!(frame.line_count, 3);
    assert_eq!(frame.hovered_item, Some(1));
    let range = selection.unwrap();
    assert_eq!(range.get_range(), (-1, 2));
    assert_eq!(range.get_index(), 1);
    assert_eq!(frame.focused_item, Some(1));
    assert_eq!(frame.hover_position, Vector2I(0, 1));
    assert_eq!(frame.hover_size, Vector2I(4, 1));
    assert_eq!(frame.focus_position, Vector2I(0, 1));
    assert_eq!(frame.focus_size, Vector2I(4, 1));
    let texts_shown: Vec<&str> = frame.lines.iter().map(|line| line.text.as_str()).collect();
    assert_eq!(texts_shown, vec!["firs", "seco", "thir"]);
    assert!(frame.lines[2].focused);
}

#[test]
fn list_frame_click_below_items_clears_selection() {
    let texts = strings(&["a", "b"]);
    let mut selection = Some(IntRangeComponent::new(1, 0, 2));
    let events = vec![InputEvent::MousePress { button_mask: 1 }];
    let frame = list_frame(&texts, 3, 5, Some(Vector2I(1, 4)), &events, &mut selection);
    assert_eq!(frame.hovered_item, None);
    assert_eq!(selection.unwrap().get_index(), -1);
    assert_eq!(frame.focused_item, Some(-1));
    assert_eq!(frame.focus_size, Vector2I(0, 0));
    assert_eq!(frame.hover_size, Vector2I(0, 0));
}

#[test]
fn list_frame_without_click_keeps_selection() {
    let texts = strings(&["a", "b"]);
    let mut selection = Some(IntRangeComponent::new(1, 0, 2));
    let frame = list_frame(&texts, 3, 5, Some(Vector2I(1, 0)), &vec![], &mut selection);
    assert_eq!(frame.hovered_item, Some(0));
    assert_eq!(selection.unwrap().get_index(), 1);
    let mut none = None;
    let frame = list_frame(&texts, 3, 5, None, &vec![InputEvent::MousePress { button_mask: 1 }], &mut none);
    assert!(none.is_none());
    assert_eq!(frame.focused_item, None);
    assert_eq!(frame.focus_position, Vector2I(0, 0));
}

#[test]
fn list_system_tracks_entities() {
    let mut system = ListSystem::new();
    assert_eq!(system.hover_entity(7), None);
    system.set_hover_entity(7, 100);
    system.set_focus_entity(7, 101);
    assert_eq!(system.hover_entity(7), Some(100));
    assert_eq!(system.focus_entity(7), Some(101));
    assert_eq!(system.missing_row_entities(7, 3), 3);
    let destroyed = system.reconcile_row_entities(7, 3, vec![1, 2, 3]);
    assert!(destroyed.is_empty());
    assert_eq!(system.row_entities(7), vec![1, 2, 3]);
    assert_eq!(system.missing_row_entities(7, 3), 0);
    assert!(system.reconcile_row_entities(7, 3, vec![]).is_empty());
    let destroyed = system.reconcile_row_entities(7, 1, vec![]);
    assert_eq!(destroyed, vec![3, 2]);
    assert_eq!(system.row_entities(7), vec![1]);
    system.forget_rows(7);
    assert!(system.row_entities(7).is_empty());
    assert_eq!(system.hover_entity(7), Some(100));
}

#[test]
fn list_control_rows_follow_lines() {
    let mut system = ListSystem::new();
    assert!(system.needs_hover_entity(7));
    assert!(system.needs_focus_entity(7));
    system.set_hover_entity(7, 100);
    system.set_focus_entity(7, 101);
    assert!(!system.needs_hover_entity(7));
    assert!(!system.needs_focus_entity(7));

    let texts = strings(&["a\nb", "c"]);
    assert_eq!(list_line_count(&texts, 5), 3);
    let mut selection = Some(IntRangeComponent::default());
    let (frame, destroyed) =
        system.update_control(7, &texts, 5, 10, None, &vec![], &mut selection, vec![10, 11, 12]);
    assert_eq!(frame.line_count, 3);
    assert_eq!(frame.lines.len(), 3);
    assert!(destroyed.is_empty());
    assert_eq!(system.row_entities(7), vec![10, 11, 12]);

    let fewer = strings(&["x"]);
    let (frame, destroyed) = system.update_control(7, &fewer, 5, 10, None, &vec![], &mut selection, vec![]);
    assert_eq!(frame.line_count, 1);
    assert_eq!(destroyed, vec![12, 11]);
    assert_eq!(system.row_entities(7), vec![10]);

    let more = strings(&["p\nq\nr"]);
    assert_eq!(system.missing_row_entities(7, list_line_count(&more, 5)), 2);
    let (_, destroyed) = system.update_control(7, &more, 5, 10, None, &vec![], &mut selection, vec![20, 21]);
    assert!(destroyed.is_empty());
    assert_eq!(system.row_entities(7), vec![10, 20, 21]);
}
