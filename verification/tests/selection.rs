use my_open_claude::app_state::{App, Area, ScrollPosition};
use my_open_claude::selection::{
    copyable_message, extract_selection, handle_mouse, hit_test_message, message_idx_at_scroll_line,
    pos_to_buffer_coords, strip_border_prefix, MouseEffect, MouseKind,
};

fn app() -> App {
    App::new("m".to_string(), "m".to_string(), false, 1000, vec![], None)
}

#[test]
fn border_prefixes_are_stripped() {
    assert_eq!(strip_border_prefix("│ │ code"), "code");
    assert_eq!(strip_border_prefix("│x"), "x");
    assert_eq!(strip_border_prefix("│   indented"), "  indented");
    assert_eq!(strip_border_prefix("plain"), "plain");
    let once = strip_border_prefix("│ │ a");
    assert_eq!(strip_border_prefix(once), once);
}

#[test]
fn selection_across_lines_is_joined() {
    let mut a = app();
    a.rendered_lines = vec!["│ hello".to_string(), "│ world".to_string(), "│ !".to_string()];
    a.selection = Some((0, 2, 1, 7));
    assert_eq!(extract_selection(&a), Some("hello\nworld".to_string()));
    a.selection = Some((0, 4, 0, 2));
    assert_eq!(extract_selection(&a), Some("he".to_string()));
    a.selection = Some((0, 3, 9, 2));
    assert_eq!(extract_selection(&a), Some("ello\nworld\n".to_string()));
}

#[test]
fn empty_or_invalid_selections_copy_nothing() {
    let mut a = app();
    a.selection = Some((0, 0, 0, 3));
    assert_eq!(extract_selection(&a), None);
    a.rendered_lines = vec!["abc".to_string()];
    a.selection = None;
    assert_eq!(extract_selection(&a), None);
    a.selection = Some((5, 0, 6, 1));
    assert_eq!(extract_selection(&a), None);
    a.selection = Some((0, 2, 0, 2));
    assert_eq!(extract_selection(&a), None);
}

#[test]
fn clicks_find_the_message_block() {
    let mut a = app();
    a.push_user("copy me");
    a.history_area = Some(Area { x: 0, y: 1, width: 10, height: 5 });
    a.message_line_ranges = vec![(0, 0, 4)];
    a.last_max_scroll = 10;
    a.scroll = ScrollPosition::Line(0);
    assert_eq!(hit_test_message(&a, 2, 2), Some(0));
    assert_eq!(hit_test_message(&a, 2, 5), None);
    assert_eq!(hit_test_message(&a, 20, 2), None);
    assert_eq!(pos_to_buffer_coords(&a, 3, 2), Some((1, 3)));
    assert_eq!(message_idx_at_scroll_line(&a), Some(0));
    assert_eq!(copyable_message(&a, 0), Some("copy me".to_string()));
    assert_eq!(copyable_message(&a, 1), None);
}

#[test]
fn mouse_events_hover_copy_and_scroll() {
    let mut a = app();
    a.push_user("copy me");
    a.history_area = Some(Area { x: 0, y: 0, width: 10, height: 5 });
    a.message_line_ranges = vec![(0, 0, 4)];
    a.last_max_scroll = 10;
    match handle_mouse(&mut a, MouseKind::Moved, 2, 2, false) {
        MouseEffect::SetPointer(true) => {}
        _ => panic!("expected pointer"),
    }
    assert!(a.hovering_message_block);
    match handle_mouse(&mut a, MouseKind::LeftUp, 2, 2, false) {
        MouseEffect::Copy(t) => assert_eq!(t, "copy me"),
        _ => panic!("expected copy"),
    }
    handle_mouse(&mut a, MouseKind::ScrollDown, 2, 2, false);
    assert_eq!(a.scroll, ScrollPosition::Line(3));
    assert!(matches!(handle_mouse(&mut a, MouseKind::ScrollDown, 2, 2, true), MouseEffect::Nothing));
    assert_eq!(a.scroll, ScrollPosition::Line(3));
    a.credits_area = Some(Area { x: 50, y: 0, width: 5, height: 1 });
    assert!(matches!(handle_mouse(&mut a, MouseKind::LeftUp, 52, 1, false), MouseEffect::OpenCreditsPage));
}
