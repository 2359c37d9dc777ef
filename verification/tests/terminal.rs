use my_open_claude::app_state::{App, Area};
use my_open_claude::terminal::{begin_frame, toast_area, TerminalGuard, HEADER_HEIGHT, TOAST_WIDTH};

fn app() -> App {
    App::new("id".to_string(), "name".to_string(), false, 1000, vec![], None)
}

#[test]
fn guard_can_be_made() {
    let _g = TerminalGuard::new();
}

#[test]
fn empty_log_shows_the_welcome_screen_and_clears_hit_areas() {
    let mut a = app();
    a.history_area = Some(Area { x: 0, y: 2, width: 80, height: 20 });
    a.message_line_ranges = vec![(0, 0, 3)];
    assert!(begin_frame(&mut a));
    assert_eq!(a.history_area, None);
    assert!(a.message_line_ranges.is_empty());
}

#[test]
fn non_empty_log_keeps_the_frame_state() {
    let mut a = app();
    a.push_user("hi");
    a.history_area = Some(Area { x: 0, y: 2, width: 80, height: 20 });
    a.message_line_ranges = vec![(0, 0, 3)];
    assert!(!begin_frame(&mut a));
    assert_eq!(a.history_area, Some(Area { x: 0, y: 2, width: 80, height: 20 }));
    assert_eq!(a.message_line_ranges, vec![(0, 0, 3)]);
}

#[test]
fn toast_sits_top_right_below_the_header() {
    let r = toast_area(Area { x: 0, y: 0, width: 80, height: 24 });
    assert_eq!(r, Area { x: 69, y: HEADER_HEIGHT, width: TOAST_WIDTH, height: 3 });
    let narrow = toast_area(Area { x: 5, y: 1, width: 8, height: 24 });
    assert_eq!(narrow, Area { x: 5, y: 3, width: 10, height: 3 });
}
