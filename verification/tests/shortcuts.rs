use my_open_claude::keys::{KeyCode, KeyEvent, KeyEventKind, KeyModifiers};
use my_open_claude::shortcuts::{bottom_bar, is_mac_option_h, Shortcut};

fn key(code: KeyCode, modifiers: KeyModifiers) -> KeyEvent {
    KeyEvent::press(code, modifiers)
}

#[test]
fn is_escape() {
    assert!(Shortcut::is_escape(&key(KeyCode::Esc, KeyModifiers::none())));
    assert!(!Shortcut::is_escape(&key(KeyCode::Char('c'), KeyModifiers::none())));
}

#[test]
fn match_quit_ctrl_c() {
    assert_eq!(
        Shortcut::match_key(&key(KeyCode::Char('c'), KeyModifiers::control_only()), false),
        Some(Shortcut::Quit)
    );
}

#[test]
fn match_history_alt_h() {
    assert_eq!(
        Shortcut::match_key(&key(KeyCode::Char('h'), KeyModifiers::alt_only()), false),
        Some(Shortcut::History)
    );
}

#[test]
fn match_model_selector_alt_m() {
    assert_eq!(
        Shortcut::match_key(&key(KeyCode::Char('m'), KeyModifiers::alt_only()), false),
        Some(Shortcut::ModelSelector)
    );
}

#[test]
fn match_new_conversation_ctrl_n() {
    assert_eq!(
        Shortcut::match_key(&key(KeyCode::Char('n'), KeyModifiers::control_only()), false),
        Some(Shortcut::NewConversation)
    );
}

#[test]
fn match_escape_pending_h() {
    assert_eq!(
        Shortcut::match_key(&key(KeyCode::Char('h'), KeyModifiers::none()), true),
        Some(Shortcut::History)
    );
}

#[test]
fn match_escape_pending_m() {
    assert_eq!(
        Shortcut::match_key(&key(KeyCode::Char('m'), KeyModifiers::none()), true),
        Some(Shortcut::ModelSelector)
    );
}

#[test]
fn match_no_shortcut() {
    assert_eq!(
        Shortcut::match_key(&key(KeyCode::Char('x'), KeyModifiers::none()), false),
        None
    );
}

#[test]
fn match_key_release_ignored() {
    let key_release = KeyEvent {
        code: KeyCode::Char('c'),
        modifiers: KeyModifiers::control_only(),
        kind: KeyEventKind::Release,
    };
    assert_eq!(Shortcut::match_key(&key_release, false), None);
}

#[test]
fn mac_option_characters_open_selectors() {
    assert!(is_mac_option_h('\u{00CC}'));
    assert!(is_mac_option_h('\u{02D9}'));
    assert!(!is_mac_option_h('h'));
    assert_eq!(
        Shortcut::match_key(&key(KeyCode::Char('\u{00B5}'), KeyModifiers::none()), false),
        Some(Shortcut::ModelSelector)
    );
    assert_eq!(
        Shortcut::match_key(&key(KeyCode::Char('\u{0127}'), KeyModifiers::none()), false),
        Some(Shortcut::History)
    );
}

#[test]
fn escape_pending_ignores_other_keys() {
    assert_eq!(
        Shortcut::match_key(&key(KeyCode::Char('x'), KeyModifiers::none()), true),
        None
    );
}

#[test]
fn bottom_bar_while_streaming_shows_cancel() {
    let lines = bottom_bar(true, "  Ctrl+Shift+C ");
    assert_eq!(lines.len(), 1);
    let texts: Vec<&str> = lines[0].iter().map(|s| s.content.as_str()).collect();
    assert_eq!(texts, vec!["Esc ", "cancel", "  ↑↓ ", "scroll"]);
}

#[test]
fn bottom_bar_idle_has_two_lines_with_copy_key() {
    let lines = bottom_bar(false, "  ⌘C ");
    assert_eq!(lines.len(), 2);
    assert_eq!(lines[0].len(), 8);
    let second: Vec<&str> = lines[1].iter().map(|s| s.content.as_str()).collect();
    assert_eq!(second[6], "  ⌘C ");
    assert_eq!(second[7], "copy");
    assert_eq!(second[9], "quit");
}

#[test]
fn long_working_directory_keeps_its_end() {
    assert_eq!(my_open_claude::shortcuts::bar_path_display("/home/user/project", 8), "…project");
    assert_eq!(my_open_claude::shortcuts::bar_path_display("/home/user/project", 40), "/home/user/project");
    assert_eq!(my_open_claude::shortcuts::bar_path_display("/home/user/project", 2), "/home/user/project");
}
