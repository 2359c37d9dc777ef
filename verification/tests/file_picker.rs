use my_open_claude::app_state::App;
use my_open_claude::file_picker::{
    arrange_entries, handle_file_picker, handle_file_picker_key, FilePickerAction, FilePickerState,
    RawEntry,
};
use my_open_claude::keys::{KeyCode, KeyModifiers};

fn raw(name: &str, is_dir: bool) -> RawEntry {
    RawEntry { name: name.to_string(), is_dir, ignored: false }
}

fn names(p: &FilePickerState) -> Vec<String> {
    p.all_entries.iter().map(|e| e.name.clone()).collect()
}

#[test]
fn open_populates_all_entries() {
    let picker = FilePickerState::open(
        vec![],
        0,
        vec![raw("foo.rs", false), raw("bar.txt", false), raw("src", true)],
    );
    assert!(!picker.all_entries.is_empty(), "entries should be populated");
    let names = names(&picker);
    assert!(names.contains(&"src".to_string()));
    assert!(names.contains(&"foo.rs".to_string()));
    assert!(names.contains(&"bar.txt".to_string()));
}

#[test]
fn filtered_entries_prefix_match() {
    let mut picker = FilePickerState::open(
        vec![],
        0,
        vec![raw("src", true), raw("src_test.rs", false), raw("main.rs", false)],
    );
    picker.filter = "src".to_string();
    let filtered = picker.filtered_entries();
    assert_eq!(filtered.len(), 2);
    for e in &filtered {
        assert!(e.name.starts_with("src"));
    }
}

#[test]
fn ascend_at_workspace_root_is_noop() {
    let mut picker = FilePickerState::open(vec![], 0, vec![]);
    let before = picker.current_dir.clone();
    picker.ascend();
    assert_eq!(picker.current_dir, before, "should not ascend past workspace_root");
    assert!(!picker.needs_reload);
}

#[test]
fn descend_updates_current_dir() {
    let mut picker = FilePickerState::open(vec![], 0, vec![raw("subdir", true)]);
    picker.descend("subdir");
    assert_eq!(picker.current_dir, vec!["subdir".to_string()]);
    assert!(picker.needs_reload);
}

#[test]
fn listing_puts_sorted_directories_before_sorted_files() {
    let entries = arrange_entries(
        &vec![],
        vec![
            raw("zeta.rs", false),
            raw("docs", true),
            raw("alpha.rs", false),
            raw("app", true),
            raw("Beta.rs", false),
        ],
    );
    let got: Vec<&str> = entries.iter().map(|e| e.name.as_str()).collect();
    assert_eq!(got, vec!["app", "docs", "Beta.rs", "alpha.rs", "zeta.rs"]);
}

#[test]
fn listing_skips_hidden_and_ignored_names() {
    let entries = arrange_entries(
        &vec![],
        vec![
            raw(".git", true),
            RawEntry { name: "target".to_string(), is_dir: true, ignored: true },
            raw("lib.rs", false),
        ],
    );
    assert_eq!(entries.len(), 1);
    assert_eq!(entries[0].name, "lib.rs");
}

#[test]
fn relative_paths_follow_the_current_directory() {
    let entries = arrange_entries(&vec!["src".to_string(), "tui".to_string()], vec![raw("mod.rs", false)]);
    assert_eq!(entries[0].rel_path, "src/tui/mod.rs");
    let top = arrange_entries(&vec![], vec![raw("README.md", false)]);
    assert_eq!(top[0].rel_path, "README.md");
}

#[test]
fn filter_ignores_case() {
    let mut picker = FilePickerState::open(vec![], 0, vec![raw("README.md", false), raw("main.rs", false)]);
    picker.filter = "read".to_string();
    let filtered = picker.filtered_entries();
    assert_eq!(filtered.len(), 1);
    assert_eq!(filtered[0].name, "README.md");
}

#[test]
fn arrows_wrap_around_the_matches() {
    let mut picker = FilePickerState::open(vec![], 0, vec![raw("a", false), raw("b", false), raw("c", false)]);
    assert!(matches!(handle_file_picker_key(KeyCode::Up, KeyModifiers::none(), &mut picker), FilePickerAction::Keep));
    assert_eq!(picker.selected_index, 2);
    handle_file_picker_key(KeyCode::Down, KeyModifiers::none(), &mut picker);
    assert_eq!(picker.selected_index, 0);
    handle_file_picker_key(KeyCode::Down, KeyModifiers::none(), &mut picker);
    assert_eq!(picker.selected_index, 1);
}

#[test]
fn enter_on_file_inserts_and_on_directory_descends() {
    let mut picker = FilePickerState::open(vec![], 0, vec![raw("src", true), raw("main.rs", false)]);
    picker.selected_index = 1;
    match handle_file_picker_key(KeyCode::Enter, KeyModifiers::none(), &mut picker) {
        FilePickerAction::Insert { rel_path } => assert_eq!(rel_path, "main.rs"),
        _ => panic!("expected an insert"),
    }
    picker.selected_index = 0;
    assert!(matches!(handle_file_picker_key(KeyCode::Enter, KeyModifiers::none(), &mut picker), FilePickerAction::Keep));
    assert_eq!(picker.current_dir, vec!["src".to_string()]);
    assert!(picker.needs_reload);
    picker.reload(vec![raw("lib.rs", false)]);
    assert!(!picker.needs_reload);
    assert_eq!(picker.all_entries[0].rel_path, "src/lib.rs");
}

#[test]
fn backspace_edits_filter_then_ascends() {
    let mut picker = FilePickerState::open(vec!["src".to_string()], 0, vec![raw("lib.rs", false)]);
    handle_file_picker_key(KeyCode::Char('l'), KeyModifiers::none(), &mut picker);
    assert_eq!(picker.filter, "l");
    handle_file_picker_key(KeyCode::Backspace, KeyModifiers::none(), &mut picker);
    assert_eq!(picker.filter, "");
    assert_eq!(picker.current_dir, vec!["src".to_string()]);
    handle_file_picker_key(KeyCode::Backspace, KeyModifiers::none(), &mut picker);
    assert!(picker.current_dir.is_empty());
    assert!(picker.needs_reload);
}

#[test]
fn typing_clamps_the_selection() {
    let mut picker = FilePickerState::open(vec![], 0, vec![raw("ab", false), raw("ac", false), raw("b", false)]);
    picker.selected_index = 2;
    handle_file_picker_key(KeyCode::Char('a'), KeyModifiers::none(), &mut picker);
    assert_eq!(picker.selected_index, 1);
    handle_file_picker_key(KeyCode::Char('z'), KeyModifiers::none(), &mut picker);
    assert_eq!(picker.selected_index, 0);
    assert!(matches!(handle_file_picker_key(KeyCode::Esc, KeyModifiers::none(), &mut picker), FilePickerAction::Cancel));
}

fn app_with_input(input: &str, cursor: usize, at: usize, entries: Vec<RawEntry>) -> App {
    let mut app = App::new("m".to_string(), "m".to_string(), false, 1000, vec![], None);
    app.input = input.to_string();
    app.input_cursor = cursor;
    app.file_picker = Some(FilePickerState::open(vec![], at, entries));
    app
}

#[test]
fn choosing_a_file_replaces_the_reference() {
    let mut app = app_with_input("see @ma please", 7, 4, vec![raw("main.rs", false)]);
    handle_file_picker(KeyCode::Enter, KeyModifiers::none(), &mut app);
    assert_eq!(app.input, "see @main.rs  please");
    assert_eq!(app.input_cursor, 13);
    assert!(app.file_picker.is_none());
}

#[test]
fn cancel_removes_the_reference() {
    let mut app = app_with_input("see @ma", 7, 4, vec![raw("main.rs", false)]);
    handle_file_picker(KeyCode::Esc, KeyModifiers::none(), &mut app);
    assert_eq!(app.input, "see ");
    assert_eq!(app.input_cursor, 4);
    assert!(app.file_picker.is_none());
}

#[test]
fn other_keys_keep_the_picker_open() {
    let mut app = app_with_input("@", 1, 0, vec![raw("a", false), raw("b", false)]);
    handle_file_picker(KeyCode::Down, KeyModifiers::none(), &mut app);
    assert_eq!(app.input, "@");
    assert_eq!(app.file_picker.as_ref().unwrap().selected_index, 1);
}

#[test]
fn descending_then_ascending_returns_to_the_directory() {
    let mut picker = FilePickerState::open(vec!["src".to_string()], 4, vec![raw("tui", true)]);
    picker.descend("tui");
    assert_eq!(picker.current_dir, vec!["src".to_string(), "tui".to_string()]);
    assert!(picker.needs_reload);
    picker.ascend();
    assert_eq!(picker.current_dir, vec!["src".to_string()]);
    assert_eq!(picker.at_token_start, 4);
}
