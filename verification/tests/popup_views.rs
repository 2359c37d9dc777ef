use my_open_claude::command_form::{
    CommandFormField, CommandFormMode, CommandFormPhase, CommandFormState, CustomTemplate,
};
use my_open_claude::delete_command::DeleteCommandState;
use my_open_claude::file_picker::{FilePickerState, RawEntry};
use my_open_claude::history_selector::{open_history_selector, ConversationEntry};
use my_open_claude::markdown::SpanStyle;
use my_open_claude::model_selector::{ModelEntry, ModelSelectorState};
use my_open_claude::popup_views::{
    breadcrumb, command_form_title, delete_rows, file_list_view, filter_cursor_x, filter_span,
    form_error_line, form_field_lines, format_conversation, history_list_view, model_list_view,
    rename_line, update_command_rows, ListView,
};

fn template(name: &str, description: &str) -> CustomTemplate {
    CustomTemplate {
        name: name.to_string(),
        description: description.to_string(),
        prompt_prefix: "p".to_string(),
        mode: "Ask".to_string(),
    }
}

fn form() -> CommandFormState {
    CommandFormState {
        form_mode: CommandFormMode::Create,
        name: String::new(),
        description: "Describes".to_string(),
        prompt_prefix: String::new(),
        llm_mode: "Build".to_string(),
        focused_field: CommandFormField::Description,
        error: Some("Name cannot be empty".to_string()),
        phase: CommandFormPhase::EditForm,
        selected_index: 0,
    }
}

#[test]
fn form_title_and_fields() {
    let f = form();
    assert_eq!(command_form_title(&f), " Create command ");
    let lines = form_field_lines(&f);
    let texts: Vec<&str> = lines.iter().map(|s| s.content.as_str()).collect();
    assert_eq!(texts, vec!["  Name: Name...", "▸ Description: Describes", "  Mode: Build", "  Prompt: Prompt..."]);
    assert_eq!(lines[1].style, SpanStyle::AccentBold);
    assert_eq!(lines[0].style, SpanStyle::Plain);
    let err = form_error_line(&f).unwrap();
    assert_eq!(err.content, "Name cannot be empty");
    assert_eq!(err.style, SpanStyle::ErrorBold);
    let mut g = form();
    g.phase = CommandFormPhase::SelectCommand;
    assert_eq!(command_form_title(&g), " Update command - select one ");
}

#[test]
fn command_rows() {
    let ts = vec![template("review", "Review code"), template("fix", "Fix bugs")];
    let rows = update_command_rows(&ts, 1);
    assert_eq!(rows[0].content, " /review - Review code");
    assert_eq!(rows[0].style, SpanStyle::Plain);
    assert_eq!(rows[1].style, SpanStyle::Selected);
    let state = DeleteCommandState { selected_index: 0, selected: vec![false, true] };
    let rows = delete_rows(&state, &ts);
    assert_eq!(rows[0].content, "[ ] /review - Review code");
    assert_eq!(rows[0].style, SpanStyle::Selected);
    assert_eq!(rows[1].content, "[x] /fix - Fix bugs");
    assert_eq!(rows[1].style, SpanStyle::Accent);
}

#[test]
fn filter_boxes() {
    let s = filter_span("");
    assert_eq!(s.content, "Filter... ");
    assert_eq!(s.style, SpanStyle::Muted);
    assert_eq!(filter_span("ab").content, "ab");
    assert_eq!(filter_cursor_x(10, 5, "abc"), 13);
    assert_eq!(filter_cursor_x(10, 2, "abc"), 12);
}

fn model(id: &str, name: &str) -> ModelEntry {
    ModelEntry { id: id.to_string(), name: name.to_string(), context_length: 1000 }
}

#[test]
fn model_list_states() {
    let mut s = ModelSelectorState { models: vec![], selected_index: 0, fetch_error: None, filter: String::new() };
    match model_list_view(&mut s) {
        ListView::Message(m) => assert_eq!(m.content, "Loading..."),
        _ => panic!(),
    }
    s.fetch_error = Some("offline".to_string());
    match model_list_view(&mut s) {
        ListView::Message(m) => {
            assert_eq!(m.content, "Error: offline");
            assert_eq!(m.style, SpanStyle::Error);
        }
        _ => panic!(),
    }
    s.fetch_error = None;
    s.models = vec![model("a/x", "Alpha"), model("b/y", "Beta")];
    s.selected_index = 5;
    s.filter = "bet".to_string();
    match model_list_view(&mut s) {
        ListView::Rows(rows) => {
            assert_eq!(rows.len(), 1);
            assert_eq!(rows[0].content, " Beta ");
            assert_eq!(rows[0].style, SpanStyle::Selected);
        }
        _ => panic!(),
    }
    assert_eq!(s.selected_index, 0);
    s.filter = "zzz".to_string();
    match model_list_view(&mut s) {
        ListView::Message(m) => assert_eq!(m.content, "No models match filter"),
        _ => panic!(),
    }
}

#[test]
fn history_list_states() {
    let convs = vec![
        ConversationEntry { id: "1".to_string(), title: "First".to_string(), updated_at: 0 },
        ConversationEntry { id: "2".to_string(), title: "Second".to_string(), updated_at: 86_400 + 3_600 },
    ];
    assert_eq!(format_conversation(&convs[1]), "Second — 1970-01-02 01:00");
    let mut sel = open_history_selector(convs);
    sel.selected_index = 3;
    match history_list_view(&mut sel, &[1, 0]) {
        ListView::Rows(rows) => {
            assert_eq!(rows[0].content, " Second — 1970-01-02 01:00 ");
            assert_eq!(rows[1].style, SpanStyle::Selected);
        }
        _ => panic!(),
    }
    assert_eq!(sel.selected_index, 1);
    match history_list_view(&mut sel, &[]) {
        ListView::Message(m) => assert_eq!(m.content, "No conversations yet"),
        _ => panic!(),
    }
    sel.renaming = Some(("1".to_string(), "New".to_string()));
    let line = rename_line(&sel);
    let texts: Vec<&str> = line.iter().map(|s| s.content.as_str()).collect();
    assert_eq!(texts, vec!["Rename to: ", "New", "_"]);
}

#[test]
fn file_list_states() {
    let raw = |n: &str, d: bool| RawEntry { name: n.to_string(), is_dir: d, ignored: false };
    let mut p = FilePickerState::open(vec!["src".to_string(), "tui".to_string()], 0, vec![raw("app", true), raw("mod.rs", false)]);
    assert_eq!(breadcrumb(&p), "src/tui");
    p.selected_index = 9;
    match file_list_view(&mut p) {
        ListView::Rows(rows) => {
            assert_eq!(rows[0].content, " app/");
            assert_eq!(rows[0].style, SpanStyle::Muted);
            assert_eq!(rows[1].content, " mod.rs");
            assert_eq!(rows[1].style, SpanStyle::Selected);
        }
        _ => panic!(),
    }
    p.filter = "x".to_string();
    match file_list_view(&mut p) {
        ListView::Message(m) => assert_eq!(m.content, "No matches"),
        _ => panic!(),
    }
    let root = FilePickerState::open(vec![], 0, vec![]);
    assert_eq!(breadcrumb(&root), ".");
}

#[test]
fn undatable_conversation_shows_its_raw_time() {
    let far = ConversationEntry { id: "x".to_string(), title: "Far".to_string(), updated_at: 1 << 62 };
    assert_eq!(format_conversation(&far), format!("Far — {}", 1u64 << 62));
}
