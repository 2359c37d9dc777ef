use my_open_claude::app_state::App;
use my_open_claude::history_selector::{
    conversation_removed, conversation_renamed, edit_history_selector, failure_message,
    handle_history_selector_key, open_history_selector, ConversationEntry, HistorySelectorAction,
};
use my_open_claude::keys::{KeyCode, KeyModifiers};
use my_open_claude::model_selector::{
    apply_model_selector_action, filter_models, handle_model_selector_key, models_fetched,
    open_model_selector, ModelEntry, ModelSelectorAction, ModelSelectorState,
};

fn model(id: &str, name: &str, ctx: u64) -> ModelEntry {
    ModelEntry { id: id.to_string(), name: name.to_string(), context_length: ctx }
}

fn selector() -> ModelSelectorState {
    ModelSelectorState {
        models: vec![model("anthropic/alpha", "Alpha", 200_000), model("openai/beta", "Beta", 128_000)],
        selected_index: 0,
        fetch_error: None,
        filter: String::new(),
    }
}

#[test]
fn models_filter_on_id_or_name_ignoring_case() {
    let s = selector();
    assert_eq!(filter_models(&s.models, "OPENAI").len(), 1);
    assert_eq!(filter_models(&s.models, "alp")[0].name, "Alpha");
    assert_eq!(filter_models(&s.models, "").len(), 2);
    assert!(filter_models(&s.models, "zzz").is_empty());
}

#[test]
fn model_keys_filter_move_and_select() {
    let mut s = selector();
    handle_model_selector_key(KeyCode::Down, KeyModifiers::none(), &mut s);
    assert_eq!(s.selected_index, 1);
    handle_model_selector_key(KeyCode::Down, KeyModifiers::none(), &mut s);
    assert_eq!(s.selected_index, 1);
    handle_model_selector_key(KeyCode::Char('a'), KeyModifiers::none(), &mut s);
    assert_eq!(s.filter, "a");
    handle_model_selector_key(KeyCode::Char('l'), KeyModifiers::none(), &mut s);
    assert_eq!(s.selected_index, 0);
    match handle_model_selector_key(KeyCode::Enter, KeyModifiers::none(), &mut s) {
        ModelSelectorAction::Select(m) => assert_eq!(m.id, "anthropic/alpha"),
        _ => panic!("expected select"),
    }
    assert!(matches!(handle_model_selector_key(KeyCode::Esc, KeyModifiers::none(), &mut s), ModelSelectorAction::Close));
    handle_model_selector_key(KeyCode::Char('x'), KeyModifiers::control_only(), &mut s);
    assert_eq!(s.filter, "al");
}

#[test]
fn enter_after_a_fetch_error_keeps_the_selector() {
    let mut s = selector();
    s.fetch_error = Some("offline".to_string());
    assert!(matches!(handle_model_selector_key(KeyCode::Enter, KeyModifiers::none(), &mut s), ModelSelectorAction::Keep));
}

#[test]
fn choosing_a_model_switches_the_chat() {
    let mut app = App::new("old".to_string(), "Old".to_string(), false, 1000, vec![], None);
    app.token_usage = Some(500);
    open_model_selector(&mut app);
    models_fetched(&mut app, Ok(vec![model("new/id", "New", 64_000)]));
    assert_eq!(app.model_selector.as_ref().unwrap().models.len(), 1);
    apply_model_selector_action(&mut app, ModelSelectorAction::Select(model("new/id", "New", 64_000)));
    assert_eq!(app.current_model_id, "new/id");
    assert_eq!(app.model_name, "New");
    assert_eq!(app.context_length, 64_000);
    assert_eq!(app.token_usage, None);
    assert!(app.model_selector.is_none());
    open_model_selector(&mut app);
    models_fetched(&mut app, Err("boom".to_string()));
    assert_eq!(app.model_selector.as_ref().unwrap().fetch_error.as_deref(), Some("boom"));
}

fn conv(id: &str, title: &str) -> ConversationEntry {
    ConversationEntry { id: id.to_string(), title: title.to_string(), updated_at: 0 }
}

#[test]
fn history_keys_load_delete_and_rename() {
    let mut s = open_history_selector(vec![conv("a", "First"), conv("b", "Second")]);
    assert!(edit_history_selector(KeyCode::Down, KeyModifiers::none(), &mut s).is_none());
    handle_history_selector_key(KeyCode::Down, KeyModifiers::none(), &mut s, &[0, 1]);
    assert_eq!(s.selected_index, 1);
    match handle_history_selector_key(KeyCode::Enter, KeyModifiers::none(), &mut s, &[0, 1]) {
        HistorySelectorAction::Load { id } => assert_eq!(id, "b"),
        _ => panic!("expected load"),
    }
    match handle_history_selector_key(KeyCode::Char('d'), KeyModifiers::control_only(), &mut s, &[0, 1]) {
        HistorySelectorAction::Delete { id } => assert_eq!(id, "b"),
        _ => panic!("expected delete"),
    }
    handle_history_selector_key(KeyCode::Char('r'), KeyModifiers::control_only(), &mut s, &[0, 1]);
    assert_eq!(s.renaming, Some(("b".to_string(), "Second".to_string())));
    edit_history_selector(KeyCode::Backspace, KeyModifiers::none(), &mut s);
    edit_history_selector(KeyCode::Char('!'), KeyModifiers::none(), &mut s);
    match edit_history_selector(KeyCode::Enter, KeyModifiers::none(), &mut s) {
        Some(HistorySelectorAction::Rename { id, new_title }) => {
            assert_eq!(id, "b");
            assert_eq!(new_title, "Secon!");
        }
        _ => panic!("expected rename"),
    }
    assert!(s.renaming.is_none());
}

#[test]
fn history_filter_edits_and_clamps() {
    let mut s = open_history_selector(vec![conv("a", "First"), conv("b", "Second")]);
    s.selected_index = 1;
    assert!(edit_history_selector(KeyCode::Char('f'), KeyModifiers::none(), &mut s).is_none());
    assert_eq!(s.filter, "f");
    handle_history_selector_key(KeyCode::Char('f'), KeyModifiers::none(), &mut s, &[0]);
    assert_eq!(s.selected_index, 0);
    assert!(matches!(handle_history_selector_key(KeyCode::Enter, KeyModifiers::none(), &mut s, &[]), HistorySelectorAction::Keep));
    assert!(matches!(handle_history_selector_key(KeyCode::Esc, KeyModifiers::none(), &mut s, &[0]), HistorySelectorAction::Close));
}

#[test]
fn store_outcomes_update_the_list() {
    let mut s = open_history_selector(vec![conv("a", "First"), conv("b", "Second"), conv("a", "Dup")]);
    s.error = Some("old".to_string());
    conversation_renamed(&mut s, "a", "Renamed");
    assert_eq!(s.conversations[0].title, "Renamed");
    assert_eq!(s.conversations[2].title, "Dup");
    assert!(s.error.is_none());
    conversation_removed(&mut s, "a");
    assert_eq!(s.conversations.len(), 1);
    assert_eq!(s.conversations[0].id, "b");
    assert_eq!(failure_message("Delete", "no such file"), "Delete failed: no such file");
}
