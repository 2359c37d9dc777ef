use my_open_claude::app_state::App;
use my_open_claude::command_form::{
    field_label, form_templates_written, handle_command_form_popup, save_command, validate_form, validate_name,
    CommandFormField, CommandFormMode, CommandFormPhase, CommandFormState, CustomTemplate,
};
use my_open_claude::delete_command::{deletion_templates_written, handle_delete_command_popup};
use my_open_claude::handlers::HandleResult;
use my_open_claude::keys::{KeyCode, KeyModifiers};

const BUILTINS: &[&str] = &["help", "create-command"];

fn template(name: &str) -> CustomTemplate {
    CustomTemplate {
        name: name.to_string(),
        description: "d".to_string(),
        prompt_prefix: "p".to_string(),
        mode: "Ask".to_string(),
    }
}

fn app_with(ts: Vec<CustomTemplate>) -> App {
    App::new("m".to_string(), "m".to_string(), false, 1000, ts, None)
}

#[test]
fn names_are_validated_in_order() {
    let customs = vec!["Review".to_string()];
    assert_eq!(validate_name("  ", None, &customs, BUILTINS), Some("Name cannot be empty".to_string()));
    assert_eq!(
        validate_name("bad name", None, &customs, BUILTINS),
        Some("Name must contain only letters, numbers, hyphens, and underscores".to_string())
    );
    assert_eq!(validate_name("HELP", None, &customs, BUILTINS), Some("Name conflicts with built-in command".to_string()));
    assert_eq!(
        validate_name("review", None, &customs, BUILTINS),
        Some("Name already used by another custom command".to_string())
    );
    assert_eq!(validate_name("review", Some("REVIEW"), &customs, BUILTINS), None);
    assert_eq!(validate_name("fix_it-2", None, &customs, BUILTINS), None);
}

fn form(name: &str, description: &str, prompt: &str, mode: &str) -> CommandFormState {
    CommandFormState {
        form_mode: CommandFormMode::Create,
        name: name.to_string(),
        description: description.to_string(),
        prompt_prefix: prompt.to_string(),
        llm_mode: mode.to_string(),
        focused_field: CommandFormField::Name,
        error: None,
        phase: CommandFormPhase::EditForm,
        selected_index: 0,
    }
}

#[test]
fn forms_are_validated() {
    assert_eq!(validate_form(&form("x", " ", "p", "Ask"), &[], BUILTINS), Some("Description cannot be empty".to_string()));
    assert_eq!(validate_form(&form("x", "d", "", "Ask"), &[], BUILTINS), Some("Prompt cannot be empty".to_string()));
    assert_eq!(validate_form(&form("x", "d", "p", "Plan"), &[], BUILTINS), Some("Mode must be Ask or Build".to_string()));
    assert_eq!(validate_form(&form("x", "d", "p", "Build"), &[], BUILTINS), None);
}

#[test]
fn field_labels_show_placeholders() {
    assert_eq!(field_label(CommandFormField::Name, "", true), ("▸ Name: Name...".to_string(), true));
    assert_eq!(field_label(CommandFormField::Mode, "", false), ("  Mode: ".to_string(), false));
    assert_eq!(field_label(CommandFormField::Prompt, "Do it", false).0, "  Prompt: Do it");
}

#[test]
fn saving_a_new_command_appends_it_trimmed() {
    let mut app = app_with(vec![]);
    let persist = save_command(&mut app, form(" fix ", " Fix bugs ", " Please fix ", "Build"));
    assert!(persist);
    assert_eq!(app.custom_templates.len(), 1);
    assert_eq!(app.custom_templates[0].name, "fix");
    assert_eq!(app.custom_templates[0].description, "Fix bugs");
    assert_eq!(app.custom_templates[0].prompt_prefix, "Please fix");
}

#[test]
fn form_keys_edit_and_save() {
    let mut app = app_with(vec![]);
    app.open_create_command_popup();
    for c in "fix".chars() {
        handle_command_form_popup(KeyCode::Char(c), KeyModifiers::none(), &mut app, BUILTINS);
    }
    handle_command_form_popup(KeyCode::Tab, KeyModifiers::none(), &mut app, BUILTINS);
    for c in "Fixes".chars() {
        handle_command_form_popup(KeyCode::Char(c), KeyModifiers::none(), &mut app, BUILTINS);
    }
    handle_command_form_popup(KeyCode::Enter, KeyModifiers::none(), &mut app, BUILTINS);
    assert_eq!(
        app.command_form_popup.as_ref().unwrap().error,
        Some("Prompt cannot be empty".to_string())
    );
    handle_command_form_popup(KeyCode::Tab, KeyModifiers::none(), &mut app, BUILTINS);
    for c in "Fix it".chars() {
        handle_command_form_popup(KeyCode::Char(c), KeyModifiers::none(), &mut app, BUILTINS);
    }
    handle_command_form_popup(KeyCode::Backspace, KeyModifiers::none(), &mut app, BUILTINS);
    assert_eq!(app.command_form_popup.as_ref().unwrap().prompt_prefix, "Fix i");
    let (r, persist) = handle_command_form_popup(KeyCode::Enter, KeyModifiers::none(), &mut app, BUILTINS);
    assert_eq!(r, HandleResult::Continue);
    assert!(persist);
    assert!(app.command_form_popup.is_none());
    assert_eq!(app.custom_templates[0].name, "fix");
    assert_eq!(app.custom_templates[0].mode, "Build");
}

#[test]
fn mode_field_toggles() {
    let mut app = app_with(vec![]);
    app.open_create_command_popup();
    handle_command_form_popup(KeyCode::BackTab, KeyModifiers::none(), &mut app, BUILTINS);
    assert_eq!(app.command_form_popup.as_ref().unwrap().focused_field, CommandFormField::Mode);
    handle_command_form_popup(KeyCode::Enter, KeyModifiers::none(), &mut app, BUILTINS);
    assert_eq!(app.command_form_popup.as_ref().unwrap().llm_mode, "Ask");
    handle_command_form_popup(KeyCode::Char(' '), KeyModifiers::none(), &mut app, BUILTINS);
    assert_eq!(app.command_form_popup.as_ref().unwrap().llm_mode, "Build");
    handle_command_form_popup(KeyCode::Esc, KeyModifiers::none(), &mut app, BUILTINS);
    assert!(app.command_form_popup.is_none());
}

#[test]
fn update_form_starts_with_the_choice_of_command() {
    let mut app = app_with(vec![template("one"), template("two")]);
    app.open_update_command_popup();
    handle_command_form_popup(KeyCode::Down, KeyModifiers::none(), &mut app, BUILTINS);
    handle_command_form_popup(KeyCode::Enter, KeyModifiers::none(), &mut app, BUILTINS);
    let f = app.command_form_popup.as_ref().unwrap();
    assert_eq!(f.phase, CommandFormPhase::EditForm);
    assert_eq!(f.name, "two");
}

#[test]
fn delete_popup_marks_and_deletes() {
    let mut app = app_with(vec![template("one"), template("two"), template("three")]);
    app.open_delete_command_popup();
    handle_delete_command_popup(KeyCode::Down, KeyModifiers::none(), &mut app);
    handle_delete_command_popup(KeyCode::Char(' '), KeyModifiers::none(), &mut app);
    assert_eq!(app.delete_command_popup.as_ref().unwrap().selected, vec![false, true, false]);
    let (_, persist) = handle_delete_command_popup(KeyCode::Enter, KeyModifiers::none(), &mut app);
    assert!(persist);
    let names: Vec<&str> = app.custom_templates.iter().map(|t| t.name.as_str()).collect();
    assert_eq!(names, vec!["one", "three"]);
    assert!(app.delete_command_popup.is_none());
}

#[test]
fn delete_popup_without_marks_just_closes() {
    let mut app = app_with(vec![template("one")]);
    app.open_delete_command_popup();
    let (_, persist) = handle_delete_command_popup(KeyCode::Enter, KeyModifiers::none(), &mut app);
    assert!(!persist);
    assert_eq!(app.custom_templates.len(), 1);
    assert!(app.delete_command_popup.is_none());
}

fn app_with_error() -> App {
    App::new("id".to_string(), "name".to_string(), false, 1000, vec![template("a")], Some("old".to_string()))
}

#[test]
fn form_save_outcome_sets_or_clears_the_templates_error() {
    let mut a = app_with_error();
    form_templates_written(&mut a, Err("disk full".to_string()));
    assert_eq!(a.templates_load_error, Some("disk full".to_string()));
    form_templates_written(&mut a, Ok(()));
    assert_eq!(a.templates_load_error, None);
}

#[test]
fn deletion_save_outcome_clears_the_error_only_on_success() {
    let mut a = app_with_error();
    deletion_templates_written(&mut a, Err("disk full".to_string()));
    assert_eq!(a.templates_load_error, Some("old".to_string()));
    deletion_templates_written(&mut a, Ok(()));
    assert_eq!(a.templates_load_error, None);
}
