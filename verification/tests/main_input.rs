use my_open_claude::app_state::{App, ChatMessage, ScrollPosition};
use my_open_claude::keys::{KeyCode, KeyModifiers};
use my_open_claude::main_input::{
    clamp_command_index, handle_main_input, main_input_result, next_in_cycle, MainInputAction,
    SlashCommand,
};
use my_open_claude::handlers::HandleResult;

fn app() -> App {
    App::new("model-id".to_string(), "Model".to_string(), false, 128_000, vec![], None)
}

fn cmd(name: &str, prefix: &str, mode: &str) -> SlashCommand {
    SlashCommand {
        name: name.to_string(),
        description: format!("{} description", name),
        prompt_prefix: prefix.to_string(),
        mode: mode.to_string(),
    }
}

fn press(app: &mut App, code: KeyCode) -> MainInputAction {
    handle_main_input(code, KeyModifiers::none(), app, &[], false)
}

#[test]
fn typing_inserts_at_the_cursor() {
    let mut a = app();
    press(&mut a, KeyCode::Char('h'));
    press(&mut a, KeyCode::Char('i'));
    assert_eq!(a.input, "hi");
    assert_eq!(a.input_cursor, 2);
    press(&mut a, KeyCode::Left);
    press(&mut a, KeyCode::Char('é'));
    assert_eq!(a.input, "héi");
    assert_eq!(a.input_cursor, 2);
}

#[test]
fn backspace_removes_the_character_before_the_cursor() {
    let mut a = app();
    a.input = "abc".to_string();
    a.input_cursor = 2;
    press(&mut a, KeyCode::Backspace);
    assert_eq!(a.input, "ac");
    assert_eq!(a.input_cursor, 1);
    a.input_cursor = 0;
    press(&mut a, KeyCode::Backspace);
    assert_eq!(a.input, "ac");
}

#[test]
fn typing_then_backspace_restores_the_input() {
    let mut a = app();
    a.input = "word".to_string();
    a.input_cursor = 2;
    press(&mut a, KeyCode::Char('x'));
    press(&mut a, KeyCode::Backspace);
    assert_eq!(a.input, "word");
    assert_eq!(a.input_cursor, 2);
}

#[test]
fn cursor_moves_stay_inside_the_text() {
    let mut a = app();
    a.input = "ab".to_string();
    a.input_cursor = 2;
    press(&mut a, KeyCode::Right);
    assert_eq!(a.input_cursor, 2);
    press(&mut a, KeyCode::Left);
    press(&mut a, KeyCode::Left);
    press(&mut a, KeyCode::Left);
    assert_eq!(a.input_cursor, 0);
}

#[test]
fn shift_enter_inserts_a_newline() {
    let mut a = app();
    a.input = "ab".to_string();
    a.input_cursor = 1;
    handle_main_input(KeyCode::Enter, KeyModifiers::shift_only(), &mut a, &[], false);
    assert_eq!(a.input, "a\nb");
    assert_eq!(a.input_cursor, 2);
    assert!(a.messages.is_empty());
}

#[test]
fn enter_sends_the_trimmed_message_in_the_selected_mode() {
    let mut a = app();
    a.input = "  hello  ".to_string();
    a.input_cursor = 9;
    a.selected_suggestion = 1;
    let action = press(&mut a, KeyCode::Enter);
    match action {
        MainInputAction::SendChat { input, mode } => {
            assert_eq!(input, "hello");
            assert_eq!(mode, "Build");
        }
        _ => panic!("expected a send"),
    }
    assert_eq!(a.input, "");
    assert_eq!(a.input_cursor, 0);
    assert!(a.dirty);
    assert!(a.is_streaming);
    assert!(a.scroll == ScrollPosition::Bottom);
    assert_eq!(a.messages.len(), 2);
    assert!(matches!(&a.messages[0], ChatMessage::User(s) if s == "hello"));
    assert!(matches!(&a.messages[1], ChatMessage::Assistant(s) if s.is_empty()));
    assert_eq!(a.message_timestamps.len(), 2);
    assert!(a.message_timestamps[0].is_some());
}

#[test]
fn enter_does_nothing_while_a_chat_runs_or_input_is_blank() {
    let mut a = app();
    a.input = "   ".to_string();
    assert!(matches!(press(&mut a, KeyCode::Enter), MainInputAction::Continue));
    assert!(a.messages.is_empty());
    a.input = "hi".to_string();
    let r = handle_main_input(KeyCode::Enter, KeyModifiers::none(), &mut a, &[], true);
    assert!(matches!(r, MainInputAction::Continue));
    assert_eq!(a.input, "hi");
}

#[test]
fn ctrl_c_quits_and_ctrl_u_clears() {
    let mut a = app();
    a.input = "text".to_string();
    a.pending_command_mode = Some("Ask".to_string());
    let r = handle_main_input(KeyCode::Char('c'), KeyModifiers::control_only(), &mut a, &[], false);
    assert!(matches!(r, MainInputAction::Break));
    assert_eq!(main_input_result(&r), HandleResult::Break);
    handle_main_input(KeyCode::Char('u'), KeyModifiers::control_only(), &mut a, &[], false);
    assert_eq!(a.input, "");
    assert!(a.pending_command_mode.is_none());
}

#[test]
fn tab_cycles_the_suggestions() {
    let mut a = app();
    press(&mut a, KeyCode::Tab);
    assert_eq!(a.selected_suggestion, 1);
    press(&mut a, KeyCode::Tab);
    assert_eq!(a.selected_suggestion, 0);
    handle_main_input(KeyCode::Tab, KeyModifiers::shift_only(), &mut a, &[], false);
    assert_eq!(a.selected_suggestion, 0);
}

#[test]
fn slash_mode_navigates_the_commands() {
    let mut a = app();
    a.input = "/".to_string();
    a.input_cursor = 1;
    let cmds = vec![cmd("review", "Review", "Ask"), cmd("fix", "Fix", "Build")];
    handle_main_input(KeyCode::Up, KeyModifiers::none(), &mut a, &cmds, false);
    assert_eq!(a.selected_command_index, 1);
    handle_main_input(KeyCode::Down, KeyModifiers::none(), &mut a, &cmds, false);
    assert_eq!(a.selected_command_index, 0);
    handle_main_input(KeyCode::Tab, KeyModifiers::none(), &mut a, &cmds, false);
    assert_eq!(a.selected_command_index, 1);
}

#[test]
fn choosing_a_command_inserts_its_prefix_and_mode() {
    let mut a = app();
    a.input = "/review  the parser ".to_string();
    a.input_cursor = 20;
    let cmds = vec![cmd("review", "Review this code:", "Build")];
    handle_main_input(KeyCode::Enter, KeyModifiers::none(), &mut a, &cmds, false);
    assert_eq!(a.input, "Review this code: the parser");
    assert_eq!(a.input_cursor, 28);
    assert_eq!(a.pending_command_mode.as_deref(), Some("Build"));
    assert_eq!(a.selected_suggestion, 1);
    assert_eq!(a.selected_command_index, 0);
}

#[test]
fn choosing_create_command_opens_the_form() {
    let mut a = app();
    a.input = "/create-command".to_string();
    a.input_cursor = 15;
    let cmds = vec![cmd("create-command", "", "Ask")];
    handle_main_input(KeyCode::Enter, KeyModifiers::none(), &mut a, &cmds, false);
    assert_eq!(a.input, "");
    assert!(a.command_form_popup.is_some());
}

#[test]
fn escape_in_slash_mode_clears_the_input() {
    let mut a = app();
    a.input = "/rev".to_string();
    a.input_cursor = 4;
    a.selected_command_index = 2;
    press(&mut a, KeyCode::Esc);
    assert_eq!(a.input, "");
    assert_eq!(a.selected_command_index, 0);
}

#[test]
fn typing_in_slash_mode_asks_for_a_refilter() {
    let mut a = app();
    a.input = "/".to_string();
    a.input_cursor = 1;
    a.selected_command_index = 5;
    let r = press(&mut a, KeyCode::Char('r'));
    assert!(matches!(r, MainInputAction::RefilterCommands));
    clamp_command_index(&mut a, 2);
    assert_eq!(a.selected_command_index, 1);
    clamp_command_index(&mut a, 0);
    assert_eq!(a.selected_command_index, 1);
}

#[test]
fn arrows_scroll_the_history_outside_slash_mode() {
    let mut a = app();
    a.last_max_scroll = 50;
    a.scroll = ScrollPosition::Bottom;
    a.selection = Some((1, 1, 2, 2));
    press(&mut a, KeyCode::Up);
    assert!(a.scroll == ScrollPosition::Line(47));
    assert!(a.selection.is_none());
    press(&mut a, KeyCode::PageDown);
    assert!(a.scroll == ScrollPosition::Line(50));
    press(&mut a, KeyCode::Home);
    assert!(a.scroll == ScrollPosition::Line(0));
    press(&mut a, KeyCode::End);
    assert!(a.scroll == ScrollPosition::Bottom);
}

#[test]
fn alt_characters_are_not_typed() {
    let mut a = app();
    handle_main_input(KeyCode::Char('x'), KeyModifiers::alt_only(), &mut a, &[], false);
    assert_eq!(a.input, "");
}

#[test]
fn cycle_index_wraps() {
    assert_eq!(next_in_cycle(2, 3), 0);
    assert_eq!(next_in_cycle(0, 3), 1);
    assert_eq!(next_in_cycle(usize::MAX, 2), 0);
}
