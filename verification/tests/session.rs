use my_open_claude::app_state::{App, ChatMessage, ConfirmPopup, ScrollPosition};
use my_open_claude::handlers::HandleResult;
use my_open_claude::keys::{KeyCode, KeyEvent, KeyEventKind, KeyModifiers};
use my_open_claude::session::{
    apply_shortcut, conversation_saved, credits_refresh_due, handle_chat_result, handle_confirm_popup, needs_save,
    on_chat_finished, on_progress, route_key, route_result, ChatFollowUp, ChatOutcome,
    ConfirmPopupResult, KeyRoute, OpenPopups, ShortcutEffect,
};
use my_open_claude::shortcuts::Shortcut;

fn app() -> App {
    App::new("id".to_string(), "name".to_string(), false, 1000, vec![], None)
}

fn none_open() -> OpenPopups {
    OpenPopups { confirm: false, model_selector: false, history_selector: false }
}

fn key(code: KeyCode, mods: KeyModifiers) -> KeyEvent {
    KeyEvent::press(code, mods)
}

#[test]
fn released_keys_are_ignored() {
    let mut a = app();
    let ev = KeyEvent { code: KeyCode::Char('c'), modifiers: KeyModifiers::control_only(), kind: KeyEventKind::Release };
    assert_eq!(route_key(&ev, &mut a, none_open(), false), KeyRoute::Done);
}

#[test]
fn ctrl_c_quits_from_anywhere() {
    let mut a = app();
    let open = OpenPopups { confirm: true, model_selector: false, history_selector: false };
    let r = route_key(&key(KeyCode::Char('c'), KeyModifiers::control_only()), &mut a, open, false);
    assert_eq!(r, KeyRoute::Quit);
    assert_eq!(route_result(r), HandleResult::Break);
}

#[test]
fn escape_then_h_opens_history() {
    let mut a = app();
    assert_eq!(route_key(&key(KeyCode::Esc, KeyModifiers::none()), &mut a, none_open(), false), KeyRoute::Done);
    assert!(a.escape_pending);
    let r = route_key(&key(KeyCode::Char('h'), KeyModifiers::none()), &mut a, none_open(), false);
    assert_eq!(r, KeyRoute::Shortcut(Shortcut::History));
    assert!(!a.escape_pending);
}

#[test]
fn escape_clears_slash_input_or_cancels_the_request() {
    let mut a = app();
    a.input = "/re".to_string();
    a.input_cursor = 3;
    assert_eq!(route_key(&key(KeyCode::Esc, KeyModifiers::none()), &mut a, none_open(), true), KeyRoute::Done);
    assert_eq!(a.input, "");
    assert!(!a.escape_pending);
    assert_eq!(route_key(&key(KeyCode::Esc, KeyModifiers::none()), &mut a, none_open(), true), KeyRoute::CancelChat);
}

#[test]
fn popups_take_keys_in_order() {
    let mut a = app();
    let k = key(KeyCode::Char('y'), KeyModifiers::none());
    let all = OpenPopups { confirm: true, model_selector: true, history_selector: true };
    assert_eq!(route_key(&k, &mut a, all, false), KeyRoute::ConfirmPopup);
    let two = OpenPopups { confirm: false, model_selector: true, history_selector: true };
    assert_eq!(route_key(&k, &mut a, two, false), KeyRoute::HistorySelector);
    let one = OpenPopups { confirm: false, model_selector: true, history_selector: false };
    assert_eq!(route_key(&k, &mut a, one, false), KeyRoute::ModelSelector);
    assert_eq!(route_key(&k, &mut a, none_open(), false), KeyRoute::MainInput);
}

#[test]
fn new_conversation_resets_the_screen() {
    let mut a = app();
    a.push_user("hello");
    a.dirty = true;
    a.current_conversation_id = Some("c1".to_string());
    a.input = "draft".to_string();
    assert_eq!(apply_shortcut(Shortcut::NewConversation, &mut a), ShortcutEffect::StartedNewConversation);
    assert!(a.messages.is_empty());
    assert!(a.current_conversation_id.is_none());
    assert!(!a.dirty);
    assert_eq!(a.input, "draft");
    assert_eq!(apply_shortcut(Shortcut::History, &mut a), ShortcutEffect::OpenHistory);
}

#[test]
fn saving_needs_changes_and_messages() {
    let mut a = app();
    assert!(!needs_save(&a, 3));
    a.mark_dirty();
    assert!(!needs_save(&a, 0));
    assert!(needs_save(&a, 3));
    conversation_saved(&mut a, Some("abc".to_string()));
    assert_eq!(a.conversation_id(), Some("abc"));
    assert!(!a.dirty);
}

#[test]
fn confirm_popup_answers() {
    let mut a = app();
    let popup = ConfirmPopup { command: "rm -rf x".to_string(), state: 7u32 };
    match handle_confirm_popup(KeyCode::Char('Y'), popup, &mut a, false) {
        ConfirmPopupResult::Resume { state, confirmed } => {
            assert_eq!(state, 7);
            assert!(confirmed);
        }
        _ => panic!("expected resume"),
    }
    assert!(matches!(&a.messages[0], ChatMessage::Assistant(s) if s.is_empty()));
    assert_eq!(a.scroll, ScrollPosition::Bottom);
    let popup = ConfirmPopup { command: "x".to_string(), state: 1u32 };
    assert!(matches!(handle_confirm_popup(KeyCode::Enter, popup, &mut a, false), ConfirmPopupResult::Resume { confirmed: false, .. }));
    let popup = ConfirmPopup { command: "x".to_string(), state: 1u32 };
    assert!(matches!(handle_confirm_popup(KeyCode::Char('q'), popup, &mut a, false), ConfirmPopupResult::PutBack(_)));
    let popup = ConfirmPopup { command: "x".to_string(), state: 1u32 };
    assert!(matches!(handle_confirm_popup(KeyCode::Char('y'), popup, &mut a, true), ConfirmPopupResult::PutBack(_)));
}

#[test]
fn completed_chat_replaces_the_placeholder() {
    let mut a = app();
    a.push_user("q");
    a.push_assistant(String::new());
    let r = handle_chat_result(
        &mut a,
        ChatOutcome::<u32>::Complete {
            content: "answer".to_string(),
            tool_log: vec!["→ Read: a.rs".to_string()],
            total_tokens: 42,
        },
        false,
    );
    assert!(matches!(r, ChatFollowUp::Save));
    assert_eq!(a.token_usage, Some(42));
    assert_eq!(a.messages.len(), 4);
    assert!(matches!(&a.messages[1], ChatMessage::Assistant(s) if s.is_empty()));
    assert!(matches!(&a.messages[2], ChatMessage::ToolLog(s) if s == "→ Read: a.rs"));
    assert!(matches!(&a.messages[3], ChatMessage::Assistant(s) if s == "answer"));
    assert_eq!(a.scroll, ScrollPosition::Bottom);
}

#[test]
fn streamed_tool_log_is_replaced_by_the_answer() {
    let mut a = app();
    a.push_user("q");
    on_progress(&mut a, "→ Read: a.rs".to_string());
    a.set_thinking(true);
    let r = on_chat_finished(
        &mut a,
        ChatOutcome::<u32>::Complete { content: "done".to_string(), tool_log: vec![], total_tokens: 5 },
    );
    assert!(matches!(r, ChatFollowUp::Save));
    assert!(!a.is_streaming);
    assert_eq!(a.messages.len(), 2);
    assert!(matches!(&a.messages[1], ChatMessage::Assistant(s) if s == "done"));
}

#[test]
fn failures_and_cancels_are_shown() {
    let mut a = app();
    a.push_user("q");
    a.push_assistant(String::new());
    handle_chat_result(&mut a, ChatOutcome::<u32>::Failed { message: "timeout".to_string() }, true);
    assert!(matches!(&a.messages[1], ChatMessage::Assistant(s) if s == "Error: timeout"));
    let mut b = app();
    b.push_user("q");
    b.push_assistant(String::new());
    handle_chat_result(&mut b, ChatOutcome::<u32>::Cancelled, true);
    assert!(matches!(&b.messages[1], ChatMessage::Assistant(s) if s == "*[Request cancelled]*"));
}

#[test]
fn confirmation_requests_open_the_popup() {
    let mut a = app();
    let r = handle_chat_result(&mut a, ChatOutcome::NeedsConfirmation { command: "rm x".to_string(), state: 9u32 }, true);
    match r {
        ChatFollowUp::Confirm(p) => {
            assert_eq!(p.command, "rm x");
            assert_eq!(p.state, 9);
        }
        _ => panic!("expected confirm"),
    }
}

#[test]
fn progress_replaces_an_empty_placeholder() {
    let mut a = app();
    a.push_assistant(String::new());
    on_progress(&mut a, "→ Grep: x".to_string());
    assert_eq!(a.messages.len(), 1);
    assert!(matches!(&a.messages[0], ChatMessage::ToolLog(_)));
}

#[test]
fn credits_are_refetched_after_thirty_minutes_when_idle() {
    assert!(credits_refresh_due(false, Some(1800)));
    assert!(credits_refresh_due(false, Some(4000)));
    assert!(!credits_refresh_due(false, Some(1799)));
    assert!(!credits_refresh_due(true, Some(4000)));
    assert!(!credits_refresh_due(false, None));
}
