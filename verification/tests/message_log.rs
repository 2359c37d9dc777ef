use my_open_claude::app_state::{ApiContent, ApiMessage, App, ChatMessage, PersistRole};

fn app() -> App {
    App::new("id".to_string(), "name".to_string(), false, 1000, vec![], None)
}

fn texts(app: &App) -> Vec<String> {
    app.messages
        .iter()
        .map(|m| match m {
            ChatMessage::User(s) => format!("user:{}", s),
            ChatMessage::Assistant(s) => format!("assistant:{}", s),
            ChatMessage::Thinking => "thinking".to_string(),
            ChatMessage::ToolLog(s) => format!("tool:{}", s),
        })
        .collect()
}

#[test]
fn chunks_start_then_extend_the_assistant_reply() {
    let mut a = app();
    a.push_user("hi");
    a.append_assistant_chunk("Hel");
    a.append_assistant_chunk("lo");
    assert_eq!(texts(&a), vec!["user:hi".to_string(), "assistant:Hello".to_string()]);
    assert_eq!(a.message_timestamps.len(), 2);
    assert!(a.message_timestamps[1].is_some());
}

#[test]
fn chunk_after_tool_log_opens_a_new_reply() {
    let mut a = app();
    a.push_tool_log("ran".to_string());
    a.append_assistant_chunk("ok");
    assert_eq!(texts(&a), vec!["tool:ran".to_string(), "assistant:ok".to_string()]);
}

#[test]
fn persist_format_keeps_roles_and_timestamps_and_drops_thinking() {
    let msgs = vec![
        ChatMessage::User("q".to_string()),
        ChatMessage::Thinking,
        ChatMessage::Assistant("a".to_string()),
        ChatMessage::ToolLog("t".to_string()),
    ];
    let stamps = vec![Some(5), None, Some(7), Some(9)];
    let out = App::messages_to_persist_format(&msgs, &stamps);
    assert_eq!(out.len(), 3);
    assert!(matches!(out[0].role, PersistRole::User));
    assert_eq!(out[0].content, "q");
    assert_eq!(out[0].timestamp, Some(5));
    assert!(matches!(out[1].role, PersistRole::Assistant));
    assert_eq!(out[1].content, "a");
    assert_eq!(out[1].timestamp, Some(7));
    assert!(matches!(out[2].role, PersistRole::ToolLog));
    assert_eq!(out[2].content, "t");
    assert_eq!(out[2].timestamp, None);
}

#[test]
fn persist_format_tolerates_missing_timestamps() {
    let msgs = vec![ChatMessage::User("q".to_string()), ChatMessage::Assistant("a".to_string())];
    let out = App::messages_to_persist_format(&msgs, &[]);
    assert_eq!(out.len(), 2);
    assert_eq!(out[0].timestamp, None);
    assert_eq!(out[1].timestamp, None);
}

#[test]
fn saved_log_reopens_without_thinking_marker() {
    let msgs = vec![
        ChatMessage::User("q".to_string()),
        ChatMessage::Thinking,
        ChatMessage::ToolLog("ran ls".to_string()),
        ChatMessage::Assistant("a".to_string()),
    ];
    let stamps = vec![Some(5), None, Some(6), Some(7)];
    let saved = App::messages_to_persist_format(&msgs, &stamps);
    let read_back: Vec<ApiMessage> = saved
        .iter()
        .map(|p| ApiMessage {
            role: match p.role {
                PersistRole::User => "user".to_string(),
                PersistRole::Assistant => "assistant".to_string(),
                PersistRole::ToolLog => "tool_log".to_string(),
            },
            content: ApiContent::Text(p.content.clone()),
            timestamp: p.timestamp,
        })
        .collect();
    let mut a = app();
    a.set_messages_from_api(&read_back, None);
    assert_eq!(
        texts(&a),
        vec!["user:q".to_string(), "tool:ran ls".to_string(), "assistant:a".to_string()]
    );
    assert_eq!(a.message_timestamps, vec![Some(5), None, Some(7)]);
}

#[test]
fn clock_reading_before_the_epoch_counts_as_zero() {
    assert_eq!(my_open_claude::app_state::seconds_or_zero(Some(1_700_000_000)), 1_700_000_000);
    assert_eq!(my_open_claude::app_state::seconds_or_zero(None), 0);
    assert!(my_open_claude::app_state::unix_timestamp_secs() > 0);
}

#[test]
fn reopening_skips_messages_of_other_roles() {
    let msg = |role: &str, text: &str, ts: Option<u64>| ApiMessage {
        role: role.to_string(),
        content: ApiContent::Text(text.to_string()),
        timestamp: ts,
    };
    let api = vec![
        msg("system", "setup", Some(1)),
        msg("user", "q", None),
        msg("tool", "raw", Some(2)),
        msg("assistant", "a", Some(3)),
    ];
    let mut a = app();
    a.set_messages_from_api(&api, Some(9));
    assert_eq!(texts(&a), vec!["user:q".to_string(), "assistant:a".to_string()]);
    assert_eq!(a.message_timestamps, vec![Some(9), Some(3)]);
}
