use my_open_claude::app_state::{App, Area, ScrollPosition};
use my_open_claude::history_view::{
    add_message_block, add_tool_log_lines, layout_history, parse_tool_log, repeat_char,
    MessageBlockParams,
};
use my_open_claude::markdown::{SpanStyle, StyledSpan};

fn text(line: &[StyledSpan]) -> String {
    line.iter().map(|s| s.content.as_str()).collect()
}

fn params<'a>(label: &'a str, content: &'a str) -> MessageBlockParams<'a> {
    MessageBlockParams {
        label,
        content,
        content_width: 15,
        wrap_width: 20,
        is_error: false,
        is_user: true,
        stream_cursor: false,
        timestamp: None,
    }
}

#[test]
fn repeat_char_repeats() {
    assert_eq!(repeat_char('─', 3), "───");
    assert_eq!(repeat_char('x', 0), "");
}

#[test]
fn user_block_has_borders_text_and_separator() {
    let mut lines: Vec<Vec<StyledSpan>> = Vec::new();
    let (start, end) = add_message_block(&mut lines, params("You", "hello"));
    assert_eq!((start, end), (0, 4));
    assert_eq!(text(&lines[0]), "┌─ You ────────────┐");
    assert_eq!(lines[0][0].style, SpanStyle::Muted);
    assert_eq!(text(&lines[1]), "│   hello");
    assert_eq!(lines[1][0].content, "│ ");
    assert_eq!(lines[1][2].style, SpanStyle::Plain);
    assert_eq!(text(&lines[2]), "└──────────────────┘");
    assert_eq!(text(&lines[3]), "────────────────────");
    assert_eq!(lines[3][0].style, SpanStyle::Muted);
}

#[test]
fn timestamps_show_hours_and_minutes() {
    let mut lines: Vec<Vec<StyledSpan>> = Vec::new();
    let mut p = params("You", "hi");
    p.timestamp = Some(13 * 3600 + 5 * 60 + 59);
    p.wrap_width = 25;
    add_message_block(&mut lines, p);
    assert_eq!(text(&lines[0]), "┌─ You 13:05 ───────────┐");
}

#[test]
fn assistant_errors_are_red_and_streaming_shows_a_cursor() {
    let mut lines: Vec<Vec<StyledSpan>> = Vec::new();
    let mut p = params("Assistant", "Error: boom");
    p.is_user = false;
    p.is_error = true;
    p.stream_cursor = true;
    p.wrap_width = 30;
    add_message_block(&mut lines, p);
    assert_eq!(lines[0][0].style, SpanStyle::Secondary);
    assert_eq!(lines[1][2].content, "Error: boom");
    assert_eq!(lines[1][2].style, SpanStyle::Error);
    assert_eq!(text(&lines[2]), "│   ▌ ");
    assert_eq!(lines.len(), 5);
}

#[test]
fn code_blocks_get_their_own_frame() {
    let mut lines: Vec<Vec<StyledSpan>> = Vec::new();
    let mut p = params("Assistant", "```rust\nfn main() {}\n```");
    p.content_width = 24;
    p.wrap_width = 30;
    add_message_block(&mut lines, p);
    assert!(text(&lines[1]).starts_with("│ ┌─ rust "));
    assert!(text(&lines[1]).ends_with('┐'));
    assert_eq!(text(&lines[2]), "│ │ fn main() {}");
    assert!(text(&lines[3]).starts_with("│ └"));
}

#[test]
fn tool_log_lines_are_parsed() {
    assert_eq!(parse_tool_log("  → Read: src/main.rs"), Some(("Read", "src/main.rs")));
    assert_eq!(parse_tool_log("→ Bash:   ls -la"), Some(("Bash", "ls -la")));
    assert_eq!(parse_tool_log("→ : nothing"), None);
    assert_eq!(parse_tool_log("plain text"), None);
    assert_eq!(parse_tool_log("→ no colon here"), None);
}

#[test]
fn tool_log_highlights_the_tool_name() {
    let mut lines: Vec<Vec<StyledSpan>> = Vec::new();
    add_tool_log_lines(&mut lines, "→ Read: a.rs", 40);
    assert_eq!(lines.len(), 1);
    assert_eq!(lines[0][0].content, "  ┃ ");
    assert_eq!(lines[0][1].content, "Read: ");
    assert_eq!(lines[0][1].style, SpanStyle::AccentBold);
    assert_eq!(lines[0][2].content, "a.rs");
    assert_eq!(lines[0][2].style, SpanStyle::Secondary);
    let mut other: Vec<Vec<StyledSpan>> = Vec::new();
    add_tool_log_lines(&mut other, "started", 40);
    assert_eq!(text(&other[0]), "  ┃ started ");
}

#[test]
fn layout_shows_the_window_and_records_ranges() {
    let mut app = App::new("m".to_string(), "m".to_string(), false, 1000, vec![], None);
    app.push_user("hi");
    app.set_thinking(true);
    let area = Area { x: 0, y: 2, width: 25, height: 3 };
    let w = layout_history(&mut app, area);
    assert_eq!(w.total_lines, 5);
    assert_eq!(app.last_max_scroll, 2);
    assert_eq!(app.last_content_width, Some(20));
    assert_eq!(app.message_line_ranges, vec![(0, 0, 4)]);
    assert_eq!(w.scroll_pos, 0);
    assert_eq!(w.lines.len(), 3);
    app.scroll = ScrollPosition::Bottom;
    let w = layout_history(&mut app, area);
    assert_eq!(w.scroll_pos, 2);
    assert_eq!(text(&w.lines[2]), "  Thinking... ");
    assert_eq!(w.lines[2][0].style, SpanStyle::MutedItalic);
    assert_eq!(app.history_area, Some(area));
}
