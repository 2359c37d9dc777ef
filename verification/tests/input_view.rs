use my_open_claude::input_view::{
    autocomplete_lines, build_suggestion_spans, input_content, input_cursor, input_section_height,
    welcome_input_span, welcome_mascot_height, wrapped_lines,
};
use my_open_claude::main_input::SlashCommand;
use my_open_claude::markdown::SpanStyle;

fn cmd(name: &str) -> SlashCommand {
    SlashCommand {
        name: name.to_string(),
        description: format!("about {}", name),
        prompt_prefix: String::new(),
        mode: "Ask".to_string(),
    }
}

#[test]
fn suggestion_chips() {
    let spans = build_suggestion_spans(1);
    let texts: Vec<&str> = spans.iter().map(|s| s.content.as_str()).collect();
    assert_eq!(texts, vec![" Ask ", " · ", " Build "]);
    assert_eq!(spans[0].style, SpanStyle::Muted);
    assert_eq!(spans[2].style, SpanStyle::Selected);
}

#[test]
fn autocomplete_window_follows_the_selection() {
    let cmds: Vec<SlashCommand> = (0..10).map(|i| cmd(&format!("c{}", i))).collect();
    let lines = autocomplete_lines(&cmds, 0);
    assert_eq!(lines.len(), 6);
    assert_eq!(lines[0][0].content, "/c0");
    assert_eq!(lines[0][0].style, SpanStyle::Selected);
    assert_eq!(lines[1][0].style, SpanStyle::Secondary);
    assert_eq!(lines[1][1].content, "  about c1");
    assert_eq!(lines[1][1].style, SpanStyle::Muted);
    let lines = autocomplete_lines(&cmds, 7);
    assert_eq!(lines[0][0].content, "/c2");
    assert_eq!(lines[5][0].content, "/c7");
    let lines = autocomplete_lines(&cmds, 9);
    assert_eq!(lines[0][0].content, "/c4");
    let few = autocomplete_lines(&cmds[..2], 1);
    assert_eq!(few.len(), 2);
}

#[test]
fn input_box_placeholder_and_lines() {
    assert_eq!(input_content("").content, "Ask anything... ");
    assert_eq!(input_content("").style, SpanStyle::Muted);
    assert_eq!(input_content("hi").content, "hi");
    assert!(wrapped_lines("anything", 0).is_empty());
    assert_eq!(wrapped_lines("one two three", 7), vec!["one two", "three"]);
}

#[test]
fn cursor_sits_at_the_end_of_the_last_line() {
    let lines = vec!["one two".to_string(), "three".to_string()];
    let c = input_cursor(&lines, 2, 10, 20, 30, 5);
    assert_eq!((c.scroll_y, c.x, c.y), (0, 15, 21));
    let many: Vec<String> = (0..8).map(|i| format!("l{}", i)).collect();
    let c = input_cursor(&many, 0, 0, 0, 10, 3);
    assert_eq!((c.scroll_y, c.x, c.y), (5, 2, 2));
    let c = input_cursor(&vec![], 0, 1, 1, 10, 3);
    assert_eq!((c.scroll_y, c.x, c.y), (0, 1, 1));
}

#[test]
fn section_heights() {
    assert_eq!(input_section_height(false), 10);
    assert_eq!(input_section_height(true), 16);
    assert_eq!(welcome_mascot_height(35, 0, false), 25);
    assert_eq!(welcome_mascot_height(35, 6, true), 17);
    assert_eq!(welcome_mascot_height(10, 6, true), 4);
    assert_eq!(welcome_input_span(0, 100), (18, 64));
    assert_eq!(welcome_input_span(2, 40), (2, 40));
}
