use my_open_claude::markdown::{parse_markdown_inline_inner, parse_numbered_list_prefix, SpanStyle, StyledSpan};
use my_open_claude::segments::{parse_message_segments, MessageSegment};
use my_open_claude::wrap::{normalize_code_operators, wrap_message};

fn pairs(spans: &[StyledSpan]) -> Vec<(String, SpanStyle)> {
    spans.iter().map(|s| (s.content.clone(), s.style)).collect()
}

#[test]
fn inline_bold_link_and_code() {
    let spans = parse_markdown_inline_inner("a **b** [l](u) `c`");
    assert_eq!(
        pairs(&spans),
        vec![
            ("a ".to_string(), SpanStyle::Plain),
            ("b".to_string(), SpanStyle::Bold),
            (" ".to_string(), SpanStyle::Plain),
            ("l".to_string(), SpanStyle::AccentUnderlined),
            (" ".to_string(), SpanStyle::Plain),
            ("c".to_string(), SpanStyle::Accent),
        ]
    );
}

#[test]
fn inline_bracket_without_url_stays_literal() {
    let spans = parse_markdown_inline_inner("x [y] z");
    assert_eq!(
        pairs(&spans),
        vec![
            ("x ".to_string(), SpanStyle::Plain),
            ("[y]".to_string(), SpanStyle::Plain),
            (" z".to_string(), SpanStyle::Plain),
        ]
    );
}

#[test]
fn inline_unclosed_bold_marker_is_plain() {
    let spans = parse_markdown_inline_inner("x **y");
    assert_eq!(
        pairs(&spans),
        vec![
            ("x ".to_string(), SpanStyle::Plain),
            ("**".to_string(), SpanStyle::Plain),
            ("y".to_string(), SpanStyle::Plain),
        ]
    );
}

#[test]
fn numbered_prefix_with_dot_or_paren() {
    assert_eq!(parse_numbered_list_prefix("  12. item"), Some(("12", "item")));
    assert_eq!(parse_numbered_list_prefix("3) x"), Some(("3", "x")));
}

#[test]
fn numbered_prefix_needs_digits_and_separator() {
    assert_eq!(parse_numbered_list_prefix("3.x"), None);
    assert_eq!(parse_numbered_list_prefix("abc. x"), None);
    assert_eq!(parse_numbered_list_prefix(""), None);
}

#[test]
fn code_operators_become_ascii() {
    assert_eq!(normalize_code_operators("a \u{2260} b \u{2265} c \u{2264} d"), "a != b >= c <= d");
    assert_eq!(normalize_code_operators("plain"), "plain");
}

#[test]
fn segments_alternate_and_code_needs_a_fence() {
    let segs = parse_message_segments("a\n```rs\nx\n```\nb```\ny```c");
    for w in segs.windows(2) {
        assert!(!(matches!(w[0], MessageSegment::Text(_)) && matches!(w[1], MessageSegment::Text(_))));
    }
    assert!(segs.iter().any(|s| matches!(s, MessageSegment::CodeBlock { .. })));
    let plain = parse_message_segments("no fences `here`");
    assert_eq!(plain.len(), 1);
    assert!(matches!(plain[0], MessageSegment::Text("no fences `here`")));
    assert!(parse_message_segments("").is_empty());
}

#[test]
fn wrapped_lines_hold_no_line_break_and_one_per_line_at_least() {
    let msg = "first line that is rather long\n\nthird";
    for width in [0usize, 1, 5, 80] {
        let lines = wrap_message(msg, width);
        assert!(lines.len() >= 3);
        assert!(lines.iter().all(|l| !l.contains('\n')));
    }
}

#[test]
fn segments_are_cut_from_the_message_in_order() {
    let msg = "intro\n```py\nprint(1)\n```\nmiddle ```sh\nls\n``` end";
    let segs = parse_message_segments(msg);
    let base = msg.as_ptr() as usize;
    let mut last_end = 0usize;
    for seg in &segs {
        let piece = match seg {
            MessageSegment::Text(t) => *t,
            MessageSegment::CodeBlock { code, .. } => *code,
        };
        let start = piece.as_ptr() as usize - base;
        assert!(start >= last_end);
        assert_eq!(&msg[start..start + piece.len()], piece);
        last_end = start + piece.len();
    }
    assert_eq!(segs.len(), 5);
}
