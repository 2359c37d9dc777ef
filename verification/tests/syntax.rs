use my_open_claude::syntax::{
    highlight_code_line, lang_to_extension, slice_spans_by_range, translate_colour,
    translate_font_style, translate_style, CodeColour, CodeSpan, CodeStyle, DefaultSets, Rgb,
};

fn plain() -> CodeStyle {
    CodeStyle { fg: CodeColour::Secondary, bg: None, bold: false, italic: false, underlined: false }
}

#[test]
fn languages_map_to_extensions() {
    assert_eq!(lang_to_extension("rust"), "rs");
    assert_eq!(lang_to_extension("  Python "), "py");
    assert_eq!(lang_to_extension("zsh"), "sh");
    assert_eq!(lang_to_extension("YAML"), "yml");
    assert_eq!(lang_to_extension("hpp"), "cpp");
    assert_eq!(lang_to_extension("brainfuck"), "plain");
    assert_eq!(lang_to_extension(""), "plain");
}

#[test]
fn styles_translate() {
    assert_eq!(translate_colour((1, 2, 3, 0)), None);
    assert_eq!(translate_colour((1, 2, 3, 255)), Some(Rgb { r: 1, g: 2, b: 3 }));
    assert_eq!(translate_font_style(0), (false, false, false));
    assert_eq!(translate_font_style(1), (true, false, false));
    assert_eq!(translate_font_style(2), (false, false, true));
    assert_eq!(translate_font_style(7), (true, true, true));
    let s = translate_style((9, 9, 9, 0), (1, 1, 1, 10), 4);
    assert_eq!(s.fg, CodeColour::Secondary);
    assert_eq!(s.bg, Some(Rgb { r: 1, g: 1, b: 1 }));
    assert!(s.italic && !s.bold && !s.underlined);
}

#[test]
fn spans_slice_by_character_range() {
    let spans = vec![
        CodeSpan { content: "let ".to_string(), style: plain() },
        CodeSpan { content: "x = 1;".to_string(), style: plain() },
    ];
    let got = slice_spans_by_range(&spans, 2, 7);
    let texts: Vec<&str> = got.iter().map(|s| s.content.as_str()).collect();
    assert_eq!(texts, vec!["t ", "x ="]);
    assert!(slice_spans_by_range(&spans, 20, 30).is_empty());
}

#[test]
fn unknown_languages_stay_plain() {
    let sets = DefaultSets::load();
    let spans = highlight_code_line(&sets, "cobol", "MOVE A TO B");
    assert_eq!(spans.len(), 1);
    assert_eq!(spans[0].content, "MOVE A TO B");
    assert_eq!(spans[0].style, plain());
}

#[test]
fn known_languages_are_highlighted() {
    let sets = DefaultSets::load();
    let spans = highlight_code_line(&sets, "rust", "fn main() {}");
    assert!(spans.len() > 1);
    let joined: String = spans.iter().map(|s| s.content.as_str()).collect();
    assert_eq!(joined.trim_end(), "fn main() {}");
    assert!(spans.iter().all(|s| !s.content.is_empty()));
}

#[test]
fn highlighting_keeps_the_text_with_its_line_ending() {
    let sets = DefaultSets::load();
    let spans = highlight_code_line(&sets, "python", "x = 1  # note");
    let joined: String = spans.iter().map(|s| s.content.as_str()).collect();
    assert_eq!(joined, "x = 1  # note\n");
    let ended = highlight_code_line(&sets, "rs", "let a = 2;\n");
    let joined: String = ended.iter().map(|s| s.content.as_str()).collect();
    assert_eq!(joined, "let a = 2;\n");
}

#[test]
fn consecutive_slices_carry_the_line_piece_by_piece() {
    let bold = CodeStyle { fg: CodeColour::Secondary, bg: None, bold: true, italic: false, underlined: false };
    let spans = vec![
        CodeSpan { content: "let ".to_string(), style: bold },
        CodeSpan { content: "x = 1;".to_string(), style: plain() },
    ];
    let mut joined = String::new();
    for (a, b) in [(0, 3), (3, 6), (6, 9), (9, 12)] {
        for s in slice_spans_by_range(&spans, a, b) {
            joined.push_str(&s.content);
        }
    }
    assert_eq!(joined, "let x = 1;");
    let mid = slice_spans_by_range(&spans, 3, 6);
    assert_eq!(mid.len(), 2);
    assert_eq!(mid[0].content, " ");
    assert_eq!(mid[0].style, bold);
    assert_eq!(mid[1].content, "x ");
}

#[test]
fn reversed_or_empty_ranges_give_no_spans() {
    let spans = vec![CodeSpan { content: "abcdef".to_string(), style: plain() }];
    assert!(slice_spans_by_range(&spans, 4, 2).is_empty());
    assert!(slice_spans_by_range(&spans, 3, 3).is_empty());
    assert_eq!(slice_spans_by_range(&spans, 0, 100).len(), 1);
}
