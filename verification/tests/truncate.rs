use my_open_claude::input_view::truncate_with_ellipsis;

#[test]
fn truncate_short_string_unchanged() {
    assert_eq!(truncate_with_ellipsis("hello", 10), "hello");
}

#[test]
fn truncate_exact_width_unchanged() {
    assert_eq!(truncate_with_ellipsis("hello", 5), "hello");
}

#[test]
fn truncate_long_string_adds_ellipsis() {
    let result = truncate_with_ellipsis("hello world", 8);
    assert_eq!(result.chars().count(), 8); // 7 chars + ellipsis
    assert!(result.ends_with('…'));
}

#[test]
fn truncate_utf8_chars() {
    let result = truncate_with_ellipsis("café", 3);
    assert!(result.ends_with('…'));
    assert!(result.len() <= 5); // é is 2 bytes
}

#[test]
fn truncate_max_width_one() {
    let result = truncate_with_ellipsis("ab", 1);
    assert_eq!(result, "…");
}
