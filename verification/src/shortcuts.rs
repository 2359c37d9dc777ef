//! Centralized keyboard shortcuts.
//!
//! | Action        | Keys                                    |
//! |---------------|-----------------------------------------|
//! | History       | Alt+H, Esc+h (Option as meta), Mac chars |
//! | New conv      | Ctrl+N                                  |
//! | Model selector| Alt+M, Esc+m, µ (Option+M Mac)          |
//! | Quit          | Ctrl+C                                  |
//!
//! On macOS, Option+key can send Esc+key (when the terminal uses Option as Meta) or a
//! special character (˙, Ì, µ, ...) when Option is in normal mode.

use vstd::prelude::*;

use crate::chars::{push_char, str_chars, string_of};
use crate::keys::{KeyCode, KeyEvent, KeyEventKind};
use crate::markdown::{SpanStyle, StyledSpan, spans_view};

verus! {

/// Detected shortcut.
#[derive(Debug, Clone, Copy, PartialEq, Eq, Structural)]
pub enum Shortcut {
    /// Open conversation history (Alt+H, Esc+h)
    History,
    /// New conversation (Ctrl+N)
    NewConversation,
    /// Model selector (Alt+M, Esc+m)
    ModelSelector,
    /// Quit (Ctrl+C)
    Quit,
    /// No shortcut
    NoShortcut,
}

/// Characters that Option+H produces on Mac keyboards: Ì, ˙, ħ, ̂.
pub open spec fn mac_option_h(c: char) -> bool {
    c == '\u{00CC}' || c == '\u{02D9}' || c == '\u{0127}' || c == '\u{0302}'
}

/// The character that Option+M produces on Mac keyboards: µ.
pub open spec fn mac_option_m(c: char) -> bool {
    c == '\u{00B5}'
}

pub fn is_mac_option_h(c: char) -> (r: bool)
    ensures
        r == mac_option_h(c),
{
    c == '\u{00CC}' || c == '\u{02D9}' || c == '\u{0127}' || c == '\u{0302}'
}

/// The shortcut a key event stands for.
pub open spec fn shortcut_of(key: KeyEvent, escape_pending: bool) -> Option<Shortcut> {
    if key.kind != KeyEventKind::Press {
        None
    } else if escape_pending {
        match key.code {
            KeyCode::Char('h') => Some(Shortcut::History),
            KeyCode::Char('m') => Some(Shortcut::ModelSelector),
            _ => None,
        }
    } else {
        match key.code {
            KeyCode::Char(c) => if c == 'c' && key.modifiers.control {
                Some(Shortcut::Quit)
            } else if c == 'n' && key.modifiers.control {
                Some(Shortcut::NewConversation)
            } else if c == 'h' && key.modifiers.alt {
                Some(Shortcut::History)
            } else if c == 'm' && key.modifiers.alt {
                Some(Shortcut::ModelSelector)
            } else if mac_option_h(c) {
                Some(Shortcut::History)
            } else if mac_option_m(c) {
                Some(Shortcut::ModelSelector)
            } else {
                None
            },
            _ => None,
        }
    }
}

impl Shortcut {
    /// Returns the shortcut if the key matches. Handles Esc+key sequence when terminal
    /// sends Option as Meta (e.g. macOS "Use option as meta key").
    pub fn match_key(key: &KeyEvent, escape_pending: bool) -> (r: Option<Shortcut>)
        ensures
            r == shortcut_of(*key, escape_pending),
    {
        if key.kind != KeyEventKind::Press {
            return None;
        }
        if escape_pending {
            return match key.code {
                KeyCode::Char('h') => Some(Shortcut::History),
                KeyCode::Char('m') => Some(Shortcut::ModelSelector),
                _ => None,
            };
        }
        match key.code {
            KeyCode::Char(c) => {
                if c == 'c' && key.modifiers.control {
                    Some(Shortcut::Quit)
                } else if c == 'n' && key.modifiers.control {
                    Some(Shortcut::NewConversation)
                } else if c == 'h' && key.modifiers.alt {
                    Some(Shortcut::History)
                } else if c == 'm' && key.modifiers.alt {
                    Some(Shortcut::ModelSelector)
                } else if is_mac_option_h(c) {
                    Some(Shortcut::History)
                } else if c == '\u{00B5}' {
                    Some(Shortcut::ModelSelector)
                } else {
                    None
                }
            },
            _ => None,
        }
    }

    /// True if key is Escape (start of Option+key sequence on some terminals).
    pub fn is_escape(key: &KeyEvent) -> (r: bool)
        ensures
            r == (key.kind == KeyEventKind::Press && key.code == KeyCode::Esc),
    {
        key.kind == KeyEventKind::Press && key.code == KeyCode::Esc
    }
}

/// The bottom bar's lines of key hints: the cancel and scroll hints while a request runs,
/// else the editing keys and the shortcuts (with `copy_key`, the platform's copy keys).
pub open spec fn bottom_bar_lines(is_streaming: bool, copy_key: Seq<char>) -> Seq<
    Seq<(Seq<char>, SpanStyle)>,
> {
    if is_streaming {
        seq![
            seq![
                ("Esc "@, SpanStyle::Warning),
                ("cancel"@, SpanStyle::Plain),
                ("  ↑↓ "@, SpanStyle::Muted),
                ("scroll"@, SpanStyle::Plain),
            ],
        ]
    } else {
        seq![
            seq![
                ("Enter "@, SpanStyle::Muted),
                ("send"@, SpanStyle::Plain),
                ("  Shift/Alt+Enter "@, SpanStyle::Muted),
                ("newline"@, SpanStyle::Plain),
                ("  Ctrl+U "@, SpanStyle::Muted),
                ("clear"@, SpanStyle::Plain),
                ("  ↑↓ "@, SpanStyle::Muted),
                ("scroll"@, SpanStyle::Plain),
            ],
            seq![
                ("Alt+H "@, SpanStyle::Muted),
                ("history"@, SpanStyle::Plain),
                ("  Ctrl+N "@, SpanStyle::Muted),
                ("new"@, SpanStyle::Plain),
                ("  Alt+M "@, SpanStyle::Muted),
                ("model"@, SpanStyle::Plain),
                (copy_key, SpanStyle::Muted),
                ("copy"@, SpanStyle::Plain),
                ("  Ctrl+C "@, SpanStyle::Muted),
                ("quit"@, SpanStyle::Plain),
            ],
        ]
    }
}

fn hint(text: &str, style: SpanStyle) -> (r: StyledSpan)
    ensures
        r@ == (text@, style),
{
    StyledSpan { content: text.to_string(), style }
}

/// Labels for the bottom bar (2 lines for readability on narrow terminals).
pub fn bottom_bar(is_streaming: bool, copy_key: &str) -> (r: Vec<Vec<StyledSpan>>)
    ensures
        r@.map_values(|l: Vec<StyledSpan>| spans_view(l@)) == bottom_bar_lines(is_streaming, copy_key@),
{
    if is_streaming {
        let l = vec![
            hint("Esc ", SpanStyle::Warning),
            hint("cancel", SpanStyle::Plain),
            hint("  ↑↓ ", SpanStyle::Muted),
            hint("scroll", SpanStyle::Plain),
        ];
        assert(spans_view(l@) =~= bottom_bar_lines(true, copy_key@)[0]);
        let r = vec![l];
        assert(r@.map_values(|l: Vec<StyledSpan>| spans_view(l@)) =~= bottom_bar_lines(true, copy_key@));
        r
    } else {
        let a = vec![
            hint("Enter ", SpanStyle::Muted),
            hint("send", SpanStyle::Plain),
            hint("  Shift/Alt+Enter ", SpanStyle::Muted),
            hint("newline", SpanStyle::Plain),
            hint("  Ctrl+U ", SpanStyle::Muted),
            hint("clear", SpanStyle::Plain),
            hint("  ↑↓ ", SpanStyle::Muted),
            hint("scroll", SpanStyle::Plain),
        ];
        let b = vec![
            hint("Alt+H ", SpanStyle::Muted),
            hint("history", SpanStyle::Plain),
            hint("  Ctrl+N ", SpanStyle::Muted),
            hint("new", SpanStyle::Plain),
            hint("  Alt+M ", SpanStyle::Muted),
            hint("model", SpanStyle::Plain),
            hint(copy_key, SpanStyle::Muted),
            hint("copy", SpanStyle::Plain),
            hint("  Ctrl+C ", SpanStyle::Muted),
            hint("quit", SpanStyle::Plain),
        ];
        assert(spans_view(a@) =~= bottom_bar_lines(false, copy_key@)[0]);
        assert(spans_view(b@) =~= bottom_bar_lines(false, copy_key@)[1]);
        let r = vec![a, b];
        assert(r@.map_values(|l: Vec<StyledSpan>| spans_view(l@)) =~= bottom_bar_lines(false, copy_key@));
        r
    }
}

/// The working directory as the bottom bar shows it in `max_len` columns: a longer path
/// keeps its last `max_len - 1` characters after a leading '…' (when more than two columns
/// are free); otherwise the path as it is.
pub open spec fn bar_path(path: Seq<char>, max_len: usize) -> Seq<char> {
    if path.len() > max_len && max_len > 2 {
        seq!['…'] + path.skip(path.len() - (max_len - 1))
    } else {
        path
    }
}

/// The working directory shortened to fit the bottom bar's path slot.
pub fn bar_path_display(path: &str, max_len: usize) -> (r: String)
    ensures
        r@ == bar_path(path@, max_len),
{
    let v = str_chars(path);
    if v.len() > max_len && max_len > 2 {
        let keep = max_len - 1;
        let mut s = String::new();
        push_char(&mut s, '…');
        let tail = string_of(&v, v.len() - keep, v.len());
        s.append(tail.as_str());
        assert(v@.subrange(v@.len() - keep, v@.len() as int) == v@.skip(v@.len() - keep));
        s
    } else {
        let r = string_of(&v, 0, v.len());
        assert(v@.subrange(0, v@.len() as int) == v@);
        r
    }
}

} // verus!
