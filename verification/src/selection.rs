//! Selection and copy logic for the chat history: hit-testing of message blocks,
//! extraction of selected text without the block borders, and mouse decisions.

use vstd::prelude::*;

use crate::app_state::{App, Area, MsgView, visible_top};
use crate::chars::{push_char, push_text, str_chars, string_of};
use crate::main_input::SCROLL_LINES_SMALL;

verus! {

broadcast use vstd::string::group_string_axioms;

/// The message whose block holds line `line`: the first range that contains it.
pub open spec fn block_at(ranges: Seq<(usize, usize, usize)>, line: int) -> Option<usize>
    decreases ranges.len(),
{
    if ranges.len() == 0 {
        None
    } else if ranges[0].1 <= line < ranges[0].2 {
        Some(ranges[0].0)
    } else {
        block_at(ranges.drop_first(), line)
    }
}

fn find_block(ranges: &Vec<(usize, usize, usize)>, line: usize) -> (r: Option<usize>)
    ensures
        r == block_at(ranges@, line as int),
{
    let mut i: usize = 0;
    assert(ranges@.skip(0) == ranges@);
    while i < ranges.len()
        invariant
            i <= ranges@.len(),
            block_at(ranges@, line as int) == block_at(ranges@.skip(i as int), line as int),
        decreases ranges@.len() - i,
    {
        let (idx, start, end) = ranges[i];
        assert(ranges@.skip(i as int)[0] == ranges@[i as int]);
        if start <= line && line < end {
            return Some(idx);
        }
        assert(ranges@.skip(i as int).drop_first() == ranges@.skip(i + 1));
        i = i + 1;
    }
    None
}

/// Message index at the current scroll position (for Cmd+C when no hover).
pub fn message_idx_at_scroll_line(app: &App) -> (r: Option<usize>)
    ensures
        r == block_at(app.message_line_ranges@, visible_top(app.scroll, app.last_max_scroll)),
{
    let line = app.scroll_line();
    find_block(&app.message_line_ranges, line)
}

/// `s` without leading box-drawing borders: each `│` and one space after it.
pub open spec fn without_borders(s: Seq<char>) -> Seq<char>
    decreases s.len(),
{
    if s.len() > 0 && s[0] == '│' {
        let rest = s.drop_first();
        without_borders(
            if rest.len() > 0 && rest[0] == ' ' {
                rest.drop_first()
            } else {
                rest
            },
        )
    } else {
        s
    }
}

/// Strip leading border characters (│ , │ │ ) from a line for clean copy.
/// Preserves content indentation (e.g. leading spaces in code).
pub fn strip_border_prefix(line: &str) -> (r: &str)
    ensures
        r@ == without_borders(line@),
{
    let v = str_chars(line);
    let mut i: usize = 0;
    assert(v@.skip(0) == v@);
    while i < v.len() && v[i] == '│'
        invariant
            v@ == line@,
            i <= v@.len(),
            without_borders(line@) == without_borders(v@.skip(i as int)),
        decreases v@.len() - i,
    {
        let ghost t = v@.skip(i as int);
        assert(t.drop_first() == v@.skip(i + 1));
        i = i + 1;
        if i < v.len() && v[i] == ' ' {
            assert(v@.skip(i as int).drop_first() == v@.skip(i + 1));
            i = i + 1;
        }
    }
    line.substring_char(i, v.len())
}

/// The columns `start..end` of line `i` that a selection from (`sl`, `sc`) to (`el`, `ec`)
/// covers, for a line of `len` characters.
pub open spec fn selected_columns(i: int, sl: int, sc: int, el: int, ec: int, len: int) -> (int, int) {
    let lo = if sc < ec {
        sc
    } else {
        ec
    };
    let hi = if sc < ec {
        ec
    } else {
        sc
    };
    let cap = |x: int| if x < len {
        x
    } else {
        len
    };
    if sl == el {
        (cap(lo), cap(hi))
    } else if i == sl {
        (cap(sc), len)
    } else if i == el {
        (0, cap(ec))
    } else {
        (0, len)
    }
}

/// The copied parts of the selected lines `i..=el` (from line `i` on), borders stripped;
/// lines where the selection covers nothing give no part.
pub open spec fn selected_parts(lines: Seq<Seq<char>>, sl: int, sc: int, el: int, ec: int, i: int) -> Seq<
    Seq<char>,
>
    decreases el + 1 - i,
{
    if i > el || i >= lines.len() || i < 0 {
        Seq::empty()
    } else {
        let (a, b) = selected_columns(i, sl, sc, el, ec, lines[i].len() as int);
        let rest = selected_parts(lines, sl, sc, el, ec, i + 1);
        if a < b {
            seq![without_borders(lines[i].subrange(a, b))] + rest
        } else {
            rest
        }
    }
}

/// Parts joined by newlines.
pub open spec fn joined_lines(parts: Seq<Seq<char>>) -> Seq<char>
    decreases parts.len(),
{
    if parts.len() == 0 {
        Seq::empty()
    } else if parts.len() == 1 {
        parts[0]
    } else {
        joined_lines(parts.drop_last()).push('\n') + parts.last()
    }
}

/// The text a selection copies from the rendered lines: nothing without a selection,
/// without lines, when it starts below the last line, or when it covers no character.
pub open spec fn selected_text(
    selection: Option<(usize, usize, usize, usize)>,
    lines: Seq<Seq<char>>,
) -> Option<Seq<char>> {
    match selection {
        None => None,
        Some((sl, sc, el, ec)) => if lines.len() == 0 || sl >= lines.len() {
            None
        } else {
            let el2 = if el < lines.len() - 1 {
                el as int
            } else {
                lines.len() - 1
            };
            let parts = selected_parts(lines, sl as int, sc as int, el2, ec as int, sl as int);
            if parts.len() == 0 {
                None
            } else {
                Some(joined_lines(parts))
            }
        },
    }
}

/// Extract selected text from rendered_lines. Returns None if selection is empty or invalid.
/// Strips border prefixes (│ , etc.) from each line for clean copy.
pub fn extract_selection(app: &App) -> (r: Option<String>)
    ensures
        match r {
            Some(t) => selected_text(app.selection, app.rendered_lines@.map_values(|l: String| l@))
                == Some(t@),
            None => selected_text(app.selection, app.rendered_lines@.map_values(|l: String| l@))
                is None,
        },
{
    let ghost lines = app.rendered_lines@.map_values(|l: String| l@);
    let (sl, sc, el, ec) = match app.selection {
        Some(s) => s,
        None => {
            return None;
        },
    };
    let n = app.rendered_lines.len();
    if n == 0 || sl >= n {
        return None;
    }
    let el = if el < n - 1 {
        el
    } else {
        n - 1
    };
    let ghost all = selected_parts(lines, sl as int, sc as int, el as int, ec as int, sl as int);
    if el < sl {
        return None;
    }
    let mut parts: Vec<String> = Vec::new();
    let mut i: usize = sl;
    while i <= el
        invariant
            sl <= i <= el + 1,
            el < n,
            n == app.rendered_lines@.len(),
            lines == app.rendered_lines@.map_values(|l: String| l@),
            all == selected_parts(lines, sl as int, sc as int, el as int, ec as int, sl as int),
            all == parts@.map_values(|p: String| p@) + selected_parts(
                lines,
                sl as int,
                sc as int,
                el as int,
                ec as int,
                i as int,
            ),
        decreases el + 1 - i,
    {
        let s = &app.rendered_lines[i];
        let v = str_chars(s);
        let len = v.len();
        let (start, end) = if sl == el {
            let lo = if sc < ec {
                sc
            } else {
                ec
            };
            let hi = if sc < ec {
                ec
            } else {
                sc
            };
            (if lo < len {
                lo
            } else {
                len
            }, if hi < len {
                hi
            } else {
                len
            })
        } else if i == sl {
            (if sc < len {
                sc
            } else {
                len
            }, len)
        } else if i == el {
            (0, if ec < len {
                ec
            } else {
                len
            })
        } else {
            (0, len)
        };
        assert((start as int, end as int) == selected_columns(
            i as int,
            sl as int,
            sc as int,
            el as int,
            ec as int,
            lines[i as int].len() as int,
        ));
        let ghost before = parts@.map_values(|p: String| p@);
        if start < end {
            let segment = string_of(&v, start, end);
            let cleaned = strip_border_prefix(&segment);
            parts.push(cleaned.to_string());
            assert(parts@.map_values(|p: String| p@) =~= before.push(
                without_borders(lines[i as int].subrange(start as int, end as int)),
            ));
        }
        i = i + 1;
    }
    if parts.len() == 0 {
        return None;
    }
    let mut out = String::new();
    let mut k: usize = 0;
    let ghost pv = parts@.map_values(|p: String| p@);
    assert(pv =~= all);
    while k < parts.len()
        invariant
            k <= parts@.len(),
            pv == parts@.map_values(|p: String| p@),
            k > 0 ==> out@ == joined_lines(pv.take(k as int)),
            k == 0 ==> out@ == Seq::<char>::empty(),
        decreases parts@.len() - k,
    {
        if k > 0 {
            push_char(&mut out, '\n');
        }
        push_text(&mut out, &parts[k]);
        assert(pv.take(k + 1).drop_last() == pv.take(k as int));
        k = k + 1;
    }
    assert(pv.take(pv.len() as int) == pv);
    Some(out)
}

/// The text of message `idx` that a click copies: a user or assistant message's text.
pub open spec fn copyable(ms: Seq<MsgView>, idx: int) -> Option<Seq<char>> {
    if 0 <= idx < ms.len() {
        match ms[idx] {
            MsgView::User(s) => Some(s),
            MsgView::Assistant(s) => Some(s),
            _ => None,
        }
    } else {
        None
    }
}

/// The text that copying message `msg_idx` puts on the clipboard.
pub fn copyable_message(app: &App, msg_idx: usize) -> (r: Option<String>)
    ensures
        match r {
            Some(t) => copyable(app.msgs(), msg_idx as int) == Some(t@),
            None => copyable(app.msgs(), msg_idx as int) is None,
        },
{
    if msg_idx >= app.messages.len() {
        return None;
    }
    match &app.messages[msg_idx] {
        crate::app_state::ChatMessage::User(s) => Some(s.clone()),
        crate::app_state::ChatMessage::Assistant(s) => Some(s.clone()),
        _ => None,
    }
}

/// The line of the history under screen row `row` when (`col`, `row`) lies in the history
/// area.
pub open spec fn history_line_at(app: App, col: u16, row: u16) -> Option<int> {
    match app.history_area {
        Some(area) => if area.holds(col, row) {
            Some(visible_top(app.scroll, app.last_max_scroll) + (row - area.y))
        } else {
            None
        },
        None => None,
    }
}

/// Check if the cell is over a copyable message block; return its message index if so.
pub fn hit_test_message(app: &App, col: u16, row: u16) -> (r: Option<usize>)
    requires
        app.last_max_scroll + 0x10000 <= usize::MAX,
    ensures
        r == match history_line_at(*app, col, row) {
            Some(line) => block_at(app.message_line_ranges@, line),
            None => None,
        },
{
    let area = match app.history_area {
        Some(a) => a,
        None => {
            return None;
        },
    };
    if !area.contains(col, row) {
        return None;
    }
    let rel_row = (row - area.y) as usize;
    let clicked = app.scroll_line() + rel_row;
    find_block(&app.message_line_ranges, clicked)
}

/// Map a cell to (buffer line, buffer column) when inside the history area.
pub fn pos_to_buffer_coords(app: &App, col: u16, row: u16) -> (r: Option<(usize, usize)>)
    requires
        app.last_max_scroll + 0x10000 <= usize::MAX,
    ensures
        match history_line_at(*app, col, row) {
            Some(line) => r == Some((line as usize, (col - app.history_area->0.x) as usize)),
            None => r is None,
        },
{
    let area = match app.history_area {
        Some(a) => a,
        None => {
            return None;
        },
    };
    if !area.contains(col, row) {
        return None;
    }
    let rel_row = (row - area.y) as usize;
    let rel_col = (col - area.x) as usize;
    Some((app.scroll_line() + rel_row, rel_col))
}

/// A mouse event, as the history reads it.
#[derive(Clone, Copy, PartialEq, Eq, Structural)]
pub enum MouseKind {
    Moved,
    LeftUp,
    ScrollUp,
    ScrollDown,
    Other,
}

/// What the loop does for a mouse event besides what `handle_mouse` changed.
pub enum MouseEffect {
    Nothing,
    /// Show the pointer (hand) cursor, or the default one.
    SetPointer(bool),
    /// Open the page where credits are bought.
    OpenCreditsPage,
    /// Put this text on the clipboard (and show the "Copied!" toast when that works).
    Copy(String),
}

/// Handle a mouse event at 1-based cell (`column`, `row`); nothing happens while a popup
/// is open.
pub fn handle_mouse(app: &mut App, kind: MouseKind, column: u16, row: u16, popup_open: bool) -> (r:
    MouseEffect)
    requires
        old(app).last_max_scroll + 0x10000 <= usize::MAX,
        kind == MouseKind::ScrollDown && !popup_open ==> old(app).scroll_top() + SCROLL_LINES_SMALL
            <= usize::MAX,
    ensures
        ({
            let a = *old(app);
            let b = *final(app);
            let col = if column > 0 { (column - 1) as u16 } else { 0 };
            let rw = if row > 0 { (row - 1) as u16 } else { 0 };
            let over_credits = a.credits_area matches Some(c) && c.holds(col, rw);
            let over_message = match history_line_at(a, col, rw) {
                Some(line) => block_at(a.message_line_ranges@, line),
                None => None,
            };
            if popup_open {
                b == a && r is Nothing
            } else {
                match kind {
                    MouseKind::Moved => {
                        let pointer = over_credits || over_message is Some;
                        if (a.hovering_credits || a.hovering_message_block) != pointer {
                            &&& b == (App {
                                hovering_credits: over_credits,
                                hovering_message_block: over_message is Some,
                                ..a
                            })
                            &&& r == MouseEffect::SetPointer(pointer)
                        } else {
                            b == a && r is Nothing
                        }
                    },
                    MouseKind::LeftUp => b == a && if over_credits {
                        r is OpenCreditsPage
                    } else {
                        match over_message {
                            Some(idx) => match copyable(a.msgs(), idx as int) {
                                Some(t) => r matches MouseEffect::Copy(c) && c@ == t,
                                None => r is Nothing,
                            },
                            None => r is Nothing,
                        }
                    },
                    MouseKind::ScrollUp => r is Nothing && b == (App {
                        scroll: crate::app_state::ScrollPosition::Line(
                            crate::app_state::scrolled_up(a.scroll_top(), SCROLL_LINES_SMALL as int)
                                as usize,
                        ),
                        ..a
                    }),
                    MouseKind::ScrollDown => r is Nothing && b == (App {
                        scroll: crate::app_state::ScrollPosition::Line(
                            crate::app_state::scrolled_down(
                                a.scroll_top(),
                                SCROLL_LINES_SMALL as int,
                                a.last_max_scroll as int,
                            ) as usize,
                        ),
                        ..a
                    }),
                    MouseKind::Other => b == a && r is Nothing,
                }
            }
        }),
{
    let col = if column > 0 {
        column - 1
    } else {
        0
    };
    let rw = if row > 0 {
        row - 1
    } else {
        0
    };
    let over_credits = match app.credits_area {
        Some(c) => c.contains(col, rw),
        None => false,
    };
    let over_message = hit_test_message(app, col, rw);
    if popup_open {
        return MouseEffect::Nothing;
    }
    match kind {
        MouseKind::Moved => {
            let pointer = over_credits || over_message.is_some();
            let prev = app.hovering_credits || app.hovering_message_block;
            if prev != pointer {
                app.hovering_credits = over_credits;
                app.hovering_message_block = over_message.is_some();
                MouseEffect::SetPointer(pointer)
            } else {
                MouseEffect::Nothing
            }
        },
        MouseKind::LeftUp => {
            if over_credits {
                MouseEffect::OpenCreditsPage
            } else {
                match over_message {
                    Some(idx) => match copyable_message(app, idx) {
                        Some(t) => MouseEffect::Copy(t),
                        None => MouseEffect::Nothing,
                    },
                    None => MouseEffect::Nothing,
                }
            }
        },
        MouseKind::ScrollUp => {
            app.scroll_up(SCROLL_LINES_SMALL);
            MouseEffect::Nothing
        },
        MouseKind::ScrollDown => {
            app.scroll_down(SCROLL_LINES_SMALL);
            MouseEffect::Nothing
        },
        MouseKind::Other => MouseEffect::Nothing,
    }
}

} // verus!
