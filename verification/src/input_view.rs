//! Text helpers of the input section.

use vstd::prelude::*;

use crate::chars::{push_char, push_text, str_chars, string_of};
use crate::main_input::{SlashCommand, suggestion, suggestion_label, SUGGESTION_COUNT};
use crate::markdown::{SpanStyle, StyledSpan, spans_view};
use crate::wrap::{wrap_text, wrapped};

verus! {

/// `s` shortened to at most `max_width` characters, the last one replaced by '…' when cut.
pub open spec fn truncated(s: Seq<char>, max_width: usize) -> Seq<char> {
    if s.len() <= max_width {
        s
    } else {
        s.take(if max_width > 0 { max_width - 1 } else { 0 }).push('…')
    }
}

/// Shorten `s` to `max_width` characters, ending with '…' when it was longer.
pub fn truncate_with_ellipsis(s: &str, max_width: usize) -> (r: String)
    ensures
        r@ == truncated(s@, max_width),
{
    let v = str_chars(s);
    if v.len() <= max_width {
        let r = string_of(&v, 0, v.len());
        assert(v@.subrange(0, v@.len() as int) == v@);
        r
    } else {
        let keep = if max_width > 0 { max_width - 1 } else { 0 };
        let mut r = string_of(&v, 0, keep);
        push_char(&mut r, '…');
        assert(v@.subrange(0, keep as int) == v@.take(keep as int));
        r
    }
}

fn span(text: String, style: SpanStyle) -> (r: StyledSpan)
    ensures
        r@ == (text@, style),
{
    StyledSpan { content: text, style }
}

/// The suggestion chips below the input: ` Ask ` and ` Build `, separated by ` · `, the
/// selected one highlighted.
pub open spec fn suggestion_spans_view(selected: usize) -> Seq<(Seq<char>, SpanStyle)> {
    seq![
        (" "@ + suggestion(0) + " "@, if selected == 0 { SpanStyle::Selected } else { SpanStyle::Muted }),
        (" · "@, SpanStyle::Muted),
        (" "@ + suggestion(1) + " "@, if selected == 1 { SpanStyle::Selected } else { SpanStyle::Muted }),
    ]
}

fn chip(i: usize, selected: usize) -> (r: StyledSpan)
    requires
        i < SUGGESTION_COUNT,
    ensures
        r@ == (" "@ + suggestion(i as int) + " "@, if selected == i {
            SpanStyle::Selected
        } else {
            SpanStyle::Muted
        }),
{
    let mut t = " ".to_string();
    push_text(&mut t, &suggestion_label(i));
    push_text(&mut t, " ");
    span(t, if selected == i {
        SpanStyle::Selected
    } else {
        SpanStyle::Muted
    })
}

pub fn build_suggestion_spans(selected_suggestion: usize) -> (r: Vec<StyledSpan>)
    ensures
        spans_view(r@) == suggestion_spans_view(selected_suggestion),
{
    let r = vec![chip(0, selected_suggestion), span(" · ".to_string(), SpanStyle::Muted), chip(1, selected_suggestion)];
    assert(spans_view(r@) =~= suggestion_spans_view(selected_suggestion));
    r
}

/// Number of rows of the slash command list.
pub const AUTOCOMPLETE_VISIBLE_LINES: usize = 6;

/// The first command shown by the autocomplete list of `total` commands: the selection
/// stays on the last visible row.
pub open spec fn autocomplete_start(selected: usize, total: nat) -> int {
    let a = if selected > AUTOCOMPLETE_VISIBLE_LINES - 1 {
        selected - (AUTOCOMPLETE_VISIBLE_LINES - 1)
    } else {
        0
    };
    let b = if total > AUTOCOMPLETE_VISIBLE_LINES {
        total - AUTOCOMPLETE_VISIBLE_LINES
    } else {
        0
    };
    if a < b {
        a
    } else {
        b
    }
}

/// A row of the autocomplete list: `/name` and the description.
pub open spec fn autocomplete_row(name: Seq<char>, description: Seq<char>, selected: bool) -> Seq<
    (Seq<char>, SpanStyle),
> {
    if selected {
        seq![(seq!['/'] + name, SpanStyle::Selected), ("  "@ + description, SpanStyle::Selected)]
    } else {
        seq![(seq!['/'] + name, SpanStyle::Secondary), ("  "@ + description, SpanStyle::Muted)]
    }
}

/// The visible rows of the slash command autocomplete list for the matching `commands`.
pub fn autocomplete_lines(commands: &[SlashCommand], selected: usize) -> (r: Vec<Vec<StyledSpan>>)
    ensures
        ({
            let start = autocomplete_start(selected, commands@.len());
            let end = if start + AUTOCOMPLETE_VISIBLE_LINES < commands@.len() {
                start + AUTOCOMPLETE_VISIBLE_LINES
            } else {
                commands@.len() as int
            };
            &&& r@.len() == end - start
            &&& forall|i: int|
                0 <= i < end - start ==> spans_view(#[trigger] r@[i]@) == autocomplete_row(
                    commands@[start + i].name@,
                    commands@[start + i].description@,
                    start + i == selected,
                )
        }),
{
    let total = commands.len();
    let a = selected.saturating_sub(AUTOCOMPLETE_VISIBLE_LINES - 1);
    let b = total.saturating_sub(AUTOCOMPLETE_VISIBLE_LINES);
    let start = if a < b {
        a
    } else {
        b
    };
    let end = if AUTOCOMPLETE_VISIBLE_LINES < total - start {
        start + AUTOCOMPLETE_VISIBLE_LINES
    } else {
        total
    };
    let mut r: Vec<Vec<StyledSpan>> = Vec::new();
    let mut idx: usize = start;
    while idx < end
        invariant
            start <= idx <= end <= commands@.len(),
            r@.len() == idx - start,
            forall|i: int|
                0 <= i < idx - start ==> spans_view(#[trigger] r@[i]@) == autocomplete_row(
                    commands@[start + i].name@,
                    commands@[start + i].description@,
                    start + i == selected,
                ),
        decreases end - idx,
    {
        let cmd = &commands[idx];
        let mut name = String::new();
        push_char(&mut name, '/');
        push_text(&mut name, &cmd.name);
        let mut desc = "  ".to_string();
        push_text(&mut desc, &cmd.description);
        let row = if idx == selected {
            vec![span(name, SpanStyle::Selected), span(desc, SpanStyle::Selected)]
        } else {
            vec![span(name, SpanStyle::Secondary), span(desc, SpanStyle::Muted)]
        };
        assert(spans_view(row@) =~= autocomplete_row(cmd.name@, cmd.description@, idx == selected));
        r.push(row);
        idx = idx + 1;
    }
    r
}

/// The lines the input text wraps to in a box `width` cells wide (none when it has no
/// width).
pub open spec fn input_lines(text: Seq<char>, width: u16) -> Seq<Seq<char>> {
    if width == 0 {
        Seq::empty()
    } else {
        wrapped(text, width as usize)
    }
}

pub fn wrapped_lines(text: &str, width: u16) -> (r: Vec<String>)
    ensures
        r@.map_values(|l: String| l@) == input_lines(text@, width),
{
    if width == 0 {
        return Vec::new();
    }
    wrap_text(text, width as usize)
}

/// The content of the input box: a grey placeholder while empty.
pub open spec fn input_content_view(input: Seq<char>) -> (Seq<char>, SpanStyle) {
    if input.len() == 0 {
        ("Ask anything... "@, SpanStyle::Muted)
    } else {
        (input, SpanStyle::Plain)
    }
}

pub fn input_content(input: &str) -> (r: StyledSpan)
    ensures
        r@ == input_content_view(input@),
{
    if str_chars(input).len() == 0 {
        span("Ask anything... ".to_string(), SpanStyle::Muted)
    } else {
        span(input.to_string(), SpanStyle::Plain)
    }
}

/// Where the input box puts its view and the terminal cursor.
pub struct InputCursor {
    /// First wrapped line shown.
    pub scroll_y: usize,
    pub x: u16,
    pub y: u16,
}

/// The cursor's line and column among the wrapped `lines`: the end of the last line
/// (the search for the line that holds the cursor offset always ends there).
pub open spec fn cursor_cell(lines: Seq<Seq<char>>) -> (int, int) {
    let total = if lines.len() > 1 { lines.len() as int } else { 1 };
    (total - 1, if lines.len() > 0 { lines.last().len() as int } else { 0 })
}

/// Place the input box's view and cursor: the view scrolls so the cursor line is the last
/// one shown, but not past the end of the text.
pub fn input_cursor(lines: &Vec<String>, cursor_chars: usize, inner_x: u16, inner_y: u16, inner_width: u16, inner_height: u16) -> (r: InputCursor)
    requires
        inner_x + inner_width <= u16::MAX,
        inner_y + inner_height <= u16::MAX,
    ensures
        ({
            let ls = lines@.map_values(|l: String| l@);
            let total = if ls.len() > 1 { ls.len() as int } else { 1 };
            let (line, col) = cursor_cell(ls);
            let up = if inner_height > 1 { inner_height - 1 } else { 0 };
            let a = if line > up { line - up } else { 0 };
            let b = if total > inner_height { total - inner_height } else { 0 };
            let scroll_y = if a < b { a } else { b };
            let row = if line > scroll_y { line - scroll_y } else { 0 };
            &&& r.scroll_y == scroll_y
            &&& r.x == inner_x + (if col < inner_width { col } else { inner_width as int })
            &&& r.y == inner_y + row
        }),
{
    let ghost ls = lines@.map_values(|l: String| l@);
    let n = lines.len();
    let total = if n > 1 {
        n
    } else {
        1
    };
    let mut idx: usize = 0;
    let mut found: (usize, usize) = (0, 0);
    let mut i: usize = 0;
    while i < n
        invariant
            i <= n == lines@.len(),
            ls == lines@.map_values(|l: String| l@),
            idx <= cursor_chars,
        decreases n - i,
    {
        let len = str_chars(&lines[i]).len();
        if cursor_chars - idx <= len {
            let off = cursor_chars - idx;
            found = (i, if off < len {
                off
            } else {
                len
            });
            break;
        }
        idx = idx + len;
        i = i + 1;
    }
    if cursor_chars >= idx {
        let last = if n > 0 {
            str_chars(&lines[n - 1]).len()
        } else {
            0
        };
        found = (total - 1, last);
    }
    let (line, col) = found;
    let up = if inner_height > 1 {
        inner_height as usize - 1
    } else {
        0
    };
    let a = line.saturating_sub(up);
    let b = total.saturating_sub(inner_height as usize);
    let scroll_y = if a < b {
        a
    } else {
        b
    };
    let row = line.saturating_sub(scroll_y);
    assert(row < (if inner_height > 1 { inner_height as int } else { 1 }));
    let x = if col < inner_width as usize {
        inner_x + col as u16
    } else {
        inner_x + inner_width
    };
    InputCursor { scroll_y, x, y: inner_y + row as u16 }
}

/// Lines of the input box.
pub const INPUT_LINES: u16 = 7;

/// Height of the input section below the history: the autocomplete list (when shown),
/// the input box, the suggestions and the bottom bar.
pub fn input_section_height(autocomplete_shown: bool) -> (r: u16)
    ensures
        r == if autocomplete_shown {
            AUTOCOMPLETE_VISIBLE_LINES + INPUT_LINES + 3
        } else {
            INPUT_LINES + 3
        },
{
    if autocomplete_shown {
        AUTOCOMPLETE_VISIBLE_LINES as u16 + INPUT_LINES + 3
    } else {
        INPUT_LINES + 3
    }
}

/// Height left for the welcome mascot in a centre area `total_height` rows high, with the
/// autocomplete list (`autocomplete_height` rows) and the error line shown or not; at
/// least four rows.
pub open spec fn mascot_height(total_height: u16, autocomplete_height: u16, has_error: bool) -> int {
    let base = 1 + INPUT_LINES + 1 + 1;
    let err = if has_error { 2int } else { 0int };
    let h = total_height - autocomplete_height - base - err;
    if h > 4 {
        h
    } else {
        4
    }
}

pub fn welcome_mascot_height(total_height: u16, autocomplete_height: u16, has_error: bool) -> (r: u16)
    ensures
        r == mascot_height(total_height, autocomplete_height, has_error),
{
    let base: u16 = 1 + INPUT_LINES + 1 + 1;
    let err: u16 = if has_error {
        2
    } else {
        0
    };
    let h = total_height.saturating_sub(autocomplete_height).saturating_sub(base).saturating_sub(err);
    if h > 4 {
        h
    } else {
        4
    }
}

/// Width of the centered input when in welcome (no conversation) mode.
pub const WELCOME_INPUT_WIDTH: u16 = 64;

/// The column and width of the welcome input, centred in an area.
pub fn welcome_input_span(area_x: u16, area_width: u16) -> (r: (u16, u16))
    requires
        area_x + area_width <= u16::MAX,
    ensures
        ({
            let w = if WELCOME_INPUT_WIDTH < area_width { WELCOME_INPUT_WIDTH } else { area_width };
            r.0 == area_x + (area_width - w) / 2 && r.1 == w
        }),
{
    let w = if WELCOME_INPUT_WIDTH < area_width {
        WELCOME_INPUT_WIDTH
    } else {
        area_width
    };
    (area_x + (area_width - w) / 2, w)
}

} // verus!
