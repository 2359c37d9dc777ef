//! Inline Markdown parsing: **bold**, `code`, headings, lists, tables, links.

use vstd::prelude::*;
use vstd::string::StrSliceExecFns;

use crate::chars::{
    char_is_ws, find_exec, find_from, is_ws, lemma_find_from, occurs_at, push_char, skip_ws,
    starts_with, str_chars, string_from_slice, string_of, subvec, trim, trim_bounds, trim_start,
};

verus! {

/// How a span is drawn; the theme maps each to concrete colours and modifiers.
#[derive(Debug, Clone, Copy, PartialEq, Eq, Structural)]
pub enum SpanStyle {
    /// Default style.
    Plain,
    /// Bold text.
    Bold,
    /// Accent colour (inline code, list markers, table separators).
    Accent,
    /// Accent colour, bold (headings).
    AccentBold,
    /// Accent colour, underlined (links).
    AccentUnderlined,
    /// Secondary accent colour (assistant borders, code blocks, tool arguments).
    Secondary,
    /// Dark grey (user borders, separators).
    Muted,
    /// Dark grey, italic (the thinking marker).
    MutedItalic,
    /// Red (error messages).
    Error,
    /// Yellow (the cancel hint while a request runs).
    Warning,
    /// Red, bold (form errors).
    ErrorBold,
    /// Black on the accent colour (the selected row of a list).
    Selected,
}

impl SpanStyle {
    /// The style carries the bold modifier.
    pub open spec fn bold(self) -> bool {
        self == SpanStyle::Bold || self == SpanStyle::AccentBold || self == SpanStyle::ErrorBold
    }

    pub fn is_bold(&self) -> (r: bool)
        ensures
            r == self.bold(),
    {
        match self {
            SpanStyle::Bold | SpanStyle::AccentBold | SpanStyle::ErrorBold => true,
            _ => false,
        }
    }
}

/// A run of text drawn with one style.
#[derive(Debug, Clone)]
pub struct StyledSpan {
    pub content: String,
    pub style: SpanStyle,
}

impl View for StyledSpan {
    type V = (Seq<char>, SpanStyle);

    open spec fn view(&self) -> (Seq<char>, SpanStyle) {
        (self.content@, self.style)
    }
}

/// The contents and styles of a list of spans.
pub open spec fn spans_view(v: Seq<StyledSpan>) -> Seq<(Seq<char>, SpanStyle)> {
    v.map_values(|x: StyledSpan| x@)
}

pub open spec fn plain(c: Seq<char>) -> (Seq<char>, SpanStyle) {
    (c, SpanStyle::Plain)
}

pub open spec fn stars() -> Seq<char> {
    seq!['*', '*']
}

pub open spec fn tick() -> Seq<char> {
    seq!['`']
}

pub open spec fn open_bracket() -> Seq<char> {
    seq!['[']
}

pub open spec fn close_bracket() -> Seq<char> {
    seq![']']
}

pub open spec fn close_paren() -> Seq<char> {
    seq![')']
}

pub open spec fn bar() -> Seq<char> {
    seq!['|']
}

/// The bullet that replaces a "- " or "* " list marker.
pub open spec fn bullet() -> Seq<char> {
    seq!['•', ' ']
}

/// The separator drawn between table cells.
pub open spec fn cell_separator() -> Seq<char> {
    seq![' ', '│', ' ']
}

/// "[text]", as shown for a bracket that does not open a complete link.
pub open spec fn bracketed(text: Seq<char>) -> Seq<char> {
    open_bracket() + text + close_bracket()
}

/// The first of the three inline markers at the given positions: `(kind, position)` with
/// kind 0 for "**", 1 for "`", 2 for "["; on equal positions the earlier kind wins.
pub open spec fn first_marker(b: Option<int>, c: Option<int>, l: Option<int>) -> Option<(int, int)> {
    match (b, c, l) {
        (None, None, None) => None,
        (Some(b), None, None) => Some((0, b)),
        (None, Some(c), None) => Some((1, c)),
        (None, None, Some(l)) => Some((2, l)),
        (Some(b), Some(c), None) => if b <= c {
            Some((0, b))
        } else {
            Some((1, c))
        },
        (Some(b), None, Some(l)) => if b <= l {
            Some((0, b))
        } else {
            Some((2, l))
        },
        (None, Some(c), Some(l)) => if c <= l {
            Some((1, c))
        } else {
            Some((2, l))
        },
        (Some(b), Some(c), Some(l)) => if b <= c && b <= l {
            Some((0, b))
        } else if c <= l {
            Some((1, c))
        } else {
            Some((2, l))
        },
    }
}

/// The next inline marker in `s` at or after `i`.
pub open spec fn next_marker(s: Seq<char>, i: int) -> Option<(int, int)> {
    first_marker(find_from(s, stars(), i), find_from(s, tick(), i), find_from(s, open_bracket(), i))
}

/// Spans of `s[i..]` for **bold**, `code` and [text](url): plain text up to the next marker;
/// a marker without its closing counterpart is kept as plain text.
pub open spec fn inline_from(s: Seq<char>, i: int) -> Seq<(Seq<char>, SpanStyle)>
    decreases s.len() - i,
{
    if i < 0 || i >= s.len() {
        seq![]
    } else {
        proof {
            lemma_find_from(s, stars(), i);
            lemma_find_from(s, tick(), i);
            lemma_find_from(s, open_bracket(), i);
        }
        match next_marker(s, i) {
            None => seq![plain(s.subrange(i, s.len() as int))],
            Some((kind, pos)) => {
                let pre = if pos > i {
                    seq![plain(s.subrange(i, pos))]
                } else {
                    seq![]
                };
                if kind == 0 {
                    let j = pos + 2;
                    proof {
                        lemma_find_from(s, stars(), j);
                    }
                    match find_from(s, stars(), j) {
                        Some(e) => pre + seq![(s.subrange(j, e), SpanStyle::Bold)] + inline_from(
                            s,
                            e + 2,
                        ),
                        None => pre + seq![plain(stars())] + inline_from(s, j),
                    }
                } else if kind == 1 {
                    let j = pos + 1;
                    proof {
                        lemma_find_from(s, tick(), j);
                    }
                    match find_from(s, tick(), j) {
                        Some(e) => pre + seq![(s.subrange(j, e), SpanStyle::Accent)] + inline_from(
                            s,
                            e + 1,
                        ),
                        None => pre + seq![plain(tick())] + inline_from(s, j),
                    }
                } else {
                    let j = pos + 1;
                    proof {
                        lemma_find_from(s, close_bracket(), j);
                    }
                    match find_from(s, close_bracket(), j) {
                        Some(eb) => {
                            let text = s.subrange(j, eb);
                            let k = eb + 1;
                            if k < s.len() && s[k] == '(' {
                                proof {
                                    lemma_find_from(s, close_paren(), k + 1);
                                }
                                match find_from(s, close_paren(), k + 1) {
                                    Some(ep) => pre + seq![(text, SpanStyle::AccentUnderlined)]
                                        + inline_from(s, ep + 1),
                                    None => pre + seq![plain(bracketed(text))] + inline_from(
                                        s,
                                        k + 1,
                                    ),
                                }
                            } else {
                                pre + seq![plain(bracketed(text))] + inline_from(s, k)
                            }
                        },
                        None => pre + seq![plain(open_bracket())] + inline_from(s, j),
                    }
                }
            },
        }
    }
}

/// `s` without its leading '#' characters (`str::trim_start_matches('#')`).
pub open spec fn drop_hashes(s: Seq<char>) -> Seq<char>
    decreases s.len(),
{
    if s.len() > 0 && s[0] == '#' {
        drop_hashes(s.drop_first())
    } else {
        s
    }
}

/// Number of leading ASCII digits of `s`.
pub open spec fn digit_count(s: Seq<char>) -> nat
    decreases s.len(),
{
    if s.len() > 0 && '0' <= s[0] && s[0] <= '9' {
        1 + digit_count(s.drop_first())
    } else {
        0
    }
}

/// "N. " or "N) " at the start of `s` (after leading whitespace): the number and the rest.
pub open spec fn numbered_prefix(s: Seq<char>) -> Option<(Seq<char>, Seq<char>)> {
    let t = trim_start(s);
    let d = digit_count(t);
    let rest = t.skip(d as int);
    if d > 0 && (starts_with(rest, seq!['.', ' ']) || starts_with(rest, seq![')', ' '])) {
        Some((t.take(d as int), rest.skip(2)))
    } else {
        None
    }
}

/// The trimmed, non-empty pieces of `s[i..]` between '|' separators.
pub open spec fn cells_from(s: Seq<char>, i: int) -> Seq<Seq<char>>
    decreases s.len() - i,
{
    if i < 0 || i > s.len() {
        seq![]
    } else {
        proof {
            lemma_find_from(s, bar(), i);
        }
        let end = match find_from(s, bar(), i) {
            Some(k) => k,
            None => s.len() as int,
        };
        let cell = trim(s.subrange(i, end));
        let here = if cell.len() > 0 {
            seq![cell]
        } else {
            seq![]
        };
        match find_from(s, bar(), i) {
            Some(k) => here + cells_from(s, k + 1),
            None => here,
        }
    }
}

/// Spans of a table row: the cells' inline spans, separated by " │ ".
pub open spec fn table_spans(cells: Seq<Seq<char>>) -> Seq<(Seq<char>, SpanStyle)>
    decreases cells.len(),
{
    if cells.len() == 0 {
        seq![]
    } else {
        let sep = if cells.len() > 1 {
            seq![(cell_separator(), SpanStyle::Accent)]
        } else {
            seq![]
        };
        table_spans(cells.drop_last()) + sep + inline_from(cells.last(), 0)
    }
}

/// Spans of one line of Markdown: a heading, a bullet item, a table row, a numbered
/// item, or else inline text.
pub open spec fn markdown_line(s: Seq<char>) -> Seq<(Seq<char>, SpanStyle)> {
    let t = trim_start(s);
    if t.len() > 0 && t[0] == '#' {
        let content = trim_start(drop_hashes(t));
        if content.len() > 0 {
            seq![(content, SpanStyle::AccentBold)]
        } else {
            seq![]
        }
    } else if starts_with(t, seq!['-', ' ']) || starts_with(t, seq!['*', ' ']) {
        seq![(bullet(), SpanStyle::Accent)] + inline_from(t.skip(2), 0)
    } else if t.len() > 0 && t[0] == '|' && cells_from(t, 0).len() > 0 {
        table_spans(cells_from(t, 0))
    } else {
        match numbered_prefix(t) {
            Some((num, rest)) => seq![(num.push(' '), SpanStyle::Accent)] + inline_from(rest, 0),
            None => inline_from(s, 0),
        }
    }
}

pub proof fn lemma_trim_start_idem(s: Seq<char>)
    ensures
        trim_start(trim_start(s)) == trim_start(s),
    decreases s.len(),
{
    if s.len() > 0 && is_ws(s[0]) {
        lemma_trim_start_idem(s.drop_first());
    }
}

fn span(content: String, style: SpanStyle) -> (r: StyledSpan)
    ensures
        r@ == (content@, style),
{
    StyledSpan { content, style }
}

/// `next_marker` computed on a vector.
fn next_marker_exec(v: &Vec<char>, i: usize) -> (r: Option<(usize, usize)>)
    ensures
        match r {
            Some((k, p)) => next_marker(v@, i as int) == Some((k as int, p as int)),
            None => next_marker(v@, i as int) is None,
        },
{
    let stars_pat: [char; 2] = ['*', '*'];
    let tick_pat: [char; 1] = ['`'];
    let open_pat: [char; 1] = ['['];
    assert(stars_pat@ == stars());
    assert(tick_pat@ == tick());
    assert(open_pat@ == open_bracket());
    let b = find_exec(v, &stars_pat, i);
    let c = find_exec(v, &tick_pat, i);
    let l = find_exec(v, &open_pat, i);
    match (b, c, l) {
        (None, None, None) => None,
        (Some(b), None, None) => Some((0, b)),
        (None, Some(c), None) => Some((1, c)),
        (None, None, Some(l)) => Some((2, l)),
        (Some(b), Some(c), None) => if b <= c {
            Some((0, b))
        } else {
            Some((1, c))
        },
        (Some(b), None, Some(l)) => if b <= l {
            Some((0, b))
        } else {
            Some((2, l))
        },
        (None, Some(c), Some(l)) => if c <= l {
            Some((1, c))
        } else {
            Some((2, l))
        },
        (Some(b), Some(c), Some(l)) => if b <= c && b <= l {
            Some((0, b))
        } else if c <= l {
            Some((1, c))
        } else {
            Some((2, l))
        },
    }
}

/// One step of `inline_from` at a "**" marker found at `pos`.
fn step_bold(v: &Vec<char>, i: usize, pos: usize, spans: &mut Vec<StyledSpan>) -> (next: usize)
    requires
        i < v@.len(),
        next_marker(v@, i as int) == Some((0int, pos as int)),
    ensures
        i < next <= v@.len(),
        spans_view(final(spans)@) + inline_from(v@, next as int) == spans_view(old(spans)@)
            + inline_from(v@, i as int),
{
    let ghost s = v@;
    proof {
        lemma_find_from(s, stars(), i as int);
        lemma_find_from(s, tick(), i as int);
        lemma_find_from(s, open_bracket(), i as int);
    }
    let stars_pat: [char; 2] = ['*', '*'];
    assert(stars_pat@ == stars());
    assert(occurs_at(s, stars(), pos as int));
    assert(stars().len() == 2 && pos + 2 <= v.len());
    if pos > i {
        spans.push(span(string_of(v, i, pos), SpanStyle::Plain));
    }
    let j = pos + 2;
    proof {
        lemma_find_from(s, stars(), j as int);
    }
    match find_exec(v, &stars_pat, j) {
        Some(e) => {
            assert(occurs_at(s, stars(), e as int));
    assert(stars().len() == 2 && e + 2 <= v.len());
            spans.push(span(string_of(v, j, e), SpanStyle::Bold));
            e + 2
        },
        None => {
            spans.push(span(string_from_slice(&stars_pat), SpanStyle::Plain));
            j
        },
    }
}

/// One step of `inline_from` at a "`" marker found at `pos`.
fn step_code(v: &Vec<char>, i: usize, pos: usize, spans: &mut Vec<StyledSpan>) -> (next: usize)
    requires
        i < v@.len(),
        next_marker(v@, i as int) == Some((1int, pos as int)),
    ensures
        i < next <= v@.len(),
        spans_view(final(spans)@) + inline_from(v@, next as int) == spans_view(old(spans)@)
            + inline_from(v@, i as int),
{
    let ghost s = v@;
    proof {
        lemma_find_from(s, stars(), i as int);
        lemma_find_from(s, tick(), i as int);
        lemma_find_from(s, open_bracket(), i as int);
    }
    let tick_pat: [char; 1] = ['`'];
    assert(tick_pat@ == tick());
    assert(occurs_at(s, tick(), pos as int));
    assert(tick().len() == 1 && pos + 1 <= v.len());
    if pos > i {
        spans.push(span(string_of(v, i, pos), SpanStyle::Plain));
    }
    let j = pos + 1;
    proof {
        lemma_find_from(s, tick(), j as int);
    }
    match find_exec(v, &tick_pat, j) {
        Some(e) => {
            assert(occurs_at(s, tick(), e as int));
    assert(tick().len() == 1 && e + 1 <= v.len());
            spans.push(span(string_of(v, j, e), SpanStyle::Accent));
            e + 1
        },
        None => {
            spans.push(span(string_from_slice(&tick_pat), SpanStyle::Plain));
            j
        },
    }
}

/// "[text]" built from `v[j..eb]`.
fn bracketed_string(v: &Vec<char>, j: usize, eb: usize) -> (t: String)
    requires
        j <= eb <= v@.len(),
    ensures
        t@ == bracketed(v@.subrange(j as int, eb as int)),
{
    let mut t = String::new();
    push_char(&mut t, '[');
    let inner = string_of(v, j, eb);
    t.append(inner.as_str());
    push_char(&mut t, ']');
    t
}

/// One step of `inline_from` at a "[" marker found at `pos`.
fn step_link(v: &Vec<char>, i: usize, pos: usize, spans: &mut Vec<StyledSpan>) -> (next: usize)
    requires
        i < v@.len(),
        next_marker(v@, i as int) == Some((2int, pos as int)),
    ensures
        i < next <= v@.len(),
        spans_view(final(spans)@) + inline_from(v@, next as int) == spans_view(old(spans)@)
            + inline_from(v@, i as int),
{
    let ghost s = v@;
    proof {
        lemma_find_from(s, stars(), i as int);
        lemma_find_from(s, tick(), i as int);
        lemma_find_from(s, open_bracket(), i as int);
    }
    let open_pat: [char; 1] = ['['];
    let close_pat: [char; 1] = [']'];
    let paren_pat: [char; 1] = [')'];
    assert(open_pat@ == open_bracket());
    assert(close_pat@ == close_bracket());
    assert(paren_pat@ == close_paren());
    assert(occurs_at(s, open_bracket(), pos as int));
    assert(open_bracket().len() == 1 && pos + 1 <= v.len());
    if pos > i {
        spans.push(span(string_of(v, i, pos), SpanStyle::Plain));
    }
    let j = pos + 1;
    proof {
        lemma_find_from(s, close_bracket(), j as int);
    }
    match find_exec(v, &close_pat, j) {
        Some(eb) => {
            assert(occurs_at(s, close_bracket(), eb as int));
    assert(close_bracket().len() == 1 && eb + 1 <= v.len());
            let k = eb + 1;
            if k < v.len() && v[k] == '(' {
                proof {
                    lemma_find_from(s, close_paren(), k + 1);
                }
                match find_exec(v, &paren_pat, k + 1) {
                    Some(ep) => {
                        assert(occurs_at(s, close_paren(), ep as int));
    assert(close_paren().len() == 1 && ep + 1 <= v.len());
                        spans.push(span(string_of(v, j, eb), SpanStyle::AccentUnderlined));
                        ep + 1
                    },
                    None => {
                        spans.push(span(bracketed_string(v, j, eb), SpanStyle::Plain));
                        k + 1
                    },
                }
            } else {
                spans.push(span(bracketed_string(v, j, eb), SpanStyle::Plain));
                k
            }
        },
        None => {
            spans.push(span(string_from_slice(&open_pat), SpanStyle::Plain));
            j
        },
    }
}

/// Inline spans of a whole character vector.
fn inline_spans(v: &Vec<char>) -> (r: Vec<StyledSpan>)
    ensures
        spans_view(r@) == inline_from(v@, 0),
{
    let mut spans: Vec<StyledSpan> = Vec::new();
    let mut i: usize = 0;
    while i < v.len()
        invariant
            i <= v@.len(),
            spans_view(spans@) + inline_from(v@, i as int) == inline_from(v@, 0),
        decreases v@.len() - i,
    {
        match next_marker_exec(v, i) {
            None => {
                let ghost before = spans@;
                spans.push(span(string_of(v, i, v.len()), SpanStyle::Plain));
                assert(spans_view(spans@) == spans_view(before) + inline_from(v@, i as int));
                i = v.len();
            },
            Some((kind, pos)) => {
                if kind == 0 {
                    i = step_bold(v, i, pos, &mut spans);
                } else if kind == 1 {
                    i = step_code(v, i, pos, &mut spans);
                } else {
                    proof {
                        lemma_find_from(v@, stars(), i as int);
                        lemma_find_from(v@, tick(), i as int);
                        lemma_find_from(v@, open_bracket(), i as int);
                    }
                    i = step_link(v, i, pos, &mut spans);
                }
            },
        }
    }
    assert(inline_from(v@, i as int) == Seq::<(Seq<char>, SpanStyle)>::empty());
    spans
}

/// Parse **bold**, `code`, [text](url) in the rest of a line.
pub fn parse_markdown_inline_inner(s: &str) -> (r: Vec<StyledSpan>)
    ensures
        spans_view(r@) == inline_from(s@, 0),
{
    let v = str_chars(s);
    inline_spans(&v)
}

/// End of the run of ASCII digits of `v` that starts at `a`.
fn digits_end(v: &Vec<char>, a: usize) -> (h: usize)
    requires
        a <= v@.len(),
    ensures
        a <= h <= v@.len(),
        digit_count(v@.subrange(a as int, v@.len() as int)) == h - a,
{
    let mut h: usize = a;
    while h < v.len() && '0' <= v[h] && v[h] <= '9'
        invariant
            a <= h <= v@.len(),
            digit_count(v@.subrange(a as int, v@.len() as int)) == (h - a) + digit_count(
                v@.subrange(h as int, v@.len() as int),
            ),
        decreases v@.len() - h,
    {
        assert(v@.subrange(h as int, v@.len() as int).drop_first() == v@.subrange(
            h + 1,
            v@.len() as int,
        ));
        h = h + 1;
    }
    h
}

/// `v[i..]` starts with the two characters `c1`, `c2`.
fn starts_with_pair(v: &Vec<char>, i: usize, c1: char, c2: char) -> (r: bool)
    requires
        i <= v@.len(),
    ensures
        r == starts_with(v@.subrange(i as int, v@.len() as int), seq![c1, c2]),
        r ==> i + 2 <= v@.len(),
{
    let ghost t = v@.subrange(i as int, v@.len() as int);
    if v.len() >= 2 && i <= v.len() - 2 && v[i] == c1 && v[i + 1] == c2 {
        assert(t.subrange(0, 2) =~= seq![c1, c2]);
        true
    } else {
        if v.len() >= 2 && i <= v.len() - 2 {
            assert(t.subrange(0, 2)[0] == v@[i as int]);
            assert(t.subrange(0, 2)[1] == v@[i + 1]);
        }
        false
    }
}

/// The position of the digits and of the rest for `numbered_prefix` of `v[a..]`,
/// where `v[a..]` does not start with whitespace.
fn numbered_prefix_at(v: &Vec<char>, a: usize) -> (r: Option<(usize, usize)>)
    requires
        a <= v@.len(),
        trim_start(v@.subrange(a as int, v@.len() as int)) == v@.subrange(a as int, v@.len() as int),
    ensures
        match r {
            Some((d, b)) => a < d && d + 2 == b && b <= v@.len() && numbered_prefix(
                v@.subrange(a as int, v@.len() as int),
            ) == Some(
                (
                    v@.subrange(a as int, d as int),
                    v@.subrange(b as int, v@.len() as int),
                ),
            ),
            None => numbered_prefix(v@.subrange(a as int, v@.len() as int)) is None,
        },
{
    let ghost t = v@.subrange(a as int, v@.len() as int);
    let d = digits_end(v, a);
    assert(t.skip(d - a) =~= v@.subrange(d as int, v@.len() as int));
    assert(t.take(d - a) =~= v@.subrange(a as int, d as int));
    if d > a && (starts_with_pair(v, d, '.', ' ') || starts_with_pair(v, d, ')', ' ')) {
        assert(v@.subrange(d as int, v@.len() as int).skip(2) =~= v@.subrange(
            d + 2,
            v@.len() as int,
        ));
        assert(d + 2 <= v.len());
        Some((d, d + 2))
    } else {
        None
    }
}

/// Parse "N. " or "N) " at start. Returns (number, rest) or None.
pub fn parse_numbered_list_prefix(s: &str) -> (r: Option<(&str, &str)>)
    ensures
        match r {
            Some((num, rest)) => numbered_prefix(s@) == Some((num@, rest@)),
            None => numbered_prefix(s@) is None,
        },
{
    let v = str_chars(s);
    let a = skip_ws(&v, 0, v.len());
    assert(v@.subrange(0, v@.len() as int) == v@);
    proof {
        lemma_trim_start_idem(v@);
    }
    match numbered_prefix_at(&v, a) {
        Some((d, b)) => Some((s.substring_char(a, d), s.substring_char(b, v.len()))),
        None => None,
    }
}

/// The trimmed, non-empty cells of the table row `t`.
fn table_cells(t: &Vec<char>) -> (r: Vec<Vec<char>>)
    ensures
        r@.map_values(|c: Vec<char>| c@) == cells_from(t@, 0),
{
    let bar_pat: [char; 1] = ['|'];
    assert(bar_pat@ == bar());
    let mut cells: Vec<Vec<char>> = Vec::new();
    let mut i: usize = 0;
    loop
        invariant
            i <= t@.len(),
            bar_pat@ == bar(),
            cells@.map_values(|c: Vec<char>| c@) + cells_from(t@, i as int) == cells_from(t@, 0),
        decreases t@.len() - i,
    {
        let ghost before = cells@;
        proof {
            lemma_find_from(t@, bar(), i as int);
        }
        let found = find_exec(t, &bar_pat, i);
        let end = match found {
            Some(k) => k,
            None => t.len(),
        };
        let (x, y) = trim_bounds(t, i, end);
        if x < y {
            cells.push(subvec(t, x, y));
        }
        match found {
            Some(k) => {
                assert(occurs_at(t@, bar(), k as int));
                assert(bar().len() == 1 && k + 1 <= t.len());
                assert(cells@.map_values(|c: Vec<char>| c@) + cells_from(t@, k + 1) == before.map_values(
                    |c: Vec<char>| c@,
                ) + cells_from(t@, i as int));
                i = k + 1;
            },
            None => {
                assert(cells@.map_values(|c: Vec<char>| c@) == before.map_values(
                    |c: Vec<char>| c@,
                ) + cells_from(t@, i as int));
                return cells;
            },
        }
    }
}

/// Spans of a table row with the given cells.
fn table_row_spans(cells: &Vec<Vec<char>>) -> (r: Vec<StyledSpan>)
    ensures
        spans_view(r@) == table_spans(cells@.map_values(|c: Vec<char>| c@)),
{
    let ghost cv = cells@.map_values(|c: Vec<char>| c@);
    let sep: [char; 3] = [' ', '│', ' '];
    assert(sep@ == cell_separator());
    let mut spans: Vec<StyledSpan> = Vec::new();
    let mut k: usize = 0;
    assert(cv.take(0) =~= Seq::<Seq<char>>::empty());
    while k < cells.len()
        invariant
            k <= cells@.len(),
            cv == cells@.map_values(|c: Vec<char>| c@),
            sep@ == cell_separator(),
            spans_view(spans@) == table_spans(cv.take(k as int)),
        decreases cells@.len() - k,
    {
        let ghost before = spans@;
        if k > 0 {
            spans.push(span(string_from_slice(&sep), SpanStyle::Accent));
        }
        let mut more = inline_spans(&cells[k]);
        spans.append(&mut more);
        assert(cv.take(k + 1).drop_last() =~= cv.take(k as int));
        assert(cv.take(k + 1).last() == cells@[k as int]@);
        assert(spans_view(spans@) =~= table_spans(cv.take(k + 1)));
        k = k + 1;
    }
    assert(cv.take(cells@.len() as int) =~= cv);
    spans
}

/// Parse inline Markdown: **bold**, `code`, headings, bullet/numbered lists, [links](url).
pub fn parse_markdown_inline(s: &str) -> (r: Vec<StyledSpan>)
    ensures
        spans_view(r@) == markdown_line(s@),
{
    let v = str_chars(s);
    let len = v.len();
    let a = skip_ws(&v, 0, len);
    assert(v@.subrange(0, len as int) == v@);
    let ghost t = v@.subrange(a as int, len as int);
    assert(t == trim_start(s@));
    let mut spans: Vec<StyledSpan> = Vec::new();
    // Heading: starts with one or more #
    if a < len && v[a] == '#' {
        let mut h: usize = a;
        while h < len && v[h] == '#'
            invariant
                a <= h <= len == v@.len(),
                drop_hashes(v@.subrange(h as int, len as int)) == drop_hashes(t),
            decreases len - h,
        {
            assert(v@.subrange(h as int, len as int).drop_first() == v@.subrange(h + 1, len as int));
            h = h + 1;
        }
        let c = skip_ws(&v, h, len);
        if c < len {
            spans.push(span(string_of(&v, c, len), SpanStyle::AccentBold));
        }
        return spans;
    }
    // Bullet list: - or * at line start
    if starts_with_pair(&v, a, '-', ' ') || starts_with_pair(&v, a, '*', ' ') {
        let b: [char; 2] = ['•', ' '];
        assert(b@ == bullet());
        spans.push(span(string_from_slice(&b), SpanStyle::Accent));
        let rest = subvec(&v, a + 2, len);
        assert(rest@ == t.skip(2));
        let mut more = inline_spans(&rest);
        spans.append(&mut more);
        return spans;
    }
    // Table row: | cell1 | cell2 |
    if a < len && v[a] == '|' {
        let tv = subvec(&v, a, len);
        let cells = table_cells(&tv);
        if cells.len() > 0 {
            return table_row_spans(&cells);
        }
    }
    // Numbered list: 1. 2. etc. at line start
    proof {
        lemma_trim_start_idem(v@);
    }
    match numbered_prefix_at(&v, a) {
        Some((d, b)) => {
            let mut num = string_of(&v, a, d);
            push_char(&mut num, ' ');
            spans.push(span(num, SpanStyle::Accent));
            let rest = subvec(&v, b, len);
            let mut more = inline_spans(&rest);
            spans.append(&mut more);
            spans
        },
        None => inline_spans(&v),
    }
}

} // verus!
