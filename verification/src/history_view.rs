//! Layout of the chat history: each message as a bordered block (with code blocks and
//! inline Markdown), tool-call lines, the thinking marker, and the window of lines that
//! the current scroll position shows.

use vstd::prelude::*;

use crate::app_state::{App, MsgView, ScrollPosition, visible_top};
use crate::chars::{
    find_exec, push_char, push_text, str_chars, string_of, trim, trim_start, trimmed_string,
};
use crate::markdown::{SpanStyle, StyledSpan, markdown_line, parse_markdown_inline, spans_view};
use crate::segments::{MessageSegment, SegmentView, parse_message_segments, segments_from};
use crate::wrap::{lines_of, wrap_lines, wrap_message};

verus! {

broadcast use vstd::string::group_string_axioms;

/// A display line: its spans' texts and styles.
pub type LineView = Seq<(Seq<char>, SpanStyle)>;

/// The views of a list of display lines.
pub open spec fn lines_view(v: Seq<Vec<StyledSpan>>) -> Seq<LineView> {
    v.map_values(|l: Vec<StyledSpan>| spans_view(l@))
}

/// The views of a list of strings.
pub open spec fn texts(v: Seq<String>) -> Seq<Seq<char>> {
    v.map_values(|l: String| l@)
}

/// `a - b`, or 0 when `b` is larger (`usize::saturating_sub`).
pub open spec fn sat_sub(a: int, b: int) -> nat {
    if a > b {
        (a - b) as nat
    } else {
        0
    }
}

/// `n` copies of `c`.
pub open spec fn repeated(c: char, n: nat) -> Seq<char> {
    Seq::new(n, |i: int| c)
}

/// Repeat a character to fill width.
pub fn repeat_char(c: char, n: usize) -> (r: String)
    ensures
        r@ == repeated(c, n as nat),
{
    let mut r = String::new();
    let mut i: usize = 0;
    while i < n
        invariant
            i <= n,
            r@ == repeated(c, i as nat),
        decreases n - i,
    {
        push_char(&mut r, c);
        assert(r@ =~= repeated(c, (i + 1) as nat));
        i = i + 1;
    }
    r
}

fn sp(content: String, style: SpanStyle) -> (r: StyledSpan)
    ensures
        r@ == (content@, style),
{
    StyledSpan { content, style }
}

/// Number of characters of `s`.
fn char_len(s: &str) -> (r: usize)
    ensures
        r == s@.len(),
{
    str_chars(s).len()
}

/// `a - b` or 0.
fn saturating(a: usize, b: usize) -> (r: usize)
    ensures
        r == sat_sub(a as int, b as int),
{
    if a > b {
        a - b
    } else {
        0
    }
}

/// The decimal digit for `d` (below 10).
pub open spec fn digit(d: int) -> char {
    crate::chars::digit_char(d as nat)
}

/// `n` (below 100) as two digits, with a leading zero (`{:02}`).
pub open spec fn two_digits(n: int) -> Seq<char> {
    seq![digit(n / 10), digit(n % 10)]
}

fn push_two_digits(s: &mut String, n: u64)
    requires
        n < 100,
    ensures
        final(s)@ == old(s)@ + two_digits(n as int),
{
    let tens = n / 10;
    let ones = n % 10;
    let mut t = String::new();
    crate::chars::push_decimal(&mut t, tens);
    crate::chars::push_decimal(&mut t, ones);
    assert(crate::chars::decimal(tens as nat) == seq![digit(tens as int)]);
    assert(crate::chars::decimal(ones as nat) == seq![digit(ones as int)]);
    push_text(s, &t);
}

/// The time of day (UTC) of a Unix timestamp, as `HH:MM`.
pub open spec fn clock_time(unix_secs: u64) -> Seq<char> {
    two_digits(((unix_secs % 86400) / 3600) as int) + seq![':'] + two_digits(
        ((unix_secs % 3600) / 60) as int,
    )
}

/// The label at the start of a block's top border: `┌─ Label ` or `┌─ Label HH:MM `.
pub open spec fn top_label(label: Seq<char>, timestamp: Option<u64>) -> Seq<char> {
    match timestamp {
        Some(t) => "┌─ "@ + label + seq![' '] + clock_time(t) + seq![' '],
        None => "┌─ "@ + label + seq![' '],
    }
}

/// A border line: `head`, then `─` up to `width` less one, then `┐`.
pub open spec fn bordered(head: Seq<char>, width: usize) -> Seq<char> {
    head + repeated('─', sat_sub(width as int, head.len() + 1int)) + seq!['┐']
}

/// The top border of a message block.
pub open spec fn top_border(label: Seq<char>, timestamp: Option<u64>, wrap_width: usize) -> Seq<char> {
    bordered(top_label(label, timestamp), wrap_width)
}

/// A closing border `└──…┘` of `width` characters (at least the two corners).
pub open spec fn bottom_border(width: usize) -> Seq<char> {
    seq!['└'] + repeated('─', sat_sub(width as int, 2)) + seq!['┘']
}

fn bordered_exec(mut head: String, width: usize) -> (r: String)
    ensures
        r@ == bordered(head@, width),
{
    let n = char_len(&head);
    let trail = if width > n {
        width - n - 1
    } else {
        0
    };
    let rule = repeat_char('─', trail);
    push_text(&mut head, &rule);
    push_char(&mut head, '┐');
    head
}

fn bottom_border_exec(width: usize) -> (r: String)
    ensures
        r@ == bottom_border(width),
{
    let mut s = String::new();
    push_char(&mut s, '└');
    let rule = repeat_char('─', saturating(width, 2));
    push_text(&mut s, &rule);
    push_char(&mut s, '┘');
    s
}

/// The style of a block's border: grey for the user, the secondary accent for the
/// assistant.
pub open spec fn border_style(is_user: bool) -> SpanStyle {
    if is_user {
        SpanStyle::Muted
    } else {
        SpanStyle::Secondary
    }
}

/// A line of message text: the border, an indent, then the chunk as inline Markdown,
/// or in red for an error message.
pub open spec fn text_line(chunk: Seq<char>, is_error: bool, border: SpanStyle) -> LineView {
    seq![("│ "@, border), ("  "@, SpanStyle::Plain)] + if is_error {
        seq![(chunk, if chunk.len() == 0 { SpanStyle::Plain } else { SpanStyle::Error })]
    } else {
        markdown_line(chunk)
    }
}

/// The lines of message text chunks.
pub open spec fn text_lines(chunks: Seq<Seq<char>>, is_error: bool, border: SpanStyle) -> Seq<
    LineView,
>
    decreases chunks.len(),
{
    if chunks.len() == 0 {
        Seq::empty()
    } else {
        text_lines(chunks.drop_last(), is_error, border).push(
            text_line(chunks.last(), is_error, border),
        )
    }
}

/// A line of a code block.
pub open spec fn code_line(chunk: Seq<char>, border: SpanStyle) -> LineView {
    seq![("│ "@, border), ("│ "@, SpanStyle::Secondary), (chunk, SpanStyle::Secondary)]
}

/// The lines of code chunks.
pub open spec fn code_lines(chunks: Seq<Seq<char>>, border: SpanStyle) -> Seq<LineView>
    decreases chunks.len(),
{
    if chunks.len() == 0 {
        Seq::empty()
    } else {
        code_lines(chunks.drop_last(), border).push(code_line(chunks.last(), border))
    }
}

/// The header line of a code block: `┌─ lang ──┐` (`code` when no language is given).
pub open spec fn code_header(lang: Seq<char>, inner_width: usize, border: SpanStyle) -> LineView {
    let label = if lang.len() == 0 {
        "code"@
    } else {
        lang
    };
    seq![("│ "@, border), (bordered("┌─ "@ + label + seq![' '], inner_width), SpanStyle::Secondary)]
}

/// The lines of one segment of a message.
pub open spec fn segment_lines(
    seg: SegmentView,
    content_width: usize,
    is_error: bool,
    border: SpanStyle,
) -> Seq<LineView> {
    match seg {
        SegmentView::Text(t) => if trim(t).len() == 0 {
            Seq::empty()
        } else {
            text_lines(wrap_lines(lines_of(trim(t)), content_width), is_error, border)
        },
        SegmentView::CodeBlock { lang, code } => {
            let inner = sat_sub(content_width as int, 2) as usize;
            seq![code_header(lang, inner, border)] + code_lines(
                wrap_lines(lines_of(code), inner),
                border,
            ) + seq![seq![("│ "@, border), (bottom_border(inner), SpanStyle::Secondary)]]
        },
    }
}

/// The lines of a message's segments, in order.
pub open spec fn segments_lines(
    segs: Seq<SegmentView>,
    content_width: usize,
    is_error: bool,
    border: SpanStyle,
) -> Seq<LineView>
    decreases segs.len(),
{
    if segs.len() == 0 {
        Seq::empty()
    } else {
        segments_lines(segs.drop_last(), content_width, is_error, border) + segment_lines(
            segs.last(),
            content_width,
            is_error,
            border,
        )
    }
}

/// Parameters for rendering a message block.
pub struct MessageBlockParams<'a> {
    pub label: &'a str,
    pub content: &'a str,
    pub content_width: usize,
    pub wrap_width: usize,
    pub is_error: bool,
    pub is_user: bool,
    pub stream_cursor: bool,
    /// Unix timestamp (seconds) when message was created; None for loaded history.
    pub timestamp: Option<u64>,
}

/// The lines of a message block: top border with label (and time), the content's
/// segments, the streaming cursor, the bottom border, and a separator.
pub open spec fn block_lines(
    label: Seq<char>,
    content: Seq<char>,
    content_width: usize,
    wrap_width: usize,
    is_error: bool,
    is_user: bool,
    stream_cursor: bool,
    timestamp: Option<u64>,
) -> Seq<LineView> {
    let border = border_style(is_user);
    seq![seq![(top_border(label, timestamp, wrap_width), border)]] + segments_lines(
        segments_from(content, 0),
        content_width,
        is_error,
        border,
    ) + (if stream_cursor {
        seq![seq![("│ "@, border), ("  ▌ "@, SpanStyle::Secondary)]]
    } else {
        Seq::empty()
    }) + seq![
        seq![(bottom_border(wrap_width), border)],
        seq![(repeated('─', wrap_width as nat), SpanStyle::Muted)],
    ]
}

/// Append the lines of text chunks.
fn push_text_lines(
    lines: &mut Vec<Vec<StyledSpan>>,
    chunks: &Vec<String>,
    is_error: bool,
    border: SpanStyle,
)
    ensures
        lines_view(final(lines)@) == lines_view(old(lines)@) + text_lines(
            texts(chunks@),
            is_error,
            border,
        ),
{
    let ghost cs = texts(chunks@);
    let mut i: usize = 0;
    while i < chunks.len()
        invariant
            i <= chunks@.len(),
            cs == texts(chunks@),
            lines_view(lines@) == lines_view(old(lines)@) + text_lines(
                cs.take(i as int),
                is_error,
                border,
            ),
        decreases chunks@.len() - i,
    {
        let chunk = &chunks[i];
        let mut line: Vec<StyledSpan> = Vec::new();
        line.push(sp("│ ".to_string(), border));
        line.push(sp("  ".to_string(), SpanStyle::Plain));
        if is_error {
            let style = if char_len(chunk) == 0 {
                SpanStyle::Plain
            } else {
                SpanStyle::Error
            };
            line.push(sp(chunk.clone(), style));
        } else {
            let mut md = parse_markdown_inline(chunk);
            line.append(&mut md);
        }
        assert(spans_view(line@) =~= text_line(cs[i as int], is_error, border));
        let ghost before = lines@;
        lines.push(line);
        assert(cs.take(i + 1).drop_last() == cs.take(i as int));
        assert(lines_view(lines@) =~= lines_view(before).push(text_line(cs[i as int], is_error, border)));
        i = i + 1;
    }
    assert(cs.take(cs.len() as int) == cs);
}

/// Append the lines of code chunks.
fn push_code_lines(lines: &mut Vec<Vec<StyledSpan>>, chunks: &Vec<String>, border: SpanStyle)
    ensures
        lines_view(final(lines)@) == lines_view(old(lines)@) + code_lines(texts(chunks@), border),
{
    let ghost cs = texts(chunks@);
    let mut i: usize = 0;
    while i < chunks.len()
        invariant
            i <= chunks@.len(),
            cs == texts(chunks@),
            lines_view(lines@) == lines_view(old(lines)@) + code_lines(cs.take(i as int), border),
        decreases chunks@.len() - i,
    {
        let mut line: Vec<StyledSpan> = Vec::new();
        line.push(sp("│ ".to_string(), border));
        line.push(sp("│ ".to_string(), SpanStyle::Secondary));
        line.push(sp(chunks[i].clone(), SpanStyle::Secondary));
        assert(spans_view(line@) =~= code_line(cs[i as int], border));
        let ghost before = lines@;
        lines.push(line);
        assert(cs.take(i + 1).drop_last() == cs.take(i as int));
        assert(lines_view(lines@) =~= lines_view(before).push(code_line(cs[i as int], border)));
        i = i + 1;
    }
    assert(cs.take(cs.len() as int) == cs);
}

/// Append the lines of one segment.
fn push_segment_lines(
    lines: &mut Vec<Vec<StyledSpan>>,
    seg: &MessageSegment,
    content_width: usize,
    is_error: bool,
    border: SpanStyle,
)
    ensures
        lines_view(final(lines)@) == lines_view(old(lines)@) + segment_lines(
            seg@,
            content_width,
            is_error,
            border,
        ),
        match seg@ {
            SegmentView::CodeBlock { lang, code } => {
                let inner = sat_sub(content_width as int, 2) as usize;
                let ls = lines_of(code);
                &&& final(lines)@.len() >= old(lines)@.len() + ls.len() + 2
                &&& inner > 0 && crate::wrap::lines_fit(ls, inner) ==> final(lines)@.len() == old(
                    lines,
                )@.len() + ls.len() + 2 && forall|j: int|
                    0 <= j < ls.len() ==> #[trigger] lines_view(final(lines)@)[old(lines)@.len() + 1 + j]
                        == code_line(crate::wrap::trim_end_spaces(ls[j]), border)
            },
            _ => true,
        },
{
    match seg {
        MessageSegment::Text(text) => {
            let trimmed = trimmed_string(text);
            if char_len(&trimmed) == 0 {
                assert(lines_view(lines@) =~= lines_view(lines@) + Seq::<LineView>::empty());
                return;
            }
            let chunks = wrap_message(&trimmed, content_width);
            assert(texts(chunks@) == chunks@.map_values(|l: String| l@));
            push_text_lines(lines, &chunks, is_error, border);
        },
        MessageSegment::CodeBlock { lang, code } => {
            let inner = saturating(content_width, 2);
            let label = if char_len(lang) == 0 {
                "code".to_string()
            } else {
                let l: &str = *lang;
                l.to_string()
            };
            let mut head = "┌─ ".to_string();
            push_text(&mut head, &label);
            push_char(&mut head, ' ');
            assert(head@ =~= "┌─ "@ + label@ + seq![' ']);
            let header = bordered_exec(head, inner);
            let mut first: Vec<StyledSpan> = Vec::new();
            first.push(sp("│ ".to_string(), border));
            first.push(sp(header, SpanStyle::Secondary));
            assert(spans_view(first@) =~= code_header(lang@, inner, border));
            let ghost l0 = lines@;
            lines.push(first);
            let chunks = wrap_message(code, inner);
            assert(texts(chunks@) == chunks@.map_values(|l: String| l@));
            proof {
                crate::behaviour_laws::lemma_code_lines_each(texts(chunks@), border);
                crate::behaviour_laws::lemma_trim_lines_each(lines_of(code@));
            }
            let ghost l1 = lines@;
            push_code_lines(lines, &chunks, border);
            let mut last: Vec<StyledSpan> = Vec::new();
            last.push(sp("│ ".to_string(), border));
            last.push(sp(bottom_border_exec(inner), SpanStyle::Secondary));
            assert(spans_view(last@) =~= seq![("│ "@, border), (bottom_border(inner), SpanStyle::Secondary)]);
            let ghost l2 = lines@;
            lines.push(last);
            assert(lines_view(l1) =~= lines_view(l0).push(code_header(lang@, inner, border)));
            assert(lines_view(lines@) =~= lines_view(l2).push(
                seq![("│ "@, border), (bottom_border(inner), SpanStyle::Secondary)],
            ));
            assert(lines_view(lines@) =~= lines_view(l0) + segment_lines(
                seg@,
                content_width,
                is_error,
                border,
            ));
            proof {
                let ls = lines_of(code@);
                let cl = code_lines(texts(chunks@), border);
                assert(lines_view(lines@) == lines_view(l0) + (seq![code_header(lang@, inner, border)] + cl
                    + seq![seq![("│ "@, border), (bottom_border(inner), SpanStyle::Secondary)]]));
                assert(lines@.len() == lines_view(lines@).len());
                if inner > 0 && crate::wrap::lines_fit(ls, inner) {
                    assert forall|j: int| 0 <= j < ls.len() implies #[trigger] lines_view(lines@)[l0.len() + 1 + j]
                        == code_line(crate::wrap::trim_end_spaces(ls[j]), border) by {
                        assert(lines_view(lines@)[l0.len() + 1 + j] == cl[j]);
                    }
                }
            }
        },
    }
}

/// The top border line of a message block.
fn top_border_line(label: &str, timestamp: Option<u64>, wrap_width: usize, border: SpanStyle) -> (r:
    Vec<StyledSpan>)
    ensures
        spans_view(r@) == seq![(top_border(label@, timestamp, wrap_width), border)],
{
    let mut head = "┌─ ".to_string();
    push_text(&mut head, label);
    push_char(&mut head, ' ');
    match timestamp {
        Some(t) => {
            push_two_digits(&mut head, (t % 86400) / 3600);
            push_char(&mut head, ':');
            push_two_digits(&mut head, (t % 3600) / 60);
            push_char(&mut head, ' ');
        },
        None => {},
    }
    assert(head@ =~= top_label(label@, timestamp));
    let top = bordered_exec(head, wrap_width);
    let mut first: Vec<StyledSpan> = Vec::new();
    first.push(sp(top, border));
    assert(spans_view(first@) =~= seq![(top_border(label@, timestamp, wrap_width), border)]);
    first
}

/// Append the end of a message block: the streaming cursor, the bottom border, and the
/// separator.
fn push_block_end(lines: &mut Vec<Vec<StyledSpan>>, wrap_width: usize, border: SpanStyle, stream_cursor: bool)
    ensures
        lines_view(final(lines)@) == lines_view(old(lines)@) + (if stream_cursor {
            seq![seq![("│ "@, border), ("  ▌ "@, SpanStyle::Secondary)]]
        } else {
            Seq::empty()
        }) + seq![
            seq![(bottom_border(wrap_width), border)],
            seq![(repeated('─', wrap_width as nat), SpanStyle::Muted)],
        ],
{
    let ghost l2 = lines@;
    if stream_cursor {
        let mut c: Vec<StyledSpan> = Vec::new();
        c.push(sp("│ ".to_string(), border));
        c.push(sp("  ▌ ".to_string(), SpanStyle::Secondary));
        assert(spans_view(c@) =~= seq![("│ "@, border), ("  ▌ "@, SpanStyle::Secondary)]);
        lines.push(c);
    }
    let ghost l3 = lines@;
    assert(lines_view(l3) =~= lines_view(l2) + (if stream_cursor {
        seq![seq![("│ "@, border), ("  ▌ "@, SpanStyle::Secondary)]]
    } else {
        Seq::empty()
    }));
    let mut b: Vec<StyledSpan> = Vec::new();
    b.push(sp(bottom_border_exec(wrap_width), border));
    assert(spans_view(b@) =~= seq![(bottom_border(wrap_width), border)]);
    lines.push(b);
    let mut sep: Vec<StyledSpan> = Vec::new();
    sep.push(sp(repeat_char('─', wrap_width), SpanStyle::Muted));
    assert(spans_view(sep@) =~= seq![(repeated('─', wrap_width as nat), SpanStyle::Muted)]);
    let ghost l4 = lines@;
    lines.push(sep);
    assert(lines_view(l4) =~= lines_view(l3).push(seq![(bottom_border(wrap_width), border)]));
    assert(lines_view(lines@) =~= lines_view(l3) + seq![
        seq![(bottom_border(wrap_width), border)],
        seq![(repeated('─', wrap_width as nat), SpanStyle::Muted)],
    ]);
}

/// Add a User or Assistant message block with borders, code blocks, and separator.
/// Returns (start_line, end_line) for this block in the lines array.
pub fn add_message_block(lines: &mut Vec<Vec<StyledSpan>>, p: MessageBlockParams<'_>) -> (r: (
    usize,
    usize,
))
    ensures
        lines_view(final(lines)@) == lines_view(old(lines)@) + block_lines(
            p.label@,
            p.content@,
            p.content_width,
            p.wrap_width,
            p.is_error,
            p.is_user,
            p.stream_cursor,
            p.timestamp,
        ),
        r == (old(lines)@.len() as usize, final(lines)@.len() as usize),
{
    let border = if p.is_user {
        SpanStyle::Muted
    } else {
        SpanStyle::Secondary
    };
    let ghost l0 = lines@;
    let start = lines.len();
    let first = top_border_line(p.label, p.timestamp, p.wrap_width, border);
    lines.push(first);
    let ghost l1 = lines@;
    assert(lines_view(l1) =~= lines_view(l0) + seq![seq![(top_border(p.label@, p.timestamp, p.wrap_width), border)]]);
    let segs = parse_message_segments(p.content);
    let ghost sv = segs@.map_values(|m: MessageSegment| m@);
    let mut i: usize = 0;
    while i < segs.len()
        invariant
            i <= segs@.len(),
            sv == segs@.map_values(|m: MessageSegment| m@),
            lines_view(lines@) == lines_view(l1) + segments_lines(
                sv.take(i as int),
                p.content_width,
                p.is_error,
                border,
            ),
        decreases segs@.len() - i,
    {
        push_segment_lines(lines, &segs[i], p.content_width, p.is_error, border);
        assert(sv.take(i + 1).drop_last() == sv.take(i as int));
        assert(sv.take(i + 1).last() == segs@[i as int]@);
        i = i + 1;
    }
    assert(sv.take(sv.len() as int) == sv);
    push_block_end(lines, p.wrap_width, border, p.stream_cursor);
    (start, lines.len())
}

/// The tool name and arguments of a tool log line `→ Name: args` (surrounding
/// whitespace trimmed), when the line has that form and the name is not empty.
pub open spec fn tool_log_parts(s: Seq<char>) -> Option<(Seq<char>, Seq<char>)> {
    let t = trim_start(s);
    if !crate::chars::starts_with(t, "→ "@) {
        None
    } else {
        let rest = t.skip("→ "@.len() as int);
        match crate::chars::find_from(rest, ": "@, 0) {
            None => None,
            Some(k) => {
                let name = trim(rest.take(k));
                if name.len() == 0 {
                    None
                } else {
                    Some((name, trim_start(rest.skip(k + ": "@.len()))))
                }
            },
        }
    }
}

/// Parse tool log format "→ ToolName: args" into (tool_name, args) if it matches.
pub fn parse_tool_log(s: &str) -> (r: Option<(&str, &str)>)
    ensures
        match r {
            Some((name, args)) => tool_log_parts(s@) == Some((name@, args@)),
            None => tool_log_parts(s@) is None,
        },
{
    let v = str_chars(s);
    let a = crate::chars::skip_ws(&v, 0, v.len());
    assert(v@.subrange(0, v@.len() as int) == v@);
    let t = s.substring_char(a, v.len());
    let tv = str_chars(t);
    let prefix = str_chars("→ ");
    if !crate::chars::occurs_at_exec(&tv, prefix.as_slice(), 0) {
        return None;
    }
    let plen = prefix.len();
    let rest = t.substring_char(plen, tv.len());
    let rv = str_chars(rest);
    let sep = str_chars(": ");
    assert(rest@ == t@.skip(plen as int));
    match find_exec(&rv, sep.as_slice(), 0) {
        None => None,
        Some(k) => {
            proof { crate::chars::lemma_find_from(rv@, sep@, 0); }
            let head = rest.substring_char(0, k);
            let hv = str_chars(head);
            let (x, y) = crate::chars::trim_bounds(&hv, 0, hv.len());
            assert(hv@.subrange(0, hv@.len() as int) == hv@);
            assert(head@ == rv@.take(k as int));
            if x == y {
                return None;
            }
            let name = head.substring_char(x, y);
            let after = rest.substring_char(k + sep.len(), rv.len());
            let av = str_chars(after);
            let z = crate::chars::skip_ws(&av, 0, av.len());
            assert(av@.subrange(0, av@.len() as int) == av@);
            let args = after.substring_char(z, av.len());
            assert(after@ == rv@.skip(k + sep@.len()));
            Some((name, args))
        },
    }
}

/// A tool call argument line: the first shows the tool's name, the others are indented
/// by `pad` spaces.
pub open spec fn tool_arg_line(k: int, chunk: Seq<char>, header: Seq<char>, pad: nat) -> LineView {
    if k == 0 {
        seq![
            ("  ┃ "@, SpanStyle::AccentBold),
            (header, SpanStyle::AccentBold),
            (chunk, SpanStyle::Secondary),
        ]
    } else {
        seq![
            ("  ┃ "@, SpanStyle::AccentBold),
            (repeated(' ', pad), SpanStyle::Plain),
            (chunk, SpanStyle::Secondary),
        ]
    }
}

/// The lines of a tool log entry: `Name: ` highlighted and the arguments wrapped beside
/// it; a line of another form wrapped whole.
pub open spec fn tool_lines(s: Seq<char>, content_width: usize) -> Seq<LineView> {
    let prefix_len = "  ┃ "@.len() as int;
    let available = sat_sub(content_width as int, prefix_len);
    match tool_log_parts(s) {
        Some((name, args)) => {
            let header = name + ": "@;
            let args_width = sat_sub(available as int, header.len() as int);
            let chunks = wrap_lines(
                lines_of(args),
                if args_width > 1 {
                    args_width as usize
                } else {
                    1
                },
            );
            if chunks.len() == 0 {
                seq![seq![("  ┃ "@, SpanStyle::AccentBold), (header + seq![' '], SpanStyle::AccentBold)]]
            } else {
                Seq::new(
                    chunks.len(),
                    |k: int|
                        tool_arg_line(
                            k,
                            chunks[k],
                            header,
                            if header.len() < available {
                                header.len()
                            } else {
                                available
                            },
                        ),
                )
            }
        },
        None => {
            let chunks = wrap_lines(
                lines_of(s),
                if available > 1 {
                    available as usize
                } else {
                    1
                },
            );
            Seq::new(
                chunks.len(),
                |k: int|
                    seq![
                        ("  ┃ "@, SpanStyle::AccentBold),
                        (chunks[k] + seq![' '], SpanStyle::Secondary),
                    ],
            )
        },
    }
}

/// Render tool log lines with structured styling: tool name highlighted, args wrapped.
pub fn add_tool_log_lines(lines: &mut Vec<Vec<StyledSpan>>, s: &str, content_width: usize)
    ensures
        lines_view(final(lines)@) == lines_view(old(lines)@) + tool_lines(s@, content_width),
{
    let prefix_len = char_len("  ┃ ");
    let available = saturating(content_width, prefix_len);
    let ghost l0 = lines@;
    match parse_tool_log(s) {
        Some((name, args)) => {
            let mut header = name.to_string();
            push_text(&mut header, ": ");
            let hl = char_len(&header);
            let args_width = saturating(available, hl);
            let width = if args_width > 1 {
                args_width
            } else {
                1
            };
            let chunks = wrap_message(args, width);
            let ghost cs = texts(chunks@);
            assert(cs == chunks@.map_values(|l: String| l@));
            let pad = if hl < available {
                hl
            } else {
                available
            };
            if chunks.len() == 0 {
                let mut line: Vec<StyledSpan> = Vec::new();
                line.push(sp("  ┃ ".to_string(), SpanStyle::AccentBold));
                let mut h2 = header.clone();
                push_char(&mut h2, ' ');
                assert(h2@ =~= header@ + seq![' ']);
                line.push(sp(h2, SpanStyle::AccentBold));
                assert(spans_view(line@) =~= seq![("  ┃ "@, SpanStyle::AccentBold), (header@ + seq![' '], SpanStyle::AccentBold)]);
                lines.push(line);
                assert(lines_view(lines@) =~= lines_view(l0) + tool_lines(s@, content_width));
                return;
            }
            let mut i: usize = 0;
            while i < chunks.len()
                invariant
                    i <= chunks@.len(),
                    cs == texts(chunks@),
                    lines_view(lines@) == lines_view(l0) + Seq::new(
                        i as nat,
                        |k: int| tool_arg_line(k, cs[k], header@, pad as nat),
                    ),
                decreases chunks@.len() - i,
            {
                let mut line: Vec<StyledSpan> = Vec::new();
                line.push(sp("  ┃ ".to_string(), SpanStyle::AccentBold));
                if i == 0 {
                    line.push(sp(header.clone(), SpanStyle::AccentBold));
                } else {
                    line.push(sp(repeat_char(' ', pad), SpanStyle::Plain));
                }
                line.push(sp(chunks[i].clone(), SpanStyle::Secondary));
                assert(spans_view(line@) =~= tool_arg_line(i as int, cs[i as int], header@, pad as nat));
                let ghost before = lines@;
                lines.push(line);
                assert(lines_view(lines@) =~= lines_view(before).push(tool_arg_line(i as int, cs[i as int], header@, pad as nat)));
                assert(lines_view(lines@) =~= lines_view(l0) + Seq::new(
                    (i + 1) as nat,
                    |k: int| tool_arg_line(k, cs[k], header@, pad as nat),
                ));
                i = i + 1;
            }
            assert(lines_view(lines@) =~= lines_view(l0) + tool_lines(s@, content_width));
        },
        None => {
            let width = if available > 1 {
                available
            } else {
                1
            };
            let chunks = wrap_message(s, width);
            let ghost cs = texts(chunks@);
            assert(cs == chunks@.map_values(|l: String| l@));
            let mut i: usize = 0;
            while i < chunks.len()
                invariant
                    i <= chunks@.len(),
                    cs == texts(chunks@),
                    lines_view(lines@) == lines_view(l0) + Seq::new(
                        i as nat,
                        |k: int|
                            seq![
                                ("  ┃ "@, SpanStyle::AccentBold),
                                (cs[k] + seq![' '], SpanStyle::Secondary),
                            ],
                    ),
                decreases chunks@.len() - i,
            {
                let mut line: Vec<StyledSpan> = Vec::new();
                line.push(sp("  ┃ ".to_string(), SpanStyle::AccentBold));
                let mut c = chunks[i].clone();
                push_char(&mut c, ' ');
                assert(c@ =~= cs[i as int] + seq![' ']);
                line.push(sp(c, SpanStyle::Secondary));
                let ghost ln = seq![("  ┃ "@, SpanStyle::AccentBold), (cs[i as int] + seq![' '], SpanStyle::Secondary)];
                assert(spans_view(line@) =~= ln);
                let ghost before = lines@;
                lines.push(line);
                assert(lines_view(lines@) =~= lines_view(before).push(ln));
                assert(lines_view(lines@) =~= lines_view(l0) + Seq::new(
                    (i + 1) as nat,
                    |k: int|
                        seq![
                            ("  ┃ "@, SpanStyle::AccentBold),
                            (cs[k] + seq![' '], SpanStyle::Secondary),
                        ],
                ));
                i = i + 1;
            }
            assert(lines_view(lines@) =~= lines_view(l0) + tool_lines(s@, content_width));
        },
    }
}

/// The timestamp shown beside message `idx`, when timestamps are on and it has one.
pub open spec fn shown_timestamp(stamps: Seq<Option<u64>>, idx: int, show: bool) -> Option<u64> {
    if show && 0 <= idx < stamps.len() {
        stamps[idx]
    } else {
        None
    }
}

/// The lines of message `idx` of `count` messages.
pub open spec fn message_lines(
    m: MsgView,
    idx: int,
    count: int,
    streaming: bool,
    timestamp: Option<u64>,
    content_width: usize,
    wrap_width: usize,
) -> Seq<LineView> {
    match m {
        MsgView::User(s) => block_lines(
            "You"@,
            s,
            content_width,
            wrap_width,
            false,
            true,
            false,
            timestamp,
        ),
        MsgView::Assistant(s) => block_lines(
            "Assistant"@,
            s,
            content_width,
            wrap_width,
            crate::chars::starts_with(s, "Error:"@),
            false,
            streaming && idx == count - 1,
            timestamp,
        ),
        MsgView::ToolLog(s) => tool_lines(s, content_width),
        MsgView::Thinking => seq![seq![("  Thinking... "@, SpanStyle::MutedItalic)]],
    }
}

/// The lines of the first `n` messages.
pub open spec fn history_upto(
    ms: Seq<MsgView>,
    stamps: Seq<Option<u64>>,
    show: bool,
    streaming: bool,
    content_width: usize,
    wrap_width: usize,
    n: int,
) -> Seq<LineView>
    decreases n,
{
    if n <= 0 {
        Seq::empty()
    } else {
        history_upto(ms, stamps, show, streaming, content_width, wrap_width, n - 1) + message_lines(
            ms[n - 1],
            n - 1,
            ms.len() as int,
            streaming,
            shown_timestamp(stamps, n - 1, show),
            content_width,
            wrap_width,
        )
    }
}

/// `(message index, first line, end line)` of each user or assistant block among the
/// first `n` messages.
pub open spec fn ranges_upto(
    ms: Seq<MsgView>,
    stamps: Seq<Option<u64>>,
    show: bool,
    streaming: bool,
    content_width: usize,
    wrap_width: usize,
    n: int,
) -> Seq<(usize, usize, usize)>
    decreases n,
{
    if n <= 0 {
        Seq::empty()
    } else {
        let sub = ranges_upto(ms, stamps, show, streaming, content_width, wrap_width, n - 1);
        let m = ms[n - 1];
        if m is User || m is Assistant {
            sub.push(
                (
                    (n - 1) as usize,
                    history_upto(ms, stamps, show, streaming, content_width, wrap_width, n - 1).len() as usize,
                    history_upto(ms, stamps, show, streaming, content_width, wrap_width, n).len() as usize,
                ),
            )
        } else {
            sub
        }
    }
}

/// The lines and block ranges of the whole history.
fn build_history(app: &App, content_width: usize, wrap_width: usize) -> (r: (
    Vec<Vec<StyledSpan>>,
    Vec<(usize, usize, usize)>,
))
    ensures
        lines_view(r.0@) == history_upto(
            app.msgs(),
            app.stamps(),
            app.show_timestamps,
            app.is_streaming,
            content_width,
            wrap_width,
            app.msgs().len() as int,
        ),
        r.1@ == ranges_upto(
            app.msgs(),
            app.stamps(),
            app.show_timestamps,
            app.is_streaming,
            content_width,
            wrap_width,
            app.msgs().len() as int,
        ),
{
    let ghost ms = app.msgs();
    let ghost st = app.stamps();
    let mut lines: Vec<Vec<StyledSpan>> = Vec::new();
    let mut ranges: Vec<(usize, usize, usize)> = Vec::new();
    let count = app.messages.len();
    let error_prefix = str_chars("Error:");
    let mut idx: usize = 0;
    while idx < count
        invariant
            idx <= count,
            count == app.messages@.len(),
            ms == app.msgs(),
            st == app.stamps(),
            error_prefix@ == "Error:"@,
            lines_view(lines@) == history_upto(
                ms,
                st,
                app.show_timestamps,
                app.is_streaming,
                content_width,
                wrap_width,
                idx as int,
            ),
            ranges@ == ranges_upto(
                ms,
                st,
                app.show_timestamps,
                app.is_streaming,
                content_width,
                wrap_width,
                idx as int,
            ),
        decreases count - idx,
    {
        let timestamp = if app.show_timestamps && idx < app.message_timestamps.len() {
            app.message_timestamps[idx]
        } else {
            None
        };
        assert(timestamp == shown_timestamp(st, idx as int, app.show_timestamps));
        assert(ms[idx as int] == app.messages@[idx as int]@);
        match &app.messages[idx] {
            crate::app_state::ChatMessage::User(s) => {
                let (start, end) = add_message_block(
                    &mut lines,
                    MessageBlockParams {
                        label: "You",
                        content: s,
                        content_width,
                        wrap_width,
                        is_error: false,
                        is_user: true,
                        stream_cursor: false,
                        timestamp,
                    },
                );
                ranges.push((idx, start, end));
            },
            crate::app_state::ChatMessage::Assistant(s) => {
                let sv = str_chars(s);
                let is_error = crate::chars::occurs_at_exec(&sv, error_prefix.as_slice(), 0);
                let is_last_and_streaming = app.is_streaming && idx == count - 1;
                let (start, end) = add_message_block(
                    &mut lines,
                    MessageBlockParams {
                        label: "Assistant",
                        content: s,
                        content_width,
                        wrap_width,
                        is_error,
                        is_user: false,
                        stream_cursor: is_last_and_streaming,
                        timestamp,
                    },
                );
                ranges.push((idx, start, end));
            },
            crate::app_state::ChatMessage::ToolLog(s) => {
                add_tool_log_lines(&mut lines, s, content_width);
            },
            crate::app_state::ChatMessage::Thinking => {
                let mut l: Vec<StyledSpan> = Vec::new();
                l.push(sp("  Thinking... ".to_string(), SpanStyle::MutedItalic));
                assert(spans_view(l@) =~= seq![("  Thinking... "@, SpanStyle::MutedItalic)]);
                let ghost before = lines@;
                lines.push(l);
                assert(lines_view(lines@) =~= lines_view(before).push(
                    seq![("  Thinking... "@, SpanStyle::MutedItalic)],
                ));
            },
        }
        idx = idx + 1;
    }
    (lines, ranges)
}

/// What the history shows: the lines in the window, the scroll position, and the number
/// of lines in all (for the scrollbar).
pub struct HistoryWindow {
    pub lines: Vec<Vec<StyledSpan>>,
    pub scroll_pos: usize,
    pub total_lines: usize,
}

/// Lay out the history in `text_area` (the history's area less the scrollbar column):
/// record the content width, the area, the block ranges and the scroll limit in the
/// screen state, and return the lines that the scroll position shows.
pub fn layout_history(app: &mut App, text_area: crate::app_state::Area) -> (r: HistoryWindow)
    ensures
        ({
            let a = *old(app);
            let b = *final(app);
            let cw = sat_sub(text_area.width as int, 5) as usize;
            let ww = text_area.width as usize;
            let all = history_upto(a.msgs(), a.stamps(), a.show_timestamps, a.is_streaming, cw, ww, a.msgs().len() as int);
            let visible = text_area.height as int;
            let max_scroll = sat_sub(all.len() as int, if visible > 1 { visible } else { 1 }) as usize;
            let pos = visible_top(a.scroll, max_scroll);
            let end = if pos + visible < all.len() { pos + visible } else { all.len() as int };
            &&& b == (App {
                last_content_width: Some(cw),
                history_area: Some(text_area),
                message_line_ranges: b.message_line_ranges,
                last_max_scroll: max_scroll,
                ..a
            })
            &&& b.message_line_ranges@ == ranges_upto(
                a.msgs(),
                a.stamps(),
                a.show_timestamps,
                a.is_streaming,
                cw,
                ww,
                a.msgs().len() as int,
            )
            &&& r.total_lines == all.len()
            &&& r.scroll_pos == pos
            &&& lines_view(r.lines@) == all.subrange(pos, end)
        }),
{
    let wrap_width = text_area.width as usize;
    let content_width = saturating(wrap_width, 5);
    app.last_content_width = Some(content_width);
    app.history_area = Some(text_area);
    let (lines, ranges) = build_history(app, content_width, wrap_width);
    app.message_line_ranges = ranges;
    let total = lines.len();
    let visible = text_area.height as usize;
    let max_scroll = saturating(total, if visible > 1 {
        visible
    } else {
        1
    });
    app.last_max_scroll = max_scroll;
    let pos = app.scroll_line();
    let end = if visible < total - pos {
        pos + visible
    } else {
        total
    };
    let ghost whole = lines@;
    let mut lines = lines;
    lines.truncate(end);
    let shown = lines.split_off(pos);
    assert(shown@ =~= whole.subrange(pos as int, end as int));
    assert(lines_view(shown@) =~= lines_view(whole).subrange(pos as int, end as int));
    HistoryWindow { lines: shown, scroll_pos: pos, total_lines: total }
}

} // verus!
