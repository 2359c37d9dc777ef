//! Properties that hold across the library's operations.

use vstd::prelude::*;

use crate::app_state::{
    drop_thinking, last_assistant, materialized, no_thinking, scrolled_down, scrolled_up,
    top_line, visible_top, MsgView, ScrollPosition,
};
use crate::chars::{contains, find_from, lemma_find_from, occurs_at};
use crate::markdown::{inline_from, next_marker, open_bracket, plain, stars, tick, SpanStyle};
use crate::messages::with_chunk;
use crate::segments::{fence, segments_from, SegmentView};
use crate::wrap::{ascii_operator, normalized};
use crate::app_state::{content_text, loaded_log, persisted, unsupported_text, App, ContentView, PersistRole};
use crate::history_selector::without_id;
use crate::history_view::{block_lines, history_upto, ranges_upto, shown_timestamp};
use crate::main_input::{
    backspaced, cursor_at, inserted, main_input_done, next_index, prev_index, removed_before,
    MainInputAction, MainKeyArm,
};
use crate::selection::without_borders;
use crate::header::{as_double, millions_double, round_div, scale_from, shift_from, tokens_compact};
use crate::chars::decimal;
use crate::syntax::{code_text, sliced, CodeStyle};

verus! {

/// Removing the "thinking" markers leaves none behind, and keeps messages and
/// timestamps parallel.
pub proof fn law_thinking_removed(ms: Seq<MsgView>, ts: Seq<Option<u64>>)
    requires
        ms.len() == ts.len(),
    ensures
        no_thinking(drop_thinking(ms, ts).0),
        drop_thinking(ms, ts).0.len() == drop_thinking(ms, ts).1.len(),
    decreases ms.len(),
{
    if ms.len() > 0 {
        law_thinking_removed(ms.drop_last(), ts.drop_last());
        let (m0, t0) = drop_thinking(ms.drop_last(), ts.drop_last());
        if !(ms.last() is Thinking) {
            assert forall|k: int| 0 <= k < m0.push(ms.last()).len() implies !(#[trigger] m0.push(
                ms.last(),
            )[k] is Thinking) by {
                if k < m0.len() {
                    assert(m0.push(ms.last())[k] == m0[k]);
                }
            }
        }
    }
}

/// A log without "thinking" markers is left as it is by removing them.
pub proof fn law_no_thinking_unchanged(ms: Seq<MsgView>, ts: Seq<Option<u64>>)
    requires
        ms.len() == ts.len(),
        no_thinking(ms),
    ensures
        drop_thinking(ms, ts) == (ms, ts),
    decreases ms.len(),
{
    if ms.len() > 0 {
        assert(no_thinking(ms.drop_last())) by {
            assert forall|k: int| 0 <= k < ms.drop_last().len() implies !(
            #[trigger] ms.drop_last()[k] is Thinking) by {
                assert(ms.drop_last()[k] == ms[k]);
            }
        }
        law_no_thinking_unchanged(ms.drop_last(), ts.drop_last());
        assert(!(ms[ms.len() - 1] is Thinking));
        assert(ms.drop_last().push(ms.last()) =~= ms);
        assert(ts.drop_last().push(ts.last()) =~= ts);
    }
}

/// Showing the "thinking" marker and then hiding it restores a log that had none.
pub proof fn law_thinking_round_trip(ms: Seq<MsgView>, ts: Seq<Option<u64>>)
    requires
        ms.len() == ts.len(),
        no_thinking(ms),
    ensures
        drop_thinking(ms.push(MsgView::Thinking), ts.push(None)) == (ms, ts),
{
    assert(ms.push(MsgView::Thinking).drop_last() =~= ms);
    assert(ts.push(None::<u64>).drop_last() =~= ts);
    law_no_thinking_unchanged(ms, ts);
}

/// Streaming two chunks gives the same log as streaming their concatenation.
pub proof fn law_chunks_concatenate(ms: Seq<MsgView>, a: Seq<char>, b: Seq<char>)
    ensures
        with_chunk(with_chunk(ms, a), b) == with_chunk(ms, a + b),
{
    let m1 = with_chunk(ms, a);
    match last_assistant(ms) {
        Some(s) => {
            assert(last_assistant(m1) == Some(s + a));
            assert(s + a + b =~= s + (a + b));
            assert(with_chunk(m1, b) =~= with_chunk(ms, a + b));
        },
        None => {
            assert(last_assistant(m1) == Some(a));
            assert(with_chunk(m1, b) =~= with_chunk(ms, a + b));
        },
    }
}

/// Materializing the scroll position does not move what is shown.
pub proof fn law_materialize_keeps_view(s: ScrollPosition, last_max: usize)
    ensures
        visible_top(materialized(s, last_max), last_max) == visible_top(s, last_max),
        materialized(materialized(s, last_max), last_max) == materialized(s, last_max),
{
}

/// Scrolling down and back up by the same amount returns to the start when the way down
/// was not cut short at the last line.
pub proof fn law_scroll_down_up(top: int, n: int, last_max: int)
    requires
        0 <= top,
        0 <= n,
        top + n <= last_max,
    ensures
        scrolled_up(scrolled_down(top, n, last_max), n) == top,
{
}

/// Plain text segments are never empty and never hold a fence "```".
pub proof fn law_text_segments_plain(s: Seq<char>, i: int)
    requires
        0 <= i,
    ensures
        forall|k: int|
            0 <= k < segments_from(s, i).len() ==> (#[trigger] segments_from(s, i)[k] matches
                SegmentView::Text(t) ==> t.len() > 0 && !contains(t, fence())),
    decreases s.len() - i,
{
    if i > s.len() {
        return;
    }
    lemma_find_from(s, fence(), i);
    match find_from(s, fence(), i) {
        None => {
            if i < s.len() {
                let t = s.subrange(i, s.len() as int);
                assert forall|j: int| !occurs_at(t, fence(), j) by {
                    if occurs_at(t, fence(), j) {
                        assert(t.subrange(j, j + 3) =~= s.subrange(i + j, i + j + 3));
                        assert(occurs_at(s, fence(), i + j));
                    }
                }
            }
        },
        Some(idx) => {
            let t = s.subrange(i, idx);
            assert forall|j: int| !occurs_at(t, fence(), j) by {
                if occurs_at(t, fence(), j) {
                    assert(t.subrange(j, j + 3) =~= s.subrange(i + j, i + j + 3));
                    assert(occurs_at(s, fence(), i + j));
                }
            }
            let a = idx + 3;
            let b = crate::segments::code_start(s, a);
            lemma_find_from(s, crate::segments::newline(), a);
            lemma_find_from(s, crate::segments::line_fence(), b);
            lemma_find_from(s, fence(), b);
            let pre = if idx > i {
                seq![SegmentView::Text(t)]
            } else {
                seq![]
            };
            match find_from(s, crate::segments::line_fence(), b) {
                Some(p) => {
                    law_text_segments_plain(s, p + 4);
                    let rest = segments_from(s, p + 4);
                    let lang = crate::chars::trim(s.subrange(a, crate::segments::lang_end(s, a)));
                    let mid = seq![SegmentView::CodeBlock { lang: lang, code: s.subrange(b, p) }];
                    assert(segments_from(s, i) == pre + mid + rest);
                    assert forall|k: int| 0 <= k < segments_from(s, i).len() implies (
                    #[trigger] segments_from(s, i)[k] matches SegmentView::Text(u) ==> u.len() > 0
                        && !contains(u, fence())) by {
                        if k >= pre.len() + 1 {
                            assert(segments_from(s, i)[k] == rest[k - pre.len() - 1]);
                        }
                    }
                },
                None => match find_from(s, fence(), b) {
                    Some(p) => {
                        law_text_segments_plain(s, p + 3);
                        let rest = segments_from(s, p + 3);
                        let lang = crate::chars::trim(
                            s.subrange(a, crate::segments::lang_end(s, a)),
                        );
                        let mid = seq![
                            SegmentView::CodeBlock { lang: lang, code: s.subrange(b, p) },
                        ];
                        assert(segments_from(s, i) == pre + mid + rest);
                        assert forall|k: int| 0 <= k < segments_from(s, i).len() implies (
                        #[trigger] segments_from(s, i)[k] matches SegmentView::Text(u) ==> u.len()
                            > 0 && !contains(u, fence())) by {
                            if k >= pre.len() + 1 {
                                assert(segments_from(s, i)[k] == rest[k - pre.len() - 1]);
                            }
                        }
                    },
                    None => {},
                },
            }
        },
    }
}

/// A line without any "**", "`" or "[" is one plain span holding the whole line.
pub proof fn law_unmarked_text_is_plain(s: Seq<char>)
    requires
        s.len() > 0,
        !contains(s, stars()),
        !contains(s, tick()),
        !contains(s, open_bracket()),
    ensures
        inline_from(s, 0) == seq![plain(s)],
{
    lemma_find_from(s, stars(), 0);
    lemma_find_from(s, tick(), 0);
    lemma_find_from(s, open_bracket(), 0);
    assert(next_marker(s, 0) is None);
    assert(s.subrange(0, s.len() as int) =~= s);
}

/// Text without ≠, ≥, ≤ is left unchanged by the normalisation.
pub proof fn law_normalize_identity(s: Seq<char>)
    requires
        forall|k: int|
            0 <= k < s.len() ==> #[trigger] s[k] != '\u{2260}' && s[k] != '\u{2265}' && s[k]
                != '\u{2264}',
    ensures
        normalized(s) == s,
    decreases s.len(),
{
    if s.len() > 0 {
        law_normalize_identity(s.drop_last());
        assert(s[s.len() - 1] != '\u{2260}');
        assert(s.drop_last() + seq![s.last()] =~= s);
    }
}

/// Normalisation leaves no ≠, ≥, ≤ behind, so normalising twice changes nothing more.
pub proof fn law_normalize_idempotent(s: Seq<char>)
    ensures
        forall|k: int|
            0 <= k < normalized(s).len() ==> #[trigger] normalized(s)[k] != '\u{2260}'
                && normalized(s)[k] != '\u{2265}' && normalized(s)[k] != '\u{2264}',
        normalized(normalized(s)) == normalized(s),
    decreases s.len(),
{
    if s.len() > 0 {
        law_normalize_idempotent(s.drop_last());
        let p = normalized(s.drop_last());
        let q = ascii_operator(s.last());
        assert forall|k: int| 0 <= k < (p + q).len() implies #[trigger] (p + q)[k] != '\u{2260}'
            && (p + q)[k] != '\u{2265}' && (p + q)[k] != '\u{2264}' by {
            if k < p.len() {
                assert((p + q)[k] == p[k]);
            }
        }
    }
    law_normalize_identity(normalized(s));
}

/// Moving the selection of a list down then up, or up then down, returns to where it was.
pub proof fn law_cycle_prev_next(i: usize, n: usize)
    requires
        i < n,
    ensures
        prev_index(next_index(i, n), n) == i,
        next_index(prev_index(i, n), n) == i,
{
    if i + 1 < n {
        assert((i + 1) % (n as int) == i + 1) by {
            vstd::arithmetic::div_mod::lemma_small_mod((i + 1) as nat, n as nat);
        }
    } else {
        assert((i + 1) % (n as int) == 0) by {
            vstd::arithmetic::div_mod::lemma_mod_self_0(n as int);
        }
    }
    if i == 0 {
        assert((n as int) % (n as int) == 0) by {
            vstd::arithmetic::div_mod::lemma_mod_self_0(n as int);
        }
    } else {
        assert((i as int) % (n as int) == i) by {
            vstd::arithmetic::div_mod::lemma_small_mod(i as nat, n as nat);
        }
    }
}

/// Removing the character before the position after an inserted one gives the text back.
pub proof fn law_insert_then_remove(s: Seq<char>, pos: int, c: char)
    requires
        0 <= pos <= s.len(),
    ensures
        removed_before(inserted(s, pos, c), pos + 1) == s,
{
    assert(removed_before(inserted(s, pos, c), pos + 1) =~= s);
}

/// Typing a character then Backspace leaves the input and the cursor as they were.
pub proof fn law_type_then_backspace(
    a: App,
    b: App,
    r: MainInputAction,
    c: char,
    commands: Seq<(Seq<char>, Seq<char>, Seq<char>)>,
    chat_pending: bool,
    d: App,
)
    requires
        a.input_cursor <= a.input@.len(),
        a.input@.len() < usize::MAX,
        main_input_done(a, b, r, MainKeyArm::TypeChar(c), commands, chat_pending),
        backspaced(b, d),
    ensures
        d.input@ == a.input@,
        d.input_cursor == a.input_cursor,
{
    let pos = cursor_at(a.input_cursor, a.input@);
    assert(pos == a.input_cursor);
    assert(inserted(a.input@, pos, c).len() == a.input@.len() + 1);
    assert(cursor_at(b.input_cursor, b.input@) == pos + 1);
    law_insert_then_remove(a.input@, pos, c);
}

/// Stripping the borders of a copied line twice strips nothing more.
pub proof fn law_borders_stripped_once(s: Seq<char>)
    ensures
        without_borders(without_borders(s)) == without_borders(s),
    decreases s.len(),
{
    if s.len() > 0 && s[0] == '│' {
        let rest = s.drop_first();
        let next = if rest.len() > 0 && rest[0] == ' ' {
            rest.drop_first()
        } else {
            rest
        };
        law_borders_stripped_once(next);
    }
}

/// Every message block is at least three lines: its top border, its bottom border and
/// the separator.
pub proof fn lemma_block_lines_len(
    label: Seq<char>,
    content: Seq<char>,
    cw: usize,
    ww: usize,
    is_error: bool,
    is_user: bool,
    cursor: bool,
    ts: Option<u64>,
)
    ensures
        block_lines(label, content, cw, ww, is_error, is_user, cursor, ts).len() >= 3,
{
}

/// The recorded block ranges of the history lie inside its lines, each block's range
/// holds at least one line, and the ranges follow each other in order.
pub proof fn law_block_ranges(
    ms: Seq<MsgView>,
    stamps: Seq<Option<u64>>,
    show: bool,
    streaming: bool,
    cw: usize,
    ww: usize,
    n: int,
)
    requires
        0 <= n <= ms.len(),
        history_upto(ms, stamps, show, streaming, cw, ww, n).len() <= usize::MAX,
    ensures
        ({
            let rs = ranges_upto(ms, stamps, show, streaming, cw, ww, n);
            let total = history_upto(ms, stamps, show, streaming, cw, ww, n).len();
            &&& forall|k: int| 0 <= k < rs.len() ==> (#[trigger] rs[k]).1 < rs[k].2 <= total
            &&& forall|k: int, l: int|
                0 <= k < l < rs.len() ==> (#[trigger] rs[k]).2 <= (#[trigger] rs[l]).1
        }),
    decreases n,
{
    if n > 0 {
        let m = ms[n - 1];
        let prev = history_upto(ms, stamps, show, streaming, cw, ww, n - 1);
        let cur = history_upto(ms, stamps, show, streaming, cw, ww, n);
        assert(prev.len() <= cur.len());
        law_block_ranges(ms, stamps, show, streaming, cw, ww, n - 1);
        let ts = shown_timestamp(stamps, n - 1, show);
        match m {
            MsgView::User(t) => {
                lemma_block_lines_len("You"@, t, cw, ww, false, true, false, ts);
            },
            MsgView::Assistant(t) => {
                lemma_block_lines_len(
                    "Assistant"@,
                    t,
                    cw,
                    ww,
                    crate::chars::starts_with(t, "Error:"@),
                    false,
                    streaming && n - 1 == ms.len() - 1,
                    ts,
                );
            },
            _ => {},
        }
        let sub = ranges_upto(ms, stamps, show, streaming, cw, ww, n - 1);
        let rs = ranges_upto(ms, stamps, show, streaming, cw, ww, n);
        if m is User || m is Assistant {
            assert(prev.len() < cur.len());
            assert forall|k: int| 0 <= k < rs.len() implies (#[trigger] rs[k]).1 < rs[k].2 <= cur.len() by {
                if k < sub.len() {
                    assert(rs[k] == sub[k]);
                }
            }
            assert forall|k: int, l: int|
                0 <= k < l < rs.len() implies (#[trigger] rs[k]).2 <= (#[trigger] rs[l]).1 by {
                assert(rs[k] == sub[k]);
                if l < sub.len() {
                    assert(rs[l] == sub[l]);
                }
            }
        } else {
            assert(rs == sub);
        }
    }
}

/// After a conversation is removed, none with its id is left.
pub proof fn law_removed_conversation_gone(convs: Seq<(Seq<char>, Seq<char>, u64)>, id: Seq<char>)
    ensures
        forall|k: int|
            0 <= k < without_id(convs, id).len() ==> (#[trigger] without_id(convs, id)[k]).0 != id,
    decreases convs.len(),
{
    if convs.len() > 0 {
        law_removed_conversation_gone(convs.drop_last(), id);
        let sub = without_id(convs.drop_last(), id);
        assert forall|k: int| 0 <= k < without_id(convs, id).len() implies (
        #[trigger] without_id(convs, id)[k]).0 != id by {
            if k < sub.len() {
                assert(without_id(convs, id)[k] == sub[k]);
            }
        }
    }
}

/// The "role" a persisted message is stored under.
pub open spec fn role_name(r: PersistRole) -> Seq<char> {
    match r {
        PersistRole::User => "user"@,
        PersistRole::Assistant => "assistant"@,
        PersistRole::ToolLog => "tool_log"@,
    }
}

/// Persisted messages as they are read back: the role's name, the content as a string,
/// the timestamp.
pub open spec fn stored(p: Seq<(PersistRole, Seq<char>, Option<u64>)>) -> Seq<
    (Seq<char>, ContentView, Option<u64>),
> {
    p.map_values(|e: (PersistRole, Seq<char>, Option<u64>)| (role_name(e.0), ContentView::Text(e.1), e.2))
}

/// The timestamps with those of tool logs taken out.
pub open spec fn tool_stamps_cleared(ms: Seq<MsgView>, ts: Seq<Option<u64>>) -> Seq<Option<u64>> {
    Seq::new(ts.len(), |i: int| if ms[i] is ToolLog { None } else { ts[i] })
}

/// Reopening a saved conversation gives back its log without the "thinking" markers:
/// the same user, assistant and tool-log messages in the same order, user and assistant
/// messages with their timestamps, tool logs without one.
pub proof fn law_saved_log_reopens(ms: Seq<MsgView>, ts: Seq<Option<u64>>)
    requires
        ts.len() == ms.len(),
    ensures
        loaded_log(stored(persisted(ms, ts, ms.len() as int)), None) == (
            drop_thinking(ms, ts).0,
            drop_thinking(ms, tool_stamps_cleared(ms, ts)).1,
        ),
{
    lemma_saved_prefix_reopens(ms, ts, ms.len() as int);
    assert(ms.take(ms.len() as int) =~= ms);
    assert(ts.take(ts.len() as int) =~= ts);
    assert(tool_stamps_cleared(ms, ts).take(ts.len() as int) =~= tool_stamps_cleared(ms, ts));
}

proof fn lemma_drop_thinking_msgs(ms: Seq<MsgView>, a: Seq<Option<u64>>, b: Seq<Option<u64>>)
    ensures
        drop_thinking(ms, a).0 == drop_thinking(ms, b).0,
    decreases ms.len(),
{
    if ms.len() > 0 {
        lemma_drop_thinking_msgs(ms.drop_last(), a.drop_last(), b.drop_last());
    }
}

proof fn lemma_saved_prefix_reopens(ms: Seq<MsgView>, ts: Seq<Option<u64>>, n: int)
    requires
        ts.len() == ms.len(),
        0 <= n <= ms.len(),
    ensures
        loaded_log(stored(persisted(ms, ts, n)), None) == (
            drop_thinking(ms.take(n), ts.take(n)).0,
            drop_thinking(ms.take(n), tool_stamps_cleared(ms, ts).take(n)).1,
        ),
    decreases n,
{
    let cl = tool_stamps_cleared(ms, ts);
    lemma_drop_thinking_msgs(ms.take(n), ts.take(n), cl.take(n));
    if n == 0 {
        assert(stored(persisted(ms, ts, 0)) =~= Seq::<(Seq<char>, ContentView, Option<u64>)>::empty());
        assert(ms.take(0) =~= Seq::<MsgView>::empty());
    } else {
        lemma_saved_prefix_reopens(ms, ts, n - 1);
        lemma_drop_thinking_msgs(ms.take(n - 1), ts.take(n - 1), cl.take(n - 1));
        reveal_strlit("user");
        reveal_strlit("assistant");
        reveal_strlit("tool_log");
        assert("assistant"@.len() != "user"@.len());
        assert("tool_log"@.len() != "user"@.len());
        assert("tool_log"@[0] != "assistant"@[0]);
        let prev = persisted(ms, ts, n - 1);
        assert(ms.take(n).drop_last() =~= ms.take(n - 1));
        assert(ts.take(n).drop_last() =~= ts.take(n - 1));
        assert(cl.take(n).drop_last() =~= cl.take(n - 1));
        assert(ms.take(n).last() == ms[n - 1]);
        assert(ts.take(n).last() == ts[n - 1]);
        assert(cl.take(n).last() == cl[n - 1]);
        match ms[n - 1] {
            MsgView::User(t) => {
                let e = (PersistRole::User, t, ts[n - 1]);
                assert(stored(prev.push(e)) =~= stored(prev).push(
                    (role_name(e.0), ContentView::Text(e.1), e.2),
                ));
                assert(stored(prev).push((role_name(e.0), ContentView::Text(e.1), e.2)).drop_last()
                    =~= stored(prev));
            },
            MsgView::Assistant(t) => {
                let e = (PersistRole::Assistant, t, ts[n - 1]);
                assert(stored(prev.push(e)) =~= stored(prev).push(
                    (role_name(e.0), ContentView::Text(e.1), e.2),
                ));
                assert(stored(prev).push((role_name(e.0), ContentView::Text(e.1), e.2)).drop_last()
                    =~= stored(prev));
            },
            MsgView::ToolLog(t) => {
                let e = (PersistRole::ToolLog, t, None::<u64>);
                assert(stored(prev.push(e)) =~= stored(prev).push(
                    (role_name(e.0), ContentView::Text(e.1), e.2),
                ));
                assert(stored(prev).push((role_name(e.0), ContentView::Text(e.1), e.2)).drop_last()
                    =~= stored(prev));
            },
            MsgView::Thinking => {},
        }
    }
}

/// `x` kept within `0..=t`.
pub open spec fn clamp_to(x: int, t: int) -> int {
    if x < 0 {
        0
    } else if x > t {
        t
    } else {
        x
    }
}

/// The text of spans is the first span's text followed by the text of the others.
pub proof fn lemma_code_text_front(spans: Seq<(Seq<char>, CodeStyle)>)
    requires
        spans.len() > 0,
    ensures
        code_text(spans) == spans[0].0 + code_text(spans.drop_first()),
    decreases spans.len(),
{
    if spans.len() == 1 {
        assert(spans.drop_last() =~= Seq::<(Seq<char>, CodeStyle)>::empty());
        assert(spans.drop_first() =~= Seq::<(Seq<char>, CodeStyle)>::empty());
        assert(Seq::<char>::empty() + spans[0].0 =~= spans[0].0);
        assert(spans[0].0 + Seq::<char>::empty() =~= spans[0].0);
    } else {
        let d = spans.drop_last();
        lemma_code_text_front(d);
        assert(spans.drop_first().drop_last() =~= d.drop_first());
        assert(spans.drop_first().last() == spans.last());
        assert(d[0] == spans[0]);
        assert(spans[0].0 + code_text(d.drop_first()) + spans.last().0 =~= spans[0].0 + (code_text(
            d.drop_first(),
        ) + spans.last().0));
    }
}

/// Slicing spans to a character range keeps exactly the characters of that range, for
/// spans whose first character is at position `pos`.
pub proof fn lemma_sliced_text(spans: Seq<(Seq<char>, CodeStyle)>, start: int, end: int, pos: int)
    requires
        start <= end,
    ensures
        code_text(sliced(spans, start, end, pos)) == code_text(spans).subrange(
            clamp_to(start - pos, code_text(spans).len() as int),
            clamp_to(end - pos, code_text(spans).len() as int),
        ),
    decreases spans.len(),
{
    let t = code_text(spans);
    if spans.len() == 0 {
        assert(t.subrange(0, 0) =~= Seq::<char>::empty());
    } else {
        lemma_code_text_front(spans);
        let (s, style) = spans[0];
        let rest = spans.drop_first();
        let tr = code_text(rest);
        let len = s.len() as int;
        let span_end = pos + len;
        lemma_sliced_text(rest, start, end, span_end);
        let rs = sliced(rest, start, end, span_end);
        assert(code_text(rs) == tr.subrange(
            clamp_to(start - span_end, tr.len() as int),
            clamp_to(end - span_end, tr.len() as int),
        ));
        assert(t == s + tr);
        let lo = clamp_to(start - pos, t.len() as int);
        let hi = clamp_to(end - pos, t.len() as int);
        if span_end <= start {
            assert(t.subrange(lo, hi) =~= tr.subrange(lo - len, hi - len));
        } else if pos >= end {
            assert(t.subrange(lo, hi) =~= Seq::<char>::empty());
            assert(code_text(rs) =~= Seq::<char>::empty());
        } else {
            let a = if start > pos { start - pos } else { 0 };
            let b = if end - pos < len { end - pos } else { len };
            let hr = clamp_to(end - span_end, tr.len() as int);
            assert(code_text(rs) == tr.subrange(0, hr));
            if a < b {
                let one = seq![(s.subrange(a, b), style)];
                lemma_code_text_front(one + rs);
                assert((one + rs)[0] == (s.subrange(a, b), style));
                assert((one + rs).drop_first() =~= rs);
                assert(sliced(spans, start, end, pos) == one + rs);
                assert(t.subrange(lo, hi) =~= s.subrange(a, b) + tr.subrange(0, hr));
            } else {
                assert(sliced(spans, start, end, pos) == rs);
                assert(t.subrange(lo, hi) =~= tr.subrange(0, hr));
            }
        }
    }
}

/// Slicing spans to a character range gives, as text, exactly the characters of the
/// spans' text in that range (cut at its end): so the wrap chunks of a code line carry
/// its text piece by piece.
pub proof fn law_slice_keeps_range_text(spans: Seq<(Seq<char>, CodeStyle)>, start: int, end: int)
    requires
        0 <= start <= end,
    ensures
        code_text(sliced(spans, start, end, 0)) == code_text(spans).subrange(
            clamp_to(start, code_text(spans).len() as int),
            clamp_to(end, code_text(spans).len() as int),
        ),
{
    lemma_sliced_text(spans, start, end, 0);
}

/// Each of `out` is cut from a span of `spans` with the same style, `f` giving which, in
/// the order of `spans`.
pub open spec fn cut_in_order(
    out: Seq<(Seq<char>, CodeStyle)>,
    spans: Seq<(Seq<char>, CodeStyle)>,
    f: spec_fn(int) -> int,
) -> bool {
    &&& forall|i: int, j: int| 0 <= i < j < out.len() ==> #[trigger] f(i) < #[trigger] f(j)
    &&& forall|i: int|
        0 <= i < out.len() ==> 0 <= #[trigger] f(i) < spans.len() && out[i].1 == spans[f(i)].1
}

/// Slicing spans gives no more spans than there were, none of them empty, each with the
/// style of the span it was cut from and in the same order; an empty or reversed range
/// gives none.
pub proof fn law_slice_shape(spans: Seq<(Seq<char>, CodeStyle)>, start: int, end: int, pos: int)
    ensures
        sliced(spans, start, end, pos).len() <= spans.len(),
        forall|i: int|
            0 <= i < sliced(spans, start, end, pos).len() ==> (#[trigger] sliced(spans, start, end, pos)[i]).0.len()
                > 0,
        start >= end ==> sliced(spans, start, end, pos).len() == 0,
        exists|f: spec_fn(int) -> int| cut_in_order(sliced(spans, start, end, pos), spans, f),
    decreases spans.len(),
{
    let out = sliced(spans, start, end, pos);
    if spans.len() == 0 {
        assert(cut_in_order(out, spans, |i: int| i));
    } else {
        let (s, style) = spans[0];
        let len = s.len() as int;
        let rest = spans.drop_first();
        let rs = sliced(rest, start, end, pos + len);
        law_slice_shape(rest, start, end, pos + len);
        let fr = choose|f: spec_fn(int) -> int| cut_in_order(rs, rest, f);
        let a = if start > pos { start - pos } else { 0 };
        let b = if end - pos < len { end - pos } else { len };
        if pos + len <= start || pos >= end || a >= b {
            assert(out == rs);
            let f = |i: int| fr(i) + 1;
            assert forall|i: int| 0 <= i < out.len() implies 0 <= #[trigger] f(i) < spans.len() && out[i].1
                == spans[f(i)].1 by {
                assert(0 <= fr(i) < rest.len() && rs[i].1 == rest[fr(i)].1);
            }
            assert forall|i: int, j: int| 0 <= i < j < out.len() implies #[trigger] f(i) < #[trigger] f(j) by {
                assert(fr(i) < fr(j));
            }
            assert(cut_in_order(out, spans, f));
        } else {
            let one = seq![(s.subrange(a, b), style)];
            assert(out == one + rs);
            let f = |i: int| if i == 0 { 0 } else { fr(i - 1) + 1 };
            assert forall|i: int| 0 <= i < out.len() implies 0 <= #[trigger] f(i) < spans.len() && out[i].1
                == spans[f(i)].1 by {
                if i > 0 {
                    assert(out[i] == rs[i - 1]);
                    assert(0 <= fr(i - 1) < rest.len() && rs[i - 1].1 == rest[fr(i - 1)].1);
                }
            }
            assert forall|i: int, j: int| 0 <= i < j < out.len() implies #[trigger] f(i) < #[trigger] f(j) by {
                if i > 0 {
                    assert(fr(i - 1) < fr(j - 1));
                } else {
                    assert(0 <= fr(j - 1));
                }
            }
            assert(cut_in_order(out, spans, f));
            assert forall|i: int| 0 <= i < out.len() implies (#[trigger] out[i]).0.len() > 0 by {
                if i > 0 {
                    assert(out[i] == rs[i - 1]);
                }
            }
        }
    }
}

/// Two text segments never follow each other: text always ends at a code block or at
/// the end of the message.
pub proof fn law_no_adjacent_text_segments(s: Seq<char>, i: int)
    requires
        0 <= i,
    ensures
        forall|k: int|
            0 <= k && k + 1 < segments_from(s, i).len() ==> !((#[trigger] segments_from(s, i)[k]
                is Text) && segments_from(s, i)[k + 1] is Text),
    decreases s.len() - i,
{
    if i > s.len() {
        return;
    }
    lemma_find_from(s, fence(), i);
    match find_from(s, fence(), i) {
        None => {},
        Some(idx) => {
            let t = s.subrange(i, idx);
            let a = idx + 3;
            let b = crate::segments::code_start(s, a);
            lemma_find_from(s, crate::segments::newline(), a);
            lemma_find_from(s, crate::segments::line_fence(), b);
            lemma_find_from(s, fence(), b);
            let pre = if idx > i {
                seq![SegmentView::Text(t)]
            } else {
                seq![]
            };
            let lang = crate::chars::trim(s.subrange(a, crate::segments::lang_end(s, a)));
            match find_from(s, crate::segments::line_fence(), b) {
                Some(p) => {
                    law_no_adjacent_text_segments(s, p + 4);
                    let rest = segments_from(s, p + 4);
                    let mid = seq![SegmentView::CodeBlock { lang: lang, code: s.subrange(b, p) }];
                    let all = segments_from(s, i);
                    assert(all == pre + mid + rest);
                    assert forall|k: int| 0 <= k && k + 1 < all.len() implies !((#[trigger] all[k]
                        is Text) && all[k + 1] is Text) by {
                        if k >= pre.len() + 1 {
                            assert(all[k] == rest[k - pre.len() - 1]);
                            assert(all[k + 1] == rest[k + 1 - pre.len() - 1]);
                        } else if k == pre.len() {
                            assert(all[k] == mid[0]);
                        } else {
                            assert(all[k + 1] == mid[0]);
                        }
                    }
                },
                None => match find_from(s, fence(), b) {
                    Some(p) => {
                        law_no_adjacent_text_segments(s, p + 3);
                        let rest = segments_from(s, p + 3);
                        let mid = seq![SegmentView::CodeBlock { lang: lang, code: s.subrange(b, p) }];
                        let all = segments_from(s, i);
                        assert(all == pre + mid + rest);
                        assert forall|k: int| 0 <= k && k + 1 < all.len() implies !((#[trigger] all[k]
                            is Text) && all[k + 1] is Text) by {
                            if k >= pre.len() + 1 {
                                assert(all[k] == rest[k - pre.len() - 1]);
                                assert(all[k + 1] == rest[k + 1 - pre.len() - 1]);
                            } else if k == pre.len() {
                                assert(all[k] == mid[0]);
                            } else {
                                assert(all[k + 1] == mid[0]);
                            }
                        }
                    },
                    None => {
                        let mid = seq![
                            SegmentView::CodeBlock { lang: lang, code: s.subrange(b, s.len() as int) },
                        ];
                        let all = segments_from(s, i);
                        assert(all == pre + mid);
                        assert forall|k: int| 0 <= k && k + 1 < all.len() implies !((#[trigger] all[k]
                            is Text) && all[k + 1] is Text) by {
                            assert(all[k + 1] == mid[0]);
                        }
                    },
                },
            }
        },
    }
}

/// A message holds a code block exactly when it holds a fence "```"; without one it is a
/// single text segment, or nothing when it is empty.
pub proof fn law_code_block_iff_fence(s: Seq<char>)
    ensures
        (exists|k: int| 0 <= k < segments_from(s, 0).len() && #[trigger] segments_from(s, 0)[k]
            is CodeBlock) <==> contains(s, fence()),
        !contains(s, fence()) ==> segments_from(s, 0) == (if s.len() == 0 {
            Seq::<SegmentView>::empty()
        } else {
            seq![SegmentView::Text(s)]
        }),
{
    lemma_find_from(s, fence(), 0);
    let all = segments_from(s, 0);
    match find_from(s, fence(), 0) {
        None => {
            assert(!contains(s, fence())) by {
                if contains(s, fence()) {
                    let k = choose|k: int| occurs_at(s, fence(), k);
                    assert(0 <= k);
                }
            }
            assert(s.subrange(0, s.len() as int) =~= s);
            if s.len() == 0 {
                assert(all =~= Seq::<SegmentView>::empty());
            } else {
                assert(all =~= seq![SegmentView::Text(s)]);
            }
        },
        Some(idx) => {
            assert(contains(s, fence()));
            let t = s.subrange(0, idx);
            let a = idx + 3;
            let b = crate::segments::code_start(s, a);
            lemma_find_from(s, crate::segments::newline(), a);
            lemma_find_from(s, crate::segments::line_fence(), b);
            lemma_find_from(s, fence(), b);
            let pre = if idx > 0 {
                seq![SegmentView::Text(t)]
            } else {
                seq![]
            };
            let lang = crate::chars::trim(s.subrange(a, crate::segments::lang_end(s, a)));
            let k = pre.len() as int;
            match find_from(s, crate::segments::line_fence(), b) {
                Some(p) => {
                    let mid = seq![SegmentView::CodeBlock { lang: lang, code: s.subrange(b, p) }];
                    assert(all == pre + mid + segments_from(s, p + 4));
                    assert(all[k] == mid[0]);
                },
                None => match find_from(s, fence(), b) {
                    Some(p) => {
                        let mid = seq![SegmentView::CodeBlock { lang: lang, code: s.subrange(b, p) }];
                        assert(all == pre + mid + segments_from(s, p + 3));
                        assert(all[k] == mid[0]);
                    },
                    None => {
                        let mid = seq![
                            SegmentView::CodeBlock { lang: lang, code: s.subrange(b, s.len() as int) },
                        ];
                        assert(all == pre + mid);
                        assert(all[k] == mid[0]);
                    },
                },
            }
        },
    }
}

/// A role that a reopened conversation shows.
pub open spec fn known_role(r: Seq<char>) -> bool {
    r == "user"@ || r == "assistant"@ || r == "tool_log"@
}

/// The message shown for one persisted message of a known role.
pub open spec fn reopened_message(m: (Seq<char>, ContentView, Option<u64>)) -> MsgView {
    let text = match content_text(m.1) {
        Some(t) => t,
        None => unsupported_text(),
    };
    if m.0 == "user"@ {
        MsgView::User(text)
    } else if m.0 == "assistant"@ {
        MsgView::Assistant(text)
    } else {
        MsgView::ToolLog(
            match m.1 {
                ContentView::Text(s) => s,
                _ => Seq::<char>::empty(),
            },
        )
    }
}

/// The timestamp shown for one persisted message of a known role.
pub open spec fn reopened_stamp(m: (Seq<char>, ContentView, Option<u64>), fallback: Option<u64>) -> Option<
    u64,
> {
    if m.0 == "tool_log"@ {
        None
    } else {
        match m.2 {
            Some(t) => Some(t),
            None => fallback,
        }
    }
}

/// Loading persisted messages of known roles gives one message per persisted one, in
/// order: user and assistant messages with their content (or the unsupported marker) and
/// their timestamp (or the fallback), tool logs with their string content and no
/// timestamp.
pub proof fn law_loaded_message_by_message(
    api: Seq<(Seq<char>, ContentView, Option<u64>)>,
    fallback: Option<u64>,
)
    requires
        forall|i: int| 0 <= i < api.len() ==> known_role(#[trigger] api[i].0),
    ensures
        loaded_log(api, fallback).0.len() == api.len(),
        loaded_log(api, fallback).1.len() == api.len(),
        forall|i: int|
            0 <= i < api.len() ==> #[trigger] loaded_log(api, fallback).0[i] == reopened_message(api[i])
                && loaded_log(api, fallback).1[i] == reopened_stamp(api[i], fallback),
    decreases api.len(),
{
    reveal_strlit("user");
    reveal_strlit("assistant");
    reveal_strlit("tool_log");
    assert("assistant"@.len() != "user"@.len());
    assert("tool_log"@.len() != "user"@.len());
    assert("tool_log"@[0] != "assistant"@[0]);
    if api.len() > 0 {
        let d = api.drop_last();
        assert forall|i: int| 0 <= i < d.len() implies known_role(#[trigger] d[i].0) by {
            assert(d[i] == api[i]);
        }
        law_loaded_message_by_message(d, fallback);
        let (ms, ts) = loaded_log(d, fallback);
        let last = api.last();
        assert(known_role(api[api.len() - 1].0));
        let (ms2, ts2) = loaded_log(api, fallback);
        assert(ms2 == ms.push(reopened_message(last)));
        assert(ts2 == ts.push(reopened_stamp(last, fallback)));
        assert forall|i: int| 0 <= i < api.len() implies #[trigger] loaded_log(api, fallback).0[i]
            == reopened_message(api[i]) && loaded_log(api, fallback).1[i] == reopened_stamp(
            api[i],
            fallback,
        ) by {
            if i < d.len() {
                assert(d[i] == api[i]);
                assert(ms[i] == reopened_message(d[i]));
            }
        }
    }
}

/// The persisted form of a log without "thinking" markers has one entry per message, in
/// order: its role and text, with its timestamp for user and assistant messages and none
/// for tool logs.
pub proof fn law_persisted_message_by_message(ms: Seq<MsgView>, ts: Seq<Option<u64>>, n: int)
    requires
        0 <= n <= ms.len(),
        forall|i: int| 0 <= i < ms.len() ==> !(#[trigger] ms[i] is Thinking),
    ensures
        persisted(ms, ts, n).len() == n,
        forall|i: int|
            0 <= i < n ==> #[trigger] persisted(ms, ts, n)[i] == (match ms[i] {
                MsgView::User(s) => (PersistRole::User, s, if i < ts.len() { ts[i] } else { None }),
                MsgView::Assistant(s) => (
                    PersistRole::Assistant,
                    s,
                    if i < ts.len() { ts[i] } else { None },
                ),
                MsgView::ToolLog(s) => (PersistRole::ToolLog, s, None),
                MsgView::Thinking => (PersistRole::ToolLog, Seq::<char>::empty(), None),
            }),
    decreases n,
{
    if n > 0 {
        law_persisted_message_by_message(ms, ts, n - 1);
        assert(!(ms[n - 1] is Thinking));
        let prev = persisted(ms, ts, n - 1);
        assert forall|i: int| 0 <= i < n implies #[trigger] persisted(ms, ts, n)[i] == (match ms[i] {
            MsgView::User(s) => (PersistRole::User, s, if i < ts.len() { ts[i] } else { None }),
            MsgView::Assistant(s) => (PersistRole::Assistant, s, if i < ts.len() { ts[i] } else { None }),
            MsgView::ToolLog(s) => (PersistRole::ToolLog, s, None),
            MsgView::Thinking => (PersistRole::ToolLog, Seq::<char>::empty(), None),
        }) by {
            if i < n - 1 {
                assert(persisted(ms, ts, n)[i] == prev[i]);
            }
        }
    }
}

/// Where each segment of `s[i..]` comes from: for a code block, the fence line holding its
/// language (`.0..1`) and its code (`.2..3`); for text, the text (`.2..3`, with `.0` and
/// `.1` at its start).
pub open spec fn segment_ranges(s: Seq<char>, i: int) -> Seq<(int, int, int, int)>
    decreases s.len() - i,
{
    if i < 0 || i > s.len() {
        seq![]
    } else {
        match find_from(s, fence(), i) {
            None => if i < s.len() {
                seq![(i, i, i, s.len() as int)]
            } else {
                seq![]
            },
            Some(idx) => {
                let pre = if idx > i {
                    seq![(i, i, i, idx)]
                } else {
                    seq![]
                };
                let a = idx + 3;
                let e = crate::segments::lang_end(s, a);
                let b = crate::segments::code_start(s, a);
                proof {
                    lemma_find_from(s, fence(), i);
                    lemma_find_from(s, crate::segments::newline(), a);
                    lemma_find_from(s, crate::segments::line_fence(), b);
                    lemma_find_from(s, fence(), b);
                }
                match find_from(s, crate::segments::line_fence(), b) {
                    Some(p) => pre + seq![(a, e, b, p)] + segment_ranges(s, p + 4),
                    None => match find_from(s, fence(), b) {
                        Some(p) => pre + seq![(a, e, b, p)] + segment_ranges(s, p + 3),
                        None => pre + seq![(a, e, b, s.len() as int)],
                    },
                }
            },
        }
    }
}

/// The ranges of segments lie inside `s[i..]`, each after the one before, and each
/// segment is cut from its range: text is exactly its range, a code block's code is its
/// code range and its language the trimmed fence line before it.
pub open spec fn laid_out(segs: Seq<SegmentView>, rs: Seq<(int, int, int, int)>, s: Seq<char>, i: int) -> bool {
    &&& segs.len() == rs.len()
    &&& forall|k: int|
        0 <= k < rs.len() ==> i <= (#[trigger] rs[k]).0 <= rs[k].1 <= rs[k].2 <= rs[k].3 <= s.len()
    &&& forall|k: int| 0 <= k && k + 1 < rs.len() ==> (#[trigger] rs[k]).3 <= rs[k + 1].0
    &&& forall|k: int|
        0 <= k < segs.len() ==> match #[trigger] segs[k] {
            SegmentView::Text(t) => t == s.subrange(rs[k].2, rs[k].3),
            SegmentView::CodeBlock { lang, code } => lang == crate::chars::trim(
                s.subrange(rs[k].0, rs[k].1),
            ) && code == s.subrange(rs[k].2, rs[k].3),
        }
}

#[verifier::spinoff_prover]
#[verifier::rlimit(60)]
proof fn lemma_laid_out_concat(
    s: Seq<char>,
    i: int,
    j: int,
    segs1: Seq<SegmentView>,
    rs1: Seq<(int, int, int, int)>,
    segs2: Seq<SegmentView>,
    rs2: Seq<(int, int, int, int)>,
)
    requires
        i <= j,
        laid_out(segs1, rs1, s, i),
        laid_out(segs2, rs2, s, j),
        rs1.len() > 0 ==> rs1.last().3 <= j,
    ensures
        laid_out(segs1 + segs2, rs1 + rs2, s, i),
{
    let segs = segs1 + segs2;
    let rs = rs1 + rs2;
    let n = rs1.len() as int;
    assert forall|k: int| 0 <= k < rs.len() implies i <= (#[trigger] rs[k]).0 <= rs[k].1 <= rs[k].2
        <= rs[k].3 <= s.len() by {
        if k >= n {
            assert(rs[k] == rs2[k - n]);
        } else {
            assert(rs[k] == rs1[k]);
        }
    }
    assert forall|k: int| 0 <= k && k + 1 < rs.len() implies (#[trigger] rs[k]).3 <= rs[k + 1].0 by {
        if k >= n {
            assert(rs[k] == rs2[k - n]);
            assert(rs[k + 1] == rs2[k + 1 - n]);
        } else if k + 1 == n {
            assert(rs[k] == rs1.last());
            assert(rs[k + 1] == rs2[0]);
        } else {
            assert(rs[k] == rs1[k]);
            assert(rs[k + 1] == rs1[k + 1]);
        }
    }
    assert forall|k: int| 0 <= k < segs.len() implies match #[trigger] segs[k] {
        SegmentView::Text(t) => t == s.subrange(rs[k].2, rs[k].3),
        SegmentView::CodeBlock { lang, code } => lang == crate::chars::trim(s.subrange(rs[k].0, rs[k].1))
            && code == s.subrange(rs[k].2, rs[k].3),
    } by {
        if k >= n {
            assert(rs[k] == rs2[k - n]);
            assert(segs[k] == segs2[k - n]);
        } else {
            assert(rs[k] == rs1[k]);
            assert(segs[k] == segs1[k]);
        }
    }
}

/// The segments of a message are cut from it in order, without overlap: each text
/// segment is a stretch of the message, each code block's language comes from its fence
/// line and its code from the stretch after it, and each segment lies after the one
/// before.
pub proof fn law_segments_in_order(s: Seq<char>, i: int)
    requires
        0 <= i,
    ensures
        laid_out(segments_from(s, i), segment_ranges(s, i), s, i),
    decreases s.len() - i,
{
    let segs = segments_from(s, i);
    let rs = segment_ranges(s, i);
    if i > s.len() {
        return;
    }
    lemma_find_from(s, fence(), i);
    match find_from(s, fence(), i) {
        None => {
            if i < s.len() {
                assert(laid_out(segs, rs, s, i));
            } else {
                assert(laid_out(segs, rs, s, i));
            }
        },
        Some(idx) => {
            let a = idx + 3;
            let e = crate::segments::lang_end(s, a);
            let b = crate::segments::code_start(s, a);
            lemma_find_from(s, crate::segments::newline(), a);
            lemma_find_from(s, crate::segments::line_fence(), b);
            lemma_find_from(s, fence(), b);
            let pre_s = if idx > i {
                seq![SegmentView::Text(s.subrange(i, idx))]
            } else {
                seq![]
            };
            let pre_r = if idx > i {
                seq![(i, i, i, idx)]
            } else {
                seq![]
            };
            assert(laid_out(pre_s, pre_r, s, i));
            let lang = crate::chars::trim(s.subrange(a, e));
            assert(a <= e <= b);
            match find_from(s, crate::segments::line_fence(), b) {
                Some(p) => {
                    law_segments_in_order(s, p + 4);
                    let mid_s = seq![SegmentView::CodeBlock { lang: lang, code: s.subrange(b, p) }];
                    let mid_r = seq![(a, e, b, p)];
                    assert(laid_out(mid_s, mid_r, s, idx));
                    lemma_laid_out_concat(s, i, idx, pre_s, pre_r, mid_s, mid_r);
                    lemma_laid_out_concat(
                        s,
                        i,
                        p + 4,
                        pre_s + mid_s,
                        pre_r + mid_r,
                        segments_from(s, p + 4),
                        segment_ranges(s, p + 4),
                    );
                    assert(segs == pre_s + mid_s + segments_from(s, p + 4));
                    assert(rs == pre_r + mid_r + segment_ranges(s, p + 4));
                },
                None => match find_from(s, fence(), b) {
                    Some(p) => {
                        law_segments_in_order(s, p + 3);
                        let mid_s = seq![SegmentView::CodeBlock { lang: lang, code: s.subrange(b, p) }];
                        let mid_r = seq![(a, e, b, p)];
                        assert(laid_out(mid_s, mid_r, s, idx));
                        lemma_laid_out_concat(s, i, idx, pre_s, pre_r, mid_s, mid_r);
                        lemma_laid_out_concat(
                            s,
                            i,
                            p + 3,
                            pre_s + mid_s,
                            pre_r + mid_r,
                            segments_from(s, p + 3),
                            segment_ranges(s, p + 3),
                        );
                        assert(segs == pre_s + mid_s + segments_from(s, p + 3));
                        assert(rs == pre_r + mid_r + segment_ranges(s, p + 3));
                    },
                    None => {
                        let mid_s = seq![
                            SegmentView::CodeBlock { lang: lang, code: s.subrange(b, s.len() as int) },
                        ];
                        let mid_r = seq![(a, e, b, s.len() as int)];
                        assert(laid_out(mid_s, mid_r, s, idx));
                        lemma_laid_out_concat(s, i, idx, pre_s, pre_r, mid_s, mid_r);
                        assert(segs == pre_s + mid_s);
                        assert(rs == pre_r + mid_r);
                    },
                },
            }
        },
    }
}

/// A compact token count ends in its unit: below 1000 the number itself; below a million
/// "k" (the whole thousands); from a million on "M", and a whole number of millions that a
/// double holds exactly is printed as that number.
pub proof fn law_tokens_compact_units(t: nat)
    ensures
        t < 1000 ==> tokens_compact(t) == decimal(t),
        1000 <= t < 1_000_000 ==> tokens_compact(t) == decimal(t / 1000) + "k"@,
        t >= 1_000_000 ==> tokens_compact(t).last() == 'M',
        t >= 1_000_000 && t % 1_000_000 == 0 && t <= 9007199254740992 ==> tokens_compact(t)
            == decimal(t / 1_000_000) + "M"@,
{
    reveal_strlit("M");
    reveal_strlit("k");
    if t >= 1_000_000 {
        let (n, p) = millions_double(t);
        if n % p == 0 {
            assert((decimal(n / p) + "M"@).last() == 'M');
        } else {
            let tenths = round_div(10 * n, p);
            assert((decimal(tenths / 10) + "."@ + decimal(tenths % 10) + "M"@).last() == 'M');
        }
        if t % 1_000_000 == 0 && t <= 9007199254740992 {
            assert(t < 9007199254740992);
            vstd::arithmetic::power2::lemma2_to64();
            assert(shift_from(t, 0) == 0);
            assert(as_double(t) == t) by {
                assert(vstd::arithmetic::power2::pow2(0) == 1);
                assert(t / 1 == t && t % 1 == 0) by (nonlinear_arith);
                assert(round_div(t, 1) == t);
                let x = round_div(t, 1);
                assert(x * 1 == x) by (nonlinear_arith);
            }
            let s = scale_from(t, 52);
            let p2 = vstd::arithmetic::power2::pow2(s);
            vstd::arithmetic::power2::lemma_pow2_pos(s);
            let m = t / 1_000_000;
            assert(t == m * 1_000_000);
            assert(t * p2 == (m * p2) * 1_000_000) by (nonlinear_arith)
                requires
                    t == m * 1_000_000,
            ;
            assert((t * p2) / 1_000_000 == m * p2 && (t * p2) % 1_000_000 == 0) by (nonlinear_arith)
                requires
                    t * p2 == (m * p2) * 1_000_000,
            ;
            assert(millions_double(t) == (m * p2, p2));
            assert((m * p2) % p2 == 0 && (m * p2) / p2 == m) by (nonlinear_arith)
                requires
                    p2 > 0,
            ;
        }
    }
}

/// The persisted messages whose role is shown (user, assistant, tool log), in order.
pub open spec fn kept_messages(api: Seq<(Seq<char>, ContentView, Option<u64>)>) -> Seq<
    (Seq<char>, ContentView, Option<u64>),
> {
    api.filter(|m: (Seq<char>, ContentView, Option<u64>)| known_role(m.0))
}

proof fn lemma_loaded_skips_unknown(api: Seq<(Seq<char>, ContentView, Option<u64>)>, fallback: Option<u64>)
    ensures
        loaded_log(api, fallback) == loaded_log(kept_messages(api), fallback),
    decreases api.len(),
{
    reveal(Seq::filter);
    if api.len() > 0 {
        lemma_loaded_skips_unknown(api.drop_last(), fallback);
        let pred = |m: (Seq<char>, ContentView, Option<u64>)| known_role(m.0);
        let sub = api.drop_last().filter(pred);
        assert(kept_messages(api) == (if pred(api.last()) {
            sub.push(api.last())
        } else {
            sub
        }));
        if pred(api.last()) {
            assert(sub.push(api.last()).drop_last() =~= sub);
            assert(sub.push(api.last()).last() == api.last());
        }
    }
}

/// Loading persisted messages shows one message per message of a known role (user,
/// assistant, tool log), in order, and skips the others: user and assistant messages with
/// their content (or the unsupported marker) and their timestamp (or the fallback), tool
/// logs with their string content and no timestamp.
pub proof fn law_loaded_skips_other_roles(api: Seq<(Seq<char>, ContentView, Option<u64>)>, fallback: Option<u64>)
    ensures
        loaded_log(api, fallback).0.len() == kept_messages(api).len(),
        loaded_log(api, fallback).1.len() == kept_messages(api).len(),
        forall|i: int|
            0 <= i < kept_messages(api).len() ==> #[trigger] loaded_log(api, fallback).0[i]
                == reopened_message(kept_messages(api)[i]) && loaded_log(api, fallback).1[i]
                == reopened_stamp(kept_messages(api)[i], fallback),
{
    lemma_loaded_skips_unknown(api, fallback);
    let kept = kept_messages(api);
    let pred = |m: (Seq<char>, ContentView, Option<u64>)| known_role(m.0);
    assert forall|i: int| 0 <= i < kept.len() implies known_role(#[trigger] kept[i].0) by {
        api.lemma_filter_pred(pred, i);
    }
    law_loaded_message_by_message(kept, fallback);
}

} // verus!
