//! What the popups, copy, history blocks, table rows and model search are for, stated
//! over all inputs.

use vstd::prelude::*;

use crate::app_state::MsgView;
use crate::chars::{contains, occurs_at};
use crate::delete_command::{delete_outcome, DeleteOutcome};
use crate::history_view::{code_line, code_lines, sat_sub, segment_lines};
use crate::keys::KeyCode;
use crate::markdown::{cell_separator, inline_from, plain, stars, table_spans, tick, open_bracket, SpanStyle};
use crate::model_selector::{matching_models, model_matches};
use crate::segments::SegmentView;
use crate::selection::copyable;
use crate::wrap::{lines_fit, trim_end_spaces, trim_lines, wrap_lines, wrapped};
use crate::chars::lowercase;
use crate::laws::law_unmarked_text_is_plain;

verus! {

/// Space in the delete popup toggles the mark under the cursor: that mark becomes its
/// negation, every other mark and the cursor stay.
pub proof fn law_space_toggles_mark(idx: usize, marks: Seq<bool>, len: int)
    requires
        len > 0,
        idx < marks.len(),
    ensures
        delete_outcome(idx, marks, len, KeyCode::Char(' ')) matches DeleteOutcome::Stay(i, m) && i == idx
            && m.len() == marks.len() && m[idx as int] == !marks[idx as int] && forall|j: int|
            0 <= j < marks.len() && j != idx ==> m[j] == marks[j],
{
}

/// Pressing Space twice on the same row of the delete popup leaves the marks as they
/// were.
pub proof fn law_space_twice_restores(idx: usize, marks: Seq<bool>, len: int)
    requires
        len > 0,
        idx < marks.len(),
    ensures
        delete_outcome(idx, marks, len, KeyCode::Char(' ')) matches DeleteOutcome::Stay(i, m)
            && delete_outcome(i, m, len, KeyCode::Char(' ')) == DeleteOutcome::Stay(idx, marks),
{
    law_space_toggles_mark(idx, marks, len);
    if let DeleteOutcome::Stay(i, m) = delete_outcome(idx, marks, len, KeyCode::Char(' ')) {
        law_space_toggles_mark(i, m, len);
        if let DeleteOutcome::Stay(i2, m2) = delete_outcome(i, m, len, KeyCode::Char(' ')) {
            assert(m2 =~= marks);
        }
    }
}

/// Clicking a user or an assistant message copies exactly its text; a tool log, the
/// thinking marker, or a place past the log copies nothing.
pub proof fn law_copy_user_and_assistant(ms: Seq<MsgView>, idx: int, s: Seq<char>)
    ensures
        0 <= idx < ms.len() && ms[idx] == MsgView::User(s) ==> copyable(ms, idx) == Some(s),
        0 <= idx < ms.len() && ms[idx] == MsgView::Assistant(s) ==> copyable(ms, idx) == Some(s),
        0 <= idx < ms.len() && (ms[idx] is ToolLog || ms[idx] is Thinking) ==> copyable(ms, idx) is None,
        !(0 <= idx < ms.len()) ==> copyable(ms, idx) is None,
{
}

/// Code chunks become one framed code line each, in order.
pub proof fn lemma_code_lines_each(chunks: Seq<Seq<char>>, border: SpanStyle)
    ensures
        code_lines(chunks, border).len() == chunks.len(),
        forall|j: int| 0 <= j < chunks.len() ==> #[trigger] code_lines(chunks, border)[j] == code_line(chunks[j], border),
    decreases chunks.len(),
{
    if chunks.len() > 0 {
        lemma_code_lines_each(chunks.drop_last(), border);
        assert forall|j: int| 0 <= j < chunks.len() implies #[trigger] code_lines(chunks, border)[j]
            == code_line(chunks[j], border) by {
            if j < chunks.len() - 1 {
                assert(chunks.drop_last()[j] == chunks[j]);
            }
        }
    }
}

/// Each line trimmed of its trailing spaces, in order.
pub proof fn lemma_trim_lines_each(ls: Seq<Seq<char>>)
    ensures
        trim_lines(ls).len() == ls.len(),
        forall|j: int| 0 <= j < ls.len() ==> #[trigger] trim_lines(ls)[j] == trim_end_spaces(ls[j]),
    decreases ls.len(),
{
    if ls.len() > 0 {
        lemma_trim_lines_each(ls.drop_last());
        assert forall|j: int| 0 <= j < ls.len() implies #[trigger] trim_lines(ls)[j] == trim_end_spaces(ls[j]) by {
            if j < ls.len() - 1 {
                assert(ls.drop_last()[j] == ls[j]);
            }
        }
    }
}

/// Wrapping keeps at least one display line per line when each non-empty line wraps to
/// at least one.
pub proof fn lemma_wrap_lines_keeps_lines(ls: Seq<Seq<char>>, width: usize)
    requires
        forall|j: int| 0 <= j < ls.len() && ls[j].len() > 0 ==> (#[trigger] wrapped(ls[j], width)).len() >= 1,
    ensures
        wrap_lines(ls, width).len() >= ls.len(),
    decreases ls.len(),
{
    if ls.len() > 0 {
        let d = ls.drop_last();
        assert forall|j: int| 0 <= j < d.len() && d[j].len() > 0 implies (#[trigger] wrapped(d[j], width)).len() >= 1 by {
            assert(d[j] == ls[j]);
        }
        lemma_wrap_lines_keeps_lines(d, width);
        if ls.last().len() > 0 {
            assert(wrapped(ls[ls.len() - 1], width).len() >= 1);
        }
    }
}

/// No line of a code block is lost: the block has its header, its footer, and at least
/// one code line for each line of its code, given that wrapping gives each non-empty line
/// at least one display line (as `textwrap` does). When every line of the code fits and
/// wrapping leaves a fitting line whole (as `textwrap` does), the code lines are exactly
/// the lines of the code, in order, each without its trailing spaces.
pub proof fn law_code_block_keeps_lines(
    lang: Seq<char>,
    code: Seq<char>,
    content_width: usize,
    is_error: bool,
    border: SpanStyle,
)
    requires
        forall|j: int|
            0 <= j < crate::wrap::lines_of(code).len() && crate::wrap::lines_of(code)[j].len() > 0 ==> (
            #[trigger] wrapped(crate::wrap::lines_of(code)[j], sat_sub(content_width as int, 2) as usize)).len()
                >= 1,
        forall|j: int|
            0 <= j < crate::wrap::lines_of(code).len() && sat_sub(content_width as int, 2) > 0
                && crate::chars::utf8_len(crate::wrap::lines_of(code)[j]) < sat_sub(content_width as int, 2)
                && crate::wrap::lines_of(code)[j].len() > 0 ==> (#[trigger] wrapped(
                crate::wrap::lines_of(code)[j],
                sat_sub(content_width as int, 2) as usize,
            )) == seq![trim_end_spaces(crate::wrap::lines_of(code)[j])],
    ensures
        segment_lines(SegmentView::CodeBlock { lang, code }, content_width, is_error, border).len()
            >= crate::wrap::lines_of(code).len() + 2,
        ({
            let inner = sat_sub(content_width as int, 2) as usize;
            let ls = crate::wrap::lines_of(code);
            let rows = segment_lines(SegmentView::CodeBlock { lang, code }, content_width, is_error, border);
            inner > 0 && lines_fit(ls, inner) ==> rows.len() == ls.len() + 2 && forall|j: int|
                0 <= j < ls.len() ==> #[trigger] rows[j + 1] == code_line(trim_end_spaces(ls[j]), border)
        }),
{
    let inner = sat_sub(content_width as int, 2) as usize;
    let ls = crate::wrap::lines_of(code);
    let ch = wrap_lines(ls, inner);
    lemma_wrap_lines_keeps_lines(ls, inner);
    lemma_code_lines_each(ch, border);
    let rows = segment_lines(SegmentView::CodeBlock { lang, code }, content_width, is_error, border);
    let head = seq![crate::history_view::code_header(lang, inner, border)];
    let foot = seq![seq![("│ "@, border), (crate::history_view::bottom_border(inner), SpanStyle::Secondary)]];
    assert(rows == head + code_lines(ch, border) + foot);
    if inner > 0 && lines_fit(ls, inner) {
        lemma_fitting_lines_unwrapped(ls, inner);
        lemma_trim_lines_each(ls);
        assert forall|j: int| 0 <= j < ls.len() implies #[trigger] rows[j + 1] == code_line(
            trim_end_spaces(ls[j]),
            border,
        ) by {
            assert(rows[j + 1] == code_lines(ch, border)[j]);
        }
    }
}

/// Lines that all fit, each left whole by wrapping, wrap to themselves without trailing
/// spaces.
pub proof fn lemma_fitting_lines_unwrapped(ls: Seq<Seq<char>>, width: usize)
    requires
        width > 0,
        lines_fit(ls, width),
        forall|j: int|
            0 <= j < ls.len() && crate::chars::utf8_len(ls[j]) < width && ls[j].len() > 0 ==> (
            #[trigger] wrapped(ls[j], width)) == seq![trim_end_spaces(ls[j])],
    ensures
        wrap_lines(ls, width) == trim_lines(ls),
    decreases ls.len(),
{
    if ls.len() > 0 {
        let d = ls.drop_last();
        assert forall|j: int|
            0 <= j < d.len() && crate::chars::utf8_len(d[j]) < width && d[j].len() > 0 implies (
            #[trigger] wrapped(d[j], width)) == seq![trim_end_spaces(d[j])] by {
            assert(d[j] == ls[j]);
        }
        assert forall|k: int| 0 <= k < d.len() implies crate::chars::utf8_len(#[trigger] d[k]) < width by {
            assert(d[k] == ls[k]);
        }
        lemma_fitting_lines_unwrapped(d, width);
        let l = ls.last();
        assert(crate::chars::utf8_len(ls[ls.len() - 1]) < width);
        if l.len() == 0 {
            assert(trim_end_spaces(l) == l);
            assert(l =~= Seq::<char>::empty());
        } else {
            assert(wrapped(ls[ls.len() - 1], width) == seq![trim_end_spaces(ls[ls.len() - 1])]);
        }
        assert(wrap_lines(ls, width) =~= trim_lines(d).push(trim_end_spaces(l)));
    }
}

/// A table row puts the separator " │ " between its cells: the spans of a row of two or
/// more cells are the first cell's spans, one accent " │ ", then the spans of the rest of
/// the row.
pub proof fn law_table_cells_separated(cells: Seq<Seq<char>>)
    requires
        cells.len() >= 2,
    ensures
        table_spans(cells) == inline_from(cells[0], 0) + seq![(cell_separator(), SpanStyle::Accent)]
            + table_spans(cells.drop_first()),
    decreases cells.len(),
{
    let sep = seq![(cell_separator(), SpanStyle::Accent)];
    if cells.len() == 2 {
        let d = cells.drop_last();
        assert(d.drop_last() =~= Seq::<Seq<char>>::empty());
        assert(table_spans(d) == table_spans(d.drop_last()) + Seq::<(Seq<char>, SpanStyle)>::empty()
            + inline_from(d.last(), 0));
        assert(table_spans(d) =~= inline_from(cells[0], 0));
        let r = cells.drop_first();
        assert(r.drop_last() =~= Seq::<Seq<char>>::empty());
        assert(table_spans(r) =~= inline_from(cells[1], 0));
        assert(table_spans(cells) =~= inline_from(cells[0], 0) + sep + inline_from(cells[1], 0));
    } else {
        let d = cells.drop_last();
        law_table_cells_separated(d);
        assert(d.drop_first() =~= cells.drop_first().drop_last());
        assert(d[0] == cells[0]);
        assert(cells.drop_first().last() == cells.last());
        assert(table_spans(cells.drop_first()) == table_spans(d.drop_first()) + sep + inline_from(cells.last(), 0));
        assert(table_spans(cells) =~= inline_from(cells[0], 0) + sep + table_spans(cells.drop_first()));
    }
}

/// A table row of plain cells (no "**", "`" or "[") shows each cell as one plain span,
/// with an accent " │ " between consecutive cells: `2k - 1` spans for `k` cells.
pub proof fn law_plain_table_row(cells: Seq<Seq<char>>)
    requires
        cells.len() >= 1,
        forall|j: int|
            0 <= j < cells.len() ==> (#[trigger] cells[j]).len() > 0 && !contains(cells[j], stars())
                && !contains(cells[j], tick()) && !contains(cells[j], open_bracket()),
    ensures
        table_spans(cells).len() == 2 * cells.len() - 1,
        forall|j: int| 0 <= j < cells.len() ==> #[trigger] table_spans(cells)[2 * j] == plain(cells[j]),
        forall|j: int|
            0 <= j < cells.len() - 1 ==> #[trigger] table_spans(cells)[2 * j + 1] == (
                cell_separator(),
                SpanStyle::Accent,
            ),
    decreases cells.len(),
{
    law_unmarked_text_is_plain(cells[0]);
    if cells.len() == 1 {
        let e = cells.drop_last();
        assert(e =~= Seq::<Seq<char>>::empty());
        assert(table_spans(e) == Seq::<(Seq<char>, SpanStyle)>::empty());
        assert(cells.last() == cells[0]);
        assert(table_spans(cells) == table_spans(e) + Seq::<(Seq<char>, SpanStyle)>::empty() + inline_from(
            cells[0],
            0,
        ));
        assert(table_spans(cells) =~= seq![plain(cells[0])]);
    } else {
        let r = cells.drop_first();
        assert forall|j: int| 0 <= j < r.len() implies (#[trigger] r[j]).len() > 0 && !contains(r[j], stars())
            && !contains(r[j], tick()) && !contains(r[j], open_bracket()) by {
            assert(r[j] == cells[j + 1]);
        }
        law_plain_table_row(r);
        law_table_cells_separated(cells);
        let sp = table_spans(cells);
        let tail = table_spans(r);
        assert(sp == seq![plain(cells[0])] + seq![(cell_separator(), SpanStyle::Accent)] + tail);
        assert forall|j: int| 0 <= j < cells.len() implies #[trigger] table_spans(cells)[2 * j] == plain(
            cells[j],
        ) by {
            if j > 0 {
                assert(sp[2 * j] == tail[2 * (j - 1)]);
                assert(r[j - 1] == cells[j]);
            }
        }
        assert forall|j: int| 0 <= j < cells.len() - 1 implies #[trigger] table_spans(cells)[2 * j + 1] == (
            cell_separator(),
            SpanStyle::Accent,
        ) by {
            if j > 0 {
                assert(sp[2 * j + 1] == tail[2 * (j - 1) + 1]);
            }
        }
    }
}

/// The model search finds the filter anywhere in the model's id or name, ignoring case:
/// a model is kept exactly when the lowercased filter occurs at some position of its
/// lowercased id or of its lowercased name.
pub proof fn law_model_found_anywhere(m: (Seq<char>, Seq<char>, u64), filter: Seq<char>)
    ensures
        model_matches(m, filter) <==> (exists|k: int| occurs_at(lowercase(m.0), lowercase(filter), k))
            || (exists|k: int| occurs_at(lowercase(m.1), lowercase(filter), k)),
{
}

/// A model whose lowercased id or name holds the lowercased filter after some prefix (a
/// vendor such as "openai/") is kept by the search.
pub proof fn law_model_found_after_prefix(
    ms: Seq<(Seq<char>, Seq<char>, u64)>,
    i: int,
    filter: Seq<char>,
    pre: Seq<char>,
    post: Seq<char>,
)
    requires
        0 <= i < ms.len(),
        lowercase(ms[i].0) == pre + lowercase(filter) + post || lowercase(ms[i].1) == pre + lowercase(filter)
            + post,
    ensures
        matching_models(ms, filter).contains(ms[i]),
{
    let f = lowercase(filter);
    let w = pre + f + post;
    assert(w.subrange(pre.len() as int, (pre.len() + f.len()) as int) =~= f);
    assert(occurs_at(w, f, pre.len() as int));
    assert(model_matches(ms[i], filter));
    lemma_matching_keeps(ms, i, filter);
}

/// The search keeps exactly the models that match, in order: every model that matches
/// is in the result, and everything in the result is a matching model of the list.
pub proof fn lemma_matching_keeps(ms: Seq<(Seq<char>, Seq<char>, u64)>, i: int, filter: Seq<char>)
    requires
        0 <= i < ms.len(),
        model_matches(ms[i], filter),
    ensures
        matching_models(ms, filter).contains(ms[i]),
    decreases ms.len(),
{
    if i == ms.len() - 1 {
        let sub = matching_models(ms.drop_last(), filter);
        assert(matching_models(ms, filter) == sub.push(ms.last()));
        assert(sub.push(ms.last())[sub.len() as int] == ms[i]);
    } else {
        lemma_matching_keeps(ms.drop_last(), i, filter);
        let sub = matching_models(ms.drop_last(), filter);
        assert(ms.drop_last()[i] == ms[i]);
        let k = choose|k: int| 0 <= k < sub.len() && sub[k] == ms[i];
        if model_matches(ms.last(), filter) {
            assert(sub.push(ms.last())[k] == ms[i]);
        }
    }
}

/// Everything the search keeps is a model of the list that matches the filter.
pub proof fn law_model_search_only_matches(ms: Seq<(Seq<char>, Seq<char>, u64)>, filter: Seq<char>, k: int)
    requires
        0 <= k < matching_models(ms, filter).len(),
    ensures
        ms.contains(matching_models(ms, filter)[k]),
        model_matches(matching_models(ms, filter)[k], filter),
    decreases ms.len(),
{
    let sub = matching_models(ms.drop_last(), filter);
    if ms.len() > 0 {
        if k < sub.len() {
            assert(matching_models(ms, filter)[k] == sub[k]);
            law_model_search_only_matches(ms.drop_last(), filter, k);
            let j = choose|j: int| 0 <= j < ms.drop_last().len() && ms.drop_last()[j] == sub[k];
            assert(ms[j] == sub[k]);
        } else {
            assert(matching_models(ms, filter)[k] == ms.last());
            assert(ms[ms.len() - 1] == ms.last());
        }
    }
}

} // verus!
