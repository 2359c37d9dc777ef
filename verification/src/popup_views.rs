//! What the popups and the input section show: titles, rows with their styles, filter
//! boxes, placeholder messages, and the selection clamped to what is listed. Drawing
//! them with widgets is left to the caller.

use vstd::prelude::*;

use chrono::TimeZone;
use std::fmt::Write;

use crate::chars::{push_char, push_decimal, push_text, str_chars, decimal};
use crate::command_form::{CommandFormField, CommandFormMode, CommandFormPhase, CommandFormState, CustomTemplate, field_line, field_label};
use crate::delete_command::DeleteCommandState;
use crate::file_picker::{FilePickerState, joined_path, dir_parts};
use crate::history_selector::{ConversationEntry, HistorySelectorState};
use crate::markdown::{SpanStyle, StyledSpan, spans_view};
use crate::model_selector::{ModelSelectorState, filter_models, matching_models, models_view};

verus! {

broadcast use vstd::string::group_string_axioms;

fn span(text: String, style: SpanStyle) -> (r: StyledSpan)
    ensures
        r@ == (text@, style),
{
    StyledSpan { content: text, style }
}

/// The style of row `i` of a list whose selection is `selected`.
pub open spec fn row_style(i: int, selected: int) -> SpanStyle {
    if i == selected {
        SpanStyle::Selected
    } else {
        SpanStyle::Plain
    }
}

/// The title of the command form popup.
pub open spec fn form_title(phase: CommandFormPhase, creating: bool) -> Seq<char> {
    match phase {
        CommandFormPhase::SelectCommand => " Update command - select one "@,
        CommandFormPhase::EditForm => if creating {
            " Create command "@
        } else {
            " Update command "@
        },
    }
}

pub fn command_form_title(state: &CommandFormState) -> (r: &'static str)
    ensures
        r@ == form_title(state.phase, state.form_mode is Create),
{
    match state.phase {
        CommandFormPhase::SelectCommand => " Update command - select one ",
        CommandFormPhase::EditForm => match state.form_mode {
            CommandFormMode::Create => " Create command ",
            CommandFormMode::Update { .. } => " Update command ",
        },
    }
}

/// The row of a custom command in a list: ` /name - description`.
pub open spec fn command_row_text(name: Seq<char>, description: Seq<char>) -> Seq<char> {
    " /"@ + name + " - "@ + description
}

/// The rows of the "Update command - select one" list.
pub fn update_command_rows(templates: &[CustomTemplate], selected: usize) -> (r: Vec<StyledSpan>)
    ensures
        r@.len() == templates@.len(),
        forall|i: int|
            0 <= i < templates@.len() ==> #[trigger] r@[i]@ == (
                command_row_text(templates@[i].name@, templates@[i].description@),
                row_style(i, selected as int),
            ),
{
    let mut rows: Vec<StyledSpan> = Vec::new();
    let mut i: usize = 0;
    while i < templates.len()
        invariant
            i <= templates@.len(),
            rows@.len() == i,
            forall|k: int|
                0 <= k < i ==> #[trigger] rows@[k]@ == (
                    command_row_text(templates@[k].name@, templates@[k].description@),
                    row_style(k, selected as int),
                ),
        decreases templates@.len() - i,
    {
        let t = &templates[i];
        let mut text = " /".to_string();
        push_text(&mut text, &t.name);
        push_text(&mut text, " - ");
        push_text(&mut text, &t.description);
        let style = if i == selected {
            SpanStyle::Selected
        } else {
            SpanStyle::Plain
        };
        rows.push(span(text, style));
        i = i + 1;
    }
    rows
}

/// The style of a form field: bold accent when focused.
pub open spec fn field_style(focused: bool) -> SpanStyle {
    if focused {
        SpanStyle::AccentBold
    } else {
        SpanStyle::Plain
    }
}

/// The field lines of the form, in the order shown: name, description, mode, prompt.
pub open spec fn form_fields_view(state: CommandFormState) -> Seq<(Seq<char>, SpanStyle)> {
    let f = state.focused_field;
    seq![
        (field_line(CommandFormField::Name, state.name@, f == CommandFormField::Name), field_style(f == CommandFormField::Name)),
        (field_line(CommandFormField::Description, state.description@, f == CommandFormField::Description), field_style(f == CommandFormField::Description)),
        (field_line(CommandFormField::Mode, state.llm_mode@, f == CommandFormField::Mode), field_style(f == CommandFormField::Mode)),
        (field_line(CommandFormField::Prompt, state.prompt_prefix@, f == CommandFormField::Prompt), field_style(f == CommandFormField::Prompt)),
    ]
}

/// The field lines of the command form.
pub fn form_field_lines(state: &CommandFormState) -> (r: Vec<StyledSpan>)
    ensures
        spans_view(r@) == form_fields_view(*state),
{
    let focus = state.focused_field;
    let (name, nf) = field_label(CommandFormField::Name, &state.name, focus == CommandFormField::Name);
    let (desc, df) = field_label(
        CommandFormField::Description,
        &state.description,
        focus == CommandFormField::Description,
    );
    let (mode, mf) = field_label(CommandFormField::Mode, &state.llm_mode, focus == CommandFormField::Mode);
    let (prompt, pf) = field_label(
        CommandFormField::Prompt,
        &state.prompt_prefix,
        focus == CommandFormField::Prompt,
    );
    let style = |focused: bool| -> (s: SpanStyle)
        ensures
            s == field_style(focused),
        {
            if focused {
                SpanStyle::AccentBold
            } else {
                SpanStyle::Plain
            }
        };
    let r = vec![span(name, style(nf)), span(desc, style(df)), span(mode, style(mf)), span(prompt, style(pf))];
    assert(spans_view(r@) =~= form_fields_view(*state));
    r
}

/// The line of the form's error, in bold red.
pub fn form_error_line(state: &CommandFormState) -> (r: Option<StyledSpan>)
    ensures
        match state.error {
            Some(e) => r matches Some(s) && s@ == (e@, SpanStyle::ErrorBold),
            None => r is None,
        },
{
    match &state.error {
        Some(e) => Some(span(e.clone(), SpanStyle::ErrorBold)),
        None => None,
    }
}

/// The row of a custom command in the delete popup: its checkbox, name and description.
pub open spec fn delete_row_text(marked: bool, name: Seq<char>, description: Seq<char>) -> Seq<char> {
    (if marked {
        "[x]"@
    } else {
        "[ ]"@
    }) + " /"@ + name + " - "@ + description
}

/// The style of a delete row: the cursor row selected, marked rows in the accent colour,
/// others grey.
pub open spec fn delete_row_style(cursor: bool, marked: bool) -> SpanStyle {
    if cursor {
        SpanStyle::Selected
    } else if marked {
        SpanStyle::Accent
    } else {
        SpanStyle::Muted
    }
}

/// Whether row `i` is marked for deletion (rows past the marks are not).
pub open spec fn marked_at(marks: Seq<bool>, i: int) -> bool {
    0 <= i < marks.len() && marks[i]
}

/// The rows of the delete popup.
pub fn delete_rows(state: &DeleteCommandState, templates: &[CustomTemplate]) -> (r: Vec<StyledSpan>)
    ensures
        r@.len() == templates@.len(),
        forall|i: int|
            0 <= i < templates@.len() ==> #[trigger] r@[i]@ == (
                delete_row_text(
                    marked_at(state.selected@, i),
                    templates@[i].name@,
                    templates@[i].description@,
                ),
                delete_row_style(i == state.selected_index, marked_at(state.selected@, i)),
            ),
{
    let mut rows: Vec<StyledSpan> = Vec::new();
    let mut i: usize = 0;
    while i < templates.len()
        invariant
            i <= templates@.len(),
            rows@.len() == i,
            forall|k: int|
                0 <= k < i ==> #[trigger] rows@[k]@ == (
                    delete_row_text(
                        marked_at(state.selected@, k),
                        templates@[k].name@,
                        templates@[k].description@,
                    ),
                    delete_row_style(k == state.selected_index, marked_at(state.selected@, k)),
                ),
        decreases templates@.len() - i,
    {
        let t = &templates[i];
        let marked = i < state.selected.len() && state.selected[i];
        let mut text = if marked {
            "[x]".to_string()
        } else {
            "[ ]".to_string()
        };
        push_text(&mut text, " /");
        push_text(&mut text, &t.name);
        push_text(&mut text, " - ");
        push_text(&mut text, &t.description);
        let style = if i == state.selected_index {
            SpanStyle::Selected
        } else if marked {
            SpanStyle::Accent
        } else {
            SpanStyle::Muted
        };
        rows.push(span(text, style));
        i = i + 1;
    }
    rows
}

/// The content of a filter box: a grey placeholder while empty.
pub open spec fn filter_view(filter: Seq<char>) -> (Seq<char>, SpanStyle) {
    if filter.len() == 0 {
        ("Filter... "@, SpanStyle::Muted)
    } else {
        (filter, SpanStyle::Plain)
    }
}

pub fn filter_span(filter: &str) -> (r: StyledSpan)
    ensures
        r@ == filter_view(filter@),
{
    if str_chars(filter).len() == 0 {
        span("Filter... ".to_string(), SpanStyle::Muted)
    } else {
        span(filter.to_string(), SpanStyle::Plain)
    }
}

/// The column of the cursor in a filter box whose inside starts at `inner_x` and is
/// `inner_width` wide.
pub fn filter_cursor_x(inner_x: u16, inner_width: u16, filter: &str) -> (r: u16)
    requires
        inner_x + inner_width <= u16::MAX,
    ensures
        r == inner_x + if filter@.len() < inner_width {
            filter@.len() as int
        } else {
            inner_width as int
        },
{
    let n = str_chars(filter).len();
    if n < inner_width as usize {
        inner_x + n as u16
    } else {
        inner_x + inner_width
    }
}

/// What a popup's list area shows: a message in a style, or the rows.
pub enum ListView {
    Message(StyledSpan),
    Rows(Vec<StyledSpan>),
}

/// `n - 1`, or 0 for an empty list.
pub open spec fn last_row(n: nat) -> usize {
    if n > 0 {
        (n - 1) as usize
    } else {
        0
    }
}

/// The model selector's list: the fetch error, a loading note, a note when nothing
/// matches, or the matching models (` name `); the selection is clamped to the matches.
pub fn model_list_view(selector: &mut ModelSelectorState) -> (r: ListView)
    ensures
        ({
            let a = *old(selector);
            let shown = matching_models(models_view(a.models@), a.filter@);
            let n = shown.len();
            let sel = if a.selected_index < last_row(n) {
                a.selected_index
            } else {
                last_row(n)
            };
            match a.fetch_error {
                Some(e) => {
                    &&& *final(selector) == a
                    &&& r matches ListView::Message(m) && m@ == ("Error: "@ + e@, SpanStyle::Error)
                },
                None => if a.models@.len() == 0 {
                    &&& *final(selector) == a
                    &&& r matches ListView::Message(m) && m@ == ("Loading..."@, SpanStyle::MutedItalic)
                } else {
                    &&& *final(selector) == (ModelSelectorState { selected_index: sel, ..a })
                    &&& if n == 0 {
                        r matches ListView::Message(m) && m@ == (
                            if a.filter@.len() == 0 {
                                "No models"@
                            } else {
                                "No models match filter"@
                            },
                            SpanStyle::MutedItalic,
                        )
                    } else {
                        r matches ListView::Rows(rows) && rows@.len() == n && forall|i: int|
                            0 <= i < n ==> #[trigger] rows@[i]@ == (
                                " "@ + shown[i].1 + " "@,
                                row_style(i, sel as int),
                            )
                    }
                },
            }
        }),
{
    match &selector.fetch_error {
        Some(e) => {
            let mut t = "Error: ".to_string();
            push_text(&mut t, e);
            return ListView::Message(span(t, SpanStyle::Error));
        },
        None => {},
    }
    if selector.models.len() == 0 {
        return ListView::Message(span("Loading...".to_string(), SpanStyle::MutedItalic));
    }
    let n = filter_models(&selector.models, &selector.filter).len();
    let last = if n > 0 {
        n - 1
    } else {
        0
    };
    if selector.selected_index >= last {
        selector.selected_index = last;
    }
    let filtered = filter_models(&selector.models, &selector.filter);
    if filtered.len() == 0 {
        let msg = if str_chars(&selector.filter).len() == 0 {
            "No models".to_string()
        } else {
            "No models match filter".to_string()
        };
        return ListView::Message(span(msg, SpanStyle::MutedItalic));
    }
    let ghost shown = filtered@.map_values(|m: &crate::model_selector::ModelEntry| m@);
    let mut rows: Vec<StyledSpan> = Vec::new();
    let mut i: usize = 0;
    while i < filtered.len()
        invariant
            i <= filtered@.len(),
            shown == filtered@.map_values(|m: &crate::model_selector::ModelEntry| m@),
            rows@.len() == i,
            forall|k: int|
                0 <= k < i ==> #[trigger] rows@[k]@ == (
                    " "@ + shown[k].1 + " "@,
                    row_style(k, selector.selected_index as int),
                ),
        decreases filtered@.len() - i,
    {
        let mut t = " ".to_string();
        push_text(&mut t, &filtered[i].name);
        push_text(&mut t, " ");
        let style = if i == selector.selected_index {
            SpanStyle::Selected
        } else {
            SpanStyle::Plain
        };
        rows.push(span(t, style));
        i = i + 1;
    }
    ListView::Rows(rows)
}

/// What `chrono` prints for a Unix time in UTC with the `strftime`-style format `fmt`, or
/// nothing when the time is out of its range or the format cannot be printed.
pub uninterp spec fn utc_text(secs: int, fmt: Seq<char>) -> Option<Seq<char>>;

/// `chrono::Utc.timestamp_opt(secs, 0).single()`, printed with `format(fmt)`. The text is
/// named by `utc_text`; the time zone is fixed (UTC), so it depends on the seconds and the
/// format alone. A format that `chrono` cannot print gives nothing.
#[verifier::external_body]
fn utc_formatted(secs: i64, fmt: &str) -> (r: Option<String>)
    ensures
        match r {
            Some(t) => utc_text(secs as int, fmt@) == Some(t@),
            None => utc_text(secs as int, fmt@) is None,
        },
{
    let t = chrono::Utc.timestamp_opt(secs, 0).single()?;
    let mut s = String::new();
    write!(s, "{}", t.format(fmt)).ok()?;
    Some(s)
}

/// How a conversation's date is printed: year, month, day, hour and minute.
pub open spec fn conversation_date_format() -> Seq<char> {
    "%Y-%m-%d %H:%M"@
}

/// The date shown for a conversation saved at `updated_at`: the UTC minute, or the raw
/// number when it cannot be dated.
pub open spec fn conversation_date(updated_at: u64) -> Seq<char> {
    match utc_text(updated_at as i64 as int, conversation_date_format()) {
        Some(t) => t,
        None => decimal(updated_at as nat),
    }
}

/// A conversation as listed: `title — date`.
pub open spec fn conversation_text(c: (Seq<char>, Seq<char>, u64)) -> Seq<char> {
    c.1 + " — "@ + conversation_date(c.2)
}

/// The text of a conversation in the history list.
pub fn format_conversation(meta: &ConversationEntry) -> (r: String)
    ensures
        r@ == conversation_text(meta@),
{
    let mut s = meta.title.clone();
    push_text(&mut s, " — ");
    match utc_formatted(meta.updated_at as i64, "%Y-%m-%d %H:%M") {
        Some(t) => push_text(&mut s, &t),
        None => push_decimal(&mut s, meta.updated_at),
    }
    s
}

/// The line of the rename box: the label, the new title, and a `_` cursor.
pub fn rename_line(selector: &HistorySelectorState) -> (r: Vec<StyledSpan>)
    ensures
        match selector.renaming {
            Some((_, input)) => spans_view(r@) == seq![
                ("Rename to: "@, SpanStyle::Muted),
                (input@, SpanStyle::Plain),
                ("_"@, SpanStyle::Muted),
            ],
            None => r@.len() == 0,
        },
{
    match &selector.renaming {
        Some((_, input)) => {
            let r = vec![
                span("Rename to: ".to_string(), SpanStyle::Muted),
                span(input.clone(), SpanStyle::Plain),
                span("_".to_string(), SpanStyle::Muted),
            ];
            assert(spans_view(r@) =~= seq![
                ("Rename to: "@, SpanStyle::Muted),
                (input@, SpanStyle::Plain),
                ("_"@, SpanStyle::Muted),
            ]);
            r
        },
        None => Vec::new(),
    }
}

/// The history selector's list: the error, a note when nothing is listed, or the matching
/// conversations (` title — date `); `matches` are the indices of the conversations that
/// match the filter, and the selection is clamped to them.
pub fn history_list_view(selector: &mut HistorySelectorState, matches: &[usize]) -> (r: ListView)
    requires
        forall|k: int| 0 <= k < matches@.len() ==> matches@[k] < old(selector).conversations@.len(),
    ensures
        ({
            let a = *old(selector);
            let n = matches@.len();
            let sel = if a.selected_index < last_row(n) {
                a.selected_index
            } else {
                last_row(n)
            };
            &&& *final(selector) == (HistorySelectorState { selected_index: sel, ..a })
            &&& match a.error {
                Some(e) => r matches ListView::Message(m) && m@ == (
                    "Error loading history: "@ + e@,
                    SpanStyle::Error,
                ),
                None => if n == 0 {
                    r matches ListView::Message(m) && m@ == (
                        if a.filter@.len() == 0 {
                            "No conversations yet"@
                        } else {
                            "No conversations match filter"@
                        },
                        SpanStyle::Muted,
                    )
                } else {
                    r matches ListView::Rows(rows) && rows@.len() == n && forall|i: int|
                        0 <= i < n ==> #[trigger] rows@[i]@ == (
                            " "@ + conversation_text(a.conversations@[matches@[i] as int]@) + " "@,
                            row_style(i, sel as int),
                        )
                },
            }
        }),
{
    let n = matches.len();
    let last = if n > 0 {
        n - 1
    } else {
        0
    };
    if selector.selected_index >= last {
        selector.selected_index = last;
    }
    match &selector.error {
        Some(e) => {
            let mut t = "Error loading history: ".to_string();
            push_text(&mut t, e);
            return ListView::Message(span(t, SpanStyle::Error));
        },
        None => {},
    }
    if n == 0 {
        let msg = if str_chars(&selector.filter).len() == 0 {
            "No conversations yet".to_string()
        } else {
            "No conversations match filter".to_string()
        };
        return ListView::Message(span(msg, SpanStyle::Muted));
    }
    let mut rows: Vec<StyledSpan> = Vec::new();
    let mut i: usize = 0;
    while i < n
        invariant
            i <= n,
            n == matches@.len(),
            forall|k: int| 0 <= k < matches@.len() ==> matches@[k] < selector.conversations@.len(),
            rows@.len() == i,
            forall|k: int|
                0 <= k < i ==> #[trigger] rows@[k]@ == (
                    " "@ + conversation_text(selector.conversations@[matches@[k] as int]@) + " "@,
                    row_style(k, selector.selected_index as int),
                ),
        decreases n - i,
    {
        let mut t = " ".to_string();
        let c = format_conversation(&selector.conversations[matches[i]]);
        push_text(&mut t, &c);
        push_text(&mut t, " ");
        let style = if i == selector.selected_index {
            SpanStyle::Selected
        } else {
            SpanStyle::Plain
        };
        rows.push(span(t, style));
        i = i + 1;
    }
    ListView::Rows(rows)
}

/// The file picker's breadcrumb: the directory below the workspace root, or `.` at the
/// root.
pub open spec fn breadcrumb_text(dir: Seq<Seq<char>>) -> Seq<char> {
    if dir.len() == 0 {
        "."@
    } else {
        joined_path(dir)
    }
}

pub fn breadcrumb(picker: &FilePickerState) -> (r: String)
    ensures
        r@ == breadcrumb_text(dir_parts(picker.current_dir@)),
{
    let ghost parts = dir_parts(picker.current_dir@);
    if picker.current_dir.len() == 0 {
        return ".".to_string();
    }
    let mut r = String::new();
    let mut i: usize = 0;
    while i < picker.current_dir.len()
        invariant
            i <= picker.current_dir@.len(),
            parts == dir_parts(picker.current_dir@),
            parts.len() > 0,
            i == 0 ==> r@ == Seq::<char>::empty(),
            i > 0 ==> r@ == joined_path(parts.take(i as int)),
        decreases picker.current_dir@.len() - i,
    {
        if i > 0 {
            push_char(&mut r, '/');
        }
        push_text(&mut r, &picker.current_dir[i]);
        assert(parts.take(i + 1).drop_last() == parts.take(i as int));
        assert(parts.take(i + 1).last() == picker.current_dir@[i as int]@);
        i = i + 1;
    }
    assert(parts.take(parts.len() as int) == parts);
    r
}

/// A file picker row: ` name/` for a directory, ` name` for a file.
pub open spec fn entry_row_text(e: (Seq<char>, bool, Seq<char>)) -> Seq<char> {
    if e.1 {
        " "@ + e.0 + seq!['/']
    } else {
        " "@ + e.0
    }
}

/// The style of a file picker row: selected, grey for a directory, plain for a file.
pub open spec fn entry_row_style(i: int, selected: int, is_dir: bool) -> SpanStyle {
    if i == selected {
        SpanStyle::Selected
    } else if is_dir {
        SpanStyle::Muted
    } else {
        SpanStyle::Plain
    }
}

/// The file picker's list: "No matches", or the matching entries; the selection is
/// clamped to them.
pub fn file_list_view(picker: &mut FilePickerState) -> (r: ListView)
    ensures
        ({
            let a = *old(picker);
            let shown = a.shown_entries();
            let n = shown.len();
            let sel = if n > 0 && a.selected_index > n - 1 {
                (n - 1) as usize
            } else {
                a.selected_index
            };
            &&& *final(picker) == (FilePickerState { selected_index: sel, ..a })
            &&& if n == 0 {
                r matches ListView::Message(m) && m@ == ("No matches"@, SpanStyle::MutedItalic)
            } else {
                r matches ListView::Rows(rows) && rows@.len() == n && forall|i: int|
                    0 <= i < n ==> #[trigger] rows@[i]@ == (
                        entry_row_text(shown[i]),
                        entry_row_style(i, sel as int, shown[i].1),
                    )
            }
        }),
{
    let n = picker.filtered_count();
    if n > 0 && picker.selected_index > n - 1 {
        picker.selected_index = n - 1;
    }
    let filtered = picker.filtered_entries();
    if filtered.len() == 0 {
        return ListView::Message(span("No matches".to_string(), SpanStyle::MutedItalic));
    }
    let ghost shown = crate::file_picker::entry_refs_view(filtered@);
    let mut rows: Vec<StyledSpan> = Vec::new();
    let mut i: usize = 0;
    while i < filtered.len()
        invariant
            i <= filtered@.len(),
            shown == crate::file_picker::entry_refs_view(filtered@),
            rows@.len() == i,
            forall|k: int|
                0 <= k < i ==> #[trigger] rows@[k]@ == (
                    entry_row_text(shown[k]),
                    entry_row_style(k, picker.selected_index as int, shown[k].1),
                ),
        decreases filtered@.len() - i,
    {
        let e = filtered[i];
        let mut t = " ".to_string();
        push_text(&mut t, &e.name);
        if e.is_dir {
            push_char(&mut t, '/');
        }
        let style = if i == picker.selected_index {
            SpanStyle::Selected
        } else if e.is_dir {
            SpanStyle::Muted
        } else {
            SpanStyle::Plain
        };
        assert(shown[i as int] == e@);
        rows.push(span(t, style));
        i = i + 1;
    }
    ListView::Rows(rows)
}

} // verus!
