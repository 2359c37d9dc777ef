//! Delete command popup: choose custom commands and remove them.

use vstd::prelude::*;

use crate::app_state::App;
use crate::command_form::CustomTemplate;
use crate::handlers::HandleResult;
use crate::keys::{KeyCode, KeyModifiers};

verus! {

/// State for delete command popup.
pub struct DeleteCommandState {
    pub selected_index: usize,
    pub selected: Vec<bool>,
}

/// The templates whose mark in `marks` is not set.
pub open spec fn kept_templates(ts: Seq<CustomTemplate>, marks: Seq<bool>) -> Seq<CustomTemplate>
    decreases ts.len(),
{
    if ts.len() == 0 {
        seq![]
    } else {
        let prev = kept_templates(ts.drop_last(), marks);
        if marks[ts.len() - 1] {
            prev
        } else {
            prev.push(ts.last())
        }
    }
}

/// Some mark is set.
pub open spec fn any_marked(marks: Seq<bool>) -> bool {
    exists|k: int| 0 <= k < marks.len() && #[trigger] marks[k]
}

/// What a key does to the delete popup.
pub enum DeleteOutcome {
    /// The popup stays open with this selection and these marks.
    Stay(usize, Seq<bool>),
    /// The popup closes; nothing is deleted.
    Close,
    /// The marked templates are removed and the popup closes.
    Delete,
}

/// What a key does to the delete popup with selection `idx` and marks `marks`, given the
/// number of templates: arrows move the selection within the list, Space toggles the mark
/// of the selected command, Enter deletes the marked commands (or just closes when none
/// is marked), Esc closes.
pub open spec fn delete_outcome(idx: usize, marks: Seq<bool>, len: int, code: KeyCode) -> DeleteOutcome {
    if len == 0 {
        DeleteOutcome::Close
    } else {
        match code {
            KeyCode::Esc => DeleteOutcome::Close,
            KeyCode::Up => {
                let i = if idx == 0 {
                    0
                } else {
                    idx - 1
                };
                DeleteOutcome::Stay(
                    if i >= len {
                        (len - 1) as usize
                    } else {
                        i as usize
                    },
                    marks,
                )
            },
            KeyCode::Down => DeleteOutcome::Stay(vstd::math::min(idx + 1, len - 1) as usize, marks),
            KeyCode::Char(' ') => if idx < marks.len() {
                DeleteOutcome::Stay(idx, marks.update(idx as int, !marks[idx as int]))
            } else {
                DeleteOutcome::Stay(idx, marks)
            },
            KeyCode::Enter => if any_marked(marks) {
                DeleteOutcome::Delete
            } else {
                DeleteOutcome::Close
            },
            _ => DeleteOutcome::Stay(idx, marks),
        }
    }
}

/// Handle a key in the delete command popup. Returns whether the custom templates changed
/// and are to be written back.
pub fn handle_delete_command_popup(key_code: KeyCode, _key_modifiers: KeyModifiers, app: &mut App) -> (r: (
    HandleResult,
    bool,
))
    requires
        old(app).delete_command_popup matches Some(s) ==> (key_code == KeyCode::Down ==> s.selected_index
            < usize::MAX) && (key_code == KeyCode::Enter && any_marked(s.selected@)
            ==> s.selected@.len() >= old(app).custom_templates@.len()),
    ensures
        r.0 == HandleResult::Continue,
        match old(app).delete_command_popup {
            None => *final(app) == *old(app) && !r.1,
            Some(s) => match delete_outcome(
                s.selected_index,
                s.selected@,
                old(app).custom_templates@.len() as int,
                key_code,
            ) {
                DeleteOutcome::Stay(i, m) => (final(app).delete_command_popup matches Some(t)
                    && t.selected_index == i && t.selected@ == m) && *final(app) == (App {
                    delete_command_popup: final(app).delete_command_popup,
                    ..*old(app)
                }) && !r.1,
                DeleteOutcome::Close => *final(app) == (App {
                    delete_command_popup: None,
                    ..*old(app)
                }) && !r.1,
                DeleteOutcome::Delete => final(app).custom_templates@ == kept_templates(
                    old(app).custom_templates@,
                    s.selected@,
                ) && *final(app) == (App {
                    delete_command_popup: None,
                    custom_templates: final(app).custom_templates,
                    ..*old(app)
                }) && r.1,
            },
        },
{
    let mut state = match app.delete_command_popup.take() {
        Some(s) => s,
        None => {
            return (HandleResult::Continue, false);
        },
    };
    let len = app.custom_templates.len();
    if len == 0 {
        return (HandleResult::Continue, false);
    }
    match key_code {
        KeyCode::Esc => {
            return (HandleResult::Continue, false);
        },
        KeyCode::Up => {
            state.selected_index = state.selected_index.saturating_sub(1);
            if state.selected_index >= len {
                state.selected_index = len - 1;
            }
        },
        KeyCode::Down => {
            let next = state.selected_index + 1;
            state.selected_index = if next < len - 1 {
                next
            } else {
                len - 1
            };
        },
        KeyCode::Char(' ') => {
            if state.selected_index < state.selected.len() {
                let i = state.selected_index;
                let flipped = !state.selected[i];
                state.selected.set(i, flipped);
            }
        },
        KeyCode::Enter => {
            let mut any_selected = false;
            let mut k: usize = 0;
            while k < state.selected.len()
                invariant
                    k <= state.selected@.len(),
                    any_selected == exists|j: int| 0 <= j < k && #[trigger] state.selected@[j],
                decreases state.selected@.len() - k,
            {
                if state.selected[k] {
                    any_selected = true;
                }
                k = k + 1;
            }
            assert(state.selected@.take(k as int) =~= state.selected@);
            assert(any_selected == any_marked(state.selected@));
            if !any_selected {
                return (HandleResult::Continue, false);
            }
            let mut remaining: Vec<CustomTemplate> = Vec::new();
            let mut i: usize = 0;
            while i < app.custom_templates.len()
                invariant
                    i <= app.custom_templates@.len(),
                    *app == (App { delete_command_popup: None, ..*old(app) }),
                    state.selected@.len() >= app.custom_templates@.len(),
                    remaining@ == kept_templates(app.custom_templates@.take(i as int), state.selected@),
                decreases app.custom_templates@.len() - i,
            {
                let ghost ts = app.custom_templates@;
                assert(ts.take(i + 1).drop_last() =~= ts.take(i as int));
                if !state.selected[i] {
                    remaining.push(app.custom_templates[i].duplicate());
                }
                i = i + 1;
            }
            assert(app.custom_templates@.take(app.custom_templates@.len() as int) =~= app.custom_templates@);
            app.custom_templates = remaining;
            return (HandleResult::Continue, true);
        },
        _ => {},
    }
    app.delete_command_popup = Some(state);
    (HandleResult::Continue, false)
}

/// `after` is `before` with the popup that deletes commands open, nothing marked;
/// without custom commands nothing changes.
pub open spec fn opened_delete_popup(before: App, after: App) -> bool {
    if before.custom_templates@.len() == 0 {
        after == before
    } else {
        &&& after.delete_command_popup matches Some(d) && d.selected_index == 0 && d.selected@
            == Seq::new(before.custom_templates@.len(), |k: int| false)
        &&& after == (App { delete_command_popup: after.delete_command_popup, ..before })
    }
}

impl App {
    /// Open the popup that deletes commands, with nothing marked; nothing happens without
    /// custom commands.
    pub fn open_delete_command_popup(&mut self)
        ensures
            opened_delete_popup(*old(self), *final(self)),
    {
        if self.custom_templates.len() == 0 {
            return;
        }
        let mut marks: Vec<bool> = Vec::new();
        let mut k: usize = 0;
        while k < self.custom_templates.len()
            invariant
                k <= self.custom_templates@.len(),
                marks@ == Seq::new(k as nat, |j: int| false),
            decreases self.custom_templates@.len() - k,
        {
            marks.push(false);
            k = k + 1;
        }
        self.delete_command_popup = Some(DeleteCommandState { selected_index: 0, selected: marks });
    }
}

/// Record how writing back the custom commands after a deletion went: success clears the
/// templates error, a failure leaves it as it was; nothing else changes.
pub fn deletion_templates_written(app: &mut App, result: Result<(), String>)
    ensures
        result is Ok ==> *final(app) == (App { templates_load_error: None, ..*old(app) }),
        result is Err ==> *final(app) == *old(app),
{
    if result.is_ok() {
        app.templates_load_error = None;
    }
}

} // verus!
