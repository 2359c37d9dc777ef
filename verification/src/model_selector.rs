//! Model selector popup (Alt+M): filtering the fetched models, moving the selection,
//! and switching the chat to the chosen model.

use vstd::prelude::*;

use crate::app_state::App;
use crate::chars::{contains, find_exec, lemma_find_from, lowercase, pop_char, push_char, str_chars, to_lowercase};
use crate::keys::{KeyCode, KeyModifiers};

verus! {

broadcast use vstd::string::group_string_axioms;

/// A model offered by the selector.
pub struct ModelEntry {
    pub id: String,
    pub name: String,
    /// Context window size, in tokens.
    pub context_length: u64,
}

impl ModelEntry {
    pub fn duplicate(&self) -> (r: ModelEntry)
        ensures
            r@ == self@,
    {
        ModelEntry { id: self.id.clone(), name: self.name.clone(), context_length: self.context_length }
    }
}

impl View for ModelEntry {
    type V = (Seq<char>, Seq<char>, u64);

    open spec fn view(&self) -> (Seq<char>, Seq<char>, u64) {
        (self.id@, self.name@, self.context_length)
    }
}

/// State for the model selector popup.
pub struct ModelSelectorState {
    pub models: Vec<ModelEntry>,
    pub selected_index: usize,
    pub fetch_error: Option<String>,
    /// Filter query (case-insensitive search on model id/name).
    pub filter: String,
}

/// The views of a list of models.
pub open spec fn models_view(v: Seq<ModelEntry>) -> Seq<(Seq<char>, Seq<char>, u64)> {
    v.map_values(|m: ModelEntry| m@)
}

/// The model's id or name contains the filter, ignoring case.
pub open spec fn model_matches(m: (Seq<char>, Seq<char>, u64), filter: Seq<char>) -> bool {
    contains(lowercase(m.0), lowercase(filter)) || contains(lowercase(m.1), lowercase(filter))
}

/// The models that match the filter, in order.
pub open spec fn matching_models(ms: Seq<(Seq<char>, Seq<char>, u64)>, filter: Seq<char>) -> Seq<
    (Seq<char>, Seq<char>, u64),
>
    decreases ms.len(),
{
    if ms.len() == 0 {
        Seq::empty()
    } else {
        let sub = matching_models(ms.drop_last(), filter);
        if model_matches(ms.last(), filter) {
            sub.push(ms.last())
        } else {
            sub
        }
    }
}

/// Whether `pat` occurs in `s`.
pub fn text_contains(s: &str, pat: &str) -> (r: bool)
    ensures
        r == contains(s@, pat@),
{
    let v = str_chars(s);
    let p = str_chars(pat);
    proof {
        lemma_find_from(v@, p@, 0);
    }
    match find_exec(&v, p.as_slice(), 0) {
        Some(k) => true,
        None => false,
    }
}

/// The models whose id or name contains the filter, ignoring case.
pub fn filter_models<'a>(models: &'a Vec<ModelEntry>, filter: &str) -> (r: Vec<&'a ModelEntry>)
    ensures
        r@.map_values(|m: &ModelEntry| m@) == matching_models(models_view(models@), filter@),
{
    let lf = to_lowercase(filter);
    let ghost all = models_view(models@);
    let mut r: Vec<&ModelEntry> = Vec::new();
    let mut i: usize = 0;
    while i < models.len()
        invariant
            i <= models@.len(),
            all == models_view(models@),
            lf@ == lowercase(filter@),
            r@.map_values(|m: &ModelEntry| m@) == matching_models(all.take(i as int), filter@),
        decreases models@.len() - i,
    {
        let m = &models[i];
        assert(all.take(i + 1).drop_last() == all.take(i as int));
        assert(all.take(i + 1).last() == m@);
        let id_l = to_lowercase(&m.id);
        let name_l = to_lowercase(&m.name);
        if text_contains(&id_l, &lf) || text_contains(&name_l, &lf) {
            r.push(m);
            assert(r@.map_values(|m: &ModelEntry| m@) =~= matching_models(all.take(i as int), filter@).push(m@));
        }
        i = i + 1;
    }
    assert(all.take(all.len() as int) == all);
    r
}

/// Action to apply after handling a model selector key.
pub enum ModelSelectorAction {
    Close,
    Select(ModelEntry),
    /// No action; keep the selector open.
    Keep,
}

/// The filter after a key: Backspace removes its last character, a character typed
/// without Control is added.
pub open spec fn edited_filter(filter: Seq<char>, code: KeyCode, mods: KeyModifiers) -> Seq<char> {
    match code {
        KeyCode::Backspace => if filter.len() > 0 {
            filter.drop_last()
        } else {
            filter
        },
        KeyCode::Char(c) => if !mods.control {
            filter.push(c)
        } else {
            filter
        },
        _ => filter,
    }
}

/// What a key did to the selector (`a` before, `b` after) and the action returned.
pub open spec fn model_key_done(
    a: ModelSelectorState,
    b: ModelSelectorState,
    r: ModelSelectorAction,
    code: KeyCode,
    mods: KeyModifiers,
) -> bool {
    let f = edited_filter(a.filter@, code, mods);
    let shown = matching_models(models_view(a.models@), f);
    let n = shown.len();
    let sel = a.selected_index;
    &&& b.filter@ == f
    &&& b.models == a.models
    &&& b.fetch_error == a.fetch_error
    &&& match code {
        KeyCode::Esc => b.selected_index == sel && r is Close,
        KeyCode::Up => b.selected_index == (if sel > 0 {
            (sel - 1) as usize
        } else {
            0
        }) && r is Keep,
        KeyCode::Down => b.selected_index == (if n > 0 {
            if sel + 1 < n - 1 {
                (sel + 1) as usize
            } else {
                (n - 1) as usize
            }
        } else {
            sel
        }) && r is Keep,
        KeyCode::Enter => b.selected_index == sel && if a.fetch_error is None && sel < n {
            r matches ModelSelectorAction::Select(m) && m@ == shown[sel as int]
        } else {
            r is Keep
        },
        KeyCode::Backspace | KeyCode::Char(_) => b.selected_index == (if sel < n - 1 {
            sel
        } else if n > 0 {
            (n - 1) as usize
        } else {
            0
        }) && r is Keep,
        _ => b.selected_index == sel && r is Keep,
    }
}

/// Handle key when model selector is open. Returns action to apply; caller applies to app.
pub fn handle_model_selector_key(
    key_code: KeyCode,
    key_modifiers: KeyModifiers,
    selector: &mut ModelSelectorState,
) -> (r: ModelSelectorAction)
    ensures
        model_key_done(*old(selector), *final(selector), r, key_code, key_modifiers),
{
    match key_code {
        KeyCode::Backspace => {
            pop_char(&mut selector.filter);
        },
        KeyCode::Char(c) => {
            if !key_modifiers.control {
                push_char(&mut selector.filter, c);
            }
        },
        _ => {},
    }
    let (n, chosen) = {
        let filtered = filter_models(&selector.models, &selector.filter);
        let n = filtered.len();
        let chosen = if selector.selected_index < n {
            Some(filtered[selector.selected_index].duplicate())
        } else {
            None
        };
        (n, chosen)
    };
    match key_code {
        KeyCode::Esc => ModelSelectorAction::Close,
        KeyCode::Up => {
            selector.selected_index = selector.selected_index.saturating_sub(1);
            ModelSelectorAction::Keep
        },
        KeyCode::Down => {
            if n > 0 {
                let next = selector.selected_index.saturating_add(1);
                selector.selected_index = if next < n - 1 {
                    next
                } else {
                    n - 1
                };
            }
            ModelSelectorAction::Keep
        },
        KeyCode::Enter => {
            match chosen {
                Some(m) => if selector.fetch_error.is_none() {
                    ModelSelectorAction::Select(m)
                } else {
                    ModelSelectorAction::Keep
                },
                None => ModelSelectorAction::Keep,
            }
        },
        KeyCode::Backspace | KeyCode::Char(_) => {
            let last = if n > 0 {
                n - 1
            } else {
                0
            };
            selector.selected_index = if selector.selected_index < last {
                selector.selected_index
            } else {
                last
            };
            ModelSelectorAction::Keep
        },
        _ => ModelSelectorAction::Keep,
    }
}

/// Open the selector, empty, while the models are fetched.
pub fn open_model_selector(app: &mut App)
    ensures
        final(app).model_selector matches Some(s) && s.models@.len() == 0 && s.selected_index == 0
            && s.fetch_error is None && s.filter@ == Seq::<char>::empty(),
        *final(app) == (App { model_selector: final(app).model_selector, ..*old(app) }),
{
    app.model_selector = Some(
        ModelSelectorState {
            models: Vec::new(),
            selected_index: 0,
            fetch_error: None,
            filter: String::new(),
        },
    );
}

/// The fetch of the models finished: show them, or the error.
pub fn models_fetched(app: &mut App, result: Result<Vec<ModelEntry>, String>)
    ensures
        match old(app).model_selector {
            None => *final(app) == *old(app),
            Some(s) => {
                &&& match result {
                    Ok(ms) => final(app).model_selector == Some(
                        ModelSelectorState { models: ms, selected_index: 0, fetch_error: None, ..s },
                    ),
                    Err(e) => final(app).model_selector == Some(
                        ModelSelectorState { fetch_error: Some(e), ..s },
                    ),
                }
                &&& *final(app) == (App { model_selector: final(app).model_selector, ..*old(app) })
            },
        },
{
    match app.model_selector.take() {
        None => {},
        Some(mut s) => {
            match result {
                Ok(ms) => {
                    s.models = ms;
                    s.selected_index = 0;
                    s.fetch_error = None;
                },
                Err(e) => {
                    s.fetch_error = Some(e);
                },
            }
            app.model_selector = Some(s);
        },
    }
}

/// Apply a model selector action: close it, or switch the chat to the chosen model
/// (forgetting the last token usage) and close it.
pub fn apply_model_selector_action(app: &mut App, action: ModelSelectorAction)
    ensures
        match action {
            ModelSelectorAction::Close => *final(app) == (App { model_selector: None, ..*old(app) }),
            ModelSelectorAction::Select(m) => *final(app) == (App {
                current_model_id: m.id,
                model_name: m.name,
                context_length: m.context_length,
                token_usage: None,
                model_selector: None,
                ..*old(app)
            }),
            ModelSelectorAction::Keep => *final(app) == *old(app),
        },
{
    match action {
        ModelSelectorAction::Close => {
            app.model_selector = None;
        },
        ModelSelectorAction::Select(m) => {
            app.current_model_id = m.id;
            app.model_name = m.name;
            app.context_length = m.context_length;
            app.token_usage = None;
            app.model_selector = None;
        },
        ModelSelectorAction::Keep => {},
    }
}

} // verus!
