//! History selector popup (Alt+H): renaming, deleting and loading saved conversations.
//! Which conversations match the filter is decided by the conversation store, outside;
//! the handler takes their indices.

use vstd::prelude::*;

use crate::chars::{pop_char, push_char, push_text};
use crate::keys::{KeyCode, KeyModifiers};

verus! {

broadcast use vstd::string::group_string_axioms;

/// A saved conversation, as the selector lists it.
pub struct ConversationEntry {
    pub id: String,
    pub title: String,
    /// When the conversation was last saved (Unix seconds).
    pub updated_at: u64,
}

impl View for ConversationEntry {
    type V = (Seq<char>, Seq<char>, u64);

    open spec fn view(&self) -> (Seq<char>, Seq<char>, u64) {
        (self.id@, self.title@, self.updated_at)
    }
}

/// State for the history selector popup (Alt+H).
pub struct HistorySelectorState {
    pub conversations: Vec<ConversationEntry>,
    pub selected_index: usize,
    pub filter: String,
    /// When renaming: (conversation_id, new_title_input).
    pub renaming: Option<(String, String)>,
    /// Error loading conversations or from delete/rename.
    pub error: Option<String>,
}

/// Action to apply after handling a history selector key.
pub enum HistorySelectorAction {
    Close,
    Load { id: String },
    Delete { id: String },
    Rename { id: String, new_title: String },
    /// No action; keep the selector open.
    Keep,
}

/// Open the selector on the saved conversations (listed by the store).
pub fn open_history_selector(conversations: Vec<ConversationEntry>) -> (r: HistorySelectorState)
    ensures
        r.conversations == conversations,
        r.selected_index == 0,
        r.filter@ == Seq::<char>::empty(),
        r.renaming is None,
        r.error is None,
{
    HistorySelectorState {
        conversations,
        selected_index: 0,
        filter: String::new(),
        renaming: None,
        error: None,
    }
}

/// The first step of a key: while renaming, the key edits or ends the new title and is
/// done (`Some`); otherwise Backspace and characters typed without Control edit the
/// filter, and the caller matches the conversations against it before the second step
/// (`None`).
pub fn edit_history_selector(
    key_code: KeyCode,
    key_modifiers: KeyModifiers,
    selector: &mut HistorySelectorState,
) -> (r: Option<HistorySelectorAction>)
    ensures
        ({
            let a = *old(selector);
            let b = *final(selector);
            match a.renaming {
                Some((id, title)) => {
                    &&& r is Some
                    &&& match key_code {
                        KeyCode::Esc => {
                            &&& b == (HistorySelectorState { renaming: None, ..a })
                            &&& r->0 is Keep
                        },
                        KeyCode::Enter => {
                            &&& b == (HistorySelectorState { renaming: None, ..a })
                            &&& r->0 matches HistorySelectorAction::Rename { id: i, new_title: t }
                                && i == id && t == title
                        },
                        KeyCode::Backspace => {
                            &&& b.renaming matches Some((i, t)) && i == id && t@ == (if title@.len()
                                > 0 {
                                title@.drop_last()
                            } else {
                                title@
                            })
                            &&& b == (HistorySelectorState { renaming: b.renaming, ..a })
                            &&& r->0 is Keep
                        },
                        KeyCode::Char(c) => if !key_modifiers.control {
                            &&& b.renaming matches Some((i, t)) && i == id && t@ == title@.push(c)
                            &&& b == (HistorySelectorState { renaming: b.renaming, ..a })
                            &&& r->0 is Keep
                        } else {
                            &&& b == a
                            &&& r->0 is Keep
                        },
                        _ => {
                            &&& b == a
                            &&& r->0 is Keep
                        },
                    }
                },
                None => {
                    &&& r is None
                    &&& b.filter@ == match key_code {
                        KeyCode::Backspace => if a.filter@.len() > 0 {
                            a.filter@.drop_last()
                        } else {
                            a.filter@
                        },
                        KeyCode::Char(c) => if !key_modifiers.control {
                            a.filter@.push(c)
                        } else {
                            a.filter@
                        },
                        _ => a.filter@,
                    }
                    &&& b == (HistorySelectorState { filter: b.filter, ..a })
                },
            }
        }),
{
    match selector.renaming.take() {
        Some((id, mut title)) => {
            match key_code {
                KeyCode::Esc => Some(HistorySelectorAction::Keep),
                KeyCode::Enter => Some(HistorySelectorAction::Rename { id, new_title: title }),
                KeyCode::Backspace => {
                    pop_char(&mut title);
                    selector.renaming = Some((id, title));
                    Some(HistorySelectorAction::Keep)
                },
                KeyCode::Char(c) => {
                    if !key_modifiers.control {
                        push_char(&mut title, c);
                    }
                    selector.renaming = Some((id, title));
                    Some(HistorySelectorAction::Keep)
                },
                _ => {
                    selector.renaming = Some((id, title));
                    Some(HistorySelectorAction::Keep)
                },
            }
        },
        None => {
            match key_code {
                KeyCode::Backspace => {
                    pop_char(&mut selector.filter);
                },
                KeyCode::Char(c) => {
                    if !key_modifiers.control {
                        push_char(&mut selector.filter, c);
                    }
                },
                _ => {},
            }
            None
        },
    }
}

/// The conversation the selection points at among the matches, when there is one.
pub open spec fn selected_conversation(
    convs: Seq<ConversationEntry>,
    matches: Seq<usize>,
    sel: usize,
) -> Option<ConversationEntry> {
    if sel < matches.len() {
        Some(convs[matches[sel as int] as int])
    } else {
        None
    }
}

/// Handle the second step of a key when the history selector is open; `matches` are the
/// indices of the conversations that match the filter, in the order listed.
pub fn handle_history_selector_key(
    key_code: KeyCode,
    key_modifiers: KeyModifiers,
    selector: &mut HistorySelectorState,
    matches: &[usize],
) -> (r: HistorySelectorAction)
    requires
        forall|k: int| 0 <= k < matches@.len() ==> matches@[k] < old(selector).conversations@.len(),
    ensures
        ({
            let a = *old(selector);
            let b = *final(selector);
            let n = matches@.len();
            let sel = a.selected_index;
            let chosen = selected_conversation(a.conversations@, matches@, sel);
            match key_code {
                KeyCode::Esc => b == a && r is Close,
                KeyCode::Char(c) if c == 'r' && key_modifiers.control => {
                    &&& r is Keep
                    &&& match chosen {
                        Some(m) => {
                            &&& b.renaming matches Some((i, t)) && i@ == m.id@ && t@ == m.title@
                            &&& b == (HistorySelectorState { renaming: b.renaming, ..a })
                        },
                        None => b == a,
                    }
                },
                KeyCode::Char(c) if c == 'd' && key_modifiers.control => {
                    &&& b == a
                    &&& match chosen {
                        Some(m) => r matches HistorySelectorAction::Delete { id } && id@ == m.id@,
                        None => r is Keep,
                    }
                },
                KeyCode::Delete => {
                    &&& b == a
                    &&& match chosen {
                        Some(m) => r matches HistorySelectorAction::Delete { id } && id@ == m.id@,
                        None => r is Keep,
                    }
                },
                KeyCode::Up => r is Keep && b == (HistorySelectorState {
                    selected_index: if sel > 0 {
                        (sel - 1) as usize
                    } else {
                        0
                    },
                    ..a
                }),
                KeyCode::Down => r is Keep && b == (HistorySelectorState {
                    selected_index: if n > 0 {
                        if sel + 1 < n - 1 {
                            (sel + 1) as usize
                        } else {
                            (n - 1) as usize
                        }
                    } else {
                        sel
                    },
                    ..a
                }),
                KeyCode::Enter => {
                    &&& b == a
                    &&& match chosen {
                        Some(m) => r matches HistorySelectorAction::Load { id } && id@ == m.id@,
                        None => r is Keep,
                    }
                },
                KeyCode::Backspace | KeyCode::Char(_) => r is Keep && b == (HistorySelectorState {
                    selected_index: if sel < n - 1 {
                        sel
                    } else if n > 0 {
                        (n - 1) as usize
                    } else {
                        0
                    },
                    ..a
                }),
                _ => b == a && r is Keep,
            }
        }),
{
    let n = matches.len();
    let chosen: Option<&ConversationEntry> = if selector.selected_index < n {
        Some(&selector.conversations[matches[selector.selected_index]])
    } else {
        None
    };
    match key_code {
        KeyCode::Esc => HistorySelectorAction::Close,
        KeyCode::Char(c) if c == 'r' && key_modifiers.control => {
            match chosen {
                Some(m) => {
                    let pair = (m.id.clone(), m.title.clone());
                    selector.renaming = Some(pair);
                },
                None => {},
            }
            HistorySelectorAction::Keep
        },
        KeyCode::Char(c) if c == 'd' && key_modifiers.control => match chosen {
            Some(m) => HistorySelectorAction::Delete { id: m.id.clone() },
            None => HistorySelectorAction::Keep,
        },
        KeyCode::Delete => match chosen {
            Some(m) => HistorySelectorAction::Delete { id: m.id.clone() },
            None => HistorySelectorAction::Keep,
        },
        KeyCode::Up => {
            selector.selected_index = selector.selected_index.saturating_sub(1);
            HistorySelectorAction::Keep
        },
        KeyCode::Down => {
            if n > 0 {
                let next = selector.selected_index.saturating_add(1);
                selector.selected_index = if next < n - 1 {
                    next
                } else {
                    n - 1
                };
            }
            HistorySelectorAction::Keep
        },
        KeyCode::Enter => match chosen {
            Some(m) => HistorySelectorAction::Load { id: m.id.clone() },
            None => HistorySelectorAction::Keep,
        },
        KeyCode::Backspace | KeyCode::Char(_) => {
            let last = if n > 0 {
                n - 1
            } else {
                0
            };
            selector.selected_index = if selector.selected_index < last {
                selector.selected_index
            } else {
                last
            };
            HistorySelectorAction::Keep
        },
        _ => HistorySelectorAction::Keep,
    }
}

/// The views of a list of conversations.
pub open spec fn convs_view(v: Seq<ConversationEntry>) -> Seq<(Seq<char>, Seq<char>, u64)> {
    v.map_values(|c: ConversationEntry| c@)
}

/// The conversations without those whose id is `id`.
pub open spec fn without_id(convs: Seq<(Seq<char>, Seq<char>, u64)>, id: Seq<char>) -> Seq<
    (Seq<char>, Seq<char>, u64),
>
    decreases convs.len(),
{
    if convs.len() == 0 {
        Seq::empty()
    } else {
        let sub = without_id(convs.drop_last(), id);
        if convs.last().0 == id {
            sub
        } else {
            sub.push(convs.last())
        }
    }
}

impl ConversationEntry {
    pub fn duplicate(&self) -> (r: ConversationEntry)
        ensures
            r@ == self@,
    {
        ConversationEntry { id: self.id.clone(), title: self.title.clone(), updated_at: self.updated_at }
    }
}

/// A conversation was deleted from the store: drop it from the list and clear the error.
pub fn conversation_removed(selector: &mut HistorySelectorState, id: &str)
    ensures
        convs_view(final(selector).conversations@) == without_id(
            convs_view(old(selector).conversations@),
            id@,
        ),
        *final(selector) == (HistorySelectorState {
            conversations: final(selector).conversations,
            error: None,
            ..*old(selector)
        }),
{
    let ghost all = convs_view(selector.conversations@);
    let mut kept: Vec<ConversationEntry> = Vec::new();
    let mut i: usize = 0;
    while i < selector.conversations.len()
        invariant
            i <= selector.conversations@.len(),
            all == convs_view(selector.conversations@),
            convs_view(kept@) == without_id(all.take(i as int), id@),
        decreases selector.conversations@.len() - i,
    {
        let c = &selector.conversations[i];
        assert(all.take(i + 1).drop_last() == all.take(i as int));
        assert(all.take(i + 1).last() == c@);
        if !crate::chars::same_text(&c.id, id) {
            kept.push(c.duplicate());
            assert(convs_view(kept@) =~= without_id(all.take(i as int), id@).push(c@));
        }
        i = i + 1;
    }
    assert(all.take(all.len() as int) == all);
    selector.conversations = kept;
    selector.error = None;
}

/// Index of the first conversation whose id is `id`.
pub open spec fn first_with_id(convs: Seq<(Seq<char>, Seq<char>, u64)>, id: Seq<char>) -> Option<int>
    decreases convs.len(),
{
    if convs.len() == 0 {
        None
    } else if convs[0].0 == id {
        Some(0)
    } else {
        match first_with_id(convs.drop_first(), id) {
            Some(k) => Some(k + 1),
            None => None,
        }
    }
}

/// A conversation was renamed in the store: the first one with that id takes the new
/// title, and the error is cleared.
pub fn conversation_renamed(selector: &mut HistorySelectorState, id: &str, new_title: &str)
    ensures
        ({
            let before = convs_view(old(selector).conversations@);
            convs_view(final(selector).conversations@) == match first_with_id(before, id@) {
                Some(k) => before.update(k, (before[k].0, new_title@, before[k].2)),
                None => before,
            }
        }),
        *final(selector) == (HistorySelectorState {
            conversations: final(selector).conversations,
            error: None,
            ..*old(selector)
        }),
{
    let ghost all = convs_view(selector.conversations@);
    selector.error = None;
    let mut i: usize = 0;
    assert(all.skip(0) == all);
    while i < selector.conversations.len()
        invariant
            i <= selector.conversations@.len(),
            all == convs_view(old(selector).conversations@),
            *selector == (HistorySelectorState { error: None, ..*old(selector) }),
            first_with_id(all, id@) == match first_with_id(all.skip(i as int), id@) {
                Some(k) => Some(k + i),
                None => None,
            },
        decreases selector.conversations@.len() - i,
    {
        assert(all.skip(i as int)[0] == selector.conversations@[i as int]@);
        if crate::chars::same_text(&selector.conversations[i].id, id) {
            let renamed = ConversationEntry {
                id: selector.conversations[i].id.clone(),
                title: new_title.to_string(),
                updated_at: selector.conversations[i].updated_at,
            };
            assert(first_with_id(all, id@) == Some(i as int));
            selector.conversations.set(i, renamed);
            assert(convs_view(selector.conversations@) =~= all.update(i as int, (all[i as int].0, new_title@, all[i as int].2)));
            return;
        }
        assert(all.skip(i as int).drop_first() == all.skip(i + 1));
        i = i + 1;
    }
    assert(all.skip(i as int).len() == 0);
}

/// The error shown after a failed delete or rename: `"<what> failed: "` and the reason.
pub fn failure_message(what: &str, reason: &str) -> (r: String)
    ensures
        r@ == what@ + " failed: "@ + reason@,
{
    let mut s = what.to_string();
    push_text(&mut s, " failed: ");
    push_text(&mut s, reason);
    s
}

} // verus!
