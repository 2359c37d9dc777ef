//! Decisions of the main loop: where a key goes, what a shortcut does to the screen,
//! the y/n confirmation of a destructive command, and what a finished chat request
//! leaves in the log. The loop itself (terminal, threads, requests, files) runs outside
//! and performs the actions returned here.

use vstd::prelude::*;

use crate::app_state::{
    App, ConfirmPopup, MsgView, ScrollPosition, cancelled_text, drop_thinking, last_assistant,
};
use crate::chars::{push_text, str_chars, strs};
use crate::handlers::HandleResult;
use crate::keys::{KeyCode, KeyEvent, KeyEventKind};
use crate::main_input::in_slash;
use crate::main_input::starts_with_slash;
use crate::messages::{cancelled_log, ends_with_empty_assistant, last_user, stamped};
use crate::shortcuts::{Shortcut, shortcut_of};

verus! {

broadcast use vstd::string::group_string_axioms;

/// Which popups that are kept outside `App` are open.
#[derive(Clone, Copy, PartialEq, Eq, Structural)]
pub struct OpenPopups {
    pub confirm: bool,
    pub model_selector: bool,
    pub history_selector: bool,
}

/// Where a key event goes.
#[derive(Debug, Clone, Copy, PartialEq, Eq, Structural)]
pub enum KeyRoute {
    /// Nothing more to do for this key.
    Done,
    /// Leave the main loop.
    Quit,
    /// Perform a shortcut (see `apply_shortcut`).
    Shortcut(Shortcut),
    /// Cancel the chat request in flight.
    CancelChat,
    /// The confirmation popup takes the key (see `handle_confirm_popup`).
    ConfirmPopup,
    /// The history selector takes the key.
    HistorySelector,
    /// The model selector takes the key.
    ModelSelector,
    /// The input line takes the key (see `handle_main_input`).
    MainInput,
}

/// Where a key goes and what it changes on the way, for a screen in state `a`.
pub open spec fn routed(
    a: App,
    b: App,
    r: KeyRoute,
    key: KeyEvent,
    popups: OpenPopups,
    chat_pending: bool,
) -> bool {
    if key.kind != KeyEventKind::Press {
        b == a && r == KeyRoute::Done
    } else if a.escape_pending && shortcut_of(key, true) is Some {
        b == (App { escape_pending: false, ..a }) && r == KeyRoute::Shortcut(
            shortcut_of(key, true)->0,
        )
    } else {
        let a1 = App { escape_pending: false, ..a };
        let s = shortcut_of(key, false);
        let typed_tilde = s == Some(Shortcut::NewConversation) && key.code == KeyCode::Char('~')
            && a.input@.len() > 0;
        if s == Some(Shortcut::Quit) {
            b == a1 && r == KeyRoute::Quit
        } else if s is Some && !typed_tilde && s != Some(Shortcut::NoShortcut) {
            b == a1 && r == KeyRoute::Shortcut(s->0)
        } else if key.code == KeyCode::Esc && !popups.confirm && !popups.model_selector
            && !popups.history_selector {
            if in_slash(a.input@) {
                &&& b.input@ == Seq::<char>::empty()
                &&& b == (App {
                    input: b.input,
                    input_cursor: 0,
                    selected_command_index: 0,
                    ..a1
                })
                &&& r == KeyRoute::Done
            } else if chat_pending {
                b == a1 && r == KeyRoute::CancelChat
            } else {
                b == (App { escape_pending: true, ..a1 }) && r == KeyRoute::Done
            }
        } else {
            &&& b == a1
            &&& r == if popups.confirm {
                KeyRoute::ConfirmPopup
            } else if popups.history_selector {
                KeyRoute::HistorySelector
            } else if popups.model_selector {
                KeyRoute::ModelSelector
            } else {
                KeyRoute::MainInput
            }
        }
    }
}

/// Route a key event: shortcuts first (an Esc before the key makes Alt of it), then Esc
/// (leave slash mode, cancel the request, or start an Esc+key sequence), then the open
/// popup, then the input line.
pub fn route_key(key: &KeyEvent, app: &mut App, popups: OpenPopups, chat_pending: bool) -> (r:
    KeyRoute)
    ensures
        routed(*old(app), *final(app), r, *key, popups, chat_pending),
{
    if key.kind != KeyEventKind::Press {
        return KeyRoute::Done;
    }
    if app.escape_pending {
        if let Some(shortcut) = Shortcut::match_key(key, true) {
            app.escape_pending = false;
            return KeyRoute::Shortcut(shortcut);
        }
        app.escape_pending = false;
    }
    if let Some(shortcut) = Shortcut::match_key(key, false) {
        if shortcut == Shortcut::Quit {
            return KeyRoute::Quit;
        }
        let typed_tilde = shortcut == Shortcut::NewConversation && key.code == KeyCode::Char('~')
            && str_chars(&app.input).len() > 0;
        if !typed_tilde && shortcut != Shortcut::NoShortcut {
            return KeyRoute::Shortcut(shortcut);
        }
    }
    if Shortcut::is_escape(key) && !popups.confirm && !popups.model_selector
        && !popups.history_selector {
        if starts_with_slash(&app.input) {
            app.input = String::new();
            app.input_cursor = 0;
            app.selected_command_index = 0;
            return KeyRoute::Done;
        }
        if chat_pending {
            return KeyRoute::CancelChat;
        }
        app.escape_pending = true;
        return KeyRoute::Done;
    }
    if popups.confirm {
        KeyRoute::ConfirmPopup
    } else if popups.history_selector {
        KeyRoute::HistorySelector
    } else if popups.model_selector {
        KeyRoute::ModelSelector
    } else {
        KeyRoute::MainInput
    }
}

/// The result of a route for the main loop.
pub fn route_result(route: KeyRoute) -> (r: HandleResult)
    ensures
        r == (if route == KeyRoute::Quit {
            HandleResult::Break
        } else {
            HandleResult::Continue
        }),
{
    if route == KeyRoute::Quit {
        HandleResult::Break
    } else {
        HandleResult::Continue
    }
}

/// What the loop does for a shortcut besides what `apply_shortcut` changed.
#[derive(Debug, Clone, Copy, PartialEq, Eq, Structural)]
pub enum ShortcutEffect {
    /// Save the conversation when it has unsaved messages, then open the history selector.
    OpenHistory,
    /// Save the conversation when it has unsaved messages; the screen was reset and the
    /// conversation's API messages are dropped.
    StartedNewConversation,
    /// Open the model selector and start fetching the models.
    OpenModelSelector,
    /// Leave the main loop.
    Quit,
    Nothing,
}

/// Perform the part of a shortcut that concerns the screen.
pub fn apply_shortcut(shortcut: Shortcut, app: &mut App) -> (r: ShortcutEffect)
    ensures
        shortcut == Shortcut::NewConversation ==> {
            &&& final(app).wf()
            &&& final(app).msgs() == Seq::<MsgView>::empty()
            &&& *final(app) == (App {
                messages: final(app).messages,
                message_timestamps: final(app).message_timestamps,
                current_conversation_id: None,
                dirty: false,
                scroll: ScrollPosition::Line(0),
                last_max_scroll: 0,
                token_usage: None,
                ..*old(app)
            })
            &&& r == ShortcutEffect::StartedNewConversation
        },
        shortcut != Shortcut::NewConversation ==> *final(app) == *old(app),
        shortcut == Shortcut::History ==> r == ShortcutEffect::OpenHistory,
        shortcut == Shortcut::ModelSelector ==> r == ShortcutEffect::OpenModelSelector,
        shortcut == Shortcut::Quit ==> r == ShortcutEffect::Quit,
        shortcut == Shortcut::NoShortcut ==> r == ShortcutEffect::Nothing,
{
    match shortcut {
        Shortcut::History => ShortcutEffect::OpenHistory,
        Shortcut::NewConversation => {
            app.new_conversation();
            ShortcutEffect::StartedNewConversation
        },
        Shortcut::ModelSelector => ShortcutEffect::OpenModelSelector,
        Shortcut::Quit => ShortcutEffect::Quit,
        Shortcut::NoShortcut => ShortcutEffect::Nothing,
    }
}

/// Whether the conversation is to be saved: it changed since the last save and has
/// API messages.
pub fn needs_save(app: &App, api_message_count: usize) -> (r: bool)
    ensures
        r == (app.dirty && api_message_count > 0),
{
    app.is_dirty() && api_message_count > 0
}

/// Record the outcome of a save: the conversation's id and a clean state, or nothing
/// changed when the save failed (the caller shows the error).
pub fn conversation_saved(app: &mut App, saved_id: Option<String>)
    ensures
        match saved_id {
            Some(id) => *final(app) == (App {
                current_conversation_id: Some(id),
                dirty: false,
                ..*old(app)
            }),
            None => *final(app) == *old(app),
        },
{
    match saved_id {
        Some(id) => {
            app.set_conversation_id(Some(id));
            app.clear_dirty();
        },
        None => {},
    }
}

/// The answer to the confirmation popup: `Some(true)` for y, `Some(false)` for n or
/// Enter, `None` for any other key.
pub open spec fn confirm_answer(code: KeyCode) -> Option<bool> {
    match code {
        KeyCode::Char(c) => if c == 'y' || c == 'Y' {
            Some(true)
        } else if c == 'n' || c == 'N' {
            Some(false)
        } else {
            None
        },
        KeyCode::Enter => Some(false),
        _ => None,
    }
}

/// Result of a key in the confirmation popup.
pub enum ConfirmPopupResult<S> {
    /// Keep the popup open.
    PutBack(ConfirmPopup<S>),
    /// Resume the paused chat with the user's answer.
    Resume { state: S, confirmed: bool },
}

/// Handle a key while the confirmation popup is open. An answer resumes the chat (its
/// reply goes to a new empty assistant message at the bottom) unless a request is still
/// in flight.
pub fn handle_confirm_popup<S>(
    key_code: KeyCode,
    popup: ConfirmPopup<S>,
    app: &mut App,
    chat_pending: bool,
) -> (r: ConfirmPopupResult<S>)
    requires
        old(app).wf(),
    ensures
        final(app).wf(),
        match confirm_answer(key_code) {
            Some(yes) if !chat_pending => {
                &&& r matches ConfirmPopupResult::Resume { state, confirmed } && state
                    == popup.state && confirmed == yes
                &&& final(app).msgs() == old(app).msgs().push(MsgView::Assistant(Seq::empty()))
                &&& stamped(old(app).stamps(), final(app).stamps())
                &&& *final(app) == (App {
                    messages: final(app).messages,
                    message_timestamps: final(app).message_timestamps,
                    scroll: ScrollPosition::Bottom,
                    ..*old(app)
                })
            },
            _ => {
                &&& *final(app) == *old(app)
                &&& r matches ConfirmPopupResult::PutBack(p) && p == popup
            },
        },
{
    let answer = match key_code {
        KeyCode::Char(c) => if c == 'y' || c == 'Y' {
            Some(true)
        } else if c == 'n' || c == 'N' {
            Some(false)
        } else {
            None
        },
        KeyCode::Enter => Some(false),
        _ => None,
    };
    match answer {
        Some(confirmed) => {
            if !chat_pending {
                app.push_assistant(String::new());
                app.scroll = ScrollPosition::Bottom;
                ConfirmPopupResult::Resume { state: popup.state, confirmed }
            } else {
                ConfirmPopupResult::PutBack(popup)
            }
        },
        None => ConfirmPopupResult::PutBack(popup),
    }
}

/// How a chat request ended.
pub enum ChatOutcome<S> {
    /// The model answered: its final text, the tool calls it made, and the tokens used.
    Complete { content: String, tool_log: Vec<String>, total_tokens: u64 },
    /// A destructive command waits for the user's y/n.
    NeedsConfirmation { command: String, state: S },
    /// The user cancelled the request.
    Cancelled,
    /// The request failed with this message.
    Failed { message: String },
}

/// What the loop does after `handle_chat_result`.
pub enum ChatFollowUp<S> {
    /// Save the conversation (then report with `conversation_saved`) and keep its API
    /// messages.
    Save,
    /// Show the confirmation popup.
    Confirm(ConfirmPopup<S>),
    Nothing,
}

/// The log after a completed answer: the tool log (unless it was already streamed in,
/// in which case the progress after the last user message is dropped), then the answer.
pub open spec fn answered_log(
    ms: Seq<MsgView>,
    tool_log: Seq<Seq<char>>,
    streamed: bool,
    content: Seq<char>,
) -> Seq<MsgView> {
    let base = answered_log_base(ms, tool_log, streamed);
    match last_assistant(base) {
        Some(_) => base.update(base.len() - 1, MsgView::Assistant(content)),
        None => base.push(MsgView::Assistant(content)),
    }
}

/// The log before the answer goes in (see `answered_log`).
pub open spec fn answered_log_base(ms: Seq<MsgView>, tool_log: Seq<Seq<char>>, streamed: bool) -> Seq<
    MsgView,
> {
    if streamed {
        match last_user(ms) {
            Some(k) => ms.take(k + 1),
            None => ms,
        }
    } else {
        ms + tool_log.map_values(|l: Seq<char>| MsgView::ToolLog(l))
    }
}

/// `"Error: "` followed by `message`.
pub open spec fn error_text(message: Seq<char>) -> Seq<char> {
    "Error: "@ + message
}

/// What a finished chat request left on the screen (`a` before, `b` after), and what the
/// loop does next.
pub open spec fn chat_result_done<S>(
    a: App,
    b: App,
    outcome: ChatOutcome<S>,
    streamed: bool,
    r: ChatFollowUp<S>,
) -> bool {
    match outcome {
        ChatOutcome::Complete { content, tool_log, total_tokens } => {
            &&& b.msgs() == answered_log(
                a.msgs(),
                strs(tool_log@),
                streamed,
                content@,
            )
            &&& b == (App {
                messages: b.messages,
                message_timestamps: b.message_timestamps,
                token_usage: Some(total_tokens),
                scroll: ScrollPosition::Bottom,
                ..a
            })
            &&& r is Save
        },
        ChatOutcome::NeedsConfirmation { command, state } => {
            &&& b == a
            &&& r matches ChatFollowUp::Confirm(p) && p.command == command && p.state == state
        },
        ChatOutcome::Cancelled => {
            &&& b.msgs() == cancelled_log(a.msgs())
            &&& b.same_except_log(&a)
            &&& r is Nothing
        },
        ChatOutcome::Failed { message } => {
            &&& b.msgs() == (match last_assistant(a.msgs()) {
                Some(_) => a.msgs().update(
                    a.msgs().len() - 1,
                    MsgView::Assistant(error_text(message@)),
                ),
                None => a.msgs().push(MsgView::Assistant(error_text(message@))),
            })
            &&& b == (App {
                messages: b.messages,
                message_timestamps: b.message_timestamps,
                scroll: ScrollPosition::Bottom,
                ..a
            })
            &&& r is Nothing
        },
    }
}

/// Append each tool call line to the log.
fn push_tool_logs(app: &mut App, tool_log: &Vec<String>)
    requires
        old(app).wf(),
    ensures
        final(app).wf(),
        final(app).msgs() == old(app).msgs() + strs(tool_log@).map_values(
            |l: Seq<char>| MsgView::ToolLog(l),
        ),
        final(app).same_except_log(&*old(app)),
{
    let ghost logs = strs(tool_log@);
    let mut i: usize = 0;
    while i < tool_log.len()
        invariant
            i <= tool_log@.len(),
            logs == strs(tool_log@),
            app.wf(),
            app.msgs() == old(app).msgs() + logs.take(i as int).map_values(
                |l: Seq<char>| MsgView::ToolLog(l),
            ),
            app.same_except_log(&*old(app)),
        decreases tool_log@.len() - i,
    {
        let line = tool_log[i].clone();
        app.push_tool_log(line);
        assert(logs.take(i + 1) == logs.take(i as int).push(logs[i as int]));
        assert(old(app).msgs() + logs.take(i + 1).map_values(|l: Seq<char>| MsgView::ToolLog(l))
            == old(app).msgs() + logs.take(i as int).map_values(|l: Seq<char>| MsgView::ToolLog(l)).push(
            MsgView::ToolLog(logs[i as int]),
        ));
        i = i + 1;
    }
    assert(logs.take(logs.len() as int) == logs);
}

/// Put a completed answer into the log (see `answered_log`).
fn take_answer(app: &mut App, content: String, tool_log: Vec<String>, total_tokens: u64, streamed: bool)
    requires
        old(app).wf(),
    ensures
        final(app).wf(),
        final(app).msgs() == answered_log(old(app).msgs(), strs(tool_log@), streamed, content@),
        *final(app) == (App {
            messages: final(app).messages,
            message_timestamps: final(app).message_timestamps,
            token_usage: Some(total_tokens),
            scroll: ScrollPosition::Bottom,
            ..*old(app)
        }),
{
    app.token_usage = Some(total_tokens);
    let ghost before = *app;
    if streamed {
        app.clear_progress_after_last_user();
    } else {
        push_tool_logs(app, &tool_log);
    }
    assert(app.msgs() == answered_log_base(before.msgs(), strs(tool_log@), streamed));
    app.replace_or_push_assistant(content);
    app.scroll = ScrollPosition::Bottom;
}

/// Put a finished chat request into the screen state.
pub fn handle_chat_result<S>(
    app: &mut App,
    outcome: ChatOutcome<S>,
    tool_log_already_streamed: bool,
) -> (r: ChatFollowUp<S>)
    requires
        old(app).wf(),
    ensures
        final(app).wf(),
        chat_result_done(*old(app), *final(app), outcome, tool_log_already_streamed, r),
{
    match outcome {
        ChatOutcome::Complete { content, tool_log, total_tokens } => {
            take_answer(app, content, tool_log, total_tokens, tool_log_already_streamed);
            ChatFollowUp::Save
        },
        ChatOutcome::NeedsConfirmation { command, state } => ChatFollowUp::Confirm(
            ConfirmPopup { command, state },
        ),
        ChatOutcome::Cancelled => {
            app.append_cancelled_notice();
            ChatFollowUp::Nothing
        },
        ChatOutcome::Failed { message } => {
            let mut text = "Error: ".to_string();
            push_text(&mut text, &message);
            app.replace_or_push_assistant(text);
            app.scroll = ScrollPosition::Bottom;
            ChatFollowUp::Nothing
        },
    }
}

/// A progress line of the request in flight: it replaces an empty answer placeholder at
/// the end of the log.
pub fn on_progress(app: &mut App, line: String)
    requires
        old(app).wf(),
    ensures
        final(app).wf(),
        final(app).msgs() == (if ends_with_empty_assistant(old(app).msgs()) {
            old(app).msgs().drop_last()
        } else {
            old(app).msgs()
        }).push(MsgView::ToolLog(line@)),
        final(app).same_except_log(&*old(app)),
{
    app.remove_last_if_empty_assistant();
    app.push_tool_log(line);
}

/// The request in flight finished: drop the thinking marker, stop streaming, and take
/// its outcome (see `handle_chat_result`, with the tool log already streamed in).
pub fn on_chat_finished<S>(app: &mut App, outcome: ChatOutcome<S>) -> (r: ChatFollowUp<S>)
    requires
        old(app).wf(),
    ensures
        final(app).wf(),
        exists|mid: App|
            {
                &&& mid.wf()
                &&& (mid.msgs(), mid.stamps()) == drop_thinking(old(app).msgs(), old(app).stamps())
                &&& mid == (App {
                    messages: mid.messages,
                    message_timestamps: mid.message_timestamps,
                    is_streaming: false,
                    ..*old(app)
                })
                &&& #[trigger] chat_result_done(mid, *final(app), outcome, true, r)
            },
{
    app.set_thinking(false);
    app.is_streaming = false;
    let ghost mid = *app;
    let r = handle_chat_result(app, outcome, true);
    assert(chat_result_done(mid, *app, outcome, true, r));
    r
}

/// How long the credit balance is kept before it is fetched again: 30 minutes, in seconds.
pub const CREDITS_REFRESH_SECS: u64 = 1800;

/// Whether to fetch the credit balance again: no fetch is under way, and a balance was
/// fetched (`since_fetch_secs`: whole seconds since then) at least 30 minutes ago.
pub fn credits_refresh_due(fetch_pending: bool, since_fetch_secs: Option<u64>) -> (r: bool)
    ensures
        r == (!fetch_pending && match since_fetch_secs {
            Some(e) => e >= CREDITS_REFRESH_SECS,
            None => false,
        }),
{
    !fetch_pending && match since_fetch_secs {
        Some(e) => e >= CREDITS_REFRESH_SECS,
        None => false,
    }
}

} // verus!
