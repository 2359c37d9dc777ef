//! The main input line (no popup open): text editing, slash-command autocomplete,
//! the Ask/Build suggestion, history scrolling, and sending a message.

use vstd::prelude::*;

use crate::app_state::{App, MsgView, ScrollPosition};
use crate::chars::{
    char_utf8_width, push_char, push_text, same_text, str_chars, string_of, trim, trimmed_string,
    utf8_count, utf8_width,
};
use crate::command_form::{opened_create_popup, opened_update_popup};
use crate::delete_command::opened_delete_popup;
use crate::handlers::HandleResult;
use crate::keys::{KeyCode, KeyModifiers};
use crate::messages::stamped;

verus! {

broadcast use vstd::string::group_string_axioms;

/// Lines scrolled by the arrow keys and the mouse wheel.
pub const SCROLL_LINES_SMALL: usize = 3;

/// Lines scrolled by PageUp and PageDown.
pub const SCROLL_LINES_PAGE: usize = 10;

/// A slash command offered by the autocomplete.
pub struct SlashCommand {
    pub name: String,
    /// What the command does, shown in the autocomplete list.
    pub description: String,
    /// Text put into the input when the command is chosen.
    pub prompt_prefix: String,
    /// Mode the message is then sent in.
    pub mode: String,
}

impl View for SlashCommand {
    type V = (Seq<char>, Seq<char>, Seq<char>);

    open spec fn view(&self) -> (Seq<char>, Seq<char>, Seq<char>) {
        (self.name@, self.prompt_prefix@, self.mode@)
    }
}

/// The suggestions below the input, in order: Ask (explanation) and Build (writing files,
/// running commands).
pub open spec fn suggestion(i: int) -> Seq<char> {
    if i == 0 {
        "Ask"@
    } else {
        "Build"@
    }
}

/// Index of the suggestion named `mode`.
pub open spec fn suggestion_index(mode: Seq<char>) -> Option<usize> {
    if mode == "Ask"@ {
        Some(0)
    } else if mode == "Build"@ {
        Some(1)
    } else {
        None
    }
}

/// Number of suggestions.
pub const SUGGESTION_COUNT: usize = 2;

/// The label of suggestion `i`.
pub fn suggestion_label(i: usize) -> (r: String)
    requires
        i < SUGGESTION_COUNT,
    ensures
        r@ == suggestion(i as int),
{
    if i == 0 {
        "Ask".to_string()
    } else {
        "Build".to_string()
    }
}

fn suggestion_position(mode: &str) -> (r: Option<usize>)
    ensures
        r == suggestion_index(mode@),
{
    if same_text(mode, "Ask") {
        Some(0)
    } else if same_text(mode, "Build") {
        Some(1)
    } else {
        None
    }
}

/// The input is in slash mode: it starts with `/`.
pub open spec fn in_slash(s: Seq<char>) -> bool {
    s.len() > 0 && s[0] == '/'
}

pub fn starts_with_slash(s: &str) -> (r: bool)
    ensures
        r == in_slash(s@),
{
    let v = str_chars(s);
    v.len() > 0 && v[0] == '/'
}

/// The cursor clamped to the end of the text.
pub open spec fn cursor_at(cursor: usize, s: Seq<char>) -> int {
    if cursor < s.len() {
        cursor as int
    } else {
        s.len() as int
    }
}

/// `s` with `c` put before position `pos`.
pub open spec fn inserted(s: Seq<char>, pos: int, c: char) -> Seq<char> {
    s.take(pos).push(c) + s.skip(pos)
}

/// `s` without the character before position `pos`.
pub open spec fn removed_before(s: Seq<char>, pos: int) -> Seq<char> {
    s.take(pos - 1) + s.skip(pos)
}

/// What follows the first `n` bytes of `s` (`str::get(n..)`): nothing when `n` is not
/// the end of a character of `s`.
pub open spec fn skip_bytes(s: Seq<char>, n: int) -> Option<Seq<char>>
    decreases s.len(),
{
    if n == 0 {
        Some(s)
    } else if n < 0 || s.len() == 0 {
        None
    } else {
        skip_bytes(s.drop_first(), n - utf8_width(s[0]))
    }
}

/// What the input holds after the chosen command's name, trimmed.
pub open spec fn command_rest(input: Seq<char>, name: Seq<char>) -> Seq<char> {
    match skip_bytes(input, 1 + crate::chars::utf8_len(name) as int) {
        Some(t) => trim(t),
        None => Seq::empty(),
    }
}

/// Which of the input line's actions a key performs.
#[derive(Clone, Copy, PartialEq, Eq, Structural)]
pub enum MainKeyArm {
    Quit,
    CommandPrev,
    CommandNext,
    CommandSelect,
    SlashClose,
    SuggestionPrev,
    SuggestionNext,
    Newline,
    Send,
    ClearInput,
    Backspace,
    CursorLeft,
    CursorRight,
    ScrollUp(usize),
    ScrollDown(usize),
    ScrollTop,
    ScrollBottom,
    TypeChar(char),
    Ignore,
}

/// The action of a key, given whether the input is in slash mode, whether any command
/// matches it, and whether a chat request is in flight.
pub open spec fn main_key_arm(
    code: KeyCode,
    mods: KeyModifiers,
    slash: bool,
    has_commands: bool,
    chat_pending: bool,
) -> MainKeyArm {
    let nav = slash && has_commands;
    match code {
        KeyCode::Char(c) => if c == 'c' && mods.is_control_only() {
            MainKeyArm::Quit
        } else if c == 'u' && mods.is_control_only() {
            MainKeyArm::ClearInput
        } else if mods.alt {
            MainKeyArm::Ignore
        } else {
            MainKeyArm::TypeChar(c)
        },
        KeyCode::Tab => if nav {
            if mods.is_shift_only() {
                MainKeyArm::CommandPrev
            } else {
                MainKeyArm::CommandNext
            }
        } else if mods.is_shift_only() {
            MainKeyArm::SuggestionPrev
        } else {
            MainKeyArm::SuggestionNext
        },
        KeyCode::Up => if nav {
            MainKeyArm::CommandPrev
        } else {
            MainKeyArm::ScrollUp(SCROLL_LINES_SMALL)
        },
        KeyCode::Down => if nav {
            MainKeyArm::CommandNext
        } else {
            MainKeyArm::ScrollDown(SCROLL_LINES_SMALL)
        },
        KeyCode::Enter => if nav && !chat_pending {
            MainKeyArm::CommandSelect
        } else if mods.shift || mods.alt {
            MainKeyArm::Newline
        } else {
            MainKeyArm::Send
        },
        KeyCode::Esc => if slash {
            MainKeyArm::SlashClose
        } else {
            MainKeyArm::Ignore
        },
        KeyCode::Backspace => MainKeyArm::Backspace,
        KeyCode::Left => if !slash {
            MainKeyArm::CursorLeft
        } else {
            MainKeyArm::Ignore
        },
        KeyCode::Right => if !slash {
            MainKeyArm::CursorRight
        } else {
            MainKeyArm::Ignore
        },
        KeyCode::PageUp => MainKeyArm::ScrollUp(SCROLL_LINES_PAGE),
        KeyCode::PageDown => MainKeyArm::ScrollDown(SCROLL_LINES_PAGE),
        KeyCode::Home => MainKeyArm::ScrollTop,
        KeyCode::End => MainKeyArm::ScrollBottom,
        _ => MainKeyArm::Ignore,
    }
}

fn classify_main_key(
    code: KeyCode,
    mods: KeyModifiers,
    slash: bool,
    has_commands: bool,
    chat_pending: bool,
) -> (r: MainKeyArm)
    ensures
        r == main_key_arm(code, mods, slash, has_commands, chat_pending),
{
    let nav = slash && has_commands;
    match code {
        KeyCode::Char(c) => if c == 'c' && mods.exec_is_control_only() {
            MainKeyArm::Quit
        } else if c == 'u' && mods.exec_is_control_only() {
            MainKeyArm::ClearInput
        } else if mods.alt {
            MainKeyArm::Ignore
        } else {
            MainKeyArm::TypeChar(c)
        },
        KeyCode::Tab => if nav {
            if mods.exec_is_shift_only() {
                MainKeyArm::CommandPrev
            } else {
                MainKeyArm::CommandNext
            }
        } else if mods.exec_is_shift_only() {
            MainKeyArm::SuggestionPrev
        } else {
            MainKeyArm::SuggestionNext
        },
        KeyCode::Up => if nav {
            MainKeyArm::CommandPrev
        } else {
            MainKeyArm::ScrollUp(SCROLL_LINES_SMALL)
        },
        KeyCode::Down => if nav {
            MainKeyArm::CommandNext
        } else {
            MainKeyArm::ScrollDown(SCROLL_LINES_SMALL)
        },
        KeyCode::Enter => if nav && !chat_pending {
            MainKeyArm::CommandSelect
        } else if mods.shift || mods.alt {
            MainKeyArm::Newline
        } else {
            MainKeyArm::Send
        },
        KeyCode::Esc => if slash {
            MainKeyArm::SlashClose
        } else {
            MainKeyArm::Ignore
        },
        KeyCode::Backspace => MainKeyArm::Backspace,
        KeyCode::Left => if !slash {
            MainKeyArm::CursorLeft
        } else {
            MainKeyArm::Ignore
        },
        KeyCode::Right => if !slash {
            MainKeyArm::CursorRight
        } else {
            MainKeyArm::Ignore
        },
        KeyCode::PageUp => MainKeyArm::ScrollUp(SCROLL_LINES_PAGE),
        KeyCode::PageDown => MainKeyArm::ScrollDown(SCROLL_LINES_PAGE),
        KeyCode::Home => MainKeyArm::ScrollTop,
        KeyCode::End => MainKeyArm::ScrollBottom,
        _ => MainKeyArm::Ignore,
    }
}

/// What the caller does after the input line handled a key.
pub enum MainInputAction {
    /// Keep running.
    Continue,
    /// Leave the main loop.
    Break,
    /// Send `input` to the model in `mode` (the log already shows it).
    SendChat { input: String, mode: String },
    /// The input changed in slash mode: filter the commands again and clamp the selection
    /// with `clamp_command_index`.
    RefilterCommands,
}

/// Index of the first character after the first `n` bytes of `v`, when a character ends
/// there.
fn index_after_bytes(v: &Vec<char>, n: u128) -> (r: Option<usize>)
    ensures
        match r {
            Some(k) => k <= v@.len() && skip_bytes(v@, n as int) == Some(v@.skip(k as int)),
            None => skip_bytes(v@, n as int) is None,
        },
{
    let mut i: usize = 0;
    let mut rem: u128 = n;
    assert(v@.skip(0) == v@);
    while i < v.len() && rem > 0
        invariant
            i <= v@.len(),
            skip_bytes(v@, n as int) == skip_bytes(v@.skip(i as int), rem as int),
        decreases v@.len() - i,
    {
        let w = char_utf8_width(v[i]) as u128;
        let ghost t = v@.skip(i as int);
        assert(t[0] == v@[i as int]);
        assert(t.drop_first() == v@.skip(i + 1));
        if w > rem {
            assert(skip_bytes(t.drop_first(), rem - w) is None);
            return None;
        }
        rem = rem - w;
        i = i + 1;
    }
    if rem == 0 {
        Some(i)
    } else {
        assert(v@.skip(i as int).len() == 0);
        None
    }
}

/// The trimmed text of `input` after the command name `name` and its `/`.
fn text_after_command(input: &str, name: &str) -> (r: String)
    ensures
        r@ == command_rest(input@, name@),
{
    let v = str_chars(input);
    let n = utf8_count(name);
    proof {
        crate::chars::lemma_utf8_len_bound(name@);
    }
    match index_after_bytes(&v, n + 1) {
        Some(k) => {
            let t = string_of(&v, k, v.len());
            assert(v@.subrange(k as int, v@.len() as int) == v@.skip(k as int));
            trimmed_string(&t)
        },
        None => String::new(),
    }
}

/// `text` with `c` put before character position `pos`.
fn insert_char_at(text: &str, pos: usize, c: char) -> (r: String)
    requires
        pos <= text@.len(),
    ensures
        r@ == inserted(text@, pos as int, c),
{
    let v = str_chars(text);
    let mut r = string_of(&v, 0, pos);
    push_char(&mut r, c);
    crate::chars::push_chars(&mut r, &v, pos, v.len());
    assert(v@.subrange(0, pos as int) == v@.take(pos as int));
    assert(v@.subrange(pos as int, v@.len() as int) == v@.skip(pos as int));
    r
}

/// `text` without the character before position `pos`.
fn remove_char_before(text: &str, pos: usize) -> (r: String)
    requires
        0 < pos <= text@.len(),
    ensures
        r@ == removed_before(text@, pos as int),
{
    let v = str_chars(text);
    let mut r = string_of(&v, 0, pos - 1);
    crate::chars::push_chars(&mut r, &v, pos, v.len());
    assert(v@.subrange(0, pos - 1) == v@.take(pos - 1));
    assert(v@.subrange(pos as int, v@.len() as int) == v@.skip(pos as int));
    r
}

/// Number of characters of `s`.
fn char_count(s: &str) -> (r: usize)
    ensures
        r == s@.len(),
{
    str_chars(s).len()
}

/// The cursor clamped to the end of the input.
fn clamped_cursor(app: &App) -> (r: usize)
    ensures
        r == cursor_at(app.input_cursor, app.input@),
{
    let n = char_count(&app.input);
    if app.input_cursor < n {
        app.input_cursor
    } else {
        n
    }
}

/// The previous entry of a list of `len` entries, going round at the top.
pub open spec fn prev_index(i: usize, len: usize) -> usize {
    if i == 0 {
        (len - 1) as usize
    } else {
        (i - 1) as usize
    }
}

/// The next entry of a list of `len` entries, going round at the bottom.
pub open spec fn next_index(i: usize, len: usize) -> usize {
    ((i + 1) % (len as int)) as usize
}

/// `(i + 1) % len`, computed without overflow.
pub fn next_in_cycle(i: usize, len: usize) -> (r: usize)
    requires
        len > 0,
    ensures
        r == next_index(i, len),
        r < len,
{
    let r = (i % len + 1) % len;
    proof {
        vstd::arithmetic::div_mod::lemma_add_mod_noop_right(1, i as int, len as int);
    }
    r
}

/// The input line with the text and selection of the command list reset.
pub open spec fn slash_cleared(a: App, input: String) -> App {
    App { input, input_cursor: 0, selected_command_index: 0, ..a }
}

/// The input line after choosing the slash command `cmd`: the meta commands open their
/// popup; any other command puts its prefix and the text typed after its name into the
/// input, and sets its mode.
pub open spec fn command_chosen(
    before: App,
    after: App,
    cmd: (Seq<char>, Seq<char>, Seq<char>),
) -> bool {
    let (name, prefix, mode) = cmd;
    if name == "create-command"@ {
        &&& after.input@ == Seq::<char>::empty()
        &&& opened_create_popup(slash_cleared(before, after.input), after)
    } else if name == "update-command"@ {
        &&& after.input@ == Seq::<char>::empty()
        &&& opened_update_popup(slash_cleared(before, after.input), after)
    } else if name == "delete-command"@ {
        &&& after.input@ == Seq::<char>::empty()
        &&& opened_delete_popup(slash_cleared(before, after.input), after)
    } else {
        &&& after.input@ == prefix.push(' ') + command_rest(before.input@, name)
        &&& after.input_cursor == after.input@.len()
        &&& after.pending_command_mode matches Some(m) && m@ == mode
        &&& after.selected_suggestion == match suggestion_index(mode) {
            Some(k) => k,
            None => before.selected_suggestion,
        }
        &&& after == (App {
            input: after.input,
            input_cursor: after.input_cursor,
            selected_command_index: 0,
            pending_command_mode: after.pending_command_mode,
            selected_suggestion: after.selected_suggestion,
            ..before
        })
    }
}

/// The message was sent, when the trimmed input is not empty and no chat is in flight:
/// the log shows it with an empty answer below, the input is cleared, the view follows
/// the bottom, and the caller gets the text and the mode.
pub open spec fn message_sent(a: App, b: App, r: MainInputAction, chat_pending: bool) -> bool {
    if trim(a.input@).len() > 0 && !chat_pending {
        &&& b.msgs() == a.msgs().push(MsgView::User(trim(a.input@))).push(
            MsgView::Assistant(Seq::empty()),
        )
        &&& b.stamps().len() == a.stamps().len() + 2
        &&& stamped(a.stamps(), b.stamps().drop_last())
        &&& stamped(b.stamps().drop_last(), b.stamps())
        &&& b.input@ == Seq::<char>::empty()
        &&& b == (App {
            messages: b.messages,
            message_timestamps: b.message_timestamps,
            input: b.input,
            input_cursor: 0,
            pending_command_mode: None,
            dirty: true,
            scroll: ScrollPosition::Bottom,
            is_streaming: true,
            ..a
        })
        &&& r matches MainInputAction::SendChat { input, mode } && input@ == trim(a.input@)
            && mode@ == match a.pending_command_mode {
            Some(m) => m@,
            None => suggestion(a.selected_suggestion as int),
        }
    } else {
        b == a && r is Continue
    }
}

/// Backspace removed the character before the cursor; leaving slash mode resets the
/// command selection, and an empty input forgets the command's mode.
pub open spec fn backspaced(a: App, b: App) -> bool {
    let pos = cursor_at(a.input_cursor, a.input@);
    let t = if pos > 0 {
        removed_before(a.input@, pos)
    } else {
        a.input@
    };
    &&& b.input@ == t
    &&& b == (App {
        input: b.input,
        input_cursor: if pos > 0 {
            (pos - 1) as usize
        } else {
            a.input_cursor
        },
        selected_command_index: if in_slash(t) {
            a.selected_command_index
        } else {
            0
        },
        pending_command_mode: if t.len() == 0 {
            None
        } else {
            a.pending_command_mode
        },
        ..a
    })
}

/// The history view scrolled to `scroll`, any selection dropped.
pub open spec fn scrolled_to(a: App, b: App, scroll: ScrollPosition) -> bool {
    b == (App { selection: None, selection_drag_start: None, scroll, ..a })
}

/// What a key did to the input line, by its action (see `main_key_arm`).
pub open spec fn main_input_done(
    a: App,
    b: App,
    r: MainInputAction,
    arm: MainKeyArm,
    commands: Seq<(Seq<char>, Seq<char>, Seq<char>)>,
    chat_pending: bool,
) -> bool {
    let n = commands.len();
    let pos = cursor_at(a.input_cursor, a.input@);
    match arm {
        MainKeyArm::Quit => b == a && r is Break,
        MainKeyArm::CommandPrev => b == (App {
            selected_command_index: prev_index(a.selected_command_index, n as usize),
            ..a
        }) && r is Continue,
        MainKeyArm::CommandNext => b == (App {
            selected_command_index: next_index(a.selected_command_index, n as usize),
            ..a
        }) && r is Continue,
        MainKeyArm::CommandSelect => command_chosen(a, b, commands[a.selected_command_index as int])
            && r is Continue,
        MainKeyArm::SlashClose => b.input@ == Seq::<char>::empty() && b == slash_cleared(a, b.input)
            && r is Continue,
        MainKeyArm::SuggestionPrev => b == (App {
            selected_suggestion: if a.selected_suggestion > 0 {
                (a.selected_suggestion - 1) as usize
            } else {
                0
            },
            ..a
        }) && r is Continue,
        MainKeyArm::SuggestionNext => b == (App {
            selected_suggestion: next_index(a.selected_suggestion, SUGGESTION_COUNT),
            ..a
        }) && r is Continue,
        MainKeyArm::Newline => b.input@ == inserted(a.input@, pos, '\n') && b == (App {
            input: b.input,
            input_cursor: (pos + 1) as usize,
            ..a
        }) && r is Continue,
        MainKeyArm::Send => message_sent(a, b, r, chat_pending),
        MainKeyArm::ClearInput => b.input@ == Seq::<char>::empty() && b == (App {
            input: b.input,
            input_cursor: 0,
            selected_command_index: 0,
            pending_command_mode: None,
            ..a
        }) && r is Continue,
        MainKeyArm::Backspace => backspaced(a, b) && r is Continue,
        MainKeyArm::CursorLeft => b == (App {
            input_cursor: if pos > 0 {
                (pos - 1) as usize
            } else {
                a.input_cursor
            },
            ..a
        }) && r is Continue,
        MainKeyArm::CursorRight => b == (App {
            input_cursor: if pos < a.input@.len() {
                (pos + 1) as usize
            } else {
                a.input_cursor
            },
            ..a
        }) && r is Continue,
        MainKeyArm::ScrollUp(k) => scrolled_to(
            a,
            b,
            ScrollPosition::Line(crate::app_state::scrolled_up(a.scroll_top(), k as int) as usize),
        ) && r is Continue,
        MainKeyArm::ScrollDown(k) => scrolled_to(
            a,
            b,
            ScrollPosition::Line(
                crate::app_state::scrolled_down(
                    a.scroll_top(),
                    k as int,
                    a.last_max_scroll as int,
                ) as usize,
            ),
        ) && r is Continue,
        MainKeyArm::ScrollTop => scrolled_to(a, b, ScrollPosition::Line(0)) && r is Continue,
        MainKeyArm::ScrollBottom => scrolled_to(a, b, ScrollPosition::Bottom) && r is Continue,
        MainKeyArm::TypeChar(c) => {
            &&& b.input@ == inserted(a.input@, pos, c)
            &&& b == (App { input: b.input, input_cursor: (pos + 1) as usize, ..a })
            &&& if in_slash(b.input@) {
                r is RefilterCommands
            } else {
                r is Continue
            }
        },
        MainKeyArm::Ignore => b == a && r is Continue,
    }
}

/// Choose the slash command `cmd` (see `command_chosen`).
fn choose_command(app: &mut App, cmd: &SlashCommand)
    ensures
        command_chosen(*old(app), *final(app), cmd@),
{
    let rest = text_after_command(&app.input, &cmd.name);
    app.input = String::new();
    app.input_cursor = 0;
    app.selected_command_index = 0;
    if same_text(&cmd.name, "create-command") {
        app.open_create_command_popup();
    } else if same_text(&cmd.name, "update-command") {
        app.open_update_command_popup();
    } else if same_text(&cmd.name, "delete-command") {
        app.open_delete_command_popup();
    } else {
        let mut text = cmd.prompt_prefix.clone();
        push_char(&mut text, ' ');
        push_text(&mut text, &rest);
        let len = char_count(&text);
        app.input = text;
        app.input_cursor = len;
        app.pending_command_mode = Some(cmd.mode.clone());
        match suggestion_position(&cmd.mode) {
            Some(k) => {
                app.selected_suggestion = k;
            },
            None => {},
        }
    }
}

/// Send the input as a message (see `message_sent`).
fn send_message(app: &mut App, chat_pending: bool) -> (r: MainInputAction)
    requires
        old(app).wf(),
        trim(old(app).input@).len() > 0 && !chat_pending && old(app).pending_command_mode is None
            ==> old(app).selected_suggestion < SUGGESTION_COUNT,
    ensures
        final(app).wf(),
        message_sent(*old(app), *final(app), r, chat_pending),
{
    let input = trimmed_string(&app.input);
    if char_count(&input) > 0 && !chat_pending {
        let mode = match app.pending_command_mode.take() {
            Some(m) => m,
            None => suggestion_label(app.selected_suggestion),
        };
        app.mark_dirty();
        app.input = String::new();
        app.input_cursor = 0;
        app.push_user(&input);
        let ghost mid = *app;
        app.push_assistant(String::new());
        assert(app.stamps().drop_last() == mid.stamps());
        app.scroll = ScrollPosition::Bottom;
        app.is_streaming = true;
        MainInputAction::SendChat { input, mode }
    } else {
        MainInputAction::Continue
    }
}

/// Remove the character before the cursor (see `backspaced`).
fn backspace_input(app: &mut App)
    ensures
        backspaced(*old(app), *final(app)),
{
    let pos = clamped_cursor(app);
    if pos > 0 {
        app.input = remove_char_before(&app.input, pos);
        app.input_cursor = pos - 1;
    }
    if !starts_with_slash(&app.input) {
        app.selected_command_index = 0;
    }
    if char_count(&app.input) == 0 {
        app.pending_command_mode = None;
    }
}

/// After a refilter of the slash commands to `count` entries, keep the selection inside
/// the list.
pub fn clamp_command_index(app: &mut App, count: usize)
    ensures
        *final(app) == (App {
            selected_command_index: if count > 0 && old(app).selected_command_index >= count {
                (count - 1) as usize
            } else {
                old(app).selected_command_index
            },
            ..*old(app)
        }),
{
    if count > 0 && app.selected_command_index >= count {
        app.selected_command_index = count - 1;
    }
}

/// Handle a key of the main input. `commands` are the slash commands that match the
/// input's filter, `chat_pending` tells whether a chat request is in flight.
#[verifier::rlimit(40)]
pub fn handle_main_input(
    key_code: KeyCode,
    key_modifiers: KeyModifiers,
    app: &mut App,
    commands: &[SlashCommand],
    chat_pending: bool,
) -> (r: MainInputAction)
    requires
        old(app).wf(),
        old(app).input@.len() < usize::MAX,
        main_key_arm(
            key_code,
            key_modifiers,
            in_slash(old(app).input@),
            commands@.len() > 0,
            chat_pending,
        ) == MainKeyArm::CommandSelect ==> old(app).selected_command_index < commands@.len(),
        main_key_arm(
            key_code,
            key_modifiers,
            in_slash(old(app).input@),
            commands@.len() > 0,
            chat_pending,
        ) == MainKeyArm::Send && !chat_pending && trim(old(app).input@).len() > 0
            && old(app).pending_command_mode is None ==> old(app).selected_suggestion
            < SUGGESTION_COUNT,
        match main_key_arm(
            key_code,
            key_modifiers,
            in_slash(old(app).input@),
            commands@.len() > 0,
            chat_pending,
        ) {
            MainKeyArm::ScrollDown(k) => old(app).scroll_top() + k <= usize::MAX,
            _ => true,
        },
    ensures
        final(app).wf(),
        main_input_done(
            *old(app),
            *final(app),
            r,
            main_key_arm(
                key_code,
                key_modifiers,
                in_slash(old(app).input@),
                commands@.len() > 0,
                chat_pending,
            ),
            commands@.map_values(|c: SlashCommand| c@),
            chat_pending,
        ),
{
    let slash = starts_with_slash(&app.input);
    let n = commands.len();
    let arm = classify_main_key(key_code, key_modifiers, slash, n > 0, chat_pending);
    match arm {
        MainKeyArm::Quit => MainInputAction::Break,
        MainKeyArm::CommandPrev => {
            app.selected_command_index = if app.selected_command_index == 0 {
                n - 1
            } else {
                app.selected_command_index - 1
            };
            MainInputAction::Continue
        },
        MainKeyArm::CommandNext => {
            app.selected_command_index = next_in_cycle(app.selected_command_index, n);
            MainInputAction::Continue
        },
        MainKeyArm::CommandSelect => {
            choose_command(app, &commands[app.selected_command_index]);
            MainInputAction::Continue
        },
        MainKeyArm::SlashClose => {
            app.input = String::new();
            app.input_cursor = 0;
            app.selected_command_index = 0;
            MainInputAction::Continue
        },
        MainKeyArm::SuggestionPrev => {
            app.selected_suggestion = app.selected_suggestion.saturating_sub(1);
            MainInputAction::Continue
        },
        MainKeyArm::SuggestionNext => {
            app.selected_suggestion = next_in_cycle(app.selected_suggestion, SUGGESTION_COUNT);
            MainInputAction::Continue
        },
        MainKeyArm::Newline => {
            let pos = clamped_cursor(app);
            app.input = insert_char_at(&app.input, pos, '\n');
            app.input_cursor = pos + 1;
            MainInputAction::Continue
        },
        MainKeyArm::Send => send_message(app, chat_pending),
        MainKeyArm::ClearInput => {
            app.input = String::new();
            app.input_cursor = 0;
            app.selected_command_index = 0;
            app.pending_command_mode = None;
            MainInputAction::Continue
        },
        MainKeyArm::Backspace => {
            backspace_input(app);
            MainInputAction::Continue
        },
        MainKeyArm::CursorLeft => {
            let pos = clamped_cursor(app);
            if pos > 0 {
                app.input_cursor = pos - 1;
            }
            MainInputAction::Continue
        },
        MainKeyArm::CursorRight => {
            let pos = clamped_cursor(app);
            if pos < char_count(&app.input) {
                app.input_cursor = pos + 1;
            }
            MainInputAction::Continue
        },
        MainKeyArm::ScrollUp(k) => {
            app.selection = None;
            app.selection_drag_start = None;
            app.scroll_up(k);
            MainInputAction::Continue
        },
        MainKeyArm::ScrollDown(k) => {
            app.selection = None;
            app.selection_drag_start = None;
            app.scroll_down(k);
            MainInputAction::Continue
        },
        MainKeyArm::ScrollTop => {
            app.selection = None;
            app.selection_drag_start = None;
            app.materialize_scroll();
            app.scroll = ScrollPosition::Line(0);
            MainInputAction::Continue
        },
        MainKeyArm::ScrollBottom => {
            app.selection = None;
            app.selection_drag_start = None;
            app.scroll = ScrollPosition::Bottom;
            MainInputAction::Continue
        },
        MainKeyArm::TypeChar(c) => {
            let pos = clamped_cursor(app);
            app.input = insert_char_at(&app.input, pos, c);
            app.input_cursor = pos + 1;
            if starts_with_slash(&app.input) {
                MainInputAction::RefilterCommands
            } else {
                MainInputAction::Continue
            }
        },
        MainKeyArm::Ignore => MainInputAction::Continue,
    }
}

/// The result of the input line for the main loop.
pub fn main_input_result(action: &MainInputAction) -> (r: HandleResult)
    ensures
        r == (if action is Break {
            HandleResult::Break
        } else {
            HandleResult::Continue
        }),
{
    match action {
        MainInputAction::Break => HandleResult::Break,
        _ => HandleResult::Continue,
    }
}

} // verus!
