//! Application state of the chat screen: the message log with its timestamps, the
//! input line, scrolling, and the conversation bookkeeping.

use vstd::prelude::*;

use crate::chars::{same_text, str_chars, string_of};
use crate::command_form::{CommandFormState, CustomTemplate};
use crate::delete_command::DeleteCommandState;
use crate::file_picker::FilePickerState;
use crate::history_selector::HistorySelectorState;
use crate::model_selector::ModelSelectorState;

verus! {

broadcast use vstd::string::group_string_axioms;

/// Messages displayed in the history (user or assistant).
#[derive(Clone)]
pub enum ChatMessage {
    User(String),
    Assistant(String),
    Thinking,
    /// Tool call log line for verbose output.
    ToolLog(String),
}

/// What a chat message holds.
pub enum MsgView {
    User(Seq<char>),
    Assistant(Seq<char>),
    Thinking,
    ToolLog(Seq<char>),
}

impl View for ChatMessage {
    type V = MsgView;

    open spec fn view(&self) -> MsgView {
        match self {
            ChatMessage::User(s) => MsgView::User(s@),
            ChatMessage::Assistant(s) => MsgView::Assistant(s@),
            ChatMessage::Thinking => MsgView::Thinking,
            ChatMessage::ToolLog(s) => MsgView::ToolLog(s@),
        }
    }
}

/// Scroll position: either a specific line index, or "at bottom" (follow new content).
#[derive(Debug, Clone, Copy, PartialEq, Eq, Structural)]
pub enum ScrollPosition {
    Line(usize),
    Bottom,
}

impl Default for ScrollPosition {
    fn default() -> (r: Self)
        ensures
            r == ScrollPosition::Line(0),
    {
        ScrollPosition::Line(0)
    }
}

/// The line a scroll position stands for: its line, or the last scroll line at the bottom.
pub open spec fn top_line(s: ScrollPosition, last_max: usize) -> int {
    match s {
        ScrollPosition::Line(n) => n as int,
        ScrollPosition::Bottom => last_max as int,
    }
}

/// The position after `materialize_scroll`: "bottom" becomes the last scroll line.
pub open spec fn materialized(s: ScrollPosition, last_max: usize) -> ScrollPosition {
    match s {
        ScrollPosition::Bottom => ScrollPosition::Line(last_max),
        ScrollPosition::Line(n) => ScrollPosition::Line(n),
    }
}

/// The line shown at the top: the position, clamped to the last scroll line.
pub open spec fn visible_top(s: ScrollPosition, last_max: usize) -> int {
    vstd::math::min(top_line(s, last_max), last_max as int)
}

/// Line after scrolling down `n` lines from `top`, never past `last_max`.
pub open spec fn scrolled_down(top: int, n: int, last_max: int) -> int {
    vstd::math::min(top + n, last_max)
}

/// Line after scrolling up `n` lines from `top`, never before 0.
pub open spec fn scrolled_up(top: int, n: int) -> int {
    vstd::math::max(top - n, 0)
}

/// Pending confirmation for a destructive command (popup displayed); `S` is the
/// suspended chat state that resumes after the answer.
pub struct ConfirmPopup<S> {
    pub command: String,
    pub state: S,
}

/// The content of a persisted message, as stored in the conversation file.
pub enum ApiContent {
    /// No "content" field.
    Missing,
    /// A string.
    Text(String),
    /// An array of blocks; each entry is the block's "text" field when it is a string.
    Blocks(Vec<Option<String>>),
    /// An object.
    Object,
    /// Any other JSON value.
    Other,
}

/// What persisted content holds.
pub enum ContentView {
    Missing,
    Text(Seq<char>),
    Blocks(Seq<Option<Seq<char>>>),
    Object,
    Other,
}

pub open spec fn opt_view(o: Option<String>) -> Option<Seq<char>> {
    match o {
        Some(s) => Some(s@),
        None => None,
    }
}

impl View for ApiContent {
    type V = ContentView;

    open spec fn view(&self) -> ContentView {
        match self {
            ApiContent::Missing => ContentView::Missing,
            ApiContent::Text(s) => ContentView::Text(s@),
            ApiContent::Blocks(b) => ContentView::Blocks(b@.map_values(|o: Option<String>| opt_view(o))),
            ApiContent::Object => ContentView::Object,
            ApiContent::Other => ContentView::Other,
        }
    }
}

/// A persisted message: its "role", "content" and optional "timestamp".
pub struct ApiMessage {
    pub role: String,
    pub content: ApiContent,
    pub timestamp: Option<u64>,
}

impl View for ApiMessage {
    type V = (Seq<char>, ContentView, Option<u64>);

    open spec fn view(&self) -> (Seq<char>, ContentView, Option<u64>) {
        (self.role@, self.content@, self.timestamp)
    }
}

/// Role of a message in the persisted format.
#[derive(Clone, Copy, PartialEq, Eq, Structural)]
pub enum PersistRole {
    User,
    Assistant,
    ToolLog,
}

/// A message in the persisted format (role, content, optional timestamp).
pub struct PersistedMessage {
    pub role: PersistRole,
    pub content: String,
    pub timestamp: Option<u64>,
}

impl View for PersistedMessage {
    type V = (PersistRole, Seq<char>, Option<u64>);

    open spec fn view(&self) -> (PersistRole, Seq<char>, Option<u64>) {
        (self.role, self.content@, self.timestamp)
    }
}

/// The text of persisted content: the string, or the first block text of an array.
pub open spec fn blocks_text(b: Seq<Option<Seq<char>>>) -> Option<Seq<char>>
    decreases b.len(),
{
    if b.len() == 0 {
        None
    } else {
        match b[0] {
            Some(t) => Some(t),
            None => blocks_text(b.drop_first()),
        }
    }
}

pub open spec fn content_text(c: ContentView) -> Option<Seq<char>> {
    match c {
        ContentView::Text(s) => Some(s),
        ContentView::Blocks(b) => blocks_text(b),
        _ => None,
    }
}

/// Shown in place of content that cannot be read.
pub open spec fn unsupported_text() -> Seq<char> {
    "[Unsupported message format]"@
}

/// The log that `set_messages_from_api` builds from persisted messages: user and
/// assistant messages with their content (or the unsupported marker) and timestamp (or
/// the fallback), tool logs with their string content (or "") and no timestamp; other
/// roles are skipped.
pub open spec fn loaded_log(api: Seq<(Seq<char>, ContentView, Option<u64>)>, fallback: Option<u64>) -> (
    Seq<MsgView>,
    Seq<Option<u64>>,
)
    decreases api.len(),
{
    if api.len() == 0 {
        (seq![], seq![])
    } else {
        let (ms, ts) = loaded_log(api.drop_last(), fallback);
        let (role, content, stamp) = api.last();
        let text = match content_text(content) {
            Some(t) => t,
            None => unsupported_text(),
        };
        let when = match stamp {
            Some(t) => Some(t),
            None => fallback,
        };
        if role == "user"@ {
            (ms.push(MsgView::User(text)), ts.push(when))
        } else if role == "assistant"@ {
            (ms.push(MsgView::Assistant(text)), ts.push(when))
        } else if role == "tool_log"@ {
            let log = match content {
                ContentView::Text(s) => s,
                _ => Seq::<char>::empty(),
            };
            (ms.push(MsgView::ToolLog(log)), ts.push(None))
        } else {
            (ms, ts)
        }
    }
}

/// The persisted form of `ms[..n]` with timestamps `ts` (entries past its end count as
/// none): user and assistant messages keep their timestamp, tool logs carry none, and
/// "thinking" markers are left out.
pub open spec fn persisted(ms: Seq<MsgView>, ts: Seq<Option<u64>>, n: int) -> Seq<
    (PersistRole, Seq<char>, Option<u64>),
>
    decreases n,
{
    if n <= 0 {
        seq![]
    } else {
        let prev = persisted(ms, ts, n - 1);
        let stamp = if n - 1 < ts.len() {
            ts[n - 1]
        } else {
            None
        };
        match ms[n - 1] {
            MsgView::User(s) => prev.push((PersistRole::User, s, stamp)),
            MsgView::Assistant(s) => prev.push((PersistRole::Assistant, s, stamp)),
            MsgView::ToolLog(s) => prev.push((PersistRole::ToolLog, s, None)),
            MsgView::Thinking => prev,
        }
    }
}

/// The log without its "thinking" markers, timestamps kept in step.
pub open spec fn drop_thinking(ms: Seq<MsgView>, ts: Seq<Option<u64>>) -> (
    Seq<MsgView>,
    Seq<Option<u64>>,
)
    decreases ms.len(),
{
    if ms.len() == 0 {
        (seq![], seq![])
    } else {
        let (m0, t0) = drop_thinking(ms.drop_last(), ts.drop_last());
        if ms.last() is Thinking {
            (m0, t0)
        } else {
            (m0.push(ms.last()), t0.push(ts.last()))
        }
    }
}

/// The text of the last message when it is an assistant message.
pub open spec fn last_assistant(ms: Seq<MsgView>) -> Option<Seq<char>> {
    if ms.len() > 0 && ms.last() is Assistant {
        Some(ms.last()->Assistant_0)
    } else {
        None
    }
}

/// The log holds no "thinking" marker.
pub open spec fn no_thinking(ms: Seq<MsgView>) -> bool {
    forall|k: int| 0 <= k < ms.len() ==> !(#[trigger] ms[k] is Thinking)
}

/// Appended to a partial answer when the request is cancelled.
pub open spec fn cancelled_suffix() -> Seq<char> {
    "\n\n*[Request cancelled]*"@
}

/// The answer shown when a request is cancelled before any content arrived.
pub open spec fn cancelled_text() -> Seq<char> {
    "*[Request cancelled]*"@
}

/// Seconds since the Unix epoch from the system clock (`SystemTime::now` and
/// `duration_since(UNIX_EPOCH)`), or none when the clock is before the epoch.
/// Nothing is stated of the value: it is the time.
#[verifier::external_body]
fn seconds_since_epoch() -> (r: Option<u64>) {
    std::time::SystemTime::now().duration_since(std::time::UNIX_EPOCH).ok().map(|d| d.as_secs())
}

/// A clock reading in seconds since the Unix epoch, or 0 when the clock read earlier.
pub fn seconds_or_zero(reading: Option<u64>) -> (r: u64)
    ensures
        r == match reading {
            Some(s) => s,
            None => 0,
        },
{
    match reading {
        Some(s) => s,
        None => 0,
    }
}

/// Seconds since the Unix epoch, or 0 when the clock reads earlier.
pub fn unix_timestamp_secs() -> u64 {
    seconds_or_zero(seconds_since_epoch())
}

/// Chat screen state that the handlers and the layout read and change.
pub struct App {
    pub messages: Vec<ChatMessage>,
    /// Unix timestamps (seconds) for each message; parallel to messages. None when loading from history.
    pub message_timestamps: Vec<Option<u64>>,
    /// User input in the text field.
    pub input: String,
    /// Cursor position in the input, in characters.
    pub input_cursor: usize,
    pub scroll: ScrollPosition,
    pub last_max_scroll: usize,
    /// Index of the selected suggestion (Tab to cycle).
    pub selected_suggestion: usize,
    /// Index of the selected slash command in the autocomplete list (when input starts with /).
    pub selected_command_index: usize,
    /// Mode to use when sending; set when user selects a slash command and inserts its template.
    pub pending_command_mode: Option<String>,
    /// Model name displayed in the header.
    pub model_name: String,
    /// Same as model_name; used for API calls.
    pub current_model_id: String,
    /// Content width from last draw; used to compute scroll-to-start when adding new messages.
    pub last_content_width: Option<usize>,
    /// (msg_idx, start_line, end_line) for each User/Assistant; updated each draw.
    pub message_line_ranges: Vec<(usize, usize, usize)>,
    /// Whether to show timestamps next to message labels.
    pub show_timestamps: bool,
    /// Current conversation ID; None = new unsaved conversation.
    pub current_conversation_id: Option<String>,
    /// True if content has changed since last save.
    pub dirty: bool,
    /// Esc was pressed; next key = Option+key (Mac terminals with "Use option as meta").
    pub escape_pending: bool,
    /// True while a chat request is in flight (used by bottom bar to show cancel hint).
    pub is_streaming: bool,
    /// Total tokens of the last usage report from the API.
    pub token_usage: Option<u64>,
    /// Context window size (in tokens) for the current model.
    pub context_length: u64,
    /// Custom templates (mutable for create/update/delete).
    pub custom_templates: Vec<CustomTemplate>,
    /// Error loading or saving the templates (shown as toast/welcome message).
    pub templates_load_error: Option<String>,
    /// Create/update command form popup.
    pub command_form_popup: Option<CommandFormState>,
    /// Delete command popup.
    pub delete_command_popup: Option<DeleteCommandState>,
    /// Text selection in the history: (start line, start column, end line, end column).
    pub selection: Option<(usize, usize, usize, usize)>,
    /// Where a mouse drag that makes a selection began: (line, column).
    pub selection_drag_start: Option<(usize, usize)>,
    /// The history as drawn last, one string per screen line (for copying a selection).
    pub rendered_lines: Vec<String>,
    /// Screen area of the history text from the last draw; for click hit testing.
    pub history_area: Option<Area>,
    /// File picker popup, opened by `@`.
    pub file_picker: Option<FilePickerState>,
    /// Screen area of the credits widget in the header; for click detection and hover.
    pub credits_area: Option<Area>,
    /// Mouse is over the credits area; used for cursor style.
    pub hovering_credits: bool,
    /// Mouse is over a message block; used for cursor style.
    pub hovering_message_block: bool,
    /// Model selector popup (Alt+M).
    pub model_selector: Option<ModelSelectorState>,
    /// History selector popup (Alt+H).
    pub history_selector: Option<HistorySelectorState>,
}

/// A rectangle of terminal cells.
#[derive(Debug, Clone, Copy, PartialEq, Eq, Structural)]
pub struct Area {
    pub x: u16,
    pub y: u16,
    pub width: u16,
    pub height: u16,
}

impl Area {
    /// Whether the cell at column `col`, row `row` lies inside the area.
    pub open spec fn holds(self, col: u16, row: u16) -> bool {
        &&& self.x <= col < self.x + self.width
        &&& self.y <= row < self.y + self.height
    }

    pub fn contains(&self, col: u16, row: u16) -> (r: bool)
        ensures
            r == self.holds(col, row),
    {
        self.x <= col && (col as u32) < self.x as u32 + self.width as u32 && self.y <= row && (row as u32)
            < self.y as u32 + self.height as u32
    }
}

impl App {
    /// The messages' contents.
    pub open spec fn msgs(&self) -> Seq<MsgView> {
        self.messages@.map_values(|m: ChatMessage| m@)
    }

    /// The timestamps, one per message.
    pub open spec fn stamps(&self) -> Seq<Option<u64>> {
        self.message_timestamps@
    }

    /// Messages and timestamps stay parallel.
    pub open spec fn wf(&self) -> bool {
        self.messages@.len() == self.message_timestamps@.len()
    }

    /// Everything but the message log is as in `other`.
    pub open spec fn same_except_log(&self, other: &App) -> bool {
        *self == (App {
            messages: self.messages,
            message_timestamps: self.message_timestamps,
            ..*other
        })
    }

    /// A fresh screen for the given model, with the custom templates that were loaded.
    pub fn new(
        model_id: String,
        model_name: String,
        show_timestamps: bool,
        context_length: u64,
        custom_templates: Vec<CustomTemplate>,
        templates_load_error: Option<String>,
    ) -> (r: App)
        ensures
            r.wf(),
            r.msgs() == Seq::<MsgView>::empty(),
            r.input@ == Seq::<char>::empty(),
            r.input_cursor == 0,
            r.scroll == ScrollPosition::Line(0),
            r.last_max_scroll == 0,
            r.current_model_id == model_id,
            r.model_name == model_name,
            r.show_timestamps == show_timestamps,
            r.context_length == context_length,
            r.custom_templates == custom_templates,
            r.templates_load_error == templates_load_error,
            r.current_conversation_id is None,
            !r.dirty,
            !r.is_streaming,
            !r.escape_pending,
            r.command_form_popup is None,
            r.delete_command_popup is None,
    {
        let r = App {
            messages: Vec::new(),
            message_timestamps: Vec::new(),
            input: String::new(),
            input_cursor: 0,
            scroll: ScrollPosition::Line(0),
            last_max_scroll: 0,
            selected_suggestion: 0,
            selected_command_index: 0,
            pending_command_mode: None,
            model_name,
            current_model_id: model_id,
            last_content_width: None,
            message_line_ranges: Vec::new(),
            show_timestamps,
            current_conversation_id: None,
            dirty: false,
            escape_pending: false,
            is_streaming: false,
            token_usage: None,
            context_length,
            custom_templates,
            templates_load_error,
            command_form_popup: None,
            delete_command_popup: None,
            selection: None,
            selection_drag_start: None,
            rendered_lines: Vec::new(),
            history_area: None,
            file_picker: None,
            credits_area: None,
            hovering_credits: false,
            hovering_message_block: false,
            model_selector: None,
            history_selector: None,
        };
        assert(r.msgs() =~= Seq::<MsgView>::empty());
        r
    }

    pub fn is_dirty(&self) -> (r: bool)
        ensures
            r == self.dirty,
    {
        self.dirty
    }

    pub fn mark_dirty(&mut self)
        ensures
            *final(self) == (App { dirty: true, ..*old(self) }),
    {
        self.dirty = true;
    }

    pub fn clear_dirty(&mut self)
        ensures
            *final(self) == (App { dirty: false, ..*old(self) }),
    {
        self.dirty = false;
    }

    pub fn set_conversation_id(&mut self, id: Option<String>)
        ensures
            *final(self) == (App { current_conversation_id: id, ..*old(self) }),
    {
        self.current_conversation_id = id;
    }

    pub fn conversation_id(&self) -> (r: Option<&str>)
        ensures
            match self.current_conversation_id {
                Some(s) => r matches Some(t) && t@ == s@,
                None => r is None,
            },
    {
        match &self.current_conversation_id {
            Some(s) => Some(s.as_str()),
            None => None,
        }
    }

    /// Reset to a new empty conversation.
    pub fn new_conversation(&mut self)
        ensures
            final(self).wf(),
            final(self).msgs() == Seq::<MsgView>::empty(),
            *final(self) == (App {
                messages: final(self).messages,
                message_timestamps: final(self).message_timestamps,
                current_conversation_id: None,
                dirty: false,
                scroll: ScrollPosition::Line(0),
                last_max_scroll: 0,
                token_usage: None,
                ..*old(self)
            }),
    {
        self.messages.clear();
        self.message_timestamps.clear();
        self.current_conversation_id = None;
        self.dirty = false;
        self.scroll = ScrollPosition::Line(0);
        self.last_max_scroll = 0;
        self.token_usage = None;
        assert(self.msgs() =~= Seq::<MsgView>::empty());
    }

    /// Must be called before scroll_up/scroll_down when at bottom.
    pub fn materialize_scroll(&mut self)
        ensures
            final(self).scroll == materialized(old(self).scroll, old(self).last_max_scroll),
            *final(self) == (App { scroll: final(self).scroll, ..*old(self) }),
    {
        if self.scroll == ScrollPosition::Bottom {
            self.scroll = ScrollPosition::Line(self.last_max_scroll);
        }
    }

    /// The concrete top line of the scroll position.
    pub open spec fn scroll_top(&self) -> int {
        top_line(self.scroll, self.last_max_scroll)
    }

    pub fn scroll_down(&mut self, n: usize)
        requires
            old(self).scroll_top() + n <= usize::MAX,
        ensures
            final(self).scroll == ScrollPosition::Line(
                scrolled_down(old(self).scroll_top(), n as int, old(self).last_max_scroll as int) as usize,
            ),
            *final(self) == (App { scroll: final(self).scroll, ..*old(self) }),
    {
        self.materialize_scroll();
        if let ScrollPosition::Line(pos) = self.scroll {
            let target = pos + n;
            self.scroll = ScrollPosition::Line(
                if target < self.last_max_scroll {
                    target
                } else {
                    self.last_max_scroll
                },
            );
        }
    }

    pub fn scroll_up(&mut self, n: usize)
        ensures
            final(self).scroll == ScrollPosition::Line(scrolled_up(old(self).scroll_top(), n as int) as usize),
            *final(self) == (App { scroll: final(self).scroll, ..*old(self) }),
    {
        self.materialize_scroll();
        if let ScrollPosition::Line(pos) = self.scroll {
            self.scroll = ScrollPosition::Line(pos.saturating_sub(n));
        }
    }

    /// Resolve scroll position to a concrete line index.
    pub fn scroll_line(&self) -> (r: usize)
        ensures
            r == visible_top(self.scroll, self.last_max_scroll),
    {
        match self.scroll {
            ScrollPosition::Line(n) => if n < self.last_max_scroll {
                n
            } else {
                self.last_max_scroll
            },
            ScrollPosition::Bottom => self.last_max_scroll,
        }
    }
}

} // verus!
