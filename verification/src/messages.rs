//! Message handling for the chat history: loading, persisting, streaming updates.

use vstd::prelude::*;

use crate::app_state::{
    blocks_text, cancelled_suffix, cancelled_text, content_text, drop_thinking, last_assistant,
    loaded_log, no_thinking, opt_view, persisted, unix_timestamp_secs, unsupported_text, ApiContent,
    ApiMessage, App, ChatMessage, ContentView, MsgView, PersistRole, PersistedMessage,
};
use crate::chars::same_text;
use vstd::string::StrSliceExecFns;

verus! {

broadcast use vstd::string::group_string_axioms;

impl ChatMessage {
    /// A copy of this message.
    pub fn duplicate(&self) -> (r: ChatMessage)
        ensures
            r@ == self@,
    {
        match self {
            ChatMessage::User(s) => ChatMessage::User(s.clone()),
            ChatMessage::Assistant(s) => ChatMessage::Assistant(s.clone()),
            ChatMessage::Thinking => ChatMessage::Thinking,
            ChatMessage::ToolLog(s) => ChatMessage::ToolLog(s.clone()),
        }
    }
}

/// `after` is `before` with one more timestamp, read from the clock.
pub open spec fn stamped(before: Seq<Option<u64>>, after: Seq<Option<u64>>) -> bool {
    &&& after.len() == before.len() + 1
    &&& after.drop_last() == before
    &&& after.last() is Some
}

/// The log with a streamed chunk added: appended to the last message when that is an
/// assistant message, else as a new assistant message.
pub open spec fn with_chunk(ms: Seq<MsgView>, chunk: Seq<char>) -> Seq<MsgView> {
    match last_assistant(ms) {
        Some(s) => ms.update(ms.len() - 1, MsgView::Assistant(s + chunk)),
        None => ms.push(MsgView::Assistant(chunk)),
    }
}

/// The last message is an empty assistant message.
pub open spec fn ends_with_empty_assistant(ms: Seq<MsgView>) -> bool {
    last_assistant(ms) == Some(Seq::<char>::empty())
}

/// Index of the last user message.
pub open spec fn last_user(ms: Seq<MsgView>) -> Option<int>
    decreases ms.len(),
{
    if ms.len() == 0 {
        None
    } else if ms.last() is User {
        Some(ms.len() - 1)
    } else {
        last_user(ms.drop_last())
    }
}

/// The log after a cancelled request: an empty answer placeholder at the end goes, and
/// the notice is added to the last answer when it has text, else as a new answer.
pub open spec fn cancelled_log(log: Seq<MsgView>) -> Seq<MsgView> {
    let ms = if ends_with_empty_assistant(log) {
        log.drop_last()
    } else {
        log
    };
    match last_assistant(ms) {
        Some(s) => if s.len() > 0 {
            ms.update(ms.len() - 1, MsgView::Assistant(s + cancelled_suffix()))
        } else {
            ms.push(MsgView::Assistant(cancelled_text()))
        },
        None => ms.push(MsgView::Assistant(cancelled_text())),
    }
}

/// Text of persisted content, for an assistant or user message.
fn extract_content(c: &ApiContent) -> (r: Option<String>)
    ensures
        opt_view(r) == content_text(c@),
{
    match c {
        ApiContent::Text(s) => Some(s.clone()),
        ApiContent::Blocks(b) => {
            let ghost bv = b@.map_values(|o: Option<String>| opt_view(o));
            let mut i: usize = 0;
            assert(bv.skip(0) == bv);
            while i < b.len()
                invariant
                    i <= b@.len(),
                    bv == b@.map_values(|o: Option<String>| opt_view(o)),
                    content_text(c@) == blocks_text(bv),
                    blocks_text(bv) == blocks_text(bv.skip(i as int)),
                decreases b@.len() - i,
            {
                assert(bv.skip(i as int).drop_first() == bv.skip(i + 1));
                assert(bv.skip(i as int)[0] == opt_view(b@[i as int]));
                match &b[i] {
                    Some(t) => {
                        return Some(t.clone());
                    },
                    None => {},
                }
                i = i + 1;
            }
            None
        },
        _ => None,
    }
}

impl App {
    /// Populate messages from persisted format (user, assistant, tool_log).
    /// Malformed messages (e.g. unsupported content types) are surfaced as
    /// "[Unsupported message format]" instead of silently omitted.
    /// If `fallback_timestamp` is set, it is used for messages that lack a timestamp (old format).
    pub fn set_messages_from_api(&mut self, api_messages: &[ApiMessage], fallback_timestamp: Option<u64>)
        ensures
            final(self).wf(),
            (final(self).msgs(), final(self).stamps()) == loaded_log(
                api_messages@.map_values(|m: ApiMessage| m@),
                fallback_timestamp,
            ),
            final(self).same_except_log(old(self)),
    {
        let ghost api = api_messages@.map_values(|m: ApiMessage| m@);
        self.messages.clear();
        self.message_timestamps.clear();
        let mut i: usize = 0;
        assert(api.take(0) =~= Seq::<(Seq<char>, ContentView, Option<u64>)>::empty());
        assert(self.msgs() =~= Seq::<MsgView>::empty());
        while i < api_messages.len()
            invariant
                i <= api_messages@.len(),
                api == api_messages@.map_values(|m: ApiMessage| m@),
                self.wf(),
                (self.msgs(), self.stamps()) == loaded_log(api.take(i as int), fallback_timestamp),
                self.same_except_log(old(self)),
            decreases api_messages@.len() - i,
        {
            let msg = &api_messages[i];
            let ghost prev_m = self.msgs();
            assert(api.take(i + 1).drop_last() =~= api.take(i as int));
            assert(api.take(i + 1).last() == msg@);
            let is_user = same_text(msg.role.as_str(), "user");
            let is_assistant = same_text(msg.role.as_str(), "assistant");
            if is_user || is_assistant {
                let content = match extract_content(&msg.content) {
                    Some(c) => c,
                    None => "[Unsupported message format]".to_string(),
                };
                let timestamp = match msg.timestamp {
                    Some(t) => Some(t),
                    None => fallback_timestamp,
                };
                if is_user {
                    self.messages.push(ChatMessage::User(content));
                } else {
                    self.messages.push(ChatMessage::Assistant(content));
                }
                self.message_timestamps.push(timestamp);
                assert(self.msgs() =~= prev_m.push(self.messages@.last()@));
            } else if same_text(msg.role.as_str(), "tool_log") {
                let content = match &msg.content {
                    ApiContent::Text(s) => s.clone(),
                    _ => String::new(),
                };
                self.messages.push(ChatMessage::ToolLog(content));
                self.message_timestamps.push(None);
                assert(self.msgs() =~= prev_m.push(self.messages@.last()@));
            }
            i = i + 1;
        }
        assert(api.take(api_messages@.len() as int) =~= api);
    }

    /// Serialize app messages to persistence format (user, assistant, tool_log).
    /// Used when saving; preserves ToolLog and timestamps for display when re-opening.
    pub fn messages_to_persist_format(msgs: &[ChatMessage], timestamps: &[Option<u64>]) -> (r: Vec<
        PersistedMessage,
    >)
        ensures
            r@.map_values(|p: PersistedMessage| p@) == persisted(
                msgs@.map_values(|m: ChatMessage| m@),
                timestamps@,
                msgs@.len() as int,
            ),
    {
        let ghost ms = msgs@.map_values(|m: ChatMessage| m@);
        let mut out: Vec<PersistedMessage> = Vec::new();
        let mut i: usize = 0;
        assert(out@.map_values(|p: PersistedMessage| p@) =~= persisted(ms, timestamps@, 0));
        while i < msgs.len()
            invariant
                i <= msgs@.len(),
                ms == msgs@.map_values(|m: ChatMessage| m@),
                out@.map_values(|p: PersistedMessage| p@) == persisted(ms, timestamps@, i as int),
            decreases msgs@.len() - i,
        {
            let ghost prev = out@;
            let ts = if i < timestamps.len() {
                timestamps[i]
            } else {
                None
            };
            match &msgs[i] {
                ChatMessage::User(s) => {
                    out.push(PersistedMessage { role: PersistRole::User, content: s.clone(), timestamp: ts });
                },
                ChatMessage::Assistant(s) => {
                    out.push(
                        PersistedMessage {
                            role: PersistRole::Assistant,
                            content: s.clone(),
                            timestamp: ts,
                        },
                    );
                },
                ChatMessage::ToolLog(s) => {
                    out.push(
                        PersistedMessage { role: PersistRole::ToolLog, content: s.clone(), timestamp: None },
                    );
                },
                ChatMessage::Thinking => {},
            }
            assert(out@.map_values(|p: PersistedMessage| p@) =~= persisted(ms, timestamps@, i + 1));
            i = i + 1;
        }
        out
    }

    pub fn push_user(&mut self, text: &str)
        requires
            old(self).wf(),
        ensures
            final(self).wf(),
            final(self).msgs() == old(self).msgs().push(MsgView::User(text@)),
            stamped(old(self).stamps(), final(self).stamps()),
            final(self).same_except_log(old(self)),
    {
        self.messages.push(ChatMessage::User(text.to_string()));
        self.message_timestamps.push(Some(unix_timestamp_secs()));
        assert(self.msgs() =~= old(self).msgs().push(MsgView::User(text@)));
        assert(self.stamps().drop_last() =~= old(self).stamps());
    }

    pub fn push_assistant(&mut self, text: String)
        requires
            old(self).wf(),
        ensures
            final(self).wf(),
            final(self).msgs() == old(self).msgs().push(MsgView::Assistant(text@)),
            stamped(old(self).stamps(), final(self).stamps()),
            final(self).same_except_log(old(self)),
    {
        self.messages.push(ChatMessage::Assistant(text));
        self.message_timestamps.push(Some(unix_timestamp_secs()));
        assert(self.msgs() =~= old(self).msgs().push(MsgView::Assistant(text@)));
        assert(self.stamps().drop_last() =~= old(self).stamps());
    }

    /// Append a streamed content chunk to the last Assistant message, or create one if none.
    pub fn append_assistant_chunk(&mut self, chunk: &str)
        requires
            old(self).wf(),
        ensures
            final(self).wf(),
            final(self).msgs() == with_chunk(old(self).msgs(), chunk@),
            last_assistant(old(self).msgs()) is Some ==> final(self).stamps() == old(self).stamps(),
            last_assistant(old(self).msgs()) is None ==> stamped(old(self).stamps(), final(self).stamps()),
            final(self).same_except_log(old(self)),
    {
        let n = self.messages.len();
        if n > 0 && matches!(self.messages[n - 1], ChatMessage::Assistant(_)) {
            let last = self.messages.pop();
            match last {
                Some(ChatMessage::Assistant(mut s)) => {
                    s.append(chunk);
                    self.messages.push(ChatMessage::Assistant(s));
                },
                _ => {},
            }
            assert(self.msgs() =~= with_chunk(old(self).msgs(), chunk@));
        } else {
            self.messages.push(ChatMessage::Assistant(chunk.to_string()));
            self.message_timestamps.push(Some(unix_timestamp_secs()));
            assert(self.msgs() =~= with_chunk(old(self).msgs(), chunk@));
            assert(self.stamps().drop_last() =~= old(self).stamps());
        }
    }

    /// Remove the last message if it is an empty Assistant (e.g. before adding tool logs).
    pub fn remove_last_if_empty_assistant(&mut self)
        requires
            old(self).wf(),
        ensures
            final(self).wf(),
            ends_with_empty_assistant(old(self).msgs()) ==> final(self).msgs() == old(
                self,
            ).msgs().drop_last() && final(self).stamps() == old(self).stamps().drop_last(),
            !ends_with_empty_assistant(old(self).msgs()) ==> final(self).msgs() == old(self).msgs()
                && final(self).stamps() == old(self).stamps(),
            final(self).same_except_log(old(self)),
    {
        let n = self.messages.len();
        let empty_last = n > 0 && match &self.messages[n - 1] {
            ChatMessage::Assistant(s) => {
                let e = s.as_str().unicode_len() == 0;
                assert(e ==> s@ =~= Seq::<char>::empty());
                e
            },
            _ => false,
        };
        if empty_last {
            self.messages.pop();
            self.message_timestamps.pop();
            assert(self.msgs() =~= old(self).msgs().drop_last());
        }
    }

    /// Replace the last Assistant message with the given content, or push if none.
    pub fn replace_or_push_assistant(&mut self, content: String)
        requires
            old(self).wf(),
        ensures
            final(self).wf(),
            last_assistant(old(self).msgs()) is Some ==> final(self).msgs() == old(self).msgs().update(
                old(self).msgs().len() - 1,
                MsgView::Assistant(content@),
            ) && final(self).stamps() == old(self).stamps(),
            last_assistant(old(self).msgs()) is None ==> final(self).msgs() == old(self).msgs().push(
                MsgView::Assistant(content@),
            ) && stamped(old(self).stamps(), final(self).stamps()),
            final(self).same_except_log(old(self)),
    {
        let n = self.messages.len();
        if n > 0 && matches!(self.messages[n - 1], ChatMessage::Assistant(_)) {
            self.messages.pop();
            self.messages.push(ChatMessage::Assistant(content));
            assert(self.msgs() =~= old(self).msgs().update(
                old(self).msgs().len() - 1,
                MsgView::Assistant(content@),
            ));
        } else {
            self.messages.push(ChatMessage::Assistant(content));
            self.message_timestamps.push(Some(unix_timestamp_secs()));
            assert(self.msgs() =~= old(self).msgs().push(MsgView::Assistant(content@)));
            assert(self.stamps().drop_last() =~= old(self).stamps());
        }
    }

    pub fn push_tool_log(&mut self, line: String)
        requires
            old(self).wf(),
        ensures
            final(self).wf(),
            final(self).msgs() == old(self).msgs().push(MsgView::ToolLog(line@)),
            final(self).stamps() == old(self).stamps().push(None),
            final(self).same_except_log(old(self)),
    {
        self.messages.push(ChatMessage::ToolLog(line));
        self.message_timestamps.push(None);
        assert(self.msgs() =~= old(self).msgs().push(MsgView::ToolLog(line@)));
    }

    /// Show the "thinking" marker, or remove every one of them (a marker may not be last
    /// when tool logs were streamed while thinking).
    pub fn set_thinking(&mut self, thinking: bool)
        requires
            old(self).wf(),
        ensures
            final(self).wf(),
            thinking ==> final(self).msgs() == old(self).msgs().push(MsgView::Thinking)
                && final(self).stamps() == old(self).stamps().push(None),
            !thinking ==> (final(self).msgs(), final(self).stamps()) == drop_thinking(
                old(self).msgs(),
                old(self).stamps(),
            ),
            final(self).same_except_log(old(self)),
    {
        if thinking {
            self.messages.push(ChatMessage::Thinking);
            self.message_timestamps.push(None);
            assert(self.msgs() =~= old(self).msgs().push(MsgView::Thinking));
        } else {
            let ghost ms = self.msgs();
            let ghost ts = self.stamps();
            let mut messages: Vec<ChatMessage> = Vec::new();
            let mut timestamps: Vec<Option<u64>> = Vec::new();
            let mut i: usize = 0;
            assert(ms.take(0) =~= Seq::<MsgView>::empty());
            assert(ts.take(0) =~= Seq::<Option<u64>>::empty());
            assert(messages@.map_values(|m: ChatMessage| m@) =~= Seq::<MsgView>::empty());
            while i < self.messages.len()
                invariant
                    i <= self.messages@.len(),
                    self.wf(),
                    ms == self.msgs(),
                    ts == self.stamps(),
                    self == old(self),
                    (messages@.map_values(|m: ChatMessage| m@), timestamps@) == drop_thinking(
                        ms.take(i as int),
                        ts.take(i as int),
                    ),
                decreases self.messages@.len() - i,
            {
                let ghost prev_m = messages@.map_values(|m: ChatMessage| m@);
                let ghost prev_t = timestamps@;
                assert(ms.take(i + 1).drop_last() =~= ms.take(i as int));
                assert(ts.take(i + 1).drop_last() =~= ts.take(i as int));
                assert(ms.take(i + 1).last() == ms[i as int]);
                assert(ts.take(i + 1).last() == ts[i as int]);
                if !matches!(self.messages[i], ChatMessage::Thinking) {
                    messages.push(self.messages[i].duplicate());
                    timestamps.push(self.message_timestamps[i]);
                    assert(messages@.map_values(|m: ChatMessage| m@) =~= prev_m.push(ms[i as int]));
                }
                i = i + 1;
            }
            assert(ms.take(ms.len() as int) =~= ms);
            assert(ts.take(ts.len() as int) =~= ts);
            self.messages = messages;
            self.message_timestamps = timestamps;
            proof {
                lemma_drop_thinking_parallel(ms, ts);
            }
        }
    }

    /// Remove verbose progress (tool logs) shown during thinking: keep history up to the
    /// last user message.
    pub fn clear_progress_after_last_user(&mut self)
        requires
            old(self).wf(),
        ensures
            final(self).wf(),
            match last_user(old(self).msgs()) {
                Some(k) => final(self).msgs() == old(self).msgs().take(k + 1) && final(self).stamps()
                    == old(self).stamps().take(k + 1),
                None => final(self).msgs() == old(self).msgs() && final(self).stamps() == old(
                    self,
                ).stamps(),
            },
            final(self).same_except_log(old(self)),
    {
        let ghost ms = self.msgs();
        let mut i: usize = self.messages.len();
        assert(ms.take(i as int) =~= ms);
        while i > 0
            invariant
                i <= self.messages@.len(),
                ms == self.msgs(),
                self == old(self),
                self.wf(),
                last_user(ms) == last_user(ms.take(i as int)),
            decreases i,
        {
            assert(ms.take(i as int).drop_last() =~= ms.take(i - 1));
            assert(ms.take(i as int).last() == ms[i - 1]);
            if matches!(self.messages[i - 1], ChatMessage::User(_)) {
                self.messages.truncate(i);
                self.message_timestamps.truncate(i);
                assert(self.msgs() =~= ms.take(i as int));
                return;
            }
            i = i - 1;
        }
        assert(ms.take(0) =~= Seq::<MsgView>::empty());
    }

    /// Append "[cancelled]" to the last assistant message (or create one).
    /// Keeps whatever partial content was already streamed.
    pub fn append_cancelled_notice(&mut self)
        requires
            old(self).wf(),
        ensures
            final(self).wf(),
            ({
                let ms = if ends_with_empty_assistant(old(self).msgs()) {
                    old(self).msgs().drop_last()
                } else {
                    old(self).msgs()
                };
                let ts = if ends_with_empty_assistant(old(self).msgs()) {
                    old(self).stamps().drop_last()
                } else {
                    old(self).stamps()
                };
                match last_assistant(ms) {
                    Some(s) => if s.len() > 0 {
                        final(self).msgs() == ms.update(
                            ms.len() - 1,
                            MsgView::Assistant(s + cancelled_suffix()),
                        ) && final(self).stamps() == ts
                    } else {
                        final(self).msgs() == ms.push(MsgView::Assistant(cancelled_text()))
                            && stamped(ts, final(self).stamps())
                    },
                    None => final(self).msgs() == ms.push(MsgView::Assistant(cancelled_text()))
                        && stamped(ts, final(self).stamps()),
                }
            }),
            final(self).msgs() == cancelled_log(old(self).msgs()),
            final(self).same_except_log(old(self)),
    {
        self.remove_last_if_empty_assistant();
        let ghost ms = self.msgs();
        let ghost ts = self.stamps();
        let n = self.messages.len();
        let nonempty_last = n > 0 && match &self.messages[n - 1] {
            ChatMessage::Assistant(s) => s.as_str().unicode_len() > 0,
            _ => false,
        };
        if nonempty_last {
            let last = self.messages.pop();
            match last {
                Some(ChatMessage::Assistant(mut s)) => {
                    s.append("\n\n*[Request cancelled]*");
                    self.messages.push(ChatMessage::Assistant(s));
                },
                _ => {},
            }
            assert(self.msgs() =~= ms.update(
                ms.len() - 1,
                MsgView::Assistant(last_assistant(ms)->0 + cancelled_suffix()),
            ));
        } else {
            self.messages.push(ChatMessage::Assistant("*[Request cancelled]*".to_string()));
            self.message_timestamps.push(Some(unix_timestamp_secs()));
            assert(self.msgs() =~= ms.push(MsgView::Assistant(cancelled_text())));
            assert(self.stamps().drop_last() =~= ts);
        }
    }
}

/// `drop_thinking` keeps messages and timestamps parallel.
pub proof fn lemma_drop_thinking_parallel(ms: Seq<MsgView>, ts: Seq<Option<u64>>)
    requires
        ms.len() == ts.len(),
    ensures
        drop_thinking(ms, ts).0.len() == drop_thinking(ms, ts).1.len(),
    decreases ms.len(),
{
    if ms.len() > 0 {
        lemma_drop_thinking_parallel(ms.drop_last(), ts.drop_last());
    }
}

} // verus!
