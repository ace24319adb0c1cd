//! Chat routes: request bodies, their validation, and the bookkeeping that
//! accumulates a streamed reply so it can be persisted when the turn ends.
use vstd::prelude::*;

use crate::agent::db::{title_from, title_spec};
use crate::agent::types::{ChatMessage, Role};
use crate::llm::StreamEvent;
use crate::server::error::{bad_request, ApiError};
use crate::text::{chars_of, is_blank, is_blank_chars, string_of, trim, trim_spec};

verus! {

/// One message a client supplies in a stateless chat request. Only role and
/// content matter to the agent; the rest of a stored message is bookkeeping.
pub struct ChatTurn {
    pub role: Role,
    /// The message text.
    pub content: String,
}

/// Body for the stateless `POST /chat`.
pub struct ChatRequest {
    /// The conversation so far, oldest message first.
    pub messages: Vec<ChatTurn>,
}

/// Body for the persisted `POST /sessions/{id}/chat`.
pub struct SessionChatRequest {
    /// The new user message to send.
    pub content: String,
}

impl ChatRequest {
    /// The client's history as messages: each turn's role and content, with
    /// id 0, no session, no timestamp and no tools.
    pub fn into_history(self) -> (h: Vec<ChatMessage>)
        ensures
            h@.len() == self.messages@.len(),
            forall|i: int|
                0 <= i < h@.len() ==> {
                    let m = #[trigger] h@[i];
                    &&& m.id == 0
                    &&& m.session_id@.len() == 0
                    &&& m.role == self.messages@[i].role
                    &&& m.content == self.messages@[i].content
                    &&& m.created_at@.len() == 0
                    &&& m.tools_used@.len() == 0
                },
    {
        let mut h: Vec<ChatMessage> = Vec::new();
        let mut turns = self.messages;
        let ghost all = turns@;
        let mut rev: Vec<ChatMessage> = Vec::new();
        // Move the turns out from the back, then restore their order.
        while turns.len() > 0
            invariant
                turns@ == all.take(turns@.len() as int),
                rev@.len() + turns@.len() == all.len(),
                forall|i: int|
                    0 <= i < rev@.len() ==> {
                        let m = #[trigger] rev@[i];
                        let t = all[all.len() - 1 - i];
                        &&& m.id == 0
                        &&& m.session_id@.len() == 0
                        &&& m.role == t.role
                        &&& m.content == t.content
                        &&& m.created_at@.len() == 0
                        &&& m.tools_used@.len() == 0
                    },
            decreases turns.len(),
        {
            let ghost before = turns@;
            let t = turns.pop().unwrap();
            assert(t == before.last());
            assert(turns@ =~= all.take(turns@.len() as int));
            rev.push(
                ChatMessage {
                    id: 0,
                    session_id: String::new(),
                    role: t.role,
                    content: t.content,
                    created_at: String::new(),
                    tools_used: Vec::new(),
                },
            );
        }
        while rev.len() > 0
            invariant
                h@.len() + rev@.len() == all.len(),
                forall|i: int|
                    0 <= i < rev@.len() ==> {
                        let m = #[trigger] rev@[i];
                        let t = all[all.len() - 1 - i];
                        &&& m.id == 0
                        &&& m.session_id@.len() == 0
                        &&& m.role == t.role
                        &&& m.content == t.content
                        &&& m.created_at@.len() == 0
                        &&& m.tools_used@.len() == 0
                    },
                forall|i: int|
                    0 <= i < h@.len() ==> {
                        let m = #[trigger] h@[i];
                        &&& m.id == 0
                        &&& m.session_id@.len() == 0
                        &&& m.role == all[i].role
                        &&& m.content == all[i].content
                        &&& m.created_at@.len() == 0
                        &&& m.tools_used@.len() == 0
                    },
            decreases rev.len(),
        {
            let ghost r0 = rev@;
            let m = rev.pop().unwrap();
            assert(m == r0.last());
            assert forall|i: int| 0 <= i < rev@.len() implies rev@[i] == r0[i] by {}
            h.push(m);
        }
        h
    }
}

impl SessionChatRequest {
    /// The message to send, trimmed; a blank one is a 400.
    pub fn validated_content(&self) -> (r: Result<String, ApiError>)
        ensures
            match r {
                Ok(t) => !is_blank(self.content@) && t@ == trim_spec(self.content@),
                Err(e) => is_blank(self.content@) && e.status == 400 && e.body.error@
                    == "message content must not be empty"@,
            },
    {
        let c = chars_of(self.content.as_str());
        if is_blank_chars(&c) {
            return Err(bad_request(String::from_str("message content must not be empty")));
        }
        Ok(string_of(&trim(&c)))
    }
}

/// The reply accumulated while relaying a stream to a client.
pub struct Relay {
    pub partial: String,
    pub tools: Vec<String>,
}

impl Relay {
    /// Nothing received yet.
    pub fn new() -> (r: Relay)
        ensures
            r.partial@.len() == 0,
            r.tools@.len() == 0,
    {
        Relay { partial: String::new(), tools: Vec::new() }
    }

    /// Take in one event before it is forwarded. Tokens extend the reply and
    /// tool calls are listed; at `Done` or `Error` the reply so far is handed
    /// back for persisting, unless it is blank.
    pub fn on_event(&mut self, event: &StreamEvent) -> (persist: Option<(String, Vec<String>)>)
        ensures
            match event {
                StreamEvent::Token(t) => final(self).partial@ == old(self).partial@ + t@ && final(self).tools == old(self).tools && persist is None,
                StreamEvent::ToolCall(l) => final(self).partial == old(self).partial && final(self).tools@ == old(self).tools@.push(*l) && persist is None,
                _ => final(self).partial == old(self).partial && final(self).tools == old(self).tools && match persist {
                    Some((c, ts)) => !is_blank(old(self).partial@) && c@ == old(self).partial@ && ts@ == old(self).tools@,
                    None => is_blank(old(self).partial@),
                },
            },
    {
        match event {
            StreamEvent::Token(text) => {
                self.partial.append(text.as_str());
                None
            },
            StreamEvent::ToolCall(label) => {
                self.tools.push(label.clone());
                None
            },
            _ => {
                let c = chars_of(self.partial.as_str());
                if is_blank_chars(&c) {
                    None
                } else {
                    Some((self.partial.clone(), self.tools.clone()))
                }
            },
        }
    }
}

/// The title a session takes when `content` is sent to it: a session with no
/// messages yet is named after its opening message; otherwise it keeps its
/// title.
pub fn opening_title(existing: &[ChatMessage], content: &str) -> (t: Option<String>)
    ensures
        match t {
            Some(title) => existing@.len() == 0 && title@ == title_spec(content@),
            None => existing@.len() > 0,
        },
{
    if existing.len() == 0 {
        Some(title_from(content))
    } else {
        None
    }
}

/// The name a stream event is sent under as a Server-Sent Event.
pub open spec fn sse_name(event: StreamEvent) -> Seq<char> {
    match event {
        StreamEvent::Token(_) => "token"@,
        StreamEvent::ToolCall(_) => "tool"@,
        StreamEvent::Done => "done"@,
        StreamEvent::Error(_) => "error"@,
    }
}

/// A stream event as a named Server-Sent Event: its name and data. Tokens,
/// tool labels and error messages travel as the data; `done` carries none.
pub fn sse_event(event: &StreamEvent) -> (e: (&'static str, String))
    ensures
        e.0@ == sse_name(*event),
        e.1@ == match event {
            StreamEvent::Token(t) => t@,
            StreamEvent::ToolCall(l) => l@,
            StreamEvent::Done => Seq::<char>::empty(),
            StreamEvent::Error(m) => m@,
        },
{
    match event {
        StreamEvent::Token(text) => ("token", text.clone()),
        StreamEvent::ToolCall(label) => ("tool", label.clone()),
        StreamEvent::Done => ("done", String::new()),
        StreamEvent::Error(message) => ("error", message.clone()),
    }
}

} // verus!
