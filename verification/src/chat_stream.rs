//! A chat subscription's stream: each event from the model's stream becomes
//! a message delta for the subscriber, is skipped, or ends the stream.

use vstd::prelude::*;

use crate::strings::{concat2, owned};

verus! {

/// What a delta carries.
#[derive(Debug, Clone, PartialEq, Eq)]
pub enum ChatDeltaContent {
    Text(String),
    ToolCall { tool_call_id: String, name: String, args_json_fragment: String, done: bool },
}

/// One delta sent to the subscriber; the caller stamps it with the event's time.
#[derive(Debug, Clone, PartialEq, Eq)]
pub struct ChatDelta {
    pub session_id: String,
    pub message_id: String,
    pub sequence: u64,
    pub content: ChatDeltaContent,
}

/// An event of the model's stream. A tool call's arguments arrive as JSON
/// text, when there are any.
#[derive(Debug, Clone, PartialEq, Eq)]
pub enum ChatStreamEvent {
    Text(String),
    ToolCall { id: String, name: String, arguments: Option<String> },
    /// The model reported an error for one delta.
    Error,
    /// The model ended the stream.
    End,
    /// Reading the stream failed.
    Failed,
}

/// What to do with an event.
#[derive(Debug, Clone, PartialEq, Eq)]
pub enum ChatStep {
    /// Send this delta, then read the next event.
    Emit(ChatDelta),
    /// Send nothing and read the next event.
    Skip,
    /// Stop streaming.
    Stop,
}

/// A delta of message `message_id` in the request's session, first in sequence.
pub open spec fn addressed(d: ChatDelta, session_id: Option<&str>, message_id: &str) -> bool {
    d.session_id@ == session_text(session_id) && d.message_id@ == message_id@ && d.sequence == 0
}

/// The session id of a request: the one given, or empty.
pub open spec fn session_text(session_id: Option<&str>) -> Seq<char> {
    match session_id {
        Some(s) => s@,
        None => Seq::empty(),
    }
}

/// The session id of a request: the one given, or empty.
fn session_string(session_id: Option<&str>) -> (r: String)
    ensures
        r@ == session_text(session_id),
{
    match session_id {
        Some(s) => owned(s),
        None => String::new(),
    }
}

/// A text delta of a message.
fn text_delta(session_id: Option<&str>, message_id: &str, text: String) -> (d: ChatDelta)
    ensures
        d.session_id@ == session_text(session_id),
        d.message_id@ == message_id@,
        d.sequence == 0,
        d.content matches ChatDeltaContent::Text(t) && t@ == text@,
{
    ChatDelta {
        session_id: session_string(session_id),
        message_id: owned(message_id),
        sequence: 0,
        content: ChatDeltaContent::Text(text),
    }
}

/// The step for one stream event: text and tool calls become deltas of the
/// message (a tool call without arguments carries `{}`, and is not yet
/// done); a per-delta error is skipped; the end of the stream, or a failure
/// to read it, stops.
pub fn chat_step(session_id: Option<&str>, message_id: &str, event: &ChatStreamEvent) -> (r: ChatStep)
    ensures
        match *event {
            ChatStreamEvent::Text(t) => {
                &&& r is Emit
                &&& addressed(r->0, session_id, message_id)
                &&& r->0.content is Text
                &&& r->0.content->0@ == t@
            },
            ChatStreamEvent::ToolCall { id, name, arguments } => {
                &&& r is Emit
                &&& addressed(r->0, session_id, message_id)
                &&& r->0.content is ToolCall
                &&& r->0.content->tool_call_id@ == id@
                &&& r->0.content->name@ == name@
                &&& !r->0.content->done
                &&& r->0.content->args_json_fragment@ == match arguments {
                    Some(a) => a@,
                    None => "{}"@,
                }
            },
            ChatStreamEvent::Error => r == ChatStep::Skip,
            ChatStreamEvent::End => r == ChatStep::Stop,
            ChatStreamEvent::Failed => r == ChatStep::Stop,
        },
{
    match event {
        ChatStreamEvent::Text(t) => ChatStep::Emit(text_delta(session_id, message_id, t.clone())),
        ChatStreamEvent::ToolCall { id, name, arguments } => {
            let args = match arguments {
                Some(a) => a.clone(),
                None => owned("{}"),
            };
            ChatStep::Emit(
                ChatDelta {
                    session_id: session_string(session_id),
                    message_id: owned(message_id),
                    sequence: 0,
                    content: ChatDeltaContent::ToolCall {
                        tool_call_id: id.clone(),
                        name: name.clone(),
                        args_json_fragment: args,
                        done: false,
                    },
                },
            )
        },
        ChatStreamEvent::Error => ChatStep::Skip,
        ChatStreamEvent::End => ChatStep::Stop,
        ChatStreamEvent::Failed => ChatStep::Stop,
    }
}

/// The delta sent when the model's stream cannot be started.
pub fn stream_failed_delta(session_id: Option<&str>, message_id: &str, error: &str) -> (d: ChatDelta)
    ensures
        d.session_id@ == session_text(session_id),
        d.message_id@ == message_id@,
        d.sequence == 0,
        d.content matches ChatDeltaContent::Text(t) && t@ == "Error: Failed to start LLM stream - "@ + error@,
{
    text_delta(session_id, message_id, concat2("Error: Failed to start LLM stream - ", error))
}

/// The delta sent when the agent has no model configured.
pub fn no_model_delta(session_id: Option<&str>, message_id: &str, agent: &str, model: &str) -> (d: ChatDelta)
    ensures
        d.session_id@ == session_text(session_id),
        d.message_id@ == message_id@,
        d.sequence == 0,
        d.content matches ChatDeltaContent::Text(t) && t@ == "Error: No LLM configured for agent '"@ + agent@
            + "'. Model: '"@ + model@ + "'"@,
{
    let t = concat2("Error: No LLM configured for agent '", agent);
    let t = t.concat("'. Model: '");
    let t = t.concat(model);
    let t = t.concat("'");
    text_delta(session_id, message_id, t)
}

} // verus!
