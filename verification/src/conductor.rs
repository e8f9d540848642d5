//! What the conductor composes around one model turn: the user message (with
//! learned few-shot examples in front), the conversation handed to the
//! router, one entry per executed tool call, and the final reply.

use vstd::prelude::*;

use crate::oauth2::{join_strings, joined};
use crate::string_set::string_views;
use crate::strings::{concat2, concat3};

verus! {

/// The user message: the few-shot examples, a blank line and the task, or
/// the task alone when there are no examples.
pub open spec fn augmented_content_spec(few_shot_examples: Seq<char>, task_content: Seq<char>) -> Seq<char> {
    if few_shot_examples.len() == 0 {
        task_content
    } else {
        few_shot_examples + "\n\n"@ + task_content
    }
}

pub fn augmented_content(few_shot_examples: &str, task_content: &str) -> (r: String)
    ensures
        r@ == augmented_content_spec(few_shot_examples@, task_content@),
{
    if few_shot_examples.is_empty() {
        String::from_str(task_content)
    } else {
        concat3(few_shot_examples, "\n\n", task_content)
    }
}

/// Who speaks a message.
#[derive(Debug, Clone, Copy, PartialEq, Eq)]
pub enum Speaker {
    System,
    User,
}

/// The conversation for a turn: the context system prompt first when large
/// context handling is active, then the user message.
pub fn conversation(context_prompt: Option<&str>, user_content: String) -> (r: Vec<(Speaker, String)>)
    ensures
        match context_prompt {
            Some(p) => r@.len() == 2 && r@[0].0 == Speaker::System && r@[0].1@ == p@ && r@[1].0 == Speaker::User
                && r@[1].1@ == user_content@,
            None => r@.len() == 1 && r@[0].0 == Speaker::User && r@[0].1@ == user_content@,
        },
{
    let mut r: Vec<(Speaker, String)> = Vec::new();
    match context_prompt {
        Some(p) => {
            r.push((Speaker::System, String::from_str(p)));
        },
        None => {},
    }
    r.push((Speaker::User, user_content));
    r
}

/// The entry for one tool call: its name and pretty-printed result, or its
/// name marked as an error and the error text.
pub open spec fn tool_entry_spec(tool_name: Seq<char>, outcome: Result<Seq<char>, Seq<char>>) -> Seq<char> {
    match outcome {
        Ok(text) => "## Tool: "@ + tool_name + "\n"@ + text,
        Err(e) => "## Tool: "@ + tool_name + " (Error)\n"@ + e,
    }
}

pub fn tool_result_entry(tool_name: &str, outcome: &Result<String, String>) -> (r: String)
    ensures
        r@ == tool_entry_spec(
            tool_name@,
            match outcome {
                Ok(t) => Ok::<Seq<char>, Seq<char>>(t@),
                Err(e) => Err::<Seq<char>, Seq<char>>(e@),
            },
        ),
{
    let head = concat2("## Tool: ", tool_name);
    match outcome {
        Ok(text) => {
            let r = head.concat("\n");
            r.concat(text.as_str())
        },
        Err(e) => {
            let r = head.concat(" (Error)\n");
            r.concat(e.as_str())
        },
    }
}

/// The reply: the model's text, then, when tools ran, a results section with
/// the entries separated by blank lines.
pub open spec fn final_reply_spec(content: Seq<char>, entries: Seq<Seq<char>>) -> Seq<char> {
    if entries.len() == 0 {
        content
    } else {
        content + "\n\n## Tool Execution Results\n"@ + joined(entries, "\n\n"@)
    }
}

pub fn final_reply(content: &str, entries: &Vec<String>) -> (r: String)
    ensures
        r@ == final_reply_spec(content@, string_views(entries@)),
{
    if entries.len() == 0 {
        return String::from_str(content);
    }
    let body = join_strings(entries, "\n\n");
    concat3(content, "\n\n## Tool Execution Results\n", body.as_str())
}

} // verus!
