//! The pure parts of a chat-completion exchange: the messages sent, the
//! provider's name, and how a finish reason is read back.

use vstd::prelude::*;
use crate::llm::{FinishReason, Message, MessageRole};
use crate::quality_types::{contains_text, occurs_in};
use crate::symbolic_program::str_eq;
use crate::text::{copy_string, push_str};

verus! {

/// The wire name of a message role.
pub open spec fn role_name_spec(role: MessageRole) -> Seq<char> {
    match role {
        MessageRole::System => "system"@,
        MessageRole::User => "user"@,
        MessageRole::Assistant => "assistant"@,
        MessageRole::Function => "function"@,
    }
}

/// The wire name of a message role.
pub fn role_name(role: MessageRole) -> (s: &'static str)
    ensures
        s@ == role_name_spec(role),
{
    match role {
        MessageRole::System => "system",
        MessageRole::User => "user",
        MessageRole::Assistant => "assistant",
        MessageRole::Function => "function",
    }
}

/// The chat messages sent: the system prompt first when there is one, then
/// each message with its role's wire name.
pub open spec fn chat_messages_spec(system_prompt: Option<Seq<char>>, messages: Seq<Message>) -> Seq<(Seq<char>, Seq<char>)> {
    let rest = messages.map_values(|m: Message| (role_name_spec(m.role), m.content@));
    match system_prompt {
        Some(s) => seq![("system"@, s)] + rest,
        None => rest,
    }
}

/// Builds the chat messages (see `chat_messages_spec`), as (role, content) pairs.
pub fn chat_messages(system_prompt: &Option<String>, messages: &Vec<Message>) -> (r: Vec<(String, String)>)
    ensures
        r@.map_values(|p: (String, String)| (p.0@, p.1@)) == chat_messages_spec(
            match system_prompt {
                Some(s) => Some(s@),
                None => None,
            },
            messages@,
        ),
{
    let mut r: Vec<(String, String)> = Vec::new();
    match system_prompt {
        Some(s) => {
            r.push((String::from_str("system"), copy_string(s)));
        },
        None => {},
    }
    let base = r.len();
    let ghost head = r@.map_values(|p: (String, String)| (p.0@, p.1@));
    proof {
        match system_prompt {
            Some(sp) => {
                assert(base == 1 && head[0] == ("system"@, sp@));
            },
            None => {
                assert(base == 0);
            },
        }
    }
    let mut i: usize = 0;
    while i < messages.len()
        invariant
            i <= messages@.len(),
            base <= 1,
            r@.len() == base + i,
            head.len() == base,
            forall|k: int| 0 <= k < base ==> (r@[k].0@, r@[k].1@) == head[k],
            forall|k: int|
                0 <= k < i ==> (#[trigger] r@[base + k].0@, r@[base + k].1@) == (
                    role_name_spec(messages@[k].role),
                    messages@[k].content@,
                ),
        decreases messages@.len() - i,
    {
        let m = &messages[i];
        r.push((String::from_str(role_name(m.role)), copy_string(&m.content)));
        i = i + 1;
    }
    proof {
        let rest = messages@.map_values(|m: Message| (role_name_spec(m.role), m.content@));
        let got = r@.map_values(|p: (String, String)| (p.0@, p.1@));
        assert forall|j: int| 0 <= j < rest.len() implies got[base + j] == rest[j] by {
            assert((r@[base + j].0@, r@[base + j].1@) == (role_name_spec(messages@[j].role), messages@[j].content@));
        }
        match system_prompt {
            Some(sp) => {
                assert(base == 1);
                assert(got[0] == head[0]);
                assert(got =~= seq![("system"@, sp@)] + rest);
            },
            None => {
                assert(base == 0);
                assert(got =~= rest);
            },
        }
    }
    r
}

/// How a finish reason reads back: a missing or "stop" reason is a stop,
/// the known names map to their reasons, anything else is an error.
pub open spec fn finish_reason_spec(reason: Option<Seq<char>>) -> FinishReason {
    match reason {
        None => FinishReason::Stop,
        Some(r) => if r == "length"@ {
            FinishReason::Length
        } else if r == "function_call"@ {
            FinishReason::FunctionCall
        } else if r == "content_filter"@ {
            FinishReason::ContentFilter
        } else if r == "stop"@ {
            FinishReason::Stop
        } else {
            FinishReason::Error
        },
    }
}

/// Reads a finish reason (see `finish_reason_spec`).
pub fn map_finish_reason(reason: Option<&str>) -> (f: FinishReason)
    ensures
        f == finish_reason_spec(
            match reason {
                Some(r) => Some(r@),
                None => None,
            },
        ),
{
    match reason {
        None => FinishReason::Stop,
        Some(r) => if str_eq(r, "length") {
            FinishReason::Length
        } else if str_eq(r, "function_call") {
            FinishReason::FunctionCall
        } else if str_eq(r, "content_filter") {
            FinishReason::ContentFilter
        } else if str_eq(r, "stop") {
            FinishReason::Stop
        } else {
            FinishReason::Error
        },
    }
}

/// The provider's name: "openrouter" for an OpenRouter base URL, else "openai".
pub fn provider_name(base_url: &str) -> (s: &'static str)
    ensures
        s@ == (if occurs_in(base_url@, "openrouter.ai"@) { "openrouter"@ } else { "openai"@ }),
{
    if contains_text(base_url, "openrouter.ai") {
        "openrouter"
    } else {
        "openai"
    }
}

/// The chat-completions endpoint under a base URL.
pub fn chat_completions_url(base_url: &str) -> (s: String)
    ensures
        s@ == base_url@ + "/chat/completions"@,
{
    let mut s = String::from_str(base_url);
    push_str(&mut s, "/chat/completions");
    s
}

} // verus!
