//! Checks and shapes the requests sent to the completion endpoint.

use vstd::prelude::*;
use crate::model::{ChatCompletionParams, ChatMessage, InvokeResponse};
use crate::text::{is_blank, is_blank_text};

verus! {

/// The completion endpoint and the model the relay talks to.
pub const COMPLETION_ENDPOINT: &'static str = "https://api.deepseek.com/v1";

pub const COMPLETION_MODEL: &'static str = "deepseek-chat";

/// Output tokens asked for when the caller names no limit.
pub const DEFAULT_MAX_TOKENS: u32 = 4000;

/// Who speaks a chat message.
pub enum ChatRole {
    System,
    User,
    Assistant,
}

/// The role a message's role tag names; any tag but "system" and
/// "assistant" is the user.
pub open spec fn role_spec(tag: Seq<char>) -> ChatRole {
    if tag == "system"@ {
        ChatRole::System
    } else if tag == "assistant"@ {
        ChatRole::Assistant
    } else {
        ChatRole::User
    }
}

pub fn role_of(tag: &str) -> (r: ChatRole)
    ensures
        r == role_spec(tag@),
{
    let t = String::from_str(tag);
    if t == String::from_str("system") {
        ChatRole::System
    } else if t == String::from_str("assistant") {
        ChatRole::Assistant
    } else {
        ChatRole::User
    }
}

/// Each message with the role its tag names, in order.
pub fn chat_roles(messages: &Vec<ChatMessage>) -> (r: Vec<(ChatRole, String)>)
    ensures
        r@.len() == messages@.len(),
        forall|i: int|
            0 <= i < messages@.len() ==> (#[trigger] r@[i]).0 == role_spec(messages@[i].role@)
                && r@[i].1 == messages@[i].content,
{
    let mut out: Vec<(ChatRole, String)> = Vec::new();
    let mut i: usize = 0;
    while i < messages.len()
        invariant
            i <= messages@.len(),
            out@.len() == i,
            forall|j: int|
                0 <= j < i ==> (#[trigger] out@[j]).0 == role_spec(messages@[j].role@)
                    && out@[j].1 == messages@[j].content,
        decreases messages.len() - i,
    {
        let role = role_of(messages[i].role.as_str());
        out.push((role, messages[i].content.clone()));
        i += 1;
    }
    out
}

/// Refuses a streaming request with a blank credential or no messages.
pub fn validate_stream_request(api_key: &str, messages: &Vec<ChatMessage>) -> (r: Result<(), String>)
    ensures
        is_blank_text(api_key@) ==> (r matches Err(m) && m@ == "API key cannot be empty"@),
        !is_blank_text(api_key@) && messages@.len() == 0 ==> (r matches Err(m) && m@
            == "Messages array cannot be empty"@),
        !is_blank_text(api_key@) && messages@.len() > 0 ==> r is Ok,
{
    if is_blank(api_key) {
        return Err(String::from_str("API key cannot be empty"));
    }
    if messages.len() == 0 {
        return Err(String::from_str("Messages array cannot be empty"));
    }
    Ok(())
}

/// Refuses a one-shot request with a blank credential or with both prompts
/// blank.
pub fn validate_completion_request(params: &ChatCompletionParams) -> (r: Result<(), String>)
    ensures
        is_blank_text(params.api_key@) ==> (r matches Err(m) && m@ == "API key cannot be empty"@),
        !is_blank_text(params.api_key@) && is_blank_text(params.system_prompt@) && is_blank_text(
            params.user_prompt@,
        ) ==> (r matches Err(m) && m@
            == "At least one of system_prompt or user_prompt must be provided"@),
        !is_blank_text(params.api_key@) && !(is_blank_text(params.system_prompt@) && is_blank_text(
            params.user_prompt@,
        )) ==> r is Ok,
{
    if is_blank(params.api_key.as_str()) {
        return Err(String::from_str("API key cannot be empty"));
    }
    if is_blank(params.system_prompt.as_str()) && is_blank(params.user_prompt.as_str()) {
        return Err(String::from_str("At least one of system_prompt or user_prompt must be provided"));
    }
    Ok(())
}

/// The messages of a one-shot request: the system prompt unless it is
/// blank, then the user prompt.
pub fn build_chat_messages(params: &ChatCompletionParams) -> (r: Vec<(ChatRole, String)>)
    ensures
        !is_blank_text(params.system_prompt@) ==> r@.len() == 2 && r@[0].0 == ChatRole::System
            && r@[0].1 == params.system_prompt && r@[1].0 == ChatRole::User && r@[1].1
            == params.user_prompt,
        is_blank_text(params.system_prompt@) ==> r@.len() == 1 && r@[0].0 == ChatRole::User
            && r@[0].1 == params.user_prompt,
{
    let mut messages: Vec<(ChatRole, String)> = Vec::new();
    if !is_blank(params.system_prompt.as_str()) {
        messages.push((ChatRole::System, params.system_prompt.clone()));
    }
    messages.push((ChatRole::User, params.user_prompt.clone()));
    messages
}

/// The output token limit: the caller's, or the default.
pub fn max_output_tokens(requested: Option<u32>) -> (r: u32)
    ensures
        r == match requested {
            Some(n) => n,
            None => DEFAULT_MAX_TOKENS,
        },
{
    match requested {
        Some(n) => n,
        None => DEFAULT_MAX_TOKENS,
    }
}

/// The failure envelope for a refused request.
pub fn error_response(message: &str) -> (r: InvokeResponse<String>)
    ensures
        r.code == 1,
        r.message@ == message@,
        r.data is None,
{
    InvokeResponse::fail(String::from_str(message))
}

} // verus!
