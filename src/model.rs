//! Value types shared by the store, the composer and the relay.

use vstd::prelude::*;

verus! {

/// Uniform result envelope handed back to callers: `code` is 0 on success
/// and 1 on failure.
pub struct InvokeResponse<T> {
    pub code: i32,
    pub message: String,
    pub data: Option<T>,
}

impl<T> InvokeResponse<T> {
    pub fn success(data: T) -> (r: Self)
        ensures
            r.code == 0,
            r.message@ == "ok"@,
            r.data == Some(data),
    {
        InvokeResponse { code: 0, message: String::from_str("ok"), data: Some(data) }
    }

    pub fn fail(message: String) -> (r: Self)
        ensures
            r.code == 1,
            r.message == message,
            r.data is None,
    {
        InvokeResponse { code: 1, message, data: None }
    }
}

/// The text an optional string holds, if any.
pub open spec fn opt_text(o: Option<String>) -> Option<Seq<char>> {
    match o {
        Some(s) => Some(s@),
        None => None,
    }
}

/// A copy of an optional string.
pub fn clone_opt_text(o: &Option<String>) -> (r: Option<String>)
    ensures
        r == *o,
{
    match o {
        Some(s) => Some(s.clone()),
        None => None,
    }
}

/// A configuration record for one model provider. `id` is present once the
/// record has been stored.
pub struct SettingModel {
    pub id: Option<i32>,
    pub model_key: String,
    pub enabled: bool,
    pub api_url: String,
    pub api_key: String,
}

/// The fields of a model provider record to be inserted.
pub struct SettingModelParams {
    pub model_key: String,
    pub enabled: bool,
    pub api_url: String,
    pub api_key: String,
}

/// A partial update of a model provider record: only the present fields are
/// rewritten.
pub struct UpdateSettingModelParams {
    pub id: i32,
    pub enabled: Option<bool>,
    pub api_url: Option<String>,
    pub api_key: Option<String>,
}

impl UpdateSettingModelParams {
    pub open spec fn touches_nothing(&self) -> bool {
        self.enabled is None && self.api_url is None && self.api_key is None
    }
}

/// A configuration record for one agent server.
pub struct SettingA2AServer {
    pub id: Option<i32>,
    pub name: String,
    pub agent_card_url: String,
    pub agent_card_json: Option<String>,
    pub custom_header_json: Option<String>,
    pub protocol_data_object_settings: Option<String>,
    pub enabled: bool,
    pub created_at: Option<String>,
    pub updated_at: Option<String>,
}

/// The fields of an agent server record to be inserted.
pub struct SettingA2AServerParams {
    pub name: String,
    pub agent_card_url: String,
    pub agent_card_json: Option<String>,
    pub custom_header_json: Option<String>,
    pub protocol_data_object_settings: Option<String>,
    pub enabled: bool,
}

/// A partial update of an agent server record: only the present fields are
/// rewritten.
pub struct UpdateSettingA2AServerParams {
    pub id: i32,
    pub name: Option<String>,
    pub agent_card_url: Option<String>,
    pub agent_card_json: Option<String>,
    pub custom_header_json: Option<String>,
    pub protocol_data_object_settings: Option<String>,
    pub enabled: Option<bool>,
}

impl UpdateSettingA2AServerParams {
    pub open spec fn touches_nothing(&self) -> bool {
        &&& self.name is None
        &&& self.agent_card_url is None
        &&& self.agent_card_json is None
        &&& self.custom_header_json is None
        &&& self.protocol_data_object_settings is None
        &&& self.enabled is None
    }
}

/// Parameters of a one-shot chat completion.
pub struct ChatCompletionParams {
    pub system_prompt: String,
    pub user_prompt: String,
    pub api_key: String,
}

/// One message of a chat conversation; `role` is "system", "user" or
/// "assistant".
pub struct ChatMessage {
    pub role: String,
    pub content: String,
}

/// One skill an agent advertises.
pub struct AgentSkill {
    pub id: String,
    pub name: String,
    pub description: String,
    pub tags: Vec<String>,
    pub examples: Vec<String>,
    pub input_modes: Vec<String>,
    pub output_modes: Vec<String>,
}

/// Who runs an agent.
pub struct AgentProvider {
    pub organization: String,
    pub url: String,
}

/// The protocol features an agent supports.
pub struct AgentCapabilities {
    pub streaming: bool,
    pub push_notifications: bool,
    pub state_transition_history: bool,
}

/// The authentication schemes an agent accepts.
pub struct AgentAuthentication {
    pub schemes: Vec<String>,
}

/// The self-description an agent server publishes.
pub struct AgentCard {
    pub name: String,
    pub description: String,
    pub url: String,
    pub provider: AgentProvider,
    pub version: String,
    pub documentation_url: String,
    pub capabilities: AgentCapabilities,
    pub authentication: Option<AgentAuthentication>,
    pub default_input_modes: Vec<String>,
    pub default_output_modes: Vec<String>,
    pub skills: Vec<AgentSkill>,
}

/// A message part carrying literal text.
pub struct A2ATextPart {
    pub kind: String,
    pub text: String,
}

impl A2ATextPart {
    pub fn new(text: String) -> (r: Self)
        ensures
            r.kind@ == "text"@,
            r.text == text,
    {
        A2ATextPart { kind: String::from_str("text"), text }
    }
}

/// A message part carrying a serialized data payload.
pub struct A2ADataPart {
    pub kind: String,
    pub data: String,
}

impl A2ADataPart {
    pub fn new(data: String) -> (r: Self)
        ensures
            r.kind@ == "data"@,
            r.data == data,
    {
        A2ADataPart { kind: String::from_str("data"), data }
    }
}

/// A message part: the `kind` field inside each variant tells them apart on
/// the wire.
pub enum A2AMessagePart {
    Text(A2ATextPart),
    Data(A2ADataPart),
}

/// A client-originated agent message.
pub struct A2AMessage {
    pub message_id: String,
    pub kind: String,
    pub role: String,
    pub parts: Vec<A2AMessagePart>,
}

/// The parameters of a message send: the task identity, the message, and
/// free-form metadata.
pub struct A2ARequest {
    pub id: String,
    pub message: A2AMessage,
    pub metadata: serde_json::Value,
}

/// A JSON-RPC 2.0 request envelope.
pub struct JSONRPCRequest<T> {
    pub jsonrpc: String,
    pub id: String,
    pub method: String,
    pub params: T,
}

/// What a caller supplies to send one message to an agent server.
pub struct A2AMessageParams {
    pub a2a_server_id: i32,
    pub a2a_url: String,
    pub task_id: String,
    pub message_id: String,
    pub header_skill_id: String,
    pub text: String,
}

/// Where to fetch an agent card from.
pub struct AgentCardParams {
    pub url: String,
    pub token: Option<String>,
}

} // verus!
