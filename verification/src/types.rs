//! The data of both APIs: Chat Completions on the client side, Responses on the backend side.

use vstd::prelude::*;

use crate::json::JsonValue;

verus! {

/// Command-line options of the server.
#[derive(Debug, PartialEq)]
pub struct Args {
    pub port: u16,
    pub auth_path: String,
}

/// The body of a `GET /v1/models` reply.
#[derive(Debug, PartialEq)]
pub struct ModelsListResponse {
    pub object: String,
    pub data: Vec<ModelInfo>,
}

/// One model of a models list.
#[derive(Debug, PartialEq)]
pub struct ModelInfo {
    pub id: String,
    pub object: String,
    pub created: i64,
    pub owned_by: String,
}

/// A Chat Completions request, as the client sends it.
///
/// The sampling temperature that clients may send is not read by the conversion and is
/// not held here.
#[derive(Debug, PartialEq)]
pub struct ChatCompletionsRequest {
    pub model: String,
    pub messages: Vec<ChatMessage>,
    pub max_tokens: Option<i32>,
    pub stream: Option<bool>,
    pub tools: Option<Vec<JsonValue>>,
    pub tool_choice: Option<JsonValue>,
}

/// The `content` of a chat message: a string, an array of parts, or any other JSON value,
/// which is kept as its compact JSON text.
#[derive(Debug, PartialEq)]
pub enum MessageContent {
    Text(String),
    Parts(Vec<JsonValue>),
    Other(String),
}

/// One message of a Chat Completions request.
#[derive(Debug, PartialEq)]
pub struct ChatMessage {
    pub role: String,
    pub content: MessageContent,
    pub tool_call_id: Option<String>,
    pub tool_calls: Option<Vec<ChatMessageToolCall>>,
}

/// A tool call recorded in an assistant message of a request.
#[derive(Debug, PartialEq)]
pub struct ChatMessageToolCall {
    pub id: String,
    pub call_type: Option<String>,
    pub function: ChatMessageToolCallFunction,
}

/// The function named by a tool call of a request.
#[derive(Debug, PartialEq)]
pub struct ChatMessageToolCallFunction {
    pub name: String,
    pub arguments: String,
}

/// A Chat Completions reply.
#[derive(Debug, PartialEq)]
pub struct ChatCompletionsResponse {
    pub id: String,
    pub object: String,
    pub created: i64,
    pub model: String,
    pub choices: Vec<Choice>,
    pub usage: Option<Usage>,
}

/// One choice of a Chat Completions reply.
#[derive(Debug, PartialEq)]
pub struct Choice {
    pub index: i32,
    pub message: ChatResponseMessage,
    pub finish_reason: Option<String>,
}

/// The message of a choice.
#[derive(Debug, PartialEq)]
pub struct ChatResponseMessage {
    pub role: String,
    pub content: Option<String>,
    pub tool_calls: Option<Vec<ToolCall>>,
}

/// A tool call of a reply message.
#[derive(Debug, PartialEq)]
pub struct ToolCall {
    pub id: String,
    pub call_type: String,
    pub function: ToolCallFunction,
}

/// The function named by a tool call of a reply.
#[derive(Debug, PartialEq)]
pub struct ToolCallFunction {
    pub name: String,
    pub arguments: String,
}

/// Token counts of a reply.
#[derive(Debug, PartialEq)]
pub struct Usage {
    pub prompt_tokens: i32,
    pub completion_tokens: i32,
    pub total_tokens: i32,
}

/// A Responses API request, as the backend receives it. `included` is sent under the JSON key
/// of the same stem that the API names.
#[derive(Debug, PartialEq)]
pub struct ResponsesApiRequest {
    pub model: String,
    pub instructions: String,
    pub input: Vec<ResponseItem>,
    pub tools: Vec<JsonValue>,
    pub tool_choice: String,
    pub parallel_tool_calls: bool,
    pub reasoning: Option<JsonValue>,
    pub store: bool,
    pub stream: bool,
    pub included: Vec<String>,
}

/// One input item of a Responses API request.
#[derive(Debug, PartialEq)]
pub enum ResponseItem {
    Message { id: Option<String>, role: String, content: Vec<ContentItem> },
    FunctionCall { id: Option<String>, call_id: String, name: String, arguments: String },
    FunctionCallOutput { call_id: String, output: String },
}

/// One content part of a Responses API message.
#[derive(Debug, PartialEq)]
pub enum ContentItem {
    InputText { text: String },
    OutputText { text: String },
}

/// The credentials read from `auth.json`.
#[derive(Debug, PartialEq)]
pub struct AuthData {
    pub api_key: Option<String>,
    pub tokens: Option<TokenData>,
}

/// ChatGPT account tokens.
#[derive(Debug, PartialEq)]
pub struct TokenData {
    pub access_token: String,
    pub account_id: String,
    pub refresh_token: Option<String>,
}

/// A non-streaming Responses API reply.
#[derive(Debug, PartialEq)]
pub struct ResponsesApiResponse {
    pub response: Option<ResponseOutput>,
    pub id: Option<String>,
}

/// The output of a non-streaming Responses API reply.
#[derive(Debug, PartialEq)]
pub struct ResponseOutput {
    pub content: Option<Vec<ResponseContentItem>>,
    pub role: Option<String>,
}

/// One content part of a non-streaming Responses API reply.
#[derive(Debug, PartialEq)]
pub struct ResponseContentItem {
    pub content_type: String,
    pub text: Option<String>,
}

// ---------------------------------------------------------------------------
// Models of the Responses API items
// ---------------------------------------------------------------------------

/// The model of a content part.
pub enum ContentView {
    InputText(Seq<char>),
    OutputText(Seq<char>),
}

/// The model of an input item.
pub enum ItemView {
    Message { id: Option<Seq<char>>, role: Seq<char>, content: Seq<ContentView> },
    FunctionCall { id: Option<Seq<char>>, call_id: Seq<char>, name: Seq<char>, arguments: Seq<char> },
    FunctionCallOutput { call_id: Seq<char>, output: Seq<char> },
}

/// The view of an optional string.
pub open spec fn opt_string_view(s: Option<String>) -> Option<Seq<char>> {
    match s {
        Some(t) => Some(t@),
        None => None,
    }
}

impl View for ContentItem {
    type V = ContentView;

    open spec fn view(&self) -> ContentView {
        match self {
            ContentItem::InputText { text } => ContentView::InputText(text@),
            ContentItem::OutputText { text } => ContentView::OutputText(text@),
        }
    }
}

impl View for ResponseItem {
    type V = ItemView;

    open spec fn view(&self) -> ItemView {
        match self {
            ResponseItem::Message { id, role, content } => ItemView::Message {
                id: opt_string_view(*id),
                role: role@,
                content: content@.map_values(|c: ContentItem| c@),
            },
            ResponseItem::FunctionCall { id, call_id, name, arguments } => ItemView::FunctionCall {
                id: opt_string_view(*id),
                call_id: call_id@,
                name: name@,
                arguments: arguments@,
            },
            ResponseItem::FunctionCallOutput { call_id, output } => ItemView::FunctionCallOutput {
                call_id: call_id@,
                output: output@,
            },
        }
    }
}

/// The models of a sequence of input items.
pub open spec fn item_views(items: Seq<ResponseItem>) -> Seq<ItemView> {
    items.map_values(|i: ResponseItem| i@)
}

} // verus!
