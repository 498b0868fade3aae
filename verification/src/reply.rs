//! Replies to the client: chat completions, model lists and error bodies.

use vstd::prelude::*;
use vstd::string::*;

use crate::json::{
    entry_models_of, lemma_entry_models_of, lemma_models_of, models_of, opt_str, JsonValue,
    JsonView,
};
use crate::sse::{event_models, reply_content, reply_text, stream_chunks, streaming_chunks};
use crate::types::{
    ChatCompletionsResponse, ChatResponseMessage, Choice, ModelInfo, ModelsListResponse, Usage,
};

verus! {

broadcast use vstd::string::group_string_axioms;

// ---------------------------------------------------------------------------
// Chat completion replies
// ---------------------------------------------------------------------------

/// The reply carries one assistant choice with `content`, finished by `stop`, and the
/// given usage; its id is `chatcmpl-` followed by `uuid`.
pub open spec fn is_chat_reply(
    r: ChatCompletionsResponse,
    uuid: Seq<char>,
    model: Seq<char>,
    content: Seq<char>,
    usage: Usage,
) -> bool {
    &&& r.id@ == "chatcmpl-"@ + uuid
    &&& r.object@ == "chat.completion"@
    &&& r.model@ == model
    &&& r.choices@.len() == 1
    &&& r.choices@[0].index == 0
    &&& r.choices@[0].message.role@ == "assistant"@
    &&& r.choices@[0].message.content matches Some(c) && c@ == content
    &&& r.choices@[0].message.tool_calls is None
    &&& r.choices@[0].finish_reason matches Some(f) && f@ == "stop"@
    &&& r.usage matches Some(u) && u.prompt_tokens == usage.prompt_tokens && u.completion_tokens
        == usage.completion_tokens && u.total_tokens == usage.total_tokens
}

/// A chat completion reply for `model` with `content`; its id is `chatcmpl-` followed by
/// `uuid`, and it was created at `created`. The caller draws the id and reads the clock.
pub fn build_chat_response(
    uuid: String,
    created: i64,
    model: String,
    content: String,
    usage: Usage,
) -> (r: ChatCompletionsResponse)
    ensures
        is_chat_reply(r, uuid@, model@, content@, usage),
        r.created == created,
{
    let id = String::from_str("chatcmpl-").concat(uuid.as_str());
    let mut choices: Vec<Choice> = Vec::new();
    choices.push(
        Choice {
            index: 0,
            message: ChatResponseMessage {
                role: String::from_str("assistant"),
                content: Some(content),
                tool_calls: None,
            },
            finish_reason: Some(String::from_str("stop")),
        },
    );
    ChatCompletionsResponse {
        id,
        object: String::from_str("chat.completion"),
        created,
        model,
        choices,
        usage: Some(usage),
    }
}

/// The reply to a chat request from the events the backend sent: their text, or the fallback
/// message when they carry none; no token counts.
pub fn reply_from_backend(
    uuid: String,
    created: i64,
    model: String,
    events: &Vec<Option<JsonValue>>,
) -> (r: ChatCompletionsResponse)
    ensures
        is_chat_reply(
            r,
            uuid@,
            model@,
            reply_text(event_models(events@)),
            Usage { prompt_tokens: 0, completion_tokens: 0, total_tokens: 0 },
        ),
        r.created == created,
{
    let content = reply_content(events);
    build_chat_response(
        uuid,
        created,
        model,
        content,
        Usage { prompt_tokens: 0, completion_tokens: 0, total_tokens: 0 },
    )
}

/// How a chat request is answered.
#[derive(Debug, PartialEq)]
pub enum ChatReply {
    /// The reply as one JSON body.
    Json(ChatCompletionsResponse),
    /// The reply replayed as event-stream chunks.
    Stream(Vec<JsonValue>),
    /// The error body for a request the proxy could not complete.
    Error(JsonValue),
}

/// Answers a chat request: a completed reply goes out as a stream when the client asked for
/// one and as one JSON body otherwise; a failure goes out as the proxy's error body.
pub fn chat_reply(stream: bool, outcome: Result<ChatCompletionsResponse, String>) -> (r: ChatReply)
    ensures
        match outcome {
            Ok(resp) => if stream {
                r matches ChatReply::Stream(chunks) && models_of(chunks@) == stream_chunks(resp)
            } else {
                r == ChatReply::Json(resp)
            },
            Err(e) => r matches ChatReply::Error(b) && b@ == error_body(
                "Proxy error: "@ + e@,
                "proxy_error"@,
                "internal_error"@,
            ),
        },
{
    match outcome {
        Ok(resp) => if stream {
            ChatReply::Stream(streaming_chunks(&resp))
        } else {
            ChatReply::Json(resp)
        },
        Err(e) => ChatReply::Error(chat_error_body(e.as_str())),
    }
}

// ---------------------------------------------------------------------------
// Model lists
// ---------------------------------------------------------------------------

/// Why a backend model list could not be used.
#[derive(Debug, PartialEq, Eq, Structural)]
pub enum ModelsError {
    /// The payload has no `models` array.
    MissingModels,
    /// The `models` array names no model by a string `slug`.
    NoUsableModels,
}

impl ModelsError {
    /// The message of the error, as the client's error body reports it.
    pub open spec fn text(self) -> Seq<char> {
        match self {
            ModelsError::MissingModels => "Upstream models response missing models array"@,
            ModelsError::NoUsableModels => "Upstream models response did not contain any usable model slugs"@,
        }
    }

    /// The message of the error.
    pub fn message(&self) -> (r: String)
        ensures
            r@ == self.text(),
    {
        match self {
            ModelsError::MissingModels => String::from_str(
                "Upstream models response missing models array",
            ),
            ModelsError::NoUsableModels => String::from_str(
                "Upstream models response did not contain any usable model slugs",
            ),
        }
    }
}

/// The string `slug` of each model that has one, in order.
pub open spec fn model_slugs(models: Seq<JsonView>) -> Seq<Seq<char>>
    decreases models.len(),
{
    if models.len() == 0 {
        Seq::empty()
    } else {
        let prev = model_slugs(models.drop_last());
        match opt_str(models.last().get("slug"@)) {
            Some(s) => prev.push(s),
            None => prev,
        }
    }
}

/// What a backend model-list payload yields: the slugs, or why there are none to offer.
pub open spec fn payload_slugs(payload: JsonView) -> Result<Seq<Seq<char>>, ModelsError> {
    match payload.get("models"@) {
        Some(m) => match m.as_array() {
            Some(models) => if model_slugs(models).len() == 0 {
                Err(ModelsError::NoUsableModels)
            } else {
                Ok(model_slugs(models))
            },
            None => Err(ModelsError::MissingModels),
        },
        None => Err(ModelsError::MissingModels),
    }
}

/// `list` offers exactly the models `slugs`, in order, owned by `openai`, created at `created`.
pub open spec fn lists_models(list: ModelsListResponse, slugs: Seq<Seq<char>>, created: i64) -> bool {
    &&& list.object@ == "list"@
    &&& list.data@.len() == slugs.len()
    &&& forall|i: int|
        0 <= i < slugs.len() ==> {
            &&& (#[trigger] list.data@[i]).id@ == slugs[i]
            &&& list.data@[i].object@ == "model"@
            &&& list.data@[i].created == created
            &&& list.data@[i].owned_by@ == "openai"@
        }
}

/// The client's model list for a backend model-list payload.
pub fn models_from_payload(payload: &JsonValue, created: i64) -> (r: Result<
    ModelsListResponse,
    ModelsError,
>)
    ensures
        match (r, payload_slugs(payload@)) {
            (Ok(list), Ok(slugs)) => lists_models(list, slugs, created),
            (Err(e), Err(f)) => e == f,
            _ => false,
        },
{
    let models = match payload.get("models") {
        Some(m) => match m.as_array() {
            Some(a) => a,
            None => return Err(ModelsError::MissingModels),
        },
        None => return Err(ModelsError::MissingModels),
    };
    let mut data: Vec<ModelInfo> = Vec::new();
    let mut i: usize = 0;
    assert(models@.take(0) =~= Seq::<JsonValue>::empty());
    while i < models.len()
        invariant
            i <= models.len(),
            data@.len() == model_slugs(models_of(models@.take(i as int))).len(),
            forall|k: int|
                0 <= k < data@.len() ==> {
                    &&& (#[trigger] data@[k]).id@ == model_slugs(
                        models_of(models@.take(i as int)),
                    )[k]
                    &&& data@[k].object@ == "model"@
                    &&& data@[k].created == created
                    &&& data@[k].owned_by@ == "openai"@
                },
        decreases models.len() - i,
    {
        proof {
            lemma_models_of(models@.take(i + 1));
            lemma_models_of(models@.take(i as int));
            assert(models_of(models@.take(i + 1)).drop_last() =~= models_of(
                models@.take(i as int),
            ));
            assert(models_of(models@.take(i + 1)).last() == models@[i as int]@);
        }
        match models[i].get("slug") {
            Some(s) => match s.as_str() {
                Some(slug) => {
                    data.push(
                        ModelInfo {
                            id: slug.clone(),
                            object: String::from_str("model"),
                            created,
                            owned_by: String::from_str("openai"),
                        },
                    );
                },
                None => {},
            },
            None => {},
        }
        i = i + 1;
    }
    assert(models@.take(models.len() as int) =~= models@);
    if data.len() == 0 {
        return Err(ModelsError::NoUsableModels);
    }
    Ok(ModelsListResponse { object: String::from_str("list"), data })
}

// ---------------------------------------------------------------------------
// Fixed and error bodies
// ---------------------------------------------------------------------------

/// `{"error": {"message": .., "type": .., "code": ..}}`
pub open spec fn error_body(message: Seq<char>, kind: Seq<char>, code: Seq<char>) -> JsonView {
    JsonView::Object(
        seq![
            (
                "error"@,
                JsonView::Object(
                    seq![
                        ("message"@, JsonView::Str(message)),
                        ("type"@, JsonView::Str(kind)),
                        ("code"@, JsonView::Str(code)),
                    ],
                ),
            ),
        ],
    )
}

fn error_object(message: String, kind: &str, code: &str) -> (r: JsonValue)
    ensures
        r@ == error_body(message@, kind@, code@),
{
    let mut inner: Vec<(String, JsonValue)> = Vec::new();
    inner.push((String::from_str("message"), JsonValue::Str(message)));
    inner.push((String::from_str("type"), JsonValue::Str(String::from_str(kind))));
    inner.push((String::from_str("code"), JsonValue::Str(String::from_str(code))));
    let mut outer: Vec<(String, JsonValue)> = Vec::new();
    outer.push((String::from_str("error"), JsonValue::Object(inner)));
    proof {
        lemma_entry_models_of(inner@);
        lemma_entry_models_of(outer@);
        assert(entry_models_of(inner@) =~= error_body(message@, kind@, code@)->Object_0[0].1->Object_0);
        assert(entry_models_of(outer@) =~= error_body(message@, kind@, code@)->Object_0);
    }
    JsonValue::Object(outer)
}

/// The body of a `502 Bad Gateway` reply to a failed model-list request.
pub fn models_error_body(error_text: &str) -> (r: JsonValue)
    ensures
        r@ == error_body(
            "Upstream models error: "@ + error_text@,
            "upstream_error"@,
            "bad_gateway"@,
        ),
{
    let message = String::from_str("Upstream models error: ").concat(error_text);
    error_object(message, "upstream_error", "bad_gateway")
}

/// The body of the reply to a chat request that the proxy could not complete.
pub fn chat_error_body(error_text: &str) -> (r: JsonValue)
    ensures
        r@ == error_body("Proxy error: "@ + error_text@, "proxy_error"@, "internal_error"@),
{
    let message = String::from_str("Proxy error: ").concat(error_text);
    error_object(message, "proxy_error", "internal_error")
}

/// `{"status": "ok", "service": "codex-openai-proxy"}`
pub open spec fn health_view() -> JsonView {
    JsonView::Object(
        seq![
            ("status"@, JsonView::Str("ok"@)),
            ("service"@, JsonView::Str("codex-openai-proxy"@)),
        ],
    )
}

/// The body of the health reply.
pub fn health_body() -> (r: JsonValue)
    ensures
        r@ == health_view(),
{
    let mut entries: Vec<(String, JsonValue)> = Vec::new();
    entries.push((String::from_str("status"), JsonValue::Str(String::from_str("ok"))));
    entries.push(
        (String::from_str("service"), JsonValue::Str(String::from_str("codex-openai-proxy"))),
    );
    proof {
        lemma_entry_models_of(entries@);
        assert(entry_models_of(entries@) =~= health_view()->Object_0);
    }
    JsonValue::Object(entries)
}

} // verus!
