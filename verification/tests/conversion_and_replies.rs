use codex_openai_proxy::convert::{content_text_of, convert_chat_to_responses, convert_tool, convert_tools};
use codex_openai_proxy::json::JsonValue;
use codex_openai_proxy::reply::{
    build_chat_response, chat_error_body, chat_reply, health_body, models_error_body,
    models_from_payload, reply_from_backend, ChatReply, ModelsError,
};
use codex_openai_proxy::sse::{
    collect_event_text, frame_event_stream, reply_content, sse_data_payloads, streaming_chunks,
};
use codex_openai_proxy::types::{
    ChatCompletionsRequest, ChatMessage, ContentItem, MessageContent, ResponseItem, Usage,
};

fn s(x: &str) -> String {
    x.to_string()
}

fn jstr(x: &str) -> JsonValue {
    JsonValue::Str(s(x))
}

fn obj(entries: Vec<(&str, JsonValue)>) -> JsonValue {
    JsonValue::Object(entries.into_iter().map(|(k, v)| (s(k), v)).collect())
}

fn msg(role: &str, content: MessageContent) -> ChatMessage {
    ChatMessage { role: s(role), content, tool_call_id: None, tool_calls: None }
}

fn request(messages: Vec<ChatMessage>, tools: Option<Vec<JsonValue>>) -> ChatCompletionsRequest {
    ChatCompletionsRequest {
        model: s("gpt-5"),
        messages,
        max_tokens: None,
        stream: None,
        tools,
        tool_choice: None,
    }
}

fn zero_usage() -> Usage {
    Usage { prompt_tokens: 0, completion_tokens: 0, total_tokens: 0 }
}

#[test]
fn readme_request_example() {
    let req = request(vec![msg("user", MessageContent::Text(s("Hello!")))], None);
    let out = convert_chat_to_responses(req);
    assert_eq!(out.model, "gpt-5");
    assert_eq!(out.instructions, "You are a helpful AI assistant.");
    assert_eq!(
        out.input,
        vec![ResponseItem::Message {
            id: None,
            role: s("user"),
            content: vec![ContentItem::InputText { text: s("Hello!") }],
        }]
    );
    assert!(out.tools.is_empty());
    assert_eq!(out.tool_choice, "auto");
    assert!(!out.store);
    assert!(!out.stream);
    assert!(!out.parallel_tool_calls);
    assert!(out.reasoning.is_none());
    assert!(out.included.is_empty());
}

#[test]
fn instructions_come_from_system_and_developer() {
    let req = request(
        vec![
            msg("system", MessageContent::Text(s("Be brief."))),
            msg("user", MessageContent::Text(s("Hi"))),
            msg("developer", MessageContent::Text(s("Use tools."))),
            msg("system", MessageContent::Text(s(""))),
            msg("assistant", MessageContent::Text(s("Hello"))),
        ],
        None,
    );
    let out = convert_chat_to_responses(req);
    assert_eq!(out.instructions, "Be brief.\n\nUse tools.");
    assert_eq!(
        out.input,
        vec![
            ResponseItem::Message {
                id: None,
                role: s("user"),
                content: vec![ContentItem::InputText { text: s("Hi") }],
            },
            ResponseItem::Message {
                id: None,
                role: s("assistant"),
                content: vec![ContentItem::OutputText { text: s("Hello") }],
            },
        ]
    );
}

#[test]
fn empty_system_text_keeps_default_instructions() {
    let req = request(vec![msg("system", MessageContent::Text(s("")))], None);
    let out = convert_chat_to_responses(req);
    assert_eq!(out.instructions, "You are a helpful AI assistant.");
    assert!(out.input.is_empty());
}

#[test]
fn tool_role_becomes_input_text() {
    let req = request(vec![msg("tool", MessageContent::Text(s("42")))], None);
    let out = convert_chat_to_responses(req);
    assert_eq!(
        out.input,
        vec![ResponseItem::Message {
            id: None,
            role: s("tool"),
            content: vec![ContentItem::InputText { text: s("42") }],
        }]
    );
}

#[test]
fn array_content_joins_texts() {
    let parts = vec![
        obj(vec![("type", jstr("text")), ("text", jstr("first"))]),
        jstr("second"),
        obj(vec![("type", jstr("image_url"))]),
        JsonValue::Number(s("7")),
        obj(vec![("text", JsonValue::Number(s("1")))]),
        obj(vec![("text", jstr("third"))]),
    ];
    assert_eq!(content_text_of(&MessageContent::Parts(parts)), "first second third");
    assert_eq!(content_text_of(&MessageContent::Parts(vec![])), "");
}

#[test]
fn other_content_is_its_json_text() {
    assert_eq!(content_text_of(&MessageContent::Other(s("null"))), "null");
    assert_eq!(content_text_of(&MessageContent::Other(s("{\"a\":1}"))), "{\"a\":1}");
}

#[test]
fn function_tool_is_flattened() {
    let tool = obj(vec![
        ("type", jstr("function")),
        (
            "function",
            obj(vec![
                ("name", jstr("get_weather")),
                ("description", jstr("Weather")),
                ("parameters", obj(vec![("type", jstr("object"))])),
                ("extra", jstr("dropped")),
            ]),
        ),
    ]);
    assert_eq!(
        convert_tool(&tool),
        Some(obj(vec![
            ("type", jstr("function")),
            ("name", jstr("get_weather")),
            ("description", jstr("Weather")),
            ("parameters", obj(vec![("type", jstr("object"))])),
        ]))
    );
}

#[test]
fn strict_flag_is_kept() {
    let tool = obj(vec![
        ("type", jstr("function")),
        ("function", obj(vec![("name", jstr("f")), ("strict", JsonValue::Bool(true))])),
    ]);
    assert_eq!(
        convert_tool(&tool),
        Some(obj(vec![
            ("type", jstr("function")),
            ("name", jstr("f")),
            ("strict", JsonValue::Bool(true)),
        ]))
    );
}

#[test]
fn other_tools_pass_through_or_drop() {
    let web = obj(vec![("type", jstr("web_search"))]);
    assert_eq!(convert_tool(&web), Some(obj(vec![("type", jstr("web_search"))])));
    assert_eq!(convert_tool(&obj(vec![("name", jstr("x"))])), None);
    assert_eq!(convert_tool(&obj(vec![("type", JsonValue::Number(s("1")))])), None);
    assert_eq!(convert_tool(&jstr("function")), None);
    assert_eq!(
        convert_tool(&obj(vec![("type", jstr("function")), ("function", jstr("f"))])),
        None
    );
    let tools = vec![web, jstr("bad"), obj(vec![("type", jstr("x"))])];
    assert_eq!(convert_tools(&tools).len(), 2);
}

#[test]
fn request_tools_are_converted() {
    let tools = vec![obj(vec![("type", jstr("function")), ("function", obj(vec![("name", jstr("f"))]))])];
    let req = request(vec![], Some(tools));
    let out = convert_chat_to_responses(req);
    assert_eq!(out.tools, vec![obj(vec![("type", jstr("function")), ("name", jstr("f"))])]);
}

#[test]
fn stream_payloads_stop_at_done() {
    let text = "event: x\r\ndata: {\"a\":1}\r\n\r\ndata: second\ndata:nospace\ndata: [DONE]\ndata: after\n";
    assert_eq!(sse_data_payloads(text), vec![s("{\"a\":1}"), s("second")]);
    assert_eq!(sse_data_payloads(""), Vec::<String>::new());
    assert_eq!(sse_data_payloads("data: last"), vec![s("last")]);
}

fn event(kind: &str, extra: Vec<(&str, JsonValue)>) -> Option<JsonValue> {
    let mut entries = vec![("type", jstr(kind))];
    entries.extend(extra);
    Some(obj(entries))
}

fn done_item(texts: Vec<&str>) -> Option<JsonValue> {
    let parts = texts.into_iter().map(|t| obj(vec![("text", jstr(t))])).collect();
    event(
        "response.output_item.done",
        vec![("item", obj(vec![("content", JsonValue::Array(parts))]))],
    )
}

#[test]
fn deltas_are_concatenated() {
    let events = vec![
        event("response.created", vec![]),
        event("response.output_text.delta", vec![("delta", jstr("Hel"))]),
        None,
        event("response.output_text.delta", vec![("delta", jstr("lo"))]),
        event("response.output_text.delta", vec![("delta", JsonValue::Null)]),
    ];
    assert_eq!(collect_event_text(&events), "Hello");
}

#[test]
fn finished_items_count_only_before_deltas() {
    let events = vec![
        done_item(vec!["A", "B"]),
        event("response.output_text.delta", vec![("delta", jstr("C"))]),
        done_item(vec!["D"]),
    ];
    assert_eq!(collect_event_text(&events), "ABC");
    assert_eq!(collect_event_text(&vec![done_item(vec!["x", "y"])]), "xy");
}

#[test]
fn empty_stream_gets_fallback_reply() {
    assert_eq!(
        reply_content(&vec![]),
        "I apologize, but I couldn't process your request due to a backend API format issue. The proxy is receiving your request correctly but needs format refinement."
    );
    assert_eq!(
        reply_content(&vec![event("response.output_text.delta", vec![("delta", jstr("ok"))])]),
        "ok"
    );
}

#[test]
fn chat_reply_parts() {
    let r = build_chat_response(s("abc"), 99, s("gpt-5"), s("hi"), Usage { prompt_tokens: 1, completion_tokens: 2, total_tokens: 3 });
    assert_eq!(r.id, "chatcmpl-abc");
    assert_eq!(r.object, "chat.completion");
    assert_eq!(r.created, 99);
    assert_eq!(r.model, "gpt-5");
    assert_eq!(r.choices.len(), 1);
    assert_eq!(r.choices[0].index, 0);
    assert_eq!(r.choices[0].message.role, "assistant");
    assert_eq!(r.choices[0].message.content, Some(s("hi")));
    assert_eq!(r.choices[0].finish_reason, Some(s("stop")));
    assert_eq!(r.usage, Some(Usage { prompt_tokens: 1, completion_tokens: 2, total_tokens: 3 }));
}

#[test]
fn streaming_replay_of_reply() {
    let r = build_chat_response(s("id1"), -5, s("gpt-5"), s("Hello"), zero_usage());
    let chunks = streaming_chunks(&r);
    assert_eq!(chunks.len(), 3);
    let expected_first = obj(vec![
        ("id", jstr("chatcmpl-id1")),
        ("object", jstr("chat.completion.chunk")),
        ("created", JsonValue::Number(s("-5"))),
        ("model", jstr("gpt-5")),
        (
            "choices",
            JsonValue::Array(vec![obj(vec![
                ("index", JsonValue::Number(s("0"))),
                ("delta", obj(vec![("role", jstr("assistant"))])),
                ("finish_reason", JsonValue::Null),
            ])]),
        ),
    ]);
    assert_eq!(chunks[0], expected_first);
    match &chunks[2] {
        JsonValue::Object(entries) => match &entries[4].1 {
            JsonValue::Array(choices) => match &choices[0] {
                JsonValue::Object(choice) => {
                    assert_eq!(choice[1].1, obj(vec![]));
                    assert_eq!(choice[2].1, jstr("stop"));
                }
                _ => panic!("choice is not an object"),
            },
            _ => panic!("choices is not an array"),
        },
        _ => panic!("chunk is not an object"),
    }
    match &chunks[1] {
        JsonValue::Object(entries) => match &entries[4].1 {
            JsonValue::Array(choices) => match &choices[0] {
                JsonValue::Object(choice) => {
                    assert_eq!(choice[1].1, obj(vec![("content", jstr("Hello"))]));
                }
                _ => panic!("choice is not an object"),
            },
            _ => panic!("choices is not an array"),
        },
        _ => panic!("chunk is not an object"),
    }
}

#[test]
fn event_stream_framing() {
    assert_eq!(
        frame_event_stream(&vec![s("{\"a\":1}"), s("{}")]),
        "data: {\"a\":1}\n\ndata: {}\n\ndata: [DONE]\n\n"
    );
    assert_eq!(frame_event_stream(&vec![]), "data: [DONE]\n\n");
}

#[test]
fn models_payloads() {
    let payload = obj(vec![(
        "models",
        JsonValue::Array(vec![
            obj(vec![("slug", jstr("gpt-5"))]),
            obj(vec![("name", jstr("no slug"))]),
            obj(vec![("slug", jstr("gpt-5-codex"))]),
        ]),
    )]);
    let list = models_from_payload(&payload, 123).unwrap();
    assert_eq!(list.object, "list");
    assert_eq!(list.data.len(), 2);
    assert_eq!(list.data[0].id, "gpt-5");
    assert_eq!(list.data[1].id, "gpt-5-codex");
    for m in &list.data {
        assert_eq!(m.object, "model");
        assert_eq!(m.created, 123);
        assert_eq!(m.owned_by, "openai");
    }

}

#[test]
fn models_payload_errors() {
    assert_eq!(models_from_payload(&obj(vec![]), 0).unwrap_err(), ModelsError::MissingModels);
    assert_eq!(
        models_from_payload(&obj(vec![("models", jstr("x"))]), 0).unwrap_err(),
        ModelsError::MissingModels
    );
    assert_eq!(
        models_from_payload(&obj(vec![("models", JsonValue::Array(vec![]))]), 0).unwrap_err(),
        ModelsError::NoUsableModels
    );
    assert_eq!(
        ModelsError::MissingModels.message(),
        "Upstream models response missing models array"
    );
    assert_eq!(
        ModelsError::NoUsableModels.message(),
        "Upstream models response did not contain any usable model slugs"
    );
}

#[test]
fn error_and_health_bodies() {
    assert_eq!(
        models_error_body("boom"),
        obj(vec![(
            "error",
            obj(vec![
                ("message", jstr("Upstream models error: boom")),
                ("type", jstr("upstream_error")),
                ("code", jstr("bad_gateway")),
            ]),
        )])
    );
    assert_eq!(
        chat_error_body("bad"),
        obj(vec![(
            "error",
            obj(vec![
                ("message", jstr("Proxy error: bad")),
                ("type", jstr("proxy_error")),
                ("code", jstr("internal_error")),
            ]),
        )])
    );
    assert_eq!(
        health_body(),
        obj(vec![("status", jstr("ok")), ("service", jstr("codex-openai-proxy"))])
    );
}

#[test]
fn stream_flag_defaults_to_false() {
    let mut req = request(vec![], None);
    assert!(!req.wants_stream());
    req.stream = Some(true);
    assert!(req.wants_stream());
    req.stream = Some(false);
    assert!(!req.wants_stream());
}

#[test]
fn json_lookup_and_copy() {
    let v = obj(vec![("k", jstr("first")), ("k", jstr("second")), ("n", JsonValue::Array(vec![JsonValue::Null]))]);
    assert_eq!(v.get("k"), Some(&jstr("first")));
    assert_eq!(v.get("missing"), None);
    assert_eq!(jstr("x").get("k"), None);
    assert_eq!(v.clone_value(), v);
    assert_eq!(jstr("x").as_str(), Some(&s("x")));
    assert!(v.as_array().is_none());
}

#[test]
fn reply_from_backend_events() {
    let events = vec![event("response.output_text.delta", vec![("delta", jstr("Hi"))])];
    let r = reply_from_backend(s("u1"), 7, s("gpt-5"), &events);
    assert_eq!(r.id, "chatcmpl-u1");
    assert_eq!(r.created, 7);
    assert_eq!(r.object, "chat.completion");
    assert_eq!(r.model, "gpt-5");
    assert_eq!(r.choices[0].message.content, Some(s("Hi")));
    assert_eq!(r.usage, Some(zero_usage()));
    let empty = reply_from_backend(s("u2"), 8, s("gpt-5"), &vec![None]);
    assert!(empty.choices[0].message.content.as_ref().unwrap().starts_with("I apologize"));
}

#[test]
fn chat_reply_dispatch() {
    let r = || build_chat_response(s("x"), 1, s("m"), s("c"), zero_usage());
    assert_eq!(chat_reply(false, Ok(r())), ChatReply::Json(r()));
    assert_eq!(chat_reply(true, Ok(r())), ChatReply::Stream(streaming_chunks(&r())));
    assert_eq!(chat_reply(true, Err(s("down"))), ChatReply::Error(chat_error_body("down")));
    assert_eq!(chat_reply(false, Err(s("down"))), ChatReply::Error(chat_error_body("down")));
}

#[test]
fn stream_body_reads_back() {
    let payloads = vec![s("{\"a\":1}"), s("{}"), s("")];
    let body = frame_event_stream(&payloads);
    assert_eq!(sse_data_payloads(&body), payloads);
}
