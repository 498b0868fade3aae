//! Server-sent events: reading the backend's event stream and writing the client's.

use vstd::prelude::*;
use vstd::string::*;

use crate::json::{
    entry_models_of, lemma_entry_models_of, lemma_models_of, models_of, opt_str, JsonValue,
    JsonView,
};
use crate::text::{
    chars_equal, chars_of, decimal_int, has_prefix, i64_to_decimal, split_lines, starts_with_chars,
    string_of_range, string_views, text_lines,
};
use crate::types::ChatCompletionsResponse;

verus! {

broadcast use vstd::string::group_string_axioms;

// ---------------------------------------------------------------------------
// Reading the backend's event stream
// ---------------------------------------------------------------------------

/// The payloads of the `data: ` lines, in order, up to the first `[DONE]` payload.
pub open spec fn data_payloads(lines: Seq<Seq<char>>) -> Seq<Seq<char>>
    decreases lines.len(),
{
    if lines.len() == 0 {
        Seq::empty()
    } else if has_prefix(lines[0], "data: "@) {
        let p = lines[0].skip("data: "@.len() as int);
        if p == "[DONE]"@ {
            Seq::empty()
        } else {
            seq![p] + data_payloads(lines.skip(1))
        }
    } else {
        data_payloads(lines.skip(1))
    }
}

/// The event payloads of an event-stream text.
pub open spec fn stream_payloads(text: Seq<char>) -> Seq<Seq<char>> {
    data_payloads(text_lines(text))
}

/// The concatenated `text` members of the parts of a finished output item.
pub open spec fn parts_text(parts: Seq<JsonView>) -> Seq<char>
    decreases parts.len(),
{
    if parts.len() == 0 {
        Seq::empty()
    } else {
        parts_text(parts.drop_last()) + match opt_str(parts.last().get("text"@)) {
            Some(t) => t,
            None => Seq::empty(),
        }
    }
}

/// The text of a finished output item, when it has a `content` array.
pub open spec fn done_item_text(event: JsonView) -> Option<Seq<char>> {
    match event.get("item"@) {
        Some(item) => match item.get("content"@) {
            Some(c) => match c.as_array() {
                Some(parts) => Some(parts_text(parts)),
                None => None,
            },
            None => None,
        },
        None => None,
    }
}

/// How one event changes the collected text and whether a text delta has been seen.
/// Deltas are appended; a finished output item adds its text only while no delta has been
/// seen; anything else, and a payload that was not JSON, changes nothing.
pub open spec fn event_step(state: (Seq<char>, bool), event: Option<JsonView>) -> (Seq<char>, bool) {
    match event {
        None => state,
        Some(e) => match opt_str(e.get("type"@)) {
            None => state,
            Some(t) => if t == "response.output_text.delta"@ {
                match opt_str(e.get("delta"@)) {
                    Some(d) => (state.0 + d, true),
                    None => state,
                }
            } else if t == "response.output_item.done"@ {
                if state.1 {
                    state
                } else {
                    match done_item_text(e) {
                        Some(x) => (state.0 + x, state.1),
                        None => state,
                    }
                }
            } else {
                state
            },
        },
    }
}

/// The state after a sequence of events, starting from no text and no delta.
pub open spec fn events_state(events: Seq<Option<JsonView>>) -> (Seq<char>, bool)
    decreases events.len(),
{
    if events.len() == 0 {
        (Seq::empty(), false)
    } else {
        event_step(events_state(events.drop_last()), events.last())
    }
}

/// The message sent to the client when the backend's stream held no text.
pub open spec fn fallback_reply() -> Seq<char> {
    "I apologize, but I couldn't process your request due to a backend API format issue. The proxy is receiving your request correctly but needs format refinement."@
}

/// The reply text: the text that the events carry, or the fallback message when they carry
/// none.
pub open spec fn reply_text(events: Seq<Option<JsonView>>) -> Seq<char> {
    let collected = events_state(events).0;
    if collected.len() > 0 {
        collected
    } else {
        fallback_reply()
    }
}

/// The models of parsed event payloads; `None` stands for a payload that was not JSON.
pub open spec fn event_models(events: Seq<Option<JsonValue>>) -> Seq<Option<JsonView>> {
    events.map_values(
        |e: Option<JsonValue>|
            match e {
                Some(v) => Some(v@),
                None => None,
            },
    )
}

/// The payloads of the `data: ` lines of an event stream, up to the first `[DONE]`.
pub fn sse_data_payloads(text: &str) -> (r: Vec<String>)
    ensures
        string_views(r@) == stream_payloads(text@),
{
    let lines = split_lines(text);
    let ghost ls = string_views(lines@);
    let prefix = chars_of("data: ");
    let done = chars_of("[DONE]");
    let mut out: Vec<String> = Vec::new();
    let mut i: usize = 0;
    assert(ls.skip(0) =~= ls);
    assert(string_views(out@) + data_payloads(ls) =~= data_payloads(ls));
    while i < lines.len()
        invariant
            ls == string_views(lines@),
            ls == text_lines(text@),
            ls.len() == lines@.len(),
            i <= lines.len(),
            prefix@ == "data: "@,
            done@ == "[DONE]"@,
            string_views(out@) + data_payloads(ls.skip(i as int)) == data_payloads(ls),
        decreases lines.len() - i,
    {
        let cs = chars_of(lines[i].as_str());
        let ghost rest = ls.skip(i as int);
        assert(rest[0] == cs@);
        assert(rest.skip(1) =~= ls.skip(i + 1));
        if starts_with_chars(&cs, &prefix) {
            let payload = string_of_range(&cs, prefix.len(), cs.len());
            let pcs = chars_of(payload.as_str());
            assert(payload@ == cs@.skip("data: "@.len() as int));
            if chars_equal(&pcs, &done) {
                assert(data_payloads(rest) =~= Seq::<Seq<char>>::empty());
                assert(string_views(out@) + Seq::<Seq<char>>::empty() =~= string_views(out@));
                return out;
            }
            let ghost prev = string_views(out@);
            out.push(payload);
            assert(string_views(out@) =~= prev.push(payload@));
            assert(data_payloads(rest) == seq![payload@] + data_payloads(ls.skip(i + 1)));
            assert(prev + (seq![payload@] + data_payloads(ls.skip(i + 1))) =~= prev.push(payload@)
                + data_payloads(ls.skip(i + 1)));
        }
        i = i + 1;
    }
    assert(ls.skip(lines.len() as int) =~= Seq::<Seq<char>>::empty());
    assert(string_views(out@) + Seq::<Seq<char>>::empty() =~= string_views(out@));
    out
}

/// The concatenated `text` members of the parts of a finished output item.
fn parts_text_of(parts: &Vec<JsonValue>) -> (r: String)
    ensures
        r@ == parts_text(models_of(parts@)),
{
    let mut out = String::new();
    let mut i: usize = 0;
    assert(parts@.take(0) =~= Seq::<JsonValue>::empty());
    while i < parts.len()
        invariant
            i <= parts.len(),
            out@ == parts_text(models_of(parts@.take(i as int))),
        decreases parts.len() - i,
    {
        proof {
            lemma_models_of(parts@.take(i + 1));
            lemma_models_of(parts@.take(i as int));
            assert(models_of(parts@.take(i + 1)).drop_last() =~= models_of(parts@.take(i as int)));
            assert(models_of(parts@.take(i + 1)).last() == parts@[i as int]@);
        }
        match parts[i].get("text") {
            Some(t) => match t.as_str() {
                Some(s) => {
                    out.append(s.as_str());
                },
                None => {
                    assert(out@ + Seq::<char>::empty() =~= out@);
                },
            },
            None => {
                assert(out@ + Seq::<char>::empty() =~= out@);
            },
        }
        i = i + 1;
    }
    assert(parts@.take(parts.len() as int) =~= parts@);
    out
}

/// The text that the backend's events carry, as the reply's content collects it.
pub fn collect_event_text(events: &Vec<Option<JsonValue>>) -> (r: String)
    ensures
        r@ == events_state(event_models(events@)).0,
{
    let mut content = String::new();
    let mut saw_delta = false;
    let ghost evs = event_models(events@);
    let mut i: usize = 0;
    assert(evs.take(0) =~= Seq::<Option<JsonView>>::empty());
    while i < events.len()
        invariant
            evs == event_models(events@),
            evs.len() == events@.len(),
            i <= events.len(),
            (content@, saw_delta) == events_state(evs.take(i as int)),
        decreases events.len() - i,
    {
        assert(evs.take(i + 1).drop_last() =~= evs.take(i as int));
        assert(evs.take(i + 1).last() == evs[i as int]);
        match &events[i] {
            None => {},
            Some(e) => {
                match e.get("type") {
                    None => {},
                    Some(tv) => match tv.as_str() {
                        None => {},
                        Some(t) => {
                            if crate::text::string_is(t, "response.output_text.delta") {
                                match e.get("delta") {
                                    Some(dv) => match dv.as_str() {
                                        Some(d) => {
                                            content.append(d.as_str());
                                            saw_delta = true;
                                        },
                                        None => {},
                                    },
                                    None => {},
                                }
                            } else if crate::text::string_is(t, "response.output_item.done") {
                                if !saw_delta {
                                    match e.get("item") {
                                        Some(item) => match item.get("content") {
                                            Some(c) => match c.as_array() {
                                                Some(parts) => {
                                                    let x = parts_text_of(parts);
                                                    content.append(x.as_str());
                                                },
                                                None => {},
                                            },
                                            None => {},
                                        },
                                        None => {},
                                    }
                                }
                            }
                        },
                    },
                }
            },
        }
        i = i + 1;
    }
    assert(evs.take(events.len() as int) =~= evs);
    content
}

/// The content of the reply: the text of the backend's events, or the fallback message when
/// they carry none.
pub fn reply_content(events: &Vec<Option<JsonValue>>) -> (r: String)
    ensures
        r@ == reply_text(event_models(events@)),
        r@.len() > 0,
{
    let collected = collect_event_text(events);
    if !collected.as_str().is_empty() {
        return collected;
    }
    let r = String::from_str(
        "I apologize, but I couldn't process your request due to a backend API format issue. The proxy is receiving your request correctly but needs format refinement.",
    );
    proof {
        reveal_strlit(
            "I apologize, but I couldn't process your request due to a backend API format issue. The proxy is receiving your request correctly but needs format refinement.",
        );
    }
    r
}

// ---------------------------------------------------------------------------
// Writing the client's event stream
// ---------------------------------------------------------------------------

/// One `chat.completion.chunk` object with a single choice.
pub open spec fn chunk_view(
    id: Seq<char>,
    created: i64,
    model: Seq<char>,
    delta: JsonView,
    finish_reason: JsonView,
) -> JsonView {
    JsonView::Object(
        seq![
            ("id"@, JsonView::Str(id)),
            ("object"@, JsonView::Str("chat.completion.chunk"@)),
            ("created"@, JsonView::Number(decimal_int(created as int))),
            ("model"@, JsonView::Str(model)),
            (
                "choices"@,
                JsonView::Array(
                    seq![
                        JsonView::Object(
                            seq![
                                ("index"@, JsonView::Number("0"@)),
                                ("delta"@, delta),
                                ("finish_reason"@, finish_reason),
                            ],
                        ),
                    ],
                ),
            ),
        ],
    )
}

/// The content of the reply's first choice; empty when there is none.
pub open spec fn first_content(resp: ChatCompletionsResponse) -> Seq<char> {
    if resp.choices@.len() > 0 {
        match resp.choices@[0].message.content {
            Some(c) => c@,
            None => Seq::empty(),
        }
    } else {
        Seq::empty()
    }
}

/// The finish reason of the reply's first choice; `stop` when there is none.
pub open spec fn first_finish_reason(resp: ChatCompletionsResponse) -> Seq<char> {
    if resp.choices@.len() > 0 {
        match resp.choices@[0].finish_reason {
            Some(f) => f@,
            None => "stop"@,
        }
    } else {
        "stop"@
    }
}

/// The three chunks that replay a complete reply as a stream: the assistant role, the
/// whole content, and the finish reason.
pub open spec fn stream_chunks(resp: ChatCompletionsResponse) -> Seq<JsonView> {
    seq![
        chunk_view(
            resp.id@,
            resp.created,
            resp.model@,
            JsonView::Object(seq![("role"@, JsonView::Str("assistant"@))]),
            JsonView::Null,
        ),
        chunk_view(
            resp.id@,
            resp.created,
            resp.model@,
            JsonView::Object(seq![("content"@, JsonView::Str(first_content(resp)))]),
            JsonView::Null,
        ),
        chunk_view(
            resp.id@,
            resp.created,
            resp.model@,
            JsonView::Object(Seq::empty()),
            JsonView::Str(first_finish_reason(resp)),
        ),
    ]
}

/// The event-stream framing of serialized payloads, closed by `[DONE]`.
pub open spec fn framed(payloads: Seq<Seq<char>>) -> Seq<char>
    decreases payloads.len(),
{
    if payloads.len() == 0 {
        Seq::empty()
    } else {
        framed(payloads.drop_last()) + "data: "@ + payloads.last() + "\n\n"@
    }
}

/// The whole event-stream body for serialized payloads.
pub open spec fn stream_body(payloads: Seq<Seq<char>>) -> Seq<char> {
    framed(payloads) + "data: [DONE]\n\n"@
}

fn str_entry(key: &str, value: &String) -> (r: (String, JsonValue))
    ensures
        r.0@ == key@,
        r.1@ == JsonView::Str(value@),
{
    (String::from_str(key), JsonValue::Str(value.clone()))
}

fn lit_entry(key: &str, value: &str) -> (r: (String, JsonValue))
    ensures
        r.0@ == key@,
        r.1@ == JsonView::Str(value@),
{
    (String::from_str(key), JsonValue::Str(String::from_str(value)))
}

fn chunk(id: &String, created: i64, model: &String, delta: JsonValue, finish_reason: JsonValue) -> (r:
    JsonValue)
    ensures
        r@ == chunk_view(id@, created, model@, delta@, finish_reason@),
{
    let mut choice: Vec<(String, JsonValue)> = Vec::new();
    choice.push((String::from_str("index"), JsonValue::Number(String::from_str("0"))));
    choice.push((String::from_str("delta"), delta));
    choice.push((String::from_str("finish_reason"), finish_reason));
    let mut choices: Vec<JsonValue> = Vec::new();
    choices.push(JsonValue::Object(choice));
    let mut entries: Vec<(String, JsonValue)> = Vec::new();
    entries.push(str_entry("id", id));
    entries.push(lit_entry("object", "chat.completion.chunk"));
    entries.push((String::from_str("created"), JsonValue::Number(i64_to_decimal(created))));
    entries.push(str_entry("model", model));
    entries.push((String::from_str("choices"), JsonValue::Array(choices)));
    proof {
        lemma_entry_models_of(choice@);
        lemma_models_of(choices@);
        lemma_entry_models_of(entries@);
        assert(entry_models_of(choice@) =~= seq![
            ("index"@, JsonView::Number("0"@)),
            ("delta"@, delta@),
            ("finish_reason"@, finish_reason@),
        ]);
        assert(models_of(choices@) =~= seq![JsonView::Object(entry_models_of(choice@))]);
    }
    let r = JsonValue::Object(entries);
    assert(entry_models_of(entries@) =~= chunk_view(id@, created, model@, delta@, finish_reason@)->Object_0);
    r
}

/// The chunks that replay a complete reply as a stream.
pub fn streaming_chunks(resp: &ChatCompletionsResponse) -> (r: Vec<JsonValue>)
    ensures
        models_of(r@) == stream_chunks(*resp),
{
    let message: String = if resp.choices.len() > 0 {
        match &resp.choices[0].message.content {
            Some(c) => c.clone(),
            None => String::new(),
        }
    } else {
        String::new()
    };
    let finish: String = if resp.choices.len() > 0 {
        match &resp.choices[0].finish_reason {
            Some(f) => f.clone(),
            None => String::from_str("stop"),
        }
    } else {
        String::from_str("stop")
    };
    let mut role: Vec<(String, JsonValue)> = Vec::new();
    role.push(lit_entry("role", "assistant"));
    let mut content: Vec<(String, JsonValue)> = Vec::new();
    content.push(str_entry("content", &message));
    let empty: Vec<(String, JsonValue)> = Vec::new();
    proof {
        lemma_entry_models_of(role@);
        lemma_entry_models_of(content@);
        lemma_entry_models_of(empty@);
        assert(entry_models_of(role@) =~= seq![("role"@, JsonView::Str("assistant"@))]);
        assert(entry_models_of(content@) =~= seq![("content"@, JsonView::Str(first_content(*resp)))]);
        assert(entry_models_of(empty@) =~= Seq::<(Seq<char>, JsonView)>::empty());
    }
    let mut out: Vec<JsonValue> = Vec::new();
    out.push(chunk(&resp.id, resp.created, &resp.model, JsonValue::Object(role), JsonValue::Null));
    out.push(
        chunk(&resp.id, resp.created, &resp.model, JsonValue::Object(content), JsonValue::Null),
    );
    out.push(
        chunk(
            &resp.id,
            resp.created,
            &resp.model,
            JsonValue::Object(empty),
            JsonValue::Str(finish),
        ),
    );
    proof {
        lemma_models_of(out@);
    }
    assert(models_of(out@) =~= stream_chunks(*resp));
    out
}

/// Frames serialized payloads as an event stream closed by `data: [DONE]`.
pub fn frame_event_stream(payloads: &Vec<String>) -> (r: String)
    ensures
        r@ == stream_body(string_views(payloads@)),
{
    let mut out = String::new();
    let mut i: usize = 0;
    assert(string_views(payloads@.take(0)) =~= Seq::<Seq<char>>::empty());
    while i < payloads.len()
        invariant
            i <= payloads.len(),
            out@ == framed(string_views(payloads@.take(i as int))),
        decreases payloads.len() - i,
    {
        out.append("data: ");
        out.append(payloads[i].as_str());
        out.append("\n\n");
        i = i + 1;
        assert(string_views(payloads@.take(i as int)).drop_last() =~= string_views(
            payloads@.take(i - 1 as int),
        ));
    }
    assert(payloads@.take(payloads.len() as int) =~= payloads@);
    out.append("data: [DONE]\n\n");
    out
}

} // verus!
