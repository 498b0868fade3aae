//! What each operation does to every item it is given, stated element by element.

use vstd::prelude::*;
use vstd::string::*;

use crate::convert::{
    content_text, converted_tool, copied, default_instructions, instructions_for, tools_for, converted_tools, instruction_parts, is_instruction_role,
    message_item, part_text, part_texts,
};
use crate::http::{
    auth_header_pairs, client_kind, curl_header_args, models_request_pairs, replayed_value,
    resolved_path, responses_request_pairs, route_of, sanitized_value, shown_value, skips_replay,
    AuthPathError, HeaderEntry, Route,
};
use crate::json::{
    is_first_key, lemma_lookup_found, lookup, models_of, opt_str, JsonValue, JsonView,
};
use crate::reply::{is_chat_reply, model_slugs, payload_slugs, ModelsError};
use crate::sse::{chunk_view, data_payloads, fallback_reply, reply_text, done_item_text, events_state, parts_text, stream_chunks};
use crate::text::{
    ascii_lower, contains_text, decimal_int, decimal_nat, has_prefix, is_first_newline, joined,
    shell_escaped, text_lines, truncated,
};
use crate::types::{
    opt_string_view, AuthData, ChatCompletionsResponse, ChatMessage, ContentView, ItemView, MessageContent, Usage};

verus! {

broadcast use vstd::string::group_string_axioms;

// ---------------------------------------------------------------------------
// Streamed replies, as a client reads them by key
// ---------------------------------------------------------------------------

/// The first choice of a chunk, read by the `choices` key.
pub open spec fn first_choice(chunk: JsonView) -> Option<JsonView> {
    match chunk.get("choices"@) {
        Some(JsonView::Array(items)) => if items.len() > 0 {
            Some(items[0])
        } else {
            None
        },
        _ => None,
    }
}

/// Member `key` of a chunk's first choice.
pub open spec fn choice_member(chunk: JsonView, key: Seq<char>) -> Option<JsonView> {
    match first_choice(chunk) {
        Some(c) => c.get(key),
        None => None,
    }
}

proof fn lemma_chunk_reads(
    id: Seq<char>,
    created: i64,
    model: Seq<char>,
    delta: JsonView,
    finish_reason: JsonView,
)
    ensures
        ({
            let c = chunk_view(id, created, model, delta, finish_reason);
            &&& c.get("id"@) == Some(JsonView::Str(id))
            &&& c.get("object"@) == Some(JsonView::Str("chat.completion.chunk"@))
            &&& c.get("created"@) == Some(JsonView::Number(decimal_int(created as int)))
            &&& c.get("model"@) == Some(JsonView::Str(model))
            &&& choice_member(c, "index"@) == Some(JsonView::Number("0"@))
            &&& choice_member(c, "delta"@) == Some(delta)
            &&& choice_member(c, "finish_reason"@) == Some(finish_reason)
        }),
{
    reveal_strlit("id");
    reveal_strlit("object");
    reveal_strlit("created");
    reveal_strlit("model");
    reveal_strlit("choices");
    reveal_strlit("index");
    reveal_strlit("delta");
    reveal_strlit("finish_reason");
    let c = chunk_view(id, created, model, delta, finish_reason);
    let e = c->Object_0;
    assert("created"@[1] != "choices"@[1]);
    assert("id"@.len() == 2 && "object"@.len() == 6 && "created"@.len() == 7 && "model"@.len() == 5);
    assert("id"@ != "object"@);
    assert("id"@ != "model"@ && "object"@ != "model"@ && "created"@ != "model"@);
    assert(e[0].0 == "id"@ && e[1].0 == "object"@ && e[2].0 == "created"@ && e[3].0 == "model"@);
    assert(is_first_key(e, "id"@, 0));
    lemma_lookup_found(e, "id"@, 0);
    assert(is_first_key(e, "object"@, 1));
    lemma_lookup_found(e, "object"@, 1);
    assert(is_first_key(e, "created"@, 2));
    lemma_lookup_found(e, "created"@, 2);
    assert(is_first_key(e, "model"@, 3));
    lemma_lookup_found(e, "model"@, 3);
    assert(is_first_key(e, "choices"@, 4));
    lemma_lookup_found(e, "choices"@, 4);
    let ch = e[4].1->Array_0[0];
    let ce = ch->Object_0;
    assert("index"@[0] != "delta"@[0]);
    assert(is_first_key(ce, "index"@, 0));
    lemma_lookup_found(ce, "index"@, 0);
    assert(is_first_key(ce, "delta"@, 1));
    lemma_lookup_found(ce, "delta"@, 1);
    assert(is_first_key(ce, "finish_reason"@, 2));
    lemma_lookup_found(ce, "finish_reason"@, 2);
}

/// A client that asked for a stream reads the whole reply from it: three chunks that all carry
/// the reply's id and model; the first announces the assistant, the second carries exactly the
/// reply's whole content, and the last carries the finish reason `stop` and an empty delta.
pub proof fn law_stream_carries_whole_reply(
    r: ChatCompletionsResponse,
    uuid: Seq<char>,
    model: Seq<char>,
    content: Seq<char>,
    usage: Usage,
)
    requires
        is_chat_reply(r, uuid, model, content, usage),
    ensures
        stream_chunks(r).len() == 3,
        forall|k: int|
            0 <= k < 3 ==> {
                &&& (#[trigger] stream_chunks(r)[k]).get("id"@) == Some(
                    JsonView::Str("chatcmpl-"@ + uuid),
                )
                &&& stream_chunks(r)[k].get("model"@) == Some(JsonView::Str(model))
                &&& stream_chunks(r)[k].get("object"@) == Some(
                    JsonView::Str("chat.completion.chunk"@),
                )
            },
        choice_member(stream_chunks(r)[0], "delta"@) == Some(
            JsonView::Object(seq![("role"@, JsonView::Str("assistant"@))]),
        ),
        choice_member(stream_chunks(r)[1], "delta"@) == Some(
            JsonView::Object(seq![("content"@, JsonView::Str(content))]),
        ),
        choice_member(stream_chunks(r)[2], "delta"@) == Some(JsonView::Object(Seq::empty())),
        choice_member(stream_chunks(r)[0], "finish_reason"@) == Some(JsonView::Null),
        choice_member(stream_chunks(r)[1], "finish_reason"@) == Some(JsonView::Null),
        choice_member(stream_chunks(r)[2], "finish_reason"@) == Some(JsonView::Str("stop"@)),
{
    let id = r.id@;
    lemma_chunk_reads(
        id,
        r.created,
        r.model@,
        JsonView::Object(seq![("role"@, JsonView::Str("assistant"@))]),
        JsonView::Null,
    );
    lemma_chunk_reads(
        id,
        r.created,
        r.model@,
        JsonView::Object(seq![("content"@, JsonView::Str(content))]),
        JsonView::Null,
    );
    lemma_chunk_reads(
        id,
        r.created,
        r.model@,
        JsonView::Object(Seq::empty()),
        JsonView::Str("stop"@),
    );
}

/// Any reply replays as three chunks that carry its id, creation time and model: the assistant
/// role, then the first choice's content as it is (empty when there is none), then the first
/// choice's finish reason (`stop` when there is none).
pub proof fn law_stream_follows_reply(r: ChatCompletionsResponse)
    ensures
        stream_chunks(r).len() == 3,
        forall|k: int|
            0 <= k < 3 ==> {
                &&& (#[trigger] stream_chunks(r)[k]).get("id"@) == Some(JsonView::Str(r.id@))
                &&& stream_chunks(r)[k].get("created"@) == Some(
                    JsonView::Number(decimal_int(r.created as int)),
                )
                &&& stream_chunks(r)[k].get("model"@) == Some(JsonView::Str(r.model@))
                &&& stream_chunks(r)[k].get("object"@) == Some(
                    JsonView::Str("chat.completion.chunk"@),
                )
                &&& choice_member(stream_chunks(r)[k], "index"@) == Some(JsonView::Number("0"@))
            },
        choice_member(stream_chunks(r)[0], "delta"@) == Some(
            JsonView::Object(seq![("role"@, JsonView::Str("assistant"@))]),
        ),
        r.choices@.len() > 0 ==> (r.choices@[0].message.content matches Some(c)
            ==> choice_member(stream_chunks(r)[1], "delta"@) == Some(
            JsonView::Object(seq![("content"@, JsonView::Str(c@))]),
        )),
        (r.choices@.len() == 0 || r.choices@[0].message.content is None) ==> choice_member(
            stream_chunks(r)[1],
            "delta"@,
        ) == Some(JsonView::Object(seq![("content"@, JsonView::Str(Seq::empty()))])),
        choice_member(stream_chunks(r)[2], "delta"@) == Some(JsonView::Object(Seq::empty())),
        choice_member(stream_chunks(r)[0], "finish_reason"@) == Some(JsonView::Null),
        choice_member(stream_chunks(r)[1], "finish_reason"@) == Some(JsonView::Null),
        r.choices@.len() > 0 ==> (r.choices@[0].finish_reason matches Some(f)
            ==> choice_member(stream_chunks(r)[2], "finish_reason"@) == Some(JsonView::Str(f@))),
        (r.choices@.len() == 0 || r.choices@[0].finish_reason is None) ==> choice_member(
            stream_chunks(r)[2],
            "finish_reason"@,
        ) == Some(JsonView::Str("stop"@)),
{
    let text = if r.choices@.len() > 0 {
        match r.choices@[0].message.content {
            Some(c) => c@,
            None => Seq::empty(),
        }
    } else {
        Seq::empty()
    };
    let fin = if r.choices@.len() > 0 {
        match r.choices@[0].finish_reason {
            Some(f) => f@,
            None => "stop"@,
        }
    } else {
        "stop"@
    };
    lemma_chunk_reads(
        r.id@,
        r.created,
        r.model@,
        JsonView::Object(seq![("role"@, JsonView::Str("assistant"@))]),
        JsonView::Null,
    );
    lemma_chunk_reads(
        r.id@,
        r.created,
        r.model@,
        JsonView::Object(seq![("content"@, JsonView::Str(text))]),
        JsonView::Null,
    );
    lemma_chunk_reads(r.id@, r.created, r.model@, JsonView::Object(Seq::empty()), JsonView::Str(fin));
}

// ---------------------------------------------------------------------------
// Model lists
// ---------------------------------------------------------------------------

/// Every model with a string slug is offered, in order: a model added at the end adds its slug
/// at the end, and a model without a string slug adds nothing.
pub proof fn law_every_slug_offered(models: Seq<JsonView>, x: JsonView)
    ensures
        model_slugs(Seq::empty()) == Seq::<Seq<char>>::empty(),
        model_slugs(models.push(x)) == match opt_str(x.get("slug"@)) {
            Some(s) => model_slugs(models).push(s),
            None => model_slugs(models),
        },
{
    assert(models.push(x).drop_last() =~= models);
}

// ---------------------------------------------------------------------------
// Request conversion
// ---------------------------------------------------------------------------

/// Every convertible tool is kept, in order: a tool added at the end adds its converted form at
/// the end, and a dropped tool adds nothing.
pub proof fn law_every_tool_converted(tools: Seq<JsonView>, x: JsonView)
    ensures
        converted_tools(Seq::empty()) == Seq::<JsonView>::empty(),
        converted_tools(tools.push(x)) == match converted_tool(x) {
            Some(y) => converted_tools(tools).push(y),
            None => converted_tools(tools),
        },
{
    assert(tools.push(x).drop_last() =~= tools);
}

/// A request without tools sends none; a request with tools sends its converted tools.
pub proof fn law_request_tools(tools: Option<Vec<JsonValue>>)
    ensures
        tools is None ==> tools_for(tools) == Seq::<JsonView>::empty(),
        tools matches Some(t) ==> tools_for(tools) == converted_tools(models_of(t@)),
{
}

proof fn lemma_lookup_absent(entries: Seq<(Seq<char>, JsonView)>, key: Seq<char>)
    requires
        forall|i: int| 0 <= i < entries.len() ==> (#[trigger] entries[i]).0 != key,
    ensures
        lookup(entries, key) is None,
{
    assert(!exists|i: int| is_first_key(entries, key, i));
}

proof fn lemma_lookup_between(
    a: Seq<(Seq<char>, JsonView)>,
    f: JsonView,
    key: Seq<char>,
    b: Seq<(Seq<char>, JsonView)>,
)
    requires
        forall|i: int| 0 <= i < a.len() ==> (#[trigger] a[i]).0 != key,
        forall|i: int| 0 <= i < b.len() ==> (#[trigger] b[i]).0 != key,
    ensures
        lookup(a + copied(f, key) + b, key) == f.get(key),
{
    let e = a + copied(f, key) + b;
    match f.get(key) {
        Some(v) => {
            assert(e[a.len() as int] == (key, v));
            assert(is_first_key(e, key, a.len() as int));
            lemma_lookup_found(e, key, a.len() as int);
        },
        None => {
            assert(e =~= a + b);
            assert forall|i: int| 0 <= i < e.len() implies (#[trigger] e[i]).0 != key by {
                if i < a.len() {
                    assert(e[i] == a[i]);
                } else {
                    assert(e[i] == b[i - a.len()]);
                }
            }
            lemma_lookup_absent(e, key);
        },
    }
}

proof fn lemma_copied_keys(f: JsonView, key: Seq<char>, other: Seq<char>)
    requires
        key != other,
    ensures
        forall|i: int|
            0 <= i < copied(f, key).len() ==> (#[trigger] copied(f, key)[i]).0 != other,
{
}

/// Which tools are converted and how: a tool without a string type, or a `function` tool whose
/// `function` is not an object, is dropped; a tool of any other string type is passed on
/// unchanged.
pub proof fn law_tool_kept_or_dropped(x: JsonView)
    ensures
        opt_str(x.get("type"@)) is None ==> converted_tool(x) is None,
        (opt_str(x.get("type"@)) matches Some(t) && t != "function"@) ==> converted_tool(x) == Some(x),
        (opt_str(x.get("type"@)) == Some("function"@) && !(x.get("function"@) matches Some(
            JsonView::Object(_),
        ))) ==> converted_tool(x) is None,
{
}

/// A `function` tool is flattened: the converted tool is an object of type `function` whose
/// `name`, `description`, `parameters` and `strict` are exactly those of the tool's function
/// (absent where the function has none), and which has no `function` member left.
pub proof fn law_function_tool_flattened(x: JsonView, f: JsonView)
    requires
        opt_str(x.get("type"@)) == Some("function"@),
        x.get("function"@) == Some(f),
        f is Object,
    ensures
        converted_tool(x) is Some,
        ({
            let y = converted_tool(x)->0;
            &&& y is Object
            &&& y.get("type"@) == Some(JsonView::Str("function"@))
            &&& y.get("name"@) == f.get("name"@)
            &&& y.get("description"@) == f.get("description"@)
            &&& y.get("parameters"@) == f.get("parameters"@)
            &&& y.get("strict"@) == f.get("strict"@)
            &&& y.get("function"@) is None
        }),
{
    reveal_strlit("type");
    reveal_strlit("name");
    reveal_strlit("description");
    reveal_strlit("parameters");
    reveal_strlit("strict");
    reveal_strlit("function");
    let ty = "type"@;
    let nm = "name"@;
    let de = "description"@;
    let pa = "parameters"@;
    let st = "strict"@;
    let fu = "function"@;
    assert(ty.len() == 4 && nm.len() == 4 && de.len() == 11 && pa.len() == 10
        && st.len() == 6 && fu.len() == 8);
    assert(ty[0] != nm[0]);
    let head = seq![(ty, JsonView::Str("function"@))];
    let cn = copied(f, nm);
    let cd = copied(f, de);
    let cp = copied(f, pa);
    let cs = copied(f, st);
    let y = converted_tool(x)->0;
    let e = y->Object_0;
    assert(e == head + cn + cd + cp + cs);
    // type
    assert(e[0] == (ty, JsonView::Str("function"@)));
    assert(is_first_key(e, ty, 0));
    lemma_lookup_found(e, ty, 0);
    // name
    lemma_copied_keys(f, de, nm);
    lemma_copied_keys(f, pa, nm);
    lemma_copied_keys(f, st, nm);
    let rest_n = cd + cp + cs;
    assert forall|i: int| 0 <= i < rest_n.len() implies (#[trigger] rest_n[i]).0 != nm by {
        if i < cd.len() {
            assert(rest_n[i] == cd[i]);
        } else if i < cd.len() + cp.len() {
            assert(rest_n[i] == cp[i - cd.len()]);
        } else {
            assert(rest_n[i] == cs[i - cd.len() - cp.len()]);
        }
    }
    assert(e =~= head + cn + rest_n);
    lemma_lookup_between(head, f, nm, rest_n);
    // description
    lemma_copied_keys(f, nm, de);
    lemma_copied_keys(f, pa, de);
    lemma_copied_keys(f, st, de);
    let before_d = head + cn;
    let rest_d = cp + cs;
    assert forall|i: int| 0 <= i < before_d.len() implies (#[trigger] before_d[i]).0 != de by {
        if i >= 1 {
            assert(before_d[i] == cn[i - 1]);
        }
    }
    assert forall|i: int| 0 <= i < rest_d.len() implies (#[trigger] rest_d[i]).0 != de by {
        if i < cp.len() {
            assert(rest_d[i] == cp[i]);
        } else {
            assert(rest_d[i] == cs[i - cp.len()]);
        }
    }
    assert(e =~= before_d + cd + rest_d);
    lemma_lookup_between(before_d, f, de, rest_d);
    // parameters
    lemma_copied_keys(f, nm, pa);
    lemma_copied_keys(f, de, pa);
    lemma_copied_keys(f, st, pa);
    let before_p = head + cn + cd;
    assert forall|i: int| 0 <= i < before_p.len() implies (#[trigger] before_p[i]).0 != pa by {
        if 1 <= i < 1 + cn.len() {
            assert(before_p[i] == cn[i - 1]);
        } else if i >= 1 + cn.len() {
            assert(before_p[i] == cd[i - 1 - cn.len()]);
        }
    }
    assert(e =~= before_p + cp + cs);
    lemma_lookup_between(before_p, f, pa, cs);
    // strict
    lemma_copied_keys(f, nm, st);
    lemma_copied_keys(f, de, st);
    lemma_copied_keys(f, pa, st);
    let before_s = head + cn + cd + cp;
    let none = Seq::<(Seq<char>, JsonView)>::empty();
    assert forall|i: int| 0 <= i < before_s.len() implies (#[trigger] before_s[i]).0 != st by {
        if 1 <= i < 1 + cn.len() {
            assert(before_s[i] == cn[i - 1]);
        } else if 1 + cn.len() <= i < 1 + cn.len() + cd.len() {
            assert(before_s[i] == cd[i - 1 - cn.len()]);
        } else if i >= 1 + cn.len() + cd.len() {
            assert(before_s[i] == cp[i - 1 - cn.len() - cd.len()]);
        }
    }
    assert(e =~= before_s + cs + none);
    lemma_lookup_between(before_s, f, st, none);
    // no function member
    lemma_copied_keys(f, nm, fu);
    lemma_copied_keys(f, de, fu);
    lemma_copied_keys(f, pa, fu);
    lemma_copied_keys(f, st, fu);
    assert forall|i: int| 0 <= i < e.len() implies (#[trigger] e[i]).0 != fu by {
        if i == 0 {
        } else if i < 1 + cn.len() {
            assert(e[i] == cn[i - 1]);
        } else if i < 1 + cn.len() + cd.len() {
            assert(e[i] == cd[i - 1 - cn.len()]);
        } else if i < 1 + cn.len() + cd.len() + cp.len() {
            assert(e[i] == cp[i - 1 - cn.len() - cd.len()]);
        } else {
            assert(e[i] == cs[i - 1 - cn.len() - cd.len() - cp.len()]);
        }
    }
    lemma_lookup_absent(e, fu);
}

/// Every content part with a text contributes it, in order.
pub proof fn law_every_part_text_kept(items: Seq<JsonView>, x: JsonView)
    ensures
        part_texts(Seq::empty()) == Seq::<Seq<char>>::empty(),
        part_texts(items.push(x)) == match part_text(x) {
            Some(t) => part_texts(items).push(t),
            None => part_texts(items),
        },
{
    assert(items.push(x).drop_last() =~= items);
}

/// A content part's text: the string member `text` of an object part, or a string part itself;
/// no other part has one.
pub proof fn law_part_text(x: JsonView)
    ensures
        x is Object ==> part_text(x) == opt_str(x.get("text"@)),
        x is Str ==> part_text(x) == Some(x->Str_0),
        !(x is Object) && !(x is Str) ==> part_text(x) is None,
{
}

/// Joining: one part is itself, and a further part follows the separator.
pub proof fn law_joined(parts: Seq<Seq<char>>, sep: Seq<char>, p: Seq<char>)
    ensures
        joined(Seq::empty(), sep) == Seq::<char>::empty(),
        joined(seq![p], sep) == p,
        parts.len() > 0 ==> joined(parts.push(p), sep) == joined(parts, sep) + sep + p,
{
    assert(parts.push(p).drop_last() =~= parts);
}

/// A message's text: a string as it is, the texts of array parts joined by one space, any other
/// value as its JSON text.
pub proof fn law_content_text(c: MessageContent)
    ensures
        c is Text ==> content_text(c) == c->Text_0@,
        c is Parts ==> content_text(c) == joined(part_texts(models_of(c->Parts_0@)), " "@),
        c is Other ==> content_text(c) == c->Other_0@,
{
}

/// Each message that is not an instruction becomes one input message with its role and one
/// content part carrying the message's whole text: output text for the assistant, input text
/// for any other role.
pub proof fn law_input_item_carries_text(m: ChatMessage)
    requires
        !is_instruction_role(m.role@),
    ensures
        message_item(m) == (ItemView::Message {
            id: None,
            role: m.role@,
            content: seq![
                if m.role@ == "assistant"@ {
                    ContentView::OutputText(content_text(m.content))
                } else {
                    ContentView::InputText(content_text(m.content))
                },
            ],
        }),
{
}

/// Every instruction message with text contributes it, in order; other messages contribute
/// nothing to the instructions.
pub proof fn law_every_instruction_kept(msgs: Seq<ChatMessage>, m: ChatMessage)
    ensures
        instruction_parts(Seq::empty()) == Seq::<Seq<char>>::empty(),
        instruction_parts(msgs.push(m)) == if is_instruction_role(m.role@) && content_text(
            m.content,
        ).len() > 0 {
            instruction_parts(msgs).push(content_text(m.content))
        } else {
            instruction_parts(msgs)
        },
{
    assert(msgs.push(m).drop_last() =~= msgs);
}

/// The instructions are the instruction messages' texts joined by a blank line, or the default
/// instructions when there are none.
pub proof fn law_instructions_joined(msgs: Seq<ChatMessage>)
    ensures
        instruction_parts(msgs).len() > 0 ==> instructions_for(msgs) == joined(
            instruction_parts(msgs),
            "\n\n"@,
        ),
        instruction_parts(msgs).len() == 0 ==> instructions_for(msgs) == default_instructions(),
{
}

// ---------------------------------------------------------------------------
// The backend's event stream
// ---------------------------------------------------------------------------

/// A text delta appends its text and marks that a delta was seen.
pub proof fn law_delta_appends(events: Seq<Option<JsonView>>, e: JsonView, d: Seq<char>)
    requires
        opt_str(e.get("type"@)) == Some("response.output_text.delta"@),
        opt_str(e.get("delta"@)) == Some(d),
    ensures
        events_state(events.push(Some(e))) == (events_state(events).0 + d, true),
{
    assert(events.push(Some(e)).drop_last() =~= events);
}

/// Before any delta, a finished output item appends the concatenated texts of its parts.
pub proof fn law_done_item_appends(events: Seq<Option<JsonView>>, e: JsonView, parts: Seq<JsonView>)
    requires
        opt_str(e.get("type"@)) == Some("response.output_item.done"@),
        !events_state(events).1,
        e.get("item"@) matches Some(item) && item.get("content"@) == Some(JsonView::Array(parts)),
    ensures
        events_state(events.push(Some(e))) == (events_state(events).0 + parts_text(parts), false),
        done_item_text(e) == Some(parts_text(parts)),
{
    reveal_strlit("response.output_item.done");
    reveal_strlit("response.output_text.delta");
    assert("response.output_item.done"@[16] != "response.output_text.delta"@[16]);
    assert(events.push(Some(e)).drop_last() =~= events);
}

/// Any other event changes nothing: one without a string type, one of another type, a delta
/// event without a string delta, and a finished item without a `content` array.
pub proof fn law_other_events_ignored(events: Seq<Option<JsonView>>, e: JsonView)
    requires
        opt_str(e.get("type"@)) is None || (opt_str(e.get("type"@)) matches Some(t) && t
            != "response.output_text.delta"@ && t != "response.output_item.done"@) || (opt_str(
            e.get("type"@),
        ) == Some("response.output_text.delta"@) && opt_str(e.get("delta"@)) is None) || (opt_str(
            e.get("type"@),
        ) == Some("response.output_item.done"@) && done_item_text(e) is None),
    ensures
        events_state(events.push(Some(e))) == events_state(events),
{
    reveal_strlit("response.output_item.done");
    reveal_strlit("response.output_text.delta");
    assert("response.output_item.done"@[16] != "response.output_text.delta"@[16]);
    assert(events.push(Some(e)).drop_last() =~= events);
}

/// The reply is the text that the events carry, and the fallback message only when they carry
/// none.
pub proof fn law_reply_text(events: Seq<Option<JsonView>>)
    ensures
        events_state(events).0.len() > 0 ==> reply_text(events) == events_state(events).0,
        events_state(events).0.len() == 0 ==> reply_text(events) == fallback_reply(),
{
}

/// The text of a finished item's parts: every part's string `text`, in order.
pub proof fn law_parts_text(parts: Seq<JsonView>, x: JsonView)
    ensures
        parts_text(Seq::empty()) == Seq::<char>::empty(),
        parts_text(parts.push(x)) == parts_text(parts) + match opt_str(x.get("text"@)) {
            Some(t) => t,
            None => Seq::empty(),
        },
{
    assert(parts.push(x).drop_last() =~= parts);
}

/// A payload that was not JSON changes nothing.
pub proof fn law_unparsed_payload_ignored(events: Seq<Option<JsonView>>)
    ensures
        events_state(events.push(None)) == events_state(events),
{
    assert(events.push(None).drop_last() =~= events);
}

/// Reading an event stream line by line: a `data: ` line adds its payload, in order; a
/// `data: [DONE]` line ends the stream; any other line is passed over.
pub proof fn law_data_lines(line: Seq<char>, rest: Seq<Seq<char>>)
    ensures
        has_prefix(line, "data: "@) && line.skip(6) != "[DONE]"@ ==> data_payloads(seq![line] + rest)
            == seq![line.skip(6)] + data_payloads(rest),
        line == "data: [DONE]"@ ==> data_payloads(seq![line] + rest) == Seq::<Seq<char>>::empty(),
        !has_prefix(line, "data: "@) ==> data_payloads(seq![line] + rest) == data_payloads(rest),
{
    reveal_strlit("data: ");
    reveal_strlit("[DONE]");
    reveal_strlit("data: [DONE]");
    let all = seq![line] + rest;
    assert(all[0] == line);
    assert(all.skip(1) =~= rest);
    if line == "data: [DONE]"@ {
        assert(line.subrange(0, 6) =~= "data: "@);
        assert(line.skip(6) =~= "[DONE]"@);
    }
}

/// Splitting a text into lines: a line without line feed, and without a trailing carriage
/// return, followed by a line feed comes out as one line, before the lines of the rest; a
/// carriage return before the line feed is dropped.
pub proof fn law_text_lines(line: Seq<char>, rest: Seq<char>)
    requires
        forall|j: int| 0 <= j < line.len() ==> line[j] != '\n',
        line.len() == 0 || line.last() != '\r',
    ensures
        text_lines(line + seq!['\n'] + rest) == seq![line] + text_lines(rest),
        text_lines(line + seq!['\r', '\n'] + rest) == seq![line] + text_lines(rest),
{
    let s = line + seq!['\n'] + rest;
    let n = line.len() as int;
    assert(s[n] == '\n');
    assert(is_first_newline(s, n));
    let i = choose|i: int| is_first_newline(s, i);
    if i < n {
        assert(s[i] == line[i]);
    } else if i > n {
        assert(s[n] == '\n');
    }
    assert(i == n);
    assert(s.take(i) =~= line);
    assert(s.skip(i + 1) =~= rest);
    let line2 = line.push('\r');
    let s2 = line + seq!['\r', '\n'] + rest;
    assert(s2 =~= line2 + seq!['\n'] + rest);
    let m = line2.len() as int;
    assert(s2[m] == '\n');
    assert(is_first_newline(s2, m));
    let k = choose|k: int| is_first_newline(s2, k);
    if k < m {
        assert(s2[k] == line2[k]);
    } else if k > m {
        assert(s2[m] == '\n');
    }
    assert(k == m);
    assert(s2.take(k) =~= line2);
    assert(line2.drop_last() =~= line);
    assert(s2.skip(k + 1) =~= rest);
}

// ---------------------------------------------------------------------------
// Numbers
// ---------------------------------------------------------------------------

/// The number that a text of decimal digits reads as.
pub open spec fn decimal_value(s: Seq<char>) -> int
    decreases s.len(),
{
    if s.len() == 0 {
        0
    } else {
        10 * decimal_value(s.drop_last()) + (s.last() as int - '0' as int)
    }
}

/// Decimal notation reads back as the number written: it is made of digits only, is never
/// empty, and starts with `0` only for zero itself.
pub proof fn law_decimal_reads_back(n: nat)
    ensures
        decimal_value(decimal_nat(n)) == n,
        decimal_nat(n).len() > 0,
        forall|i: int| 0 <= i < decimal_nat(n).len() ==> '0' <= #[trigger] decimal_nat(n)[i] <= '9',
        n > 0 ==> decimal_nat(n)[0] != '0',
    decreases n,
{
    let m = (n % 10) as nat;
    assert(crate::text::digit_char(m) as int == 48 + m);
    if n < 10 {
        assert(decimal_nat(n).drop_last() =~= Seq::<char>::empty());
        assert(m == n);
        assert(decimal_nat(n).last() == crate::text::digit_char(m));
        assert(decimal_value(decimal_nat(n)) == 10 * decimal_value(Seq::<char>::empty()) + (
        crate::text::digit_char(m) as int - 48));
    } else {
        let q = (n / 10) as nat;
        law_decimal_reads_back(q);
        let d = decimal_nat(n);
        assert(d == decimal_nat(q).push(crate::text::digit_char((n % 10) as nat)));
        assert(d.drop_last() =~= decimal_nat(q));
        assert(d[0] == decimal_nat(q)[0]);
        assert(n == 10 * q + m);
        assert(decimal_value(d) == 10 * decimal_value(decimal_nat(q)) + (
        crate::text::digit_char(m) as int - 48));
        assert forall|i: int| 0 <= i < d.len() implies '0' <= #[trigger] d[i] <= '9' by {
            if i < d.len() - 1 {
                assert(d[i] == decimal_nat(q)[i]);
            }
        }
    }
}

/// Negative numbers are written with a leading minus sign before the notation of their size.
pub proof fn law_decimal_sign(x: int)
    ensures
        x < 0 ==> decimal_int(x) == seq!['-'] + decimal_nat((-x) as nat),
        x >= 0 ==> decimal_int(x) == decimal_nat(x as nat),
{
}

// ---------------------------------------------------------------------------
// Model-list payloads
// ---------------------------------------------------------------------------

/// What a backend model-list payload yields: without a `models` array it is missing; with one,
/// its models' slugs, unless none of them has a string slug.
pub proof fn law_payload_outcome(payload: JsonView, models: Seq<JsonView>)
    ensures
        !(payload.get("models"@) matches Some(JsonView::Array(_))) ==> payload_slugs(payload)
            == Err::<Seq<Seq<char>>, ModelsError>(ModelsError::MissingModels),
        payload.get("models"@) == Some(JsonView::Array(models)) ==> payload_slugs(payload) == if model_slugs(
            models,
        ).len() == 0 {
            Err::<Seq<Seq<char>>, ModelsError>(ModelsError::NoUsableModels)
        } else {
            Ok(model_slugs(models))
        },
{
}

// ---------------------------------------------------------------------------
// Request log, replayed requests and routing
// ---------------------------------------------------------------------------

/// The values of `authorization`, `cookie` and `set-cookie` headers, in any letter case, are
/// never logged.
pub proof fn law_secret_names_redacted(name: Seq<char>, value: Option<Seq<char>>)
    requires
        ascii_lower(name) == "authorization"@ || ascii_lower(name) == "cookie"@ || ascii_lower(name)
            == "set-cookie"@,
    ensures
        sanitized_value(name, value) == "[redacted]"@,
{
}

/// Any other header value is logged as it is, or cut to its first 256 characters followed by
/// `...` when longer; a value that is not text is logged as `[invalid utf-8]`.
pub proof fn law_logged_value(name: Seq<char>, value: Option<Seq<char>>)
    requires
        ascii_lower(name) != "authorization"@,
        ascii_lower(name) != "cookie"@,
        ascii_lower(name) != "set-cookie"@,
    ensures
        sanitized_value(name, value) == match value {
            Some(v) => if v.len() <= 256 {
                v
            } else {
                v.take(256) + "..."@
            },
            None => "[invalid utf-8]"@,
        },
{
    reveal_strlit("...");
    assert(seq!['.', '.', '.'] =~= "..."@);
}

/// A text cut for the log is its first `max` characters followed by `...`.
pub proof fn law_truncation_marks_cut(s: Seq<char>, max: nat)
    requires
        s.len() > max,
    ensures
        truncated(s, max) == s.take(max as int) + "..."@,
{
    reveal_strlit("...");
    assert(seq!['.', '.', '.'] =~= "..."@);
}

/// Header names are compared without regard to letter case: two names that differ only in case
/// are logged and replayed alike.
pub proof fn law_header_names_ignore_case(a: Seq<char>, b: Seq<char>, value: Option<Seq<char>>)
    requires
        ascii_lower(a) == ascii_lower(b),
    ensures
        sanitized_value(a, value) == sanitized_value(b, value),
        skips_replay(a) == skips_replay(b),
        replayed_value(a, value) == replayed_value(b, value),
{
}

/// A replayed request leaves out `host` and the `x-forwarded` family, and shows any other header
/// but the authorization as the log would.
pub proof fn law_replayed_values(name: Seq<char>, value: Option<Seq<char>>)
    ensures
        (ascii_lower(name) == "host"@ || has_prefix(ascii_lower(name), "x-forwarded"@))
            ==> skips_replay(name) && replayed_value(name, value) == "[skipped]"@,
        !skips_replay(name) && ascii_lower(name) != "authorization"@ ==> replayed_value(name, value)
            == shown_value(value),
{
}

/// Each header of a replayed request adds one `-H` argument, in order, unless it is skipped.
pub proof fn law_curl_header_args(headers: Seq<HeaderEntry>, h: HeaderEntry)
    ensures
        curl_header_args(Seq::empty()) == Seq::<char>::empty(),
        curl_header_args(headers.push(h)) == curl_header_args(headers) + if skips_replay(h.name@) {
            Seq::<char>::empty()
        } else {
            " -H '"@ + shell_escaped(
                h.name@ + ": "@ + replayed_value(h.name@, opt_string_view(h.value)),
            ) + "'"@
        },
{
    assert(headers.push(h).drop_last() =~= headers);
}

/// A credentials path that starts with `~/` is taken from the home directory, and fails only
/// when there is none; any other path is used as it is.
pub proof fn law_resolved_path(path: Seq<char>, home: Option<Seq<char>>)
    ensures
        has_prefix(path, "~/"@) ==> resolved_path(path, home) == match home {
            Some(h) => Ok::<Seq<char>, AuthPathError>(h + path.skip(1)),
            None => Err(AuthPathError::HomeNotSet),
        },
        !has_prefix(path, "~/"@) ==> resolved_path(path, home) == Ok::<
            Seq<char>,
            AuthPathError,
        >(path),
{
}

/// The kind of client, by its user agent in any letter case: a mention of `cline` wins, then
/// `vscode`, then a browser's `mozilla` or `chrome`; an empty user agent is unknown and any
/// other is custom.
pub proof fn law_client_kind(ua: Seq<char>, other: Seq<char>)
    ensures
        contains_text(ascii_lower(ua), "cline"@) ==> client_kind(ua) == "cline"@,
        !contains_text(ascii_lower(ua), "cline"@) && contains_text(ascii_lower(ua), "vscode"@)
            ==> client_kind(ua) == "vscode"@,
        !contains_text(ascii_lower(ua), "cline"@) && !contains_text(ascii_lower(ua), "vscode"@) && (
        contains_text(ascii_lower(ua), "mozilla"@) || contains_text(ascii_lower(ua), "chrome"@))
            ==> client_kind(ua) == "browser"@,
        ua.len() == 0 ==> client_kind(ua) == "unknown"@,
        ascii_lower(ua) == ascii_lower(other) ==> client_kind(ua) == client_kind(other),
{
    reveal_strlit("cline");
    reveal_strlit("vscode");
    reveal_strlit("mozilla");
    reveal_strlit("chrome");
    if ua.len() == 0 {
        assert(ascii_lower(ua).len() == 0);
        assert(!contains_text(ascii_lower(ua), "cline"@));
        assert(!contains_text(ascii_lower(ua), "vscode"@));
        assert(!contains_text(ascii_lower(ua), "mozilla"@));
        assert(!contains_text(ascii_lower(ua), "chrome"@));
    }
}

/// Routing: `GET /health`, `GET /models` or `/v1/models`, and `POST /chat/completions` or
/// `/v1/chat/completions`; nothing else is found.
pub proof fn law_routes(method: Seq<char>, path: Seq<char>)
    ensures
        (route_of(method, path) == Route::Health) == (method == "GET"@ && path == "/health"@),
        (route_of(method, path) == Route::Models) == (method == "GET"@ && (path == "/models"@ || path
            == "/v1/models"@)),
        (route_of(method, path) == Route::ChatCompletions) == (method == "POST"@ && (path
            == "/chat/completions"@ || path == "/v1/chat/completions"@)),
{
    reveal_strlit("/health");
    reveal_strlit("/models");
    reveal_strlit("/v1/models");
    assert("/health"@.len() == 7 && "/models"@.len() == 7);
    assert("/health"@[1] != "/models"@[1]);
    assert("/health"@.len() != "/v1/models"@.len());
    reveal_strlit("GET");
    reveal_strlit("POST");
    assert("GET"@.len() != "POST"@.len());
}

// ---------------------------------------------------------------------------
// Credentials sent to the backend
// ---------------------------------------------------------------------------

proof fn lemma_fixed_names_not_credentials(name: Seq<char>)
    requires
        name == "Content-Type"@ || name == "Accept"@ || name == "Accept-Encoding"@ || name
            == "Accept-Language"@ || name == "Referer"@ || name == "Origin"@ || name
            == "Sec-Fetch-Dest"@ || name == "Sec-Fetch-Mode"@ || name == "Sec-Fetch-Site"@ || name
            == "Cache-Control"@ || name == "Pragma"@ || name == "DNT"@ || name == "OpenAI-Beta"@
            || name == "originator"@ || name == "session_id"@,
    ensures
        name != "Authorization"@,
        name != "chatgpt-account-id"@,
{
    reveal_strlit("Authorization");
    reveal_strlit("chatgpt-account-id");
    reveal_strlit("Content-Type");
    reveal_strlit("Accept");
    reveal_strlit("Accept-Encoding");
    reveal_strlit("Accept-Language");
    reveal_strlit("Referer");
    reveal_strlit("Origin");
    reveal_strlit("Sec-Fetch-Dest");
    reveal_strlit("Sec-Fetch-Mode");
    reveal_strlit("Sec-Fetch-Site");
    reveal_strlit("Cache-Control");
    reveal_strlit("Pragma");
    reveal_strlit("DNT");
    reveal_strlit("OpenAI-Beta");
    reveal_strlit("originator");
    reveal_strlit("session_id");
    if name.len() == 13 {
        assert(name[0] != 'A');
    }
}

/// The credentials in a list of headers are the stored ones, account tokens first: every
/// `Authorization` header carries the access token when there are account tokens and the API
/// key otherwise; the account id goes with the access token; without tokens no account id is
/// sent; and whatever credentials are stored are sent.
pub open spec fn sends_stored_credentials(pairs: Seq<(Seq<char>, Seq<char>)>, auth: AuthData) -> bool {
    &&& forall|i: int|
        0 <= i < pairs.len() && (#[trigger] pairs[i]).0 == "Authorization"@ ==> match auth.tokens {
            Some(t) => pairs[i].1 == "Bearer "@ + t.access_token@,
            None => auth.api_key matches Some(k) && pairs[i].1 == "Bearer "@ + k@,
        }
    &&& forall|i: int|
        0 <= i < pairs.len() && (#[trigger] pairs[i]).0 == "chatgpt-account-id"@ ==> match auth.tokens {
            Some(t) => pairs[i].1 == t.account_id@,
            None => false,
        }
    &&& match auth.tokens {
        Some(t) => pairs.contains(("Authorization"@, "Bearer "@ + t.access_token@))
            && pairs.contains(("chatgpt-account-id"@, t.account_id@)),
        None => match auth.api_key {
            Some(k) => pairs.contains(("Authorization"@, "Bearer "@ + k@)),
            None => true,
        },
    }
}

proof fn lemma_credentials(
    pairs: Seq<(Seq<char>, Seq<char>)>,
    auth: AuthData,
    start: int,
)
    requires
        0 <= start,
        start + auth_header_pairs(auth).len() <= pairs.len(),
        forall|i: int|
            0 <= i < auth_header_pairs(auth).len() ==> #[trigger] pairs[start + i]
                == auth_header_pairs(auth)[i],
        forall|i: int|
            0 <= i < pairs.len() && !(start <= i < start + auth_header_pairs(auth).len()) ==> {
                let n = (#[trigger] pairs[i]).0;
                n == "Content-Type"@ || n == "Accept"@ || n == "Accept-Encoding"@ || n
                    == "Accept-Language"@ || n == "Referer"@ || n == "Origin"@ || n
                    == "Sec-Fetch-Dest"@ || n == "Sec-Fetch-Mode"@ || n == "Sec-Fetch-Site"@ || n
                    == "Cache-Control"@ || n == "Pragma"@ || n == "DNT"@ || n == "OpenAI-Beta"@
                    || n == "originator"@ || n == "session_id"@
            },
    ensures
        sends_stored_credentials(pairs, auth),
{
    reveal_strlit("Authorization");
    reveal_strlit("chatgpt-account-id");
    assert("Authorization"@.len() != "chatgpt-account-id"@.len());
    let extra = auth_header_pairs(auth);
    assert forall|i: int| 0 <= i < pairs.len() && (#[trigger] pairs[i]).0 == "Authorization"@ implies match auth.tokens {
        Some(t) => pairs[i].1 == "Bearer "@ + t.access_token@,
        None => auth.api_key matches Some(k) && pairs[i].1 == "Bearer "@ + k@,
    } by {
        if start <= i < start + extra.len() {
            assert(pairs[start + (i - start)] == extra[i - start]);
        } else {
            lemma_fixed_names_not_credentials(pairs[i].0);
        }
    }
    assert forall|i: int| 0 <= i < pairs.len() && (#[trigger] pairs[i]).0 == "chatgpt-account-id"@ implies match auth.tokens {
        Some(t) => pairs[i].1 == t.account_id@,
        None => false,
    } by {
        if start <= i < start + extra.len() {
            assert(pairs[start + (i - start)] == extra[i - start]);
        } else {
            lemma_fixed_names_not_credentials(pairs[i].0);
        }
    }
    match auth.tokens {
        Some(t) => {
            assert(pairs[start + 0] == extra[0]);
            assert(pairs[start + 1] == extra[1]);
        },
        None => match auth.api_key {
            Some(k) => {
                assert(pairs[start + 0] == extra[0]);
            },
            None => {},
        },
    }
}

/// The model-list request authenticates with the stored credentials, account tokens first.
pub proof fn law_models_request_credentials(auth: AuthData)
    ensures
        sends_stored_credentials(models_request_pairs(auth), auth),
{
    let pairs = models_request_pairs(auth);
    lemma_credentials(pairs, auth, 12);
}

/// The responses request authenticates with the stored credentials, account tokens first.
pub proof fn law_responses_request_credentials(auth: AuthData, session_id: Seq<char>)
    ensures
        sends_stored_credentials(responses_request_pairs(auth, session_id), auth),
{
    let pairs = responses_request_pairs(auth, session_id);
    lemma_credentials(pairs, auth, 14);
}

/// The backend requests say what they send and accept: the responses request sends JSON, asks
/// for an event stream and ends with its session id; the model-list request asks for JSON; both
/// name the `codex_cli_rs` originator.
pub proof fn law_request_framing(auth: AuthData, session_id: Seq<char>)
    ensures
        responses_request_pairs(auth, session_id)[0] == ("Content-Type"@, "application/json"@),
        responses_request_pairs(auth, session_id)[1] == ("Accept"@, "text/event-stream"@),
        responses_request_pairs(auth, session_id).last() == ("session_id"@, session_id),
        responses_request_pairs(auth, session_id).contains(("originator"@, "codex_cli_rs"@)),
        models_request_pairs(auth)[0] == ("Accept"@, "application/json"@),
        models_request_pairs(auth).contains(("originator"@, "codex_cli_rs"@)),
{
    assert(responses_request_pairs(auth, session_id)[13] == ("originator"@, "codex_cli_rs"@));
    assert(models_request_pairs(auth)[11] == ("originator"@, "codex_cli_rs"@));
}

} // verus!
