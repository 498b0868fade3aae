//! Conversion of a Chat Completions request into a Responses API request.

use vstd::prelude::*;
use vstd::string::*;

use crate::json::{
    lemma_models_of, lookup, models_of, opt_str, opt_value_model, entry_models_of, JsonValue,
    JsonView,
};
use crate::text::{join_strings, joined, string_is, string_views};
use crate::types::{
    opt_string_view, item_views, ChatCompletionsRequest, ChatMessage, ContentItem, ContentView,
    ItemView, MessageContent, ResponseItem, ResponsesApiRequest,
};

verus! {

broadcast use vstd::string::group_string_axioms;

// ---------------------------------------------------------------------------
// Specification
// ---------------------------------------------------------------------------

/// The instructions sent when the request carries no system or developer text.
pub open spec fn default_instructions() -> Seq<char> {
    "You are a helpful AI assistant."@
}

/// The text that one content part contributes: the `text` member of an object, or a string itself.
pub open spec fn part_text(item: JsonView) -> Option<Seq<char>> {
    match item {
        JsonView::Object(entries) => opt_str(lookup(entries, "text"@)),
        _ => item.as_str(),
    }
}

/// The texts of the content parts that have one, in order.
pub open spec fn part_texts(items: Seq<JsonView>) -> Seq<Seq<char>>
    decreases items.len(),
{
    if items.len() == 0 {
        Seq::empty()
    } else {
        let prev = part_texts(items.drop_last());
        match part_text(items.last()) {
            Some(t) => prev.push(t),
            None => prev,
        }
    }
}

/// The plain text of a message's content: a string as it is, the texts of array parts
/// joined by one space, and any other value as its JSON text.
pub open spec fn content_text(c: MessageContent) -> Seq<char> {
    match c {
        MessageContent::Text(t) => t@,
        MessageContent::Parts(items) => joined(part_texts(models_of(items@)), " "@),
        MessageContent::Other(raw) => raw@,
    }
}

/// Roles whose messages become instructions rather than input.
pub open spec fn is_instruction_role(role: Seq<char>) -> bool {
    role == "system"@ || role == "developer"@
}

/// The input item that a non-instruction message becomes.
pub open spec fn message_item(m: ChatMessage) -> ItemView {
    let text = content_text(m.content);
    ItemView::Message {
        id: None,
        role: m.role@,
        content: seq![
            if m.role@ == "assistant"@ {
                ContentView::OutputText(text)
            } else {
                ContentView::InputText(text)
            },
        ],
    }
}

/// The input items of a conversation: every non-instruction message, in order.
pub open spec fn input_items(msgs: Seq<ChatMessage>) -> Seq<ItemView>
    decreases msgs.len(),
{
    if msgs.len() == 0 {
        Seq::empty()
    } else {
        let prev = input_items(msgs.drop_last());
        if is_instruction_role(msgs.last().role@) {
            prev
        } else {
            prev.push(message_item(msgs.last()))
        }
    }
}

/// The non-empty texts of the instruction messages, in order.
pub open spec fn instruction_parts(msgs: Seq<ChatMessage>) -> Seq<Seq<char>>
    decreases msgs.len(),
{
    if msgs.len() == 0 {
        Seq::empty()
    } else {
        let prev = instruction_parts(msgs.drop_last());
        let m = msgs.last();
        if is_instruction_role(m.role@) && content_text(m.content).len() > 0 {
            prev.push(content_text(m.content))
        } else {
            prev
        }
    }
}

/// The instructions of the converted request: the instruction texts separated by a blank
/// line, or the default instructions when there are none.
pub open spec fn instructions_for(msgs: Seq<ChatMessage>) -> Seq<char> {
    let parts = instruction_parts(msgs);
    if parts.len() == 0 {
        default_instructions()
    } else {
        joined(parts, "\n\n"@)
    }
}

/// An entry copied from a function description, when the description has that member.
pub open spec fn copied(f: JsonView, key: Seq<char>) -> Seq<(Seq<char>, JsonView)> {
    match f.get(key) {
        Some(v) => seq![(key, v)],
        None => Seq::empty(),
    }
}

/// A Chat Completions tool in Responses API form. A `function` tool has its function's
/// `name`, `description`, `parameters` and `strict` lifted beside `type`; any other typed
/// tool is kept as it is; a tool without a string `type`, or a `function` tool without a
/// function object, is dropped.
pub open spec fn converted_tool(tool: JsonView) -> Option<JsonView> {
    match opt_str(tool.get("type"@)) {
        Some(t) => if t == "function"@ {
            match tool.get("function"@) {
                Some(f) => match f {
                    JsonView::Object(_) => Some(
                        JsonView::Object(
                            seq![("type"@, JsonView::Str(t))] + copied(f, "name"@) + copied(
                                f,
                                "description"@,
                            ) + copied(f, "parameters"@) + copied(f, "strict"@),
                        ),
                    ),
                    _ => None,
                },
                None => None,
            }
        } else {
            Some(tool)
        },
        None => None,
    }
}

/// The converted tools, in order, without the dropped ones.
pub open spec fn converted_tools(tools: Seq<JsonView>) -> Seq<JsonView>
    decreases tools.len(),
{
    if tools.len() == 0 {
        Seq::empty()
    } else {
        let prev = converted_tools(tools.drop_last());
        match converted_tool(tools.last()) {
            Some(t) => prev.push(t),
            None => prev,
        }
    }
}

/// The converted tools of a request; none when the request has no tools.
pub open spec fn tools_for(tools: Option<Vec<JsonValue>>) -> Seq<JsonView> {
    match tools {
        Some(t) => converted_tools(models_of(t@)),
        None => Seq::empty(),
    }
}

// ---------------------------------------------------------------------------
// Implementation
// ---------------------------------------------------------------------------

/// The text of one content part.
fn part_text_of(item: &JsonValue) -> (r: Option<String>)
    ensures
        opt_string_view(r) == part_text(item@),
{
    match item {
        JsonValue::Object(_) => match item.get("text") {
            Some(t) => match t.as_str() {
                Some(s) => Some(s.clone()),
                None => None,
            },
            None => None,
        },
        _ => match item.as_str() {
            Some(s) => Some(s.clone()),
            None => None,
        },
    }
}

/// The plain text of a message's content.
pub fn content_text_of(c: &MessageContent) -> (r: String)
    ensures
        r@ == content_text(*c),
{
    match c {
        MessageContent::Text(t) => t.clone(),
        MessageContent::Other(raw) => raw.clone(),
        MessageContent::Parts(items) => {
            proof {
                lemma_models_of(items@);
            }
            let mut texts: Vec<String> = Vec::new();
            let mut i: usize = 0;
            assert(items@.take(0) =~= Seq::<JsonValue>::empty());
            assert(models_of(Seq::<JsonValue>::empty()) =~= Seq::<JsonView>::empty());
            assert(string_views(texts@) =~= Seq::<Seq<char>>::empty());
            while i < items.len()
                invariant
                    i <= items.len(),
                    string_views(texts@) == part_texts(models_of(items@.take(i as int))),
                decreases items.len() - i,
            {
                let ghost prev = texts@;
                let t = part_text_of(&items[i]);
                proof {
                    lemma_models_of(items@.take(i + 1));
                    lemma_models_of(items@.take(i as int));
                    assert(models_of(items@.take(i + 1)).drop_last() =~= models_of(
                        items@.take(i as int),
                    ));
                }
                match t {
                    Some(s) => {
                        texts.push(s);
                        assert(string_views(texts@) =~= string_views(prev).push(texts@.last()@));
                    },
                    None => {},
                }
                i = i + 1;
            }
            assert(items@.take(items.len() as int) =~= items@);
            join_strings(&texts, " ")
        },
    }
}

/// Appends member `key` of the function description `f`, when it has one.
fn copy_member(out: &mut Vec<(String, JsonValue)>, f: &JsonValue, key: &str)
    ensures
        entry_models_of(final(out)@) == entry_models_of(old(out)@) + copied(f@, key@),
{
    match f.get(key) {
        Some(v) => {
            let ghost prev = out@;
            out.push((String::from_str(key), v.clone_value()));
            assert(out@.drop_last() =~= prev);
            assert(entry_models_of(out@) =~= entry_models_of(prev) + copied(f@, key@));
        },
        None => {
            assert(entry_models_of(out@) =~= entry_models_of(out@) + Seq::<
                (Seq<char>, JsonView),
            >::empty());
        },
    }
}

/// One tool in Responses API form, or nothing when it is dropped.
pub fn convert_tool(tool: &JsonValue) -> (r: Option<JsonValue>)
    ensures
        opt_value_model(r) == converted_tool(tool@),
{
    let t = match tool.get("type") {
        Some(v) => match v.as_str() {
            Some(s) => s,
            None => return None,
        },
        None => return None,
    };
    if string_is(t, "function") {
        match tool.get("function") {
            Some(f) => match f {
                JsonValue::Object(_) => {
                    let mut entries: Vec<(String, JsonValue)> = Vec::new();
                    let type_key = String::from_str("type");
                    let type_value = JsonValue::Str(t.clone());
                    entries.push((type_key, type_value));
                    assert(entries@.last().1@ == JsonView::Str(t@));
                    assert(entries@.drop_last() =~= Seq::<(String, JsonValue)>::empty());
                    assert(entry_models_of(Seq::<(String, JsonValue)>::empty()) =~= Seq::<
                        (Seq<char>, JsonView),
                    >::empty());
                    assert(entry_models_of(entries@) =~= seq![("type"@, JsonView::Str(t@))]);
                    copy_member(&mut entries, f, "name");
                    copy_member(&mut entries, f, "description");
                    copy_member(&mut entries, f, "parameters");
                    copy_member(&mut entries, f, "strict");
                    let r = JsonValue::Object(entries);
                    Some(r)
                },
                _ => None,
            },
            None => None,
        }
    } else {
        Some(tool.clone_value())
    }
}

/// All tools in Responses API form, in order, without the dropped ones.
pub fn convert_tools(tools: &Vec<JsonValue>) -> (r: Vec<JsonValue>)
    ensures
        models_of(r@) == converted_tools(models_of(tools@)),
{
    let mut out: Vec<JsonValue> = Vec::new();
    let mut i: usize = 0;
    assert(tools@.take(0) =~= Seq::<JsonValue>::empty());
    while i < tools.len()
        invariant
            i <= tools.len(),
            models_of(out@) == converted_tools(models_of(tools@.take(i as int))),
        decreases tools.len() - i,
    {
        let ghost prev = out@;
        let c = convert_tool(&tools[i]);
        proof {
            lemma_models_of(tools@.take(i + 1));
            lemma_models_of(tools@.take(i as int));
            assert(models_of(tools@.take(i + 1)).drop_last() =~= models_of(tools@.take(i as int)));
            assert(models_of(tools@.take(i + 1)).last() == tools@[i as int].model());
        }
        match c {
            Some(v) => {
                out.push(v);
                assert(out@.drop_last() =~= prev);
            },
            None => {},
        }
        i = i + 1;
    }
    assert(tools@.take(tools.len() as int) =~= tools@);
    out
}

/// Converts a Chat Completions request into the Responses API request sent to the backend.
///
/// System and developer messages become the instructions; every other message becomes an
/// input message with its role, as output text for the assistant and input text otherwise.
pub fn convert_chat_to_responses(chat_req: ChatCompletionsRequest) -> (r: ResponsesApiRequest)
    ensures
        r.model@ == chat_req.model@,
        r.instructions@ == instructions_for(chat_req.messages@),
        item_views(r.input@) == input_items(chat_req.messages@),
        models_of(r.tools@) == tools_for(chat_req.tools),
        r.tool_choice@ == "auto"@,
        !r.parallel_tool_calls,
        r.reasoning is None,
        !r.store,
        !r.stream,
        r.included@.len() == 0,
{
    let mut input: Vec<ResponseItem> = Vec::new();
    let mut system_parts: Vec<String> = Vec::new();
    let ghost msgs = chat_req.messages@;
    let mut i: usize = 0;
    assert(msgs.take(0) =~= Seq::<ChatMessage>::empty());
    assert(item_views(input@) =~= Seq::<ItemView>::empty());
    assert(string_views(system_parts@) =~= Seq::<Seq<char>>::empty());
    while i < chat_req.messages.len()
        invariant
            msgs == chat_req.messages@,
            i <= msgs.len(),
            item_views(input@) == input_items(msgs.take(i as int)),
            string_views(system_parts@) == instruction_parts(msgs.take(i as int)),
        decreases msgs.len() - i,
    {
        let msg = &chat_req.messages[i];
        let text = content_text_of(&msg.content);
        assert(msgs.take(i + 1).drop_last() =~= msgs.take(i as int));
        assert(msgs.take(i + 1).last() == msgs[i as int]);
        if string_is(&msg.role, "system") || string_is(&msg.role, "developer") {
            if !text.as_str().is_empty() {
                let ghost prev = system_parts@;
                system_parts.push(text);
                assert(string_views(system_parts@) =~= string_views(prev).push(
                    system_parts@.last()@,
                ));
            }
        } else {
            let item = if string_is(&msg.role, "assistant") {
                ContentItem::OutputText { text }
            } else {
                ContentItem::InputText { text }
            };
            let mut content: Vec<ContentItem> = Vec::new();
            content.push(item);
            let ghost prev = input@;
            input.push(ResponseItem::Message { id: None, role: msg.role.clone(), content });
            assert(item_views(input@) =~= item_views(prev).push(input@.last()@));
            assert(input@.last()@ == message_item(msgs[i as int])) by {
                assert(content@.map_values(|c: ContentItem| c@) =~= message_item(
                    msgs[i as int],
                )->Message_content);
            }
        }
        i = i + 1;
    }
    assert(msgs.take(msgs.len() as int) =~= msgs);
    let instructions = if system_parts.len() == 0 {
        String::from_str("You are a helpful AI assistant.")
    } else {
        join_strings(&system_parts, "\n\n")
    };
    let tools = match &chat_req.tools {
        Some(t) => convert_tools(t),
        None => Vec::new(),
    };
    ResponsesApiRequest {
        model: chat_req.model,
        instructions,
        input,
        tools,
        tool_choice: String::from_str("auto"),
        parallel_tool_calls: false,
        reasoning: None,
        store: false,
        stream: false,
        included: Vec::new(),
    }
}

} // verus!
