//! Properties of the proxy that span its operations, each proved from their specifications.

use vstd::prelude::*;
use vstd::string::*;

use crate::convert::{
    converted_tools, default_instructions, input_items, instruction_parts, instructions_for,
    is_instruction_role, message_item,
};
use crate::http::{
    auth_header_pairs, is_secret_header, replayed_value, responses_request_pairs, sanitized_value,
};
use crate::json::JsonView;
use crate::sse::{data_payloads, event_step, events_state, reply_text};
use crate::text::{
    ascii_lower, escaped_char, has_prefix, joined, shell_escaped, shell_unescaped, text_lines,
    truncated, is_first_newline, without_cr,
};
use crate::reply::{is_chat_reply, payload_slugs};
use crate::sse::{chunk_view, framed, stream_body, stream_chunks, stream_payloads};
use crate::types::{AuthData, ChatCompletionsRequest, ChatCompletionsResponse, ChatMessage, Usage};

verus! {

broadcast use vstd::string::group_string_axioms;

/// System and developer messages never reach the input: every input item is a message with
/// one content part, under a role that is neither, and that part is output text exactly when
/// the role is `assistant`.
pub proof fn law_input_excludes_instructions(msgs: Seq<ChatMessage>)
    ensures
        forall|i: int|
            0 <= i < input_items(msgs).len() ==> {
                &&& (#[trigger] input_items(msgs)[i]) is Message
                &&& !is_instruction_role(input_items(msgs)[i]->Message_role)
                &&& input_items(msgs)[i]->Message_content.len() == 1
                &&& (input_items(msgs)[i]->Message_content[0] is OutputText <==> input_items(
                    msgs,
                )[i]->Message_role == "assistant"@)
            },
    decreases msgs.len(),
{
    if msgs.len() > 0 {
        law_input_excludes_instructions(msgs.drop_last());
    }
}

/// Every message that is not an instruction reaches the input, in order: the input of a
/// conversation extended by such a message is the old input followed by that message.
pub proof fn law_input_keeps_messages(msgs: Seq<ChatMessage>, m: ChatMessage)
    requires
        !is_instruction_role(m.role@),
    ensures
        input_items(msgs.push(m)) == input_items(msgs).push(message_item(m)),
{
    assert(msgs.push(m).drop_last() =~= msgs);
}

/// An instruction message never changes the input.
pub proof fn law_instruction_leaves_input(msgs: Seq<ChatMessage>, m: ChatMessage)
    requires
        is_instruction_role(m.role@),
    ensures
        input_items(msgs.push(m)) == input_items(msgs),
{
    assert(msgs.push(m).drop_last() =~= msgs);
}

proof fn lemma_joined_nonempty(parts: Seq<Seq<char>>, sep: Seq<char>)
    requires
        parts.len() > 0,
        forall|i: int| 0 <= i < parts.len() ==> (#[trigger] parts[i]).len() > 0,
    ensures
        joined(parts, sep).len() > 0,
    decreases parts.len(),
{
    if parts.len() > 1 {
        lemma_joined_nonempty(parts.drop_last(), sep);
    }
}

proof fn lemma_instruction_parts_nonempty(msgs: Seq<ChatMessage>)
    ensures
        forall|i: int|
            0 <= i < instruction_parts(msgs).len() ==> (#[trigger] instruction_parts(msgs)[i]).len()
                > 0,
    decreases msgs.len(),
{
    if msgs.len() > 0 {
        let prev = msgs.drop_last();
        lemma_instruction_parts_nonempty(prev);
        assert forall|i: int|
            0 <= i < instruction_parts(msgs).len() implies (#[trigger] instruction_parts(
            msgs,
        )[i]).len() > 0 by {
            if i < instruction_parts(prev).len() {
                assert(instruction_parts(msgs)[i] == instruction_parts(prev)[i]);
            }
        }
    }
}

/// The backend always receives instructions: without system or developer text they are the
/// default instructions, and otherwise they are not empty.
pub proof fn law_instructions_never_empty(msgs: Seq<ChatMessage>)
    ensures
        instructions_for(msgs).len() > 0,
        instruction_parts(msgs).len() == 0 ==> instructions_for(msgs) == default_instructions(),
{
    lemma_instruction_parts_nonempty(msgs);
    if instruction_parts(msgs).len() > 0 {
        lemma_joined_nonempty(instruction_parts(msgs), "\n\n"@);
    } else {
        reveal_strlit("You are a helpful AI assistant.");
    }
}

/// Conversion never adds tools: there are at most as many converted tools as tools sent.
pub proof fn law_tools_not_added(tools: Seq<JsonView>)
    ensures
        converted_tools(tools).len() <= tools.len(),
    decreases tools.len(),
{
    if tools.len() > 0 {
        law_tools_not_added(tools.drop_last());
    }
}

/// A truncated log text keeps the start of the text, is at most three characters longer than
/// the limit, and is the text itself when it fits.
pub proof fn law_truncation(s: Seq<char>, max: nat)
    ensures
        truncated(s, max).len() <= max + 3,
        has_prefix(truncated(s, max), s.take(if s.len() <= max { s.len() as int } else { max as int })),
        s.len() <= max ==> truncated(s, max) == s,
{
    if s.len() > max {
        assert(truncated(s, max).subrange(0, max as int) =~= s.take(max as int));
    } else {
        assert(s.subrange(0, s.len() as int) =~= s);
        assert(s.take(s.len() as int) =~= s);
    }
}

proof fn lemma_escaped_empty(s: Seq<char>)
    ensures
        shell_escaped(s).len() == 0 <==> s.len() == 0,
    decreases s.len(),
{
    if s.len() > 0 {
        lemma_escaped_empty(s.drop_last());
    }
}

/// Escaping for single quotes loses nothing: different texts never escape to the same text.
pub proof fn law_shell_escape_injective(a: Seq<char>, b: Seq<char>)
    requires
        shell_escaped(a) == shell_escaped(b),
    ensures
        a == b,
    decreases a.len() + b.len(),
{
    lemma_escaped_empty(a);
    lemma_escaped_empty(b);
    if a.len() == 0 || b.len() == 0 {
        assert(a =~= b);
    } else {
        let ea = shell_escaped(a);
        let la = escaped_char(a.last());
        let lb = escaped_char(b.last());
        assert(ea.last() == la.last());
        assert(shell_escaped(b).last() == lb.last());
        assert(la.last() == a.last());
        assert(lb.last() == b.last());
        assert(a.last() == b.last());
        assert(la == lb);
        let pa = shell_escaped(a.drop_last());
        let pb = shell_escaped(b.drop_last());
        assert(pa =~= ea.subrange(0, ea.len() - la.len()));
        assert(pb =~= shell_escaped(b).subrange(0, shell_escaped(b).len() - lb.len()));
        law_shell_escape_injective(a.drop_last(), b.drop_last());
        assert(a =~= a.drop_last().push(a.last()));
        assert(b =~= b.drop_last().push(b.last()));
    }
}

proof fn lemma_escaped_front(c: char, s: Seq<char>)
    ensures
        shell_escaped(seq![c] + s) == escaped_char(c) + shell_escaped(s),
    decreases s.len(),
{
    let e = Seq::<char>::empty();
    assert(shell_escaped(e) == e);
    if s.len() == 0 {
        assert(seq![c] + s =~= seq![c]);
        assert(seq![c].drop_last() =~= e);
        assert(seq![c].last() == c);
        assert(shell_escaped(seq![c]) == shell_escaped(e) + escaped_char(c));
        assert(e + escaped_char(c) =~= escaped_char(c));
        assert(escaped_char(c) + e =~= escaped_char(c));
    } else {
        let t = seq![c] + s;
        assert(t.drop_last() =~= seq![c] + s.drop_last());
        assert(t.last() == s.last());
        lemma_escaped_front(c, s.drop_last());
        assert(escaped_char(c) + shell_escaped(s.drop_last()) + escaped_char(s.last())
            =~= escaped_char(c) + (shell_escaped(s.drop_last()) + escaped_char(s.last())));
    }
}

/// Escaping round-trips: a shell reading the escaped text between single quotes gets back
/// the text that was escaped.
pub proof fn law_shell_escape_round_trip(v: Seq<char>)
    ensures
        shell_unescaped(shell_escaped(v)) == v,
    decreases v.len(),
{
    if v.len() > 0 {
        let c = v[0];
        let rest = v.skip(1);
        assert(v =~= seq![c] + rest);
        lemma_escaped_front(c, rest);
        let e = shell_escaped(v);
        law_shell_escape_round_trip(rest);
        if c == '\'' {
            assert(e.take(4) =~= seq!['\'', '\\', '\'', '\'']);
            assert(e.skip(4) =~= shell_escaped(rest));
            assert(seq!['\''] + rest =~= v);
        } else {
            assert(e[0] == c);
            assert(e.len() >= 4 ==> e.take(4)[0] == c);
            assert(e.skip(1) =~= shell_escaped(rest));
            assert(seq![c] + rest =~= v);
        }
    }
}

/// Secrets never reach the request log: the logged value of an `authorization`, `cookie` or
/// `set-cookie` header is `[redacted]`, whatever its value.
pub proof fn law_secrets_redacted(name: Seq<char>, value: Option<Seq<char>>)
    requires
        is_secret_header(name),
    ensures
        sanitized_value(name, value) == "[redacted]"@,
{
}

/// A replayed request never carries the client's credentials: its authorization header is
/// replaced by a test key, whatever its value.
pub proof fn law_replay_hides_authorization(name: Seq<char>, value: Option<Seq<char>>)
    requires
        ascii_lower(name) == "authorization"@,
    ensures
        replayed_value(name, value) == "test-key"@,
{
    reveal_strlit("authorization");
    reveal_strlit("host");
    reveal_strlit("x-forwarded");
    assert("authorization"@[0] == 'a');
    assert("x-forwarded"@[0] == 'x');
    assert(ascii_lower(name) != "host"@) by {
        assert("authorization"@.len() != "host"@.len());
    }
    assert(!has_prefix(ascii_lower(name), "x-forwarded"@)) by {
        if has_prefix(ascii_lower(name), "x-forwarded"@) {
            assert(ascii_lower(name).subrange(0, 11)[0] == ascii_lower(name)[0]);
        }
    }
}

/// Nothing after the `[DONE]` event is read: when the lines before it hold no `[DONE]` payload,
/// the payloads are those of the lines before it, whatever follows.
pub proof fn law_done_ends_stream(before: Seq<Seq<char>>, after: Seq<Seq<char>>)
    requires
        forall|i: int|
            0 <= i < before.len() && has_prefix(before[i], "data: "@) ==> (#[trigger] before[i]).skip(
                "data: "@.len() as int,
            ) != "[DONE]"@,
    ensures
        data_payloads(before + seq!["data: [DONE]"@] + after) == data_payloads(before),
    decreases before.len(),
{
    reveal_strlit("data: ");
    reveal_strlit("[DONE]");
    reveal_strlit("data: [DONE]");
    let all = before + seq!["data: [DONE]"@] + after;
    if before.len() == 0 {
        assert(all[0] == "data: [DONE]"@);
        assert(all[0].subrange(0, 6) =~= "data: "@);
        assert(all[0].skip(6) =~= "[DONE]"@);
    } else {
        let rest = before.skip(1);
        assert(all[0] == before[0]);
        assert(all.skip(1) =~= rest + seq!["data: [DONE]"@] + after);
        law_done_ends_stream(rest, after);
    }
}

/// Collected text only grows: each event keeps the text collected so far as a prefix.
pub proof fn law_collected_text_grows(events: Seq<Option<JsonView>>, e: Option<JsonView>)
    ensures
        has_prefix(events_state(events.push(e)).0, events_state(events).0),
{
    assert(events.push(e).drop_last() =~= events);
    let s = events_state(events);
    let t = event_step(s, e);
    assert(t.0.subrange(0, s.0.len() as int) =~= s.0);
}

/// Once a text delta has been seen, finished output items add nothing: only deltas extend the
/// reply.
pub proof fn law_deltas_take_precedence(events: Seq<Option<JsonView>>, e: JsonView)
    requires
        events_state(events).1,
        crate::json::opt_str(e.get("type"@)) == Some("response.output_item.done"@),
    ensures
        events_state(events.push(Some(e))) == events_state(events),
{
    reveal_strlit("response.output_item.done");
    reveal_strlit("response.output_text.delta");
    assert(events.push(Some(e)).drop_last() =~= events);
    assert("response.output_item.done"@ != "response.output_text.delta"@) by {
        assert("response.output_item.done"@[16] != "response.output_text.delta"@[16]);
    }
}

/// The client always receives some text: the reply content is never empty.
pub proof fn law_reply_never_empty(events: Seq<Option<JsonView>>)
    ensures
        reply_text(events).len() > 0,
{
    reveal_strlit(
        "I apologize, but I couldn't process your request due to a backend API format issue. The proxy is receiving your request correctly but needs format refinement.",
    );
}

/// A streamed reply replays the complete reply: every chunk carries its id, model and time,
/// the second chunk carries its whole content, and the last one its `stop` finish reason.
pub proof fn law_stream_replays_reply(
    r: ChatCompletionsResponse,
    uuid: Seq<char>,
    model: Seq<char>,
    content: Seq<char>,
    usage: Usage,
)
    requires
        is_chat_reply(r, uuid, model, content, usage),
    ensures
        stream_chunks(r) == seq![
            chunk_view(
                "chatcmpl-"@ + uuid,
                r.created,
                model,
                JsonView::Object(seq![("role"@, JsonView::Str("assistant"@))]),
                JsonView::Null,
            ),
            chunk_view(
                "chatcmpl-"@ + uuid,
                r.created,
                model,
                JsonView::Object(seq![("content"@, JsonView::Str(content))]),
                JsonView::Null,
            ),
            chunk_view(
                "chatcmpl-"@ + uuid,
                r.created,
                model,
                JsonView::Object(Seq::empty()),
                JsonView::Str("stop"@),
            ),
        ],
{
}

/// The account's tokens take precedence over the API key: when they are present the backend
/// is called with the access token and the account id, and the API key is not sent.
pub proof fn law_account_tokens_take_precedence(auth: AuthData)
    requires
        auth.tokens is Some,
    ensures
        auth_header_pairs(auth) == seq![
            ("Authorization"@, "Bearer "@ + auth.tokens->0.access_token@),
            ("chatgpt-account-id"@, auth.tokens->0.account_id@),
        ],
{
}

/// A model list is only offered when it names at least one model.
pub proof fn law_model_list_never_empty(payload: JsonView)
    ensures
        payload_slugs(payload) matches Ok(slugs) ==> slugs.len() > 0,
{
}

/// A payload that fits on one event-stream line and is not the end marker.
pub open spec fn is_line_payload(p: Seq<char>) -> bool {
    &&& forall|i: int| 0 <= i < p.len() ==> p[i] != '\n' && p[i] != '\r'
    &&& p != "[DONE]"@
}

proof fn lemma_framed_front(ps: Seq<Seq<char>>)
    requires
        ps.len() > 0,
    ensures
        framed(ps) == "data: "@ + ps[0] + "\n\n"@ + framed(ps.drop_first()),
    decreases ps.len(),
{
    if ps.len() == 1 {
        assert(ps.drop_last() =~= Seq::<Seq<char>>::empty());
        assert(ps.drop_first() =~= Seq::<Seq<char>>::empty());
        assert(Seq::<char>::empty() + "data: "@ + ps[0] + "\n\n"@ =~= "data: "@ + ps[0] + "\n\n"@
            + Seq::<char>::empty());
    } else {
        lemma_framed_front(ps.drop_last());
        assert(ps.drop_last().drop_first() =~= ps.drop_first().drop_last());
        assert(ps.drop_first().last() == ps.last());
        assert(ps.drop_last()[0] == ps[0]);
        let a = "data: "@ + ps[0] + "\n\n"@;
        let m = framed(ps.drop_first().drop_last());
        assert(a + m + "data: "@ + ps.last() + "\n\n"@ =~= a + (m + "data: "@ + ps.last()
            + "\n\n"@));
    }
}

proof fn lemma_event_lines(p: Seq<char>, rest: Seq<char>)
    requires
        forall|i: int| 0 <= i < p.len() ==> p[i] != '\n' && p[i] != '\r',
    ensures
        text_lines("data: "@ + p + "\n\n"@ + rest) == seq!["data: "@ + p, Seq::<char>::empty()]
            + text_lines(rest),
{
    reveal_strlit("data: ");
    reveal_strlit("\n\n");
    let line = "data: "@ + p;
    let t = line + "\n\n"@ + rest;
    let k = line.len() as int;
    assert forall|j: int| 0 <= j < k implies t[j] != '\n' by {
        if j < 6 {
            assert(t[j] == "data: "@[j]);
        } else {
            assert(t[j] == p[j - 6]);
        }
    }
    assert(t[k] == '\n');
    assert(is_first_newline(t, k));
    let i = choose|i: int| is_first_newline(t, i);
    assert(i == k) by {
        if i < k {
            assert(t[i] != '\n');
        } else if k < i {
            assert(t[k] != '\n');
        }
    }
    assert(t.take(k) =~= line);
    assert(line.last() != '\r') by {
        if p.len() > 0 {
            assert(line.last() == p[p.len() - 1]);
        } else {
            assert(line.last() == ' ');
        }
    }
    assert(without_cr(line) == line);
    let u = t.skip(k + 1);
    assert(u =~= seq!['\n'] + rest);
    assert(is_first_newline(u, 0));
    let i2 = choose|i: int| is_first_newline(u, i);
    assert(i2 == 0) by {
        if i2 > 0 {
            assert(u[0] != '\n');
        }
    }
    assert(u.take(0) =~= Seq::<char>::empty());
    assert(without_cr(Seq::<char>::empty()) == Seq::<char>::empty());
    assert(u.skip(1) =~= rest);
    assert(text_lines(u) == seq![Seq::<char>::empty()] + text_lines(rest));
    assert(text_lines(t) == seq![line] + text_lines(u));
    assert(seq![line] + (seq![Seq::<char>::empty()] + text_lines(rest)) =~= seq![
        line,
        Seq::<char>::empty(),
    ] + text_lines(rest));
}

/// A client reading the event stream that the proxy writes gets back exactly the payloads
/// it was written from, in order, when each payload fits on one line.
pub proof fn law_stream_body_round_trip(payloads: Seq<Seq<char>>)
    requires
        forall|i: int| 0 <= i < payloads.len() ==> is_line_payload(#[trigger] payloads[i]),
    ensures
        stream_payloads(stream_body(payloads)) == payloads,
    decreases payloads.len(),
{
    reveal_strlit("data: ");
    reveal_strlit("\n\n");
    reveal_strlit("[DONE]");
    reveal_strlit("data: [DONE]\n\n");
    let done = "[DONE]"@;
    assert("data: [DONE]\n\n"@ =~= "data: "@ + done + "\n\n"@);
    if payloads.len() == 0 {
        assert(stream_body(payloads) =~= "data: "@ + done + "\n\n"@ + Seq::<char>::empty());
        lemma_event_lines(done, Seq::<char>::empty());
        assert(text_lines(Seq::<char>::empty()) =~= Seq::<Seq<char>>::empty());
        let ls = text_lines(stream_body(payloads));
        assert(ls[0] == "data: "@ + done);
        assert(ls[0].subrange(0, 6) =~= "data: "@);
        assert(ls[0].skip(6) =~= done);
        assert(data_payloads(ls) == Seq::<Seq<char>>::empty());
    } else {
        let p = payloads[0];
        let rest = payloads.drop_first();
        lemma_framed_front(payloads);
        assert(stream_body(payloads) =~= "data: "@ + p + "\n\n"@ + stream_body(rest));
        assert(is_line_payload(p));
        lemma_event_lines(p, stream_body(rest));
        assert forall|i: int| 0 <= i < rest.len() implies is_line_payload(#[trigger] rest[i]) by {
            assert(rest[i] == payloads[i + 1]);
        }
        law_stream_body_round_trip(rest);
        let ls = text_lines(stream_body(payloads));
        let tail = text_lines(stream_body(rest));
        assert(ls == seq!["data: "@ + p, Seq::<char>::empty()] + tail);
        assert(ls[0].subrange(0, 6) =~= "data: "@);
        assert(ls[0].skip(6) =~= p);
        assert(ls.skip(1) =~= seq![Seq::<char>::empty()] + tail);
        assert(!has_prefix(ls.skip(1)[0], "data: "@));
        assert(ls.skip(1).skip(1) =~= tail);
        assert(data_payloads(ls.skip(1)) == data_payloads(tail));
        assert(data_payloads(ls) == seq![p] + data_payloads(ls.skip(1)));
        assert(seq![p] + rest =~= payloads);
    }
}

/// The only credentials sent to the backend are the stored ones: every `Authorization`
/// header of a responses request carries the stored access token, or the stored API key when
/// there are no account tokens.
pub proof fn law_upstream_authorization_is_stored(auth: AuthData, session_id: Seq<char>)
    ensures
        forall|i: int|
            0 <= i < responses_request_pairs(auth, session_id).len() && (#[trigger] responses_request_pairs(
                auth,
                session_id,
            )[i]).0 == "Authorization"@ ==> match auth.tokens {
                Some(t) => responses_request_pairs(auth, session_id)[i].1 == "Bearer "@
                    + t.access_token@,
                None => auth.api_key matches Some(k) && responses_request_pairs(
                    auth,
                    session_id,
                )[i].1 == "Bearer "@ + k@,
            },
{
    reveal_strlit("Authorization");
    reveal_strlit("Content-Type");
    reveal_strlit("Accept");
    reveal_strlit("Accept-Encoding");
    reveal_strlit("Accept-Language");
    reveal_strlit("Referer");
    reveal_strlit("Origin");
    reveal_strlit("Sec-Fetch-Dest");
    reveal_strlit("Sec-Fetch-Mode");
    reveal_strlit("Sec-Fetch-Site");
    reveal_strlit("Cache-Control");
    reveal_strlit("Pragma");
    reveal_strlit("DNT");
    reveal_strlit("OpenAI-Beta");
    reveal_strlit("originator");
    reveal_strlit("chatgpt-account-id");
    reveal_strlit("session_id");
    let pairs = responses_request_pairs(auth, session_id);
    let a = "Authorization"@;
    assert forall|i: int| 0 <= i < pairs.len() && (#[trigger] pairs[i]).0 == a implies match auth.tokens {
        Some(t) => pairs[i].1 == "Bearer "@ + t.access_token@,
        None => auth.api_key matches Some(k) && pairs[i].1 == "Bearer "@ + k@,
    } by {
        if i < 14 {
            assert(pairs[i].0.len() != 13 || pairs[i].0[0] != 'A');
        } else {
            let extra = auth_header_pairs(auth);
            if i < 14 + extra.len() {
                assert(pairs[i] == extra[i - 14]);
                if auth.tokens is Some && i == 15 {
                    assert(pairs[i].0 =~= "chatgpt-account-id"@);
                }
            } else {
                assert(pairs[i].0 =~= "session_id"@);
            }
        }
    }
}

/// Whether the client asks for a stream changes nothing that is sent to the backend: two
/// requests that differ only in that flag are converted alike.
pub proof fn law_conversion_ignores_stream_flag(a: ChatCompletionsRequest, b: ChatCompletionsRequest)
    requires
        a.model@ == b.model@,
        a.messages == b.messages,
        a.tools == b.tools,
    ensures
        instructions_for(a.messages@) == instructions_for(b.messages@),
        input_items(a.messages@) == input_items(b.messages@),
        crate::convert::tools_for(a.tools) == crate::convert::tools_for(b.tools),
{
}

} // verus!
