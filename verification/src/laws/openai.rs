//! What reaches an OpenAI-compatible endpoint, and what becomes of its replies, whole or
//! streamed.
use vstd::prelude::*;

use crate::json::{json_read, json_text, JsonModel};
use crate::provider::openai::{
    body_members, chat_request, law_merged, merged, merged_all, parts_of, read_response,
    stream_members, stream_refused, taken, StreamHead, StreamModel,
};
use crate::provider::types::{ChatRequestModel, FinishReason, Role};
use crate::provider::wire::{endpoint_of, token_count, EndpointModel};

verus! {

/// The body of a request.
pub open spec fn body(req: ChatRequestModel) -> JsonModel {
    JsonModel::Obj(body_members(req))
}

proof fn lemma_keys()
    ensures
        "model"@.len() == 5 && "model"@[0] == 'm',
        "messages"@.len() == 8,
        "max_tokens"@.len() == 10 && "max_tokens"@[0] == 'm',
        "temperature"@.len() == 11,
        "tools"@.len() == 5 && "tools"@[0] == 't',
        "stream"@.len() == 6,
        "stream_options"@.len() == 14,
        "role"@.len() == 4 && "role"@[0] == 'r',
        "content"@.len() == 7,
        "tool_calls"@.len() == 10 && "tool_calls"@[0] == 't',
        "tool_call_id"@.len() == 12,
        "id"@.len() == 2,
        "type"@.len() == 4 && "type"@[0] == 't',
        "function"@.len() == 8,
        "name"@.len() == 4 && "name"@[0] == 'n',
        "description"@.len() == 11,
        "parameters"@.len() == 10 && "parameters"@[0] == 'p',
        "arguments"@.len() == 9,
        "index"@.len() == 5 && "index"@[0] == 'i',
{
    reveal_strlit("model");
    reveal_strlit("messages");
    reveal_strlit("max_tokens");
    reveal_strlit("temperature");
    reveal_strlit("tools");
    reveal_strlit("stream");
    reveal_strlit("stream_options");
    reveal_strlit("role");
    reveal_strlit("content");
    reveal_strlit("tool_calls");
    reveal_strlit("tool_call_id");
    reveal_strlit("id");
    reveal_strlit("type");
    reveal_strlit("function");
    reveal_strlit("name");
    reveal_strlit("description");
    reveal_strlit("parameters");
    reveal_strlit("arguments");
    reveal_strlit("index");
}

/// The settings of a request reach the endpoint as they are, and those that are not set do
/// not show.
pub proof fn law_settings_are_sent(req: ChatRequestModel)
    ensures
        body(req).at("model"@) == JsonModel::Str(req.model),
        body(req).at("max_tokens"@) == JsonModel::Int(req.max_tokens as int),
        body(req).get("temperature"@) == req.temperature,
        body(req).get("tools"@) is Some <==> req.tools.len() > 0,
{
    lemma_keys();
}

/// Every tool of a request is offered to the model, in order: as a function with its name,
/// its description and its parameters.
pub proof fn law_tools_are_offered(req: ChatRequestModel, i: int)
    requires
        0 <= i < req.tools.len(),
    ensures
        ({
            let tools = body(req).at("tools"@);
            let t = tools->Arr_0[i];
            &&& tools is Arr
            &&& tools->Arr_0.len() == req.tools.len()
            &&& t.at("type"@) == JsonModel::Str("function"@)
            &&& t.at("function"@).at("name"@) == JsonModel::Str(req.tools[i].name)
            &&& t.at("function"@).at("description"@) == JsonModel::Str(req.tools[i].description)
            &&& t.at("function"@).at("parameters"@) == req.tools[i].parameters
        }),
{
    lemma_keys();
}

/// The conversation starts with the system prompt, where there is one, and goes on with the
/// messages of the history, one for one.
pub proof fn law_system_comes_first(req: ChatRequestModel)
    ensures
        ({
            let all = body(req).at("messages"@);
            &&& all is Arr
            &&& match req.system {
                Some(text) => all->Arr_0.len() == req.messages.len() + 1
                    && all->Arr_0[0].at("role"@) == JsonModel::Str("system"@)
                    && all->Arr_0[0].at("content"@) == JsonModel::Str(text),
                None => all->Arr_0.len() == req.messages.len(),
            }
        }),
{
    lemma_keys();
}

/// The place of message `i` of the history in the body.
pub open spec fn message_sent(req: ChatRequestModel, i: int) -> JsonModel {
    let first: int = if req.system is Some {
        1
    } else {
        0
    };
    body(req).at("messages"@)->Arr_0[first + i]
}

/// A message of the history reaches the model as what it is: under its role, with its
/// content, with the calls that it makes, and for the call that it answers.
pub proof fn law_message_is_sent(req: ChatRequestModel, i: int)
    requires
        0 <= i < req.messages.len(),
    ensures
        ({
            let m = req.messages[i];
            let w = message_sent(req, i);
            let calls = w.at("tool_calls"@);
            &&& w.at("role"@) == JsonModel::Str(
                match m.role {
                    Role::System => "system"@,
                    Role::User => "user"@,
                    Role::Assistant => "assistant"@,
                    Role::Tool => "tool"@,
                },
            )
            &&& m.content.len() > 0 ==> w.at("content"@) == JsonModel::Str(m.content)
            &&& m.content.len() == 0 ==> w.at("content"@) == (if calls is Arr {
                JsonModel::Null
            } else {
                JsonModel::Str(m.content)
            })
            &&& m.role == Role::Tool ==> w.at("tool_call_id"@) == match m.tool_call_id {
                Some(id) => JsonModel::Str(id),
                None => JsonModel::Null,
            }
            &&& calls is Arr <==> m.role == Role::Assistant && m.tool_calls.len() > 0
            &&& calls is Arr ==> calls->Arr_0.len() == m.tool_calls.len() && forall|j: int|
                0 <= j < m.tool_calls.len() ==> {
                    let c = #[trigger] calls->Arr_0[j];
                    &&& c.at("id"@) == JsonModel::Str(m.tool_calls[j].id)
                    &&& c.at("type"@) == JsonModel::Str("function"@)
                    &&& c.at("function"@).at("name"@) == JsonModel::Str(m.tool_calls[j].name)
                    &&& c.at("function"@).at("arguments"@) == JsonModel::Str(
                        json_text(m.tool_calls[j].arguments),
                    )
                }
        }),
{
    lemma_keys();
    let m = req.messages[i];
    assert(m.content.len() == 0 ==> m.content =~= Seq::empty());
}

/// The calls that a message of a reply makes.
pub open spec fn calls_made(choice: JsonModel) -> Seq<JsonModel> {
    match choice.at("message"@).at("tool_calls"@) {
        JsonModel::Arr(s) => s,
        _ => Seq::empty(),
    }
}

/// A reply is read from its first choice: its text, every call in order with its id, its
/// name and its arguments, and why it ended. Arguments that are no JSON count as none.
pub proof fn law_reply_is_read(v: JsonModel, s: Seq<JsonModel>)
    requires
        v.at("choices"@) == JsonModel::Arr(s),
        s.len() > 0,
    ensures
        read_response(v) matches Ok(r) && {
            let calls = calls_made(s[0]);
            let reason = s[0].at("finish_reason"@);
            &&& match s[0].at("message"@).at("content"@) {
                JsonModel::Str(text) => r.content == text,
                _ => r.content.len() == 0,
            }
            &&& r.tool_calls.len() == calls.len()
            &&& forall|i: int|
                0 <= i < calls.len() ==> {
                    let c = #[trigger] r.tool_calls[i];
                    let f = calls[i].at("function"@);
                    &&& calls[i].at("id"@) matches JsonModel::Str(id) ==> c.id == id
                    &&& f.at("name"@) matches JsonModel::Str(name) ==> c.name == name
                    &&& !(calls[i].at("id"@) is Str) ==> c.id.len() == 0
                    &&& !(f.at("name"@) is Str) ==> c.name.len() == 0
                    &&& !(f.at("arguments"@) is Str) ==> match json_read("{}"@) {
                        Ok(arguments) => c.arguments == arguments,
                        Err(_) => c.arguments == JsonModel::Obj(Map::empty()),
                    }
                    &&& f.at("arguments"@) matches JsonModel::Str(text) ==> match json_read(text) {
                        Ok(arguments) => c.arguments == arguments,
                        Err(_) => c.arguments == JsonModel::Obj(Map::empty()),
                    }
                }
            &&& reason == JsonModel::Str("stop"@) ==> r.finish == FinishReason::Stop
            &&& reason == JsonModel::Str("tool_calls"@) ==> r.finish == FinishReason::ToolCalls
            &&& reason == JsonModel::Str("length"@) ==> r.finish == FinishReason::Length
            &&& reason != JsonModel::Str("stop"@) && reason != JsonModel::Str("tool_calls"@)
                && reason != JsonModel::Str("length"@) ==> r.finish == if calls.len() > 0 {
                FinishReason::ToolCalls
            } else {
                FinishReason::Other
            }
        },
{
    reveal_strlit("stop");
    reveal_strlit("tool_calls");
    reveal_strlit("length");
    assert("stop"@.len() == 4 && "tool_calls"@.len() == 10 && "length"@.len() == 6);
}

/// A response without a choice is an error; any other is a reply.
pub proof fn law_choice_is_needed(v: JsonModel)
    ensures
        read_response(v) is Ok <==> v.at("choices"@) is Arr && v.at("choices"@)->Arr_0.len() > 0,
        read_response(v) matches Err(e) ==> e == crate::error::ErrorModel::Provider(
            "openai: no choices"@,
        ),
{
}

/// The tokens of a reply are those that its `usage` counts, in one piece or streamed.
pub proof fn law_usage_is_read(v: JsonModel, state: StreamModel, i: u32, o: u32)
    requires
        v.at("usage"@).at("prompt_tokens"@) == JsonModel::Int(i as int),
        v.at("usage"@).at("completion_tokens"@) == JsonModel::Int(o as int),
    ensures
        read_response(v) matches Ok(r) ==> r.usage.input_tokens == i && r.usage.output_tokens == o,
        state.after(v).usage.input_tokens == i,
        state.after(v).usage.output_tokens == o,
        state.after(v).response().usage == state.after(v).usage,
{
    assert((i as u64) as u32 == i) by (bit_vector);
    assert((o as u64) as u32 == o) by (bit_vector);
    assert(JsonModel::Int(i as int).uint() == Some(i as u64));
    assert(JsonModel::Int(o as int).uint() == Some(o as u64));
}

/// An event that says nothing of tokens leaves their count as it was.
pub proof fn law_usage_stays(v: JsonModel, state: StreamModel)
    requires
        v.at("usage"@) is Null,
    ensures
        state.after(v).usage == state.usage,
{
}

/// A streamed text adds up: an event adds the text of its delta at the end, and leaves what
/// was there.
pub proof fn law_delta_adds_text(v: JsonModel, state: StreamModel, s: Seq<JsonModel>)
    requires
        v.at("choices"@) == JsonModel::Arr(s),
        s.len() > 0,
    ensures
        state.after(v).response().content == match s[0].at("delta"@).at("content"@) {
            JsonModel::Str(text) => state.content + text,
            _ => state.content,
        },
{
    if let JsonModel::Str(text) = s[0].at("delta"@).at("content"@) {
        if text.len() == 0 {
            assert(state.content + text =~= state.content);
        }
    }
}

/// An event without a choice changes neither text nor calls nor the reason of the end.
pub proof fn law_no_choice_no_change(v: JsonModel, state: StreamModel)
    requires
        !(v.at("choices"@) is Arr) || v.at("choices"@)->Arr_0.len() == 0,
    ensures
        state.after(v).content == state.content,
        state.after(v).calls == state.calls,
        state.after(v).finish == state.finish,
{
}

/// A fragment of a tool call goes to the call with its number, and to no other: its id is
/// the call's id from then on, and its name and its arguments add to those that were there.
pub proof fn law_fragment_adds_to_its_call(
    s: Seq<(u64, crate::provider::openai::CallPartsModel)>,
    fragment: JsonModel,
    n: u64,
    k: u64,
)
    requires
        crate::provider::openai::ascending(s),
        fragment.at("index"@) == JsonModel::Int(n as int),
    ensures
        ({
            let f = fragment.at("function"@);
            let before = parts_of(s, k);
            let after = parts_of(merged(s, fragment), k);
            if k == n {
                &&& after.id == match fragment.at("id"@) {
                    JsonModel::Str(id) => id,
                    _ => before.id,
                }
                &&& after.name == match f.at("name"@) {
                    JsonModel::Str(name) => before.name + name,
                    _ => before.name,
                }
                &&& after.arguments == match f.at("arguments"@) {
                    JsonModel::Str(text) => before.arguments + text,
                    _ => before.arguments,
                }
            } else {
                after == before
            }
        }),
{
    law_merged(s, fragment, k);
    let before = parts_of(s, k);
    assert(before.name + Seq::<char>::empty() =~= before.name);
    assert(before.arguments + Seq::<char>::empty() =~= before.arguments);
}

/// Every fragment of an event is taken in, in order.
pub proof fn law_fragments_are_taken(
    v: JsonModel,
    state: StreamModel,
    s: Seq<JsonModel>,
    fragments: Seq<JsonModel>,
)
    requires
        v.at("choices"@) == JsonModel::Arr(s),
        s.len() > 0,
        s[0].at("delta"@).at("tool_calls"@) == JsonModel::Arr(fragments),
    ensures
        fragments.len() == 0 ==> state.after(v).calls == state.calls,
        fragments.len() == 1 ==> state.after(v).calls == merged(state.calls, fragments[0]),
        state.after(v).calls == merged_all(state.calls, fragments),
{
    if fragments.len() == 1 {
        assert(fragments.drop_last() =~= Seq::empty());
        assert(fragments.last() == fragments[0]);
        assert(merged_all(state.calls, fragments.drop_last()) == state.calls);
    }
}

/// The calls of a streamed reply are those that were gathered, in order: with id and name
/// as they came, and with the arguments that their text says.
pub proof fn law_gathered_calls(state: StreamModel, i: int)
    requires
        0 <= i < state.calls.len(),
    ensures
        ({
            let r = state.response();
            let parts = state.calls[i].1;
            &&& r.tool_calls.len() == state.calls.len()
            &&& r.tool_calls[i].id == parts.id
            &&& r.tool_calls[i].name == parts.name
            &&& match json_read(parts.arguments) {
                Ok(arguments) => r.tool_calls[i].arguments == arguments,
                Err(_) => r.tool_calls[i].arguments == JsonModel::Obj(Map::empty()),
            }
        }),
{
}

/// The reason that an event gives for the end stands until another is given; what is no
/// reason changes nothing.
pub proof fn law_reason_stands(v: JsonModel, state: StreamModel, s: Seq<JsonModel>)
    requires
        v.at("choices"@) == JsonModel::Arr(s),
        s.len() > 0,
    ensures
        ({
            let reason = s[0].at("finish_reason"@);
            &&& reason == JsonModel::Str("stop"@) ==> state.after(v).finish == FinishReason::Stop
            &&& reason == JsonModel::Str("tool_calls"@) ==> state.after(v).finish
                == FinishReason::ToolCalls
            &&& reason == JsonModel::Str("length"@) ==> state.after(v).finish
                == FinishReason::Length
            &&& reason != JsonModel::Str("stop"@) && reason != JsonModel::Str("tool_calls"@)
                && reason != JsonModel::Str("length"@) ==> state.after(v).finish == state.finish
        }),
{
    reveal_strlit("stop");
    reveal_strlit("tool_calls");
    reveal_strlit("length");
    assert("stop"@.len() == 4 && "tool_calls"@.len() == 10 && "length"@.len() == 6);
}

/// A payload that is JSON counts as its event, and shows the text that it adds; one that is
/// none fails the stream, and what came before it stands.
pub proof fn law_payload_is_taken(
    state: StreamModel,
    payloads: Seq<Seq<char>>,
    payload: Seq<char>,
)
    requires
        taken(state, payloads).failure is None,
    ensures
        taken(state, Seq::empty()).state == state,
        taken(state, Seq::empty()).failure is None,
        json_read(payload) matches Ok(v) ==> taken(state, payloads.push(payload)).state == taken(
            state,
            payloads,
        ).state.after(v) && taken(state, payloads.push(payload)).failure is None,
        json_read(payload) matches Err(e) ==> taken(state, payloads.push(payload)).state == taken(
            state,
            payloads,
        ).state && taken(state, payloads.push(payload)).shown == taken(state, payloads).shown
            && taken(state, payloads.push(payload)).failure == Some(
            crate::error::ErrorModel::Provider("openai stream json: "@ + e),
        ),
{
    assert(payloads.push(payload).drop_last() =~= payloads);
}

/// A reply that nothing was streamed for is empty, ended by itself and cost nothing.
pub proof fn law_empty_stream()
    ensures
        StreamModel::empty().response().content.len() == 0,
        StreamModel::empty().response().tool_calls.len() == 0,
        StreamModel::empty().response().finish == FinishReason::Stop,
        StreamModel::empty().response().usage.input_tokens == 0,
        StreamModel::empty().response().usage.output_tokens == 0,
{
}

/// A request goes to the chat endpoint of the configured address, asks for the configured
/// model, and carries the key as its bearer and nowhere else. A streaming request asks for
/// a stream with its usage, and is else the same.
pub proof fn law_request(to: EndpointModel, req: ChatRequestModel)
    ensures
        ({
            let r = chat_request(to, body_members(req));
            let t = chat_request(to, stream_members(req));
            &&& r.body.at("model"@) == JsonModel::Str(to.model)
            &&& r.body.get("stream"@) is None
            &&& forall|k: Seq<char>|
                k != "model"@ ==> #[trigger] r.body.get(k) == body(req).get(k)
            &&& to.base_url.len() > 0 && to.base_url.last() != '/' ==> r.url == to.base_url
                + "/chat/completions"@
            &&& r.url == endpoint_of(to.base_url, "/chat/completions"@)
            &&& r.bearer == to.api_key
            &&& r.headers.len() == 0
            &&& t.body.at("stream"@) == JsonModel::Bool(true)
            &&& t.body.at("stream_options"@).at("include_usage"@) == JsonModel::Bool(true)
            &&& forall|k: Seq<char>|
                k != "stream"@ && k != "stream_options"@ ==> #[trigger] t.body.get(k)
                    == r.body.get(k)
            &&& t.url == r.url
            &&& t.bearer == r.bearer
            &&& t.headers == r.headers
        }),
{
    lemma_keys();
}

/// A stream begins exactly if the request was answered with a success; else the error
/// holds what was said of the failure.
pub proof fn law_stream_begins(sent: Result<StreamHead, String>)
    ensures
        stream_refused(sent) is None <==> sent is Ok && 200 <= sent->Ok_0.code < 300,
        sent matches Err(e) ==> stream_refused(sent) matches Some(x) && x.message()
            == "openai stream request: "@ + e@,
        sent matches Ok(head) ==> (stream_refused(sent) matches Some(x) ==> x.message()
            == "openai"@ + " "@ + head.status@ + ": "@ + (match head.refusal {
            Some(text) => text@,
            None => Seq::empty(),
        })),
{
}

/// Each count of tokens is read for itself; one that is not there is zero.
pub proof fn law_counts_are_read(v: JsonModel, state: StreamModel)
    ensures
        read_response(v) matches Ok(r) ==> r.usage.input_tokens == token_count(
            v.at("usage"@).at("prompt_tokens"@),
        ) && r.usage.output_tokens == token_count(v.at("usage"@).at("completion_tokens"@)),
        !(v.at("usage"@) is Null) ==> state.after(v).usage.input_tokens == token_count(
            v.at("usage"@).at("prompt_tokens"@),
        ) && state.after(v).usage.output_tokens == token_count(
            v.at("usage"@).at("completion_tokens"@),
        ),
{
}

/// A fragment without a number belongs to the first call.
pub proof fn law_fragment_without_a_number(
    s: Seq<(u64, crate::provider::openai::CallPartsModel)>,
    fragment: JsonModel,
    numbered: Map<Seq<char>, JsonModel>,
)
    requires
        fragment == JsonModel::Obj(numbered),
        !numbered.dom().contains("index"@),
    ensures
        merged(s, fragment) == merged(
            s,
            JsonModel::Obj(numbered.insert("index"@, JsonModel::Int(0))),
        ),
{
    lemma_keys();
    let zero = JsonModel::Obj(numbered.insert("index"@, JsonModel::Int(0)));
    assert(zero.at("index"@).uint() == Some(0u64));
    assert(zero.at("id"@) == fragment.at("id"@));
    assert(zero.at("function"@) == fragment.at("function"@));
    lemma_merged_alike(s, fragment, zero);
}

proof fn lemma_merged_alike(
    s: Seq<(u64, crate::provider::openai::CallPartsModel)>,
    a: JsonModel,
    b: JsonModel,
)
    requires
        crate::provider::openai::fragment_index(a) == crate::provider::openai::fragment_index(b),
        a.at("id"@) == b.at("id"@),
        a.at("function"@) == b.at("function"@),
    ensures
        merged(s, a) == merged(s, b),
    decreases s.len(),
{
    if s.len() > 0 {
        lemma_merged_alike(s.skip(1), a, b);
    }
}

} // verus!
