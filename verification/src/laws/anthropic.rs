//! What reaches Anthropic, and what becomes of its replies.
use vstd::prelude::*;

use crate::json::JsonModel;
use crate::provider::anthropic::{
    assistant_blocks, body_members, call_blocks, completion_request, law_results_coalesce,
    read_calls, read_response, read_text, result_block, result_blocks, text_block, turns,
    wire_turn, wire_turns, Turn,
};
use crate::provider::types::{
    ChatRequestModel, ChatResponseModel, FinishReason, MessageModel, Role, ToolCallModel,
};
use crate::provider::wire::{endpoint_of, token_count, EndpointModel};

verus! {

/// The body of a request.
pub open spec fn body(req: ChatRequestModel) -> JsonModel {
    JsonModel::Obj(body_members(req))
}

proof fn lemma_body_keys()
    ensures
        "model"@.len() == 5,
        "max_tokens"@.len() == 10,
        "messages"@.len() == 8,
        "system"@.len() == 6,
        "temperature"@.len() == 11,
        "tools"@.len() == 5,
        "tools"@[0] == 't',
        "model"@[0] == 'm',
{
    reveal_strlit("model");
    reveal_strlit("max_tokens");
    reveal_strlit("messages");
    reveal_strlit("system");
    reveal_strlit("temperature");
    reveal_strlit("tools");
}

/// The settings of a request reach Anthropic as they are, and those that are not set do
/// not show.
pub proof fn law_settings_are_sent(req: ChatRequestModel)
    ensures
        body(req).at("model"@) == JsonModel::Str(req.model),
        body(req).at("max_tokens"@) == JsonModel::Int(req.max_tokens as int),
        match req.system {
            Some(text) => body(req).get("system"@) == Some(JsonModel::Str(text)),
            None => body(req).get("system"@) is None,
        },
        body(req).get("temperature"@) == req.temperature,
        body(req).get("tools"@) is Some <==> req.tools.len() > 0,
{
    lemma_body_keys();
}

/// Every tool of a request is offered to the model, in order: with its name, its
/// description, and its parameters as the schema of its input.
pub proof fn law_tools_are_offered(req: ChatRequestModel, i: int)
    requires
        0 <= i < req.tools.len(),
    ensures
        body(req).at("tools"@).items() matches Some(tools) && {
            &&& tools.len() == req.tools.len()
            &&& tools[i].at("name"@) == JsonModel::Str(req.tools[i].name)
            &&& tools[i].at("description"@) == JsonModel::Str(req.tools[i].description)
            &&& tools[i].at("input_schema"@) == req.tools[i].parameters
        },
{
    lemma_body_keys();
    reveal_strlit("name");
    reveal_strlit("description");
    reveal_strlit("input_schema");
    assert("name"@.len() == 4 && "description"@.len() == 11 && "input_schema"@.len() == 12);
}

/// What a turn of the conversation tells the model.
#[verifier::ext_equal]
pub enum Told {
    /// The user said this.
    User(Seq<char>),
    /// The model itself said this, and called these tools.
    Assistant(Seq<char>, Seq<ToolCallModel>),
    /// A tool gave this, for the call with this id.
    Result(JsonModel, Seq<char>),
    /// Nothing that the API knows.
    Unknown,
}

/// What a message of the history has to tell; system messages tell nothing.
pub open spec fn said(s: Seq<MessageModel>) -> Seq<Told>
    decreases s.len(),
{
    if s.len() == 0 {
        Seq::empty()
    } else {
        let before = said(s.drop_last());
        let m = s.last();
        match m.role {
            Role::System => before,
            Role::User => before.push(Told::User(m.content)),
            Role::Assistant => before.push(Told::Assistant(m.content, m.tool_calls)),
            Role::Tool => before.push(
                Told::Result(
                    match m.tool_call_id {
                        Some(id) => JsonModel::Str(id),
                        None => JsonModel::Null,
                    },
                    m.content,
                ),
            ),
        }
    }
}

/// The text in the `text` blocks among `blocks`.
pub open spec fn texts_in(blocks: Seq<JsonModel>) -> Seq<char>
    decreases blocks.len(),
{
    if blocks.len() == 0 {
        Seq::empty()
    } else if blocks.last().at("type"@) == JsonModel::Str("text"@) {
        texts_in(blocks.drop_last()) + blocks.last().at("text"@)->Str_0
    } else {
        texts_in(blocks.drop_last())
    }
}

/// The calls in the `tool_use` blocks among `blocks`.
pub open spec fn calls_in(blocks: Seq<JsonModel>) -> Seq<ToolCallModel>
    decreases blocks.len(),
{
    if blocks.len() == 0 {
        Seq::empty()
    } else if blocks.last().at("type"@) == JsonModel::Str("tool_use"@) {
        calls_in(blocks.drop_last()).push(
            ToolCallModel {
                id: blocks.last().at("id"@)->Str_0,
                name: blocks.last().at("name"@)->Str_0,
                arguments: blocks.last().at("input"@),
            },
        )
    } else {
        calls_in(blocks.drop_last())
    }
}

/// What a block of a user turn tells.
pub open spec fn told_by_block(b: JsonModel) -> Told {
    if b.at("type"@) == JsonModel::Str("text"@) {
        Told::User(b.at("text"@)->Str_0)
    } else if b.at("type"@) == JsonModel::Str("tool_result"@) {
        Told::Result(b.at("tool_use_id"@), b.at("content"@)->Str_0)
    } else {
        Told::Unknown
    }
}

/// What a turn on the wire tells.
pub open spec fn told_by_turn(t: JsonModel) -> Seq<Told> {
    match t.at("content"@) {
        JsonModel::Arr(blocks) => if t.at("role"@) == JsonModel::Str("assistant"@) {
            seq![Told::Assistant(texts_in(blocks), calls_in(blocks))]
        } else if t.at("role"@) == JsonModel::Str("user"@) {
            Seq::new(blocks.len(), |i: int| told_by_block(blocks[i]))
        } else {
            seq![Told::Unknown]
        },
        _ => seq![Told::Unknown],
    }
}

/// What turns on the wire tell, one behind the other.
pub open spec fn told(turns: Seq<JsonModel>) -> Seq<Told>
    decreases turns.len(),
{
    if turns.len() == 0 {
        Seq::empty()
    } else {
        told(turns.drop_last()) + told_by_turn(turns.last())
    }
}

proof fn lemma_block_keys()
    ensures
        "type"@.len() == 4 && "type"@[0] == 't' && "type"@[1] == 'y',
        "text"@.len() == 4 && "text"@[0] == 't' && "text"@[1] == 'e',
        "tool_use"@.len() == 8,
        "tool_result"@.len() == 11,
        "tool_use_id"@.len() == 11,
        "content"@.len() == 7,
        "id"@.len() == 2,
        "name"@.len() == 4 && "name"@[0] == 'n',
        "input"@.len() == 5,
        "role"@.len() == 4 && "role"@[0] == 'r',
        "user"@.len() == 4,
        "assistant"@.len() == 9,
{
    reveal_strlit("type");
    reveal_strlit("text");
    reveal_strlit("tool_use");
    reveal_strlit("tool_result");
    reveal_strlit("tool_use_id");
    reveal_strlit("content");
    reveal_strlit("id");
    reveal_strlit("name");
    reveal_strlit("input");
    reveal_strlit("role");
    reveal_strlit("user");
    reveal_strlit("assistant");
}

proof fn lemma_calls_told(s: Seq<ToolCallModel>)
    ensures
        texts_in(call_blocks(s)) == Seq::<char>::empty(),
        calls_in(call_blocks(s)) == s,
    decreases s.len(),
{
    let b = call_blocks(s);
    lemma_block_keys();
    if s.len() == 0 {
        assert(calls_in(b) =~= s);
    } else {
        lemma_calls_told(s.drop_last());
        assert(b.drop_last() =~= call_blocks(s.drop_last()));
        assert(calls_in(b) =~= s);
    }
}

proof fn lemma_in_add(a: Seq<JsonModel>, b: Seq<JsonModel>)
    ensures
        texts_in(a + b) == texts_in(a) + texts_in(b),
        calls_in(a + b) == calls_in(a) + calls_in(b),
    decreases b.len(),
{
    if b.len() == 0 {
        assert(a + b =~= a);
        assert(texts_in(a) + texts_in(b) =~= texts_in(a));
        assert(calls_in(a) + calls_in(b) =~= calls_in(a));
    } else {
        lemma_in_add(a, b.drop_last());
        assert((a + b).drop_last() =~= a + b.drop_last());
        assert(texts_in(a + b) =~= texts_in(a) + texts_in(b));
        assert(calls_in(a + b) =~= calls_in(a) + calls_in(b));
    }
}

proof fn lemma_turn_told(m: MessageModel)
    requires
        m.role == Role::User || m.role == Role::Assistant,
    ensures
        told_by_turn(wire_turn(Turn::Single(m))) == said(seq![m]),
{
    lemma_block_keys();
    let one = seq![m];
    assert(one.drop_last() =~= Seq::empty());
    assert(one.last() == m);
    assert(said(one.drop_last()) =~= Seq::empty());
    let t = wire_turn(Turn::Single(m));
    if m.role == Role::Assistant {
        lemma_calls_told(m.tool_calls);
        let calls = call_blocks(m.tool_calls);
        let blocks = assistant_blocks(m);
        assert(t.at("content"@) == JsonModel::Arr(blocks));
        if m.content.len() > 0 {
            let head = seq![text_block(m.content)];
            lemma_in_add(head, calls);
            assert(head.drop_last() =~= Seq::empty());
            assert(texts_in(Seq::empty()) =~= Seq::empty());
            assert(calls_in(Seq::empty()) =~= Seq::empty());
            assert(head.last() == text_block(m.content));
            assert(texts_in(head) =~= m.content);
            assert(calls_in(head) =~= Seq::empty());
            assert(blocks =~= head + calls);
            assert(texts_in(blocks) =~= m.content);
            assert(calls_in(blocks) =~= m.tool_calls);
        } else {
            assert(texts_in(blocks) =~= m.content);
        }
        assert(told_by_turn(t) =~= said(one));
    } else {
        assert(told_by_turn(t) =~= said(one));
    }
}

proof fn lemma_results_told(r: Seq<MessageModel>)
    requires
        forall|k: int| 0 <= k < r.len() ==> (#[trigger] r[k]).role == Role::Tool,
    ensures
        told_by_turn(wire_turn(Turn::Results(r))) == said(r),
    decreases r.len(),
{
    lemma_block_keys();
    if r.len() == 0 {
        assert(told_by_turn(wire_turn(Turn::Results(r))) =~= said(r));
    } else {
        let front = r.drop_last();
        assert forall|k: int| 0 <= k < front.len() implies (#[trigger] front[k]).role
            == Role::Tool by {
            assert(front[k] == r[k]);
        }
        lemma_results_told(front);
        assert(r[r.len() - 1].role == Role::Tool);
        let blocks = result_blocks(r);
        assert(told_by_block(result_block(r.last())) == said(r).last());
        assert(told_by_turn(wire_turn(Turn::Results(r))) =~= told_by_turn(
            wire_turn(Turn::Results(front)),
        ).push(told_by_block(result_block(r.last()))));
        assert(told_by_turn(wire_turn(Turn::Results(r))) =~= said(r));
    }
}

proof fn lemma_said_one(s: Seq<MessageModel>)
    requires
        s.len() > 0,
    ensures
        said(s) == said(s.drop_last()) + said(seq![s.last()]),
{
    let one = seq![s.last()];
    assert(one.drop_last() =~= Seq::empty());
    assert(one.last() == s.last());
    assert(said(Seq::<MessageModel>::empty()) =~= Seq::empty());
    assert(said(s) =~= said(s.drop_last()) + said(one));
}

proof fn lemma_told(s: Seq<MessageModel>)
    ensures
        told(wire_turns(turns(s))) == said(s),
    decreases s.len(),
{
    let now = turns(s);
    let wire = wire_turns(now);
    if s.len() == 0 {
        assert(told(wire) =~= said(s));
    } else {
        let before = turns(s.drop_last());
        let m = s.last();
        lemma_told(s.drop_last());
        law_results_coalesce(s.drop_last());
        lemma_said_one(s);
        if m.role == Role::System {
            assert(said(s) =~= said(s.drop_last()));
        } else if m.role == Role::Tool && before.len() > 0 && before.last() is Results {
            let r = before[before.len() - 1]->Results_0;
            assert(before.last() == before[before.len() - 1]);
            lemma_results_told(r);
            assert forall|k: int| 0 <= k < r.push(m).len() implies (#[trigger] r.push(m)[k]).role
                == Role::Tool by {}
            lemma_results_told(r.push(m));
            lemma_said_one(r.push(m));
            assert(r.push(m).drop_last() =~= r);
            assert(wire.drop_last() =~= wire_turns(before.drop_last()));
            assert(wire_turns(before).drop_last() =~= wire_turns(before.drop_last()));
            assert(wire.last() == wire_turn(Turn::Results(r.push(m))));
            assert(told(wire) =~= said(s));
        } else {
            assert(wire.drop_last() =~= wire_turns(before));
            if m.role == Role::Tool {
                assert forall|k: int| 0 <= k < seq![m].len() implies (#[trigger] seq![m][k]).role
                    == Role::Tool by {}
                lemma_results_told(seq![m]);
            } else {
                lemma_turn_told(m);
            }
            assert(told(wire) =~= said(s));
        }
    }
}

/// The whole conversation reaches the model, in order and as it was: what the user said,
/// what the model said and called, and what the tools gave back for which call.
pub proof fn law_conversation_is_told(req: ChatRequestModel)
    ensures
        body(req).at("messages"@).items() matches Some(turns) && told(turns) == said(req.messages),
{
    lemma_body_keys();
    lemma_told(req.messages);
}

/// A turn that holds tool results.
pub open spec fn holds_results(t: JsonModel) -> bool {
    t.at("content"@) matches JsonModel::Arr(blocks) && exists|k: int|
        0 <= k < blocks.len() && (#[trigger] blocks[k]).at("type"@) == JsonModel::Str(
            "tool_result"@,
        )
}

/// Tool results that come right behind one another go into one turn: no turn with results
/// stands next to another.
pub proof fn law_results_share_a_turn(req: ChatRequestModel, i: int)
    ensures
        body(req).at("messages"@).items() matches Some(turns) && (0 <= i < turns.len() - 1
            && holds_results(turns[i]) ==> !holds_results(turns[i + 1])),
{
    lemma_body_keys();
    lemma_block_keys();
    let all = turns(req.messages);
    law_results_coalesce(req.messages);
    if 0 <= i < all.len() - 1 && holds_results(wire_turn(all[i])) {
        lemma_single_holds_none(all[i]);
        assert(all[i] is Results);
        lemma_single_holds_none(all[i + 1]);
    }
}

proof fn lemma_single_holds_none(t: Turn)
    ensures
        t is Single ==> !holds_results(wire_turn(t)),
{
    lemma_block_keys();
    if let Turn::Single(m) = t {
        let w = wire_turn(t);
        if m.role == Role::Assistant {
            let blocks = assistant_blocks(m);
            assert(w.at("content"@) == JsonModel::Arr(blocks));
            let calls = call_blocks(m.tool_calls);
            assert forall|k: int| 0 <= k < blocks.len() implies (#[trigger] blocks[k]).at("type"@)
                != JsonModel::Str("tool_result"@) by {
                if m.content.len() > 0 && k > 0 {
                    assert(blocks[k] == calls[k - 1]);
                }
            }
        } else {
            let blocks = seq![text_block(m.content)];
            assert(w.at("content"@) == JsonModel::Arr(blocks));
        }
    }
}

/// A response with these blocks for its content, and else like `v`.
pub open spec fn with_content(v: Map<Seq<char>, JsonModel>, blocks: Seq<JsonModel>) -> JsonModel {
    JsonModel::Obj(v.insert("content"@, JsonModel::Arr(blocks)))
}

/// A response is read block by block: a text block adds its text, a `tool_use` block adds a
/// call with its id, its name and its input, and any other block adds nothing.
pub proof fn law_blocks_are_read(
    v: Map<Seq<char>, JsonModel>,
    blocks: Seq<JsonModel>,
    b: JsonModel,
)
    ensures
        read_response(with_content(v, Seq::empty())) matches Ok(none) && none.content.len() == 0
            && none.tool_calls.len() == 0,
        read_response(with_content(v, blocks)) matches Ok(before) && read_response(
            with_content(v, blocks.push(b)),
        ) matches Ok(after) && {
            &&& b.at("type"@) == JsonModel::Str("text"@) ==> after.tool_calls == before.tool_calls
                && match b.at("text"@) {
                JsonModel::Str(text) => after.content == before.content + text,
                _ => after.content == before.content,
            }
            &&& b.at("type"@) == JsonModel::Str("tool_use"@) ==> {
                &&& after.content == before.content
                &&& after.tool_calls.len() == before.tool_calls.len() + 1
                &&& after.tool_calls.drop_last() == before.tool_calls
                &&& after.tool_calls.last().arguments == b.at("input"@)
                &&& b.at("id"@) matches JsonModel::Str(id) ==> after.tool_calls.last().id == id
                &&& b.at("name"@) matches JsonModel::Str(name) ==> after.tool_calls.last().name
                    == name
                &&& !(b.at("id"@) is Str) ==> after.tool_calls.last().id.len() == 0
                &&& !(b.at("name"@) is Str) ==> after.tool_calls.last().name.len() == 0
            }
            &&& b.at("type"@) != JsonModel::Str("text"@) && b.at("type"@) != JsonModel::Str(
                "tool_use"@,
            ) ==> after.content == before.content && after.tool_calls == before.tool_calls
            &&& after.usage == before.usage
        },
{
    lemma_block_keys();
    reveal_strlit("usage");
    reveal_strlit("stop_reason");
    assert("usage"@.len() == 5);
    assert("stop_reason"@.len() == 11);
    let all = blocks.push(b);
    assert(all.drop_last() =~= blocks);
    assert(all.last() == b);
    assert(read_text(Seq::empty()) =~= Seq::empty());
    assert(read_calls(Seq::empty()) =~= Seq::empty());
    assert(read_calls(all).len() > read_calls(blocks).len() ==> read_calls(all).drop_last()
        =~= read_calls(blocks));
    assert(read_text(blocks) + Seq::<char>::empty() =~= read_text(blocks));
}

/// A response without a list of blocks is an error; any other is a reply.
pub proof fn law_content_is_needed(v: JsonModel)
    ensures
        read_response(v) is Ok <==> v.at("content"@) is Arr,
        read_response(v) matches Err(e) ==> e == crate::error::ErrorModel::Provider(
            "anthropic: missing content"@,
        ),
{
}

/// Why a reply ended is told by its `stop_reason`; where that says nothing known, by
/// whether it calls tools.
pub proof fn law_finish_is_read(v: JsonModel)
    ensures
        read_response(v) matches Ok(r) ==> match v.at("stop_reason"@) {
            JsonModel::Str(reason) => {
                &&& reason == "end_turn"@ || reason == "stop_sequence"@ ==> r.finish
                    == FinishReason::Stop
                &&& reason == "tool_use"@ ==> r.finish == FinishReason::ToolCalls
                &&& reason == "max_tokens"@ ==> r.finish == FinishReason::Length
                &&& reason != "end_turn"@ && reason != "stop_sequence"@ && reason != "tool_use"@
                    && reason != "max_tokens"@ ==> r.finish == ended(r)
            },
            _ => r.finish == ended(r),
        },
{
    reveal_strlit("end_turn");
    reveal_strlit("stop_sequence");
    reveal_strlit("tool_use");
    reveal_strlit("max_tokens");
    assert("end_turn"@.len() == 8 && "tool_use"@.len() == 8);
    assert("end_turn"@[0] == 'e' && "tool_use"@[0] == 't');
    assert("stop_sequence"@.len() == 13 && "max_tokens"@.len() == 10);
}

/// How a reply ended of which nothing is said: with its calls, or else by itself.
pub open spec fn ended(r: ChatResponseModel) -> FinishReason {
    if r.tool_calls.len() > 0 {
        FinishReason::ToolCalls
    } else {
        FinishReason::Stop
    }
}

/// The tokens of a reply are those that its `usage` counts.
pub proof fn law_usage_is_read(v: JsonModel, i: u32, o: u32)
    requires
        v.at("usage"@).at("input_tokens"@) == JsonModel::Int(i as int),
        v.at("usage"@).at("output_tokens"@) == JsonModel::Int(o as int),
    ensures
        read_response(v) matches Ok(r) ==> r.usage.input_tokens == i && r.usage.output_tokens == o,
{
    assert((i as u64) as u32 == i) by (bit_vector);
    assert((o as u64) as u32 == o) by (bit_vector);
    assert(JsonModel::Int(i as int).uint() == Some(i as u64));
    assert(JsonModel::Int(o as int).uint() == Some(o as u64));
}

/// A request goes to the Messages API of the configured address, asks for the configured
/// model, and carries the key in its own header and nowhere else.
pub proof fn law_request(to: EndpointModel, req: ChatRequestModel)
    ensures
        ({
            let r = completion_request(to, req);
            &&& r.body.at("model"@) == JsonModel::Str(to.model)
            &&& forall|k: Seq<char>|
                k != "model"@ ==> #[trigger] r.body.get(k) == body(req).get(k)
            &&& to.base_url.len() > 0 && to.base_url.last() != '/' ==> r.url == to.base_url
                + "/v1/messages"@
            &&& r.url == endpoint_of(to.base_url, "/v1/messages"@)
            &&& r.bearer is None
            &&& r.headers.contains(("anthropic-version"@, "2023-06-01"@))
            &&& forall|i: int|
                0 <= i < r.headers.len() && (#[trigger] r.headers[i]).0 == "x-api-key"@
                    ==> to.api_key == Some(r.headers[i].1)
            &&& match to.api_key {
                Some(key) => r.headers.contains(("x-api-key"@, key)),
                None => r.headers.len() == 1,
            }
        }),
{
    reveal_strlit("anthropic-version");
    reveal_strlit("x-api-key");
    assert("anthropic-version"@.len() == 17 && "x-api-key"@.len() == 9);
    let r = completion_request(to, req);
    assert(r.headers[0] == ("anthropic-version"@, "2023-06-01"@));
    if let Some(key) = to.api_key {
        assert(r.headers[1] == ("x-api-key"@, key));
    }
}

/// Each count of tokens is read for itself; one that is not there is zero.
pub proof fn law_counts_are_read(v: JsonModel)
    ensures
        read_response(v) matches Ok(r) ==> r.usage.input_tokens == token_count(
            v.at("usage"@).at("input_tokens"@),
        ) && r.usage.output_tokens == token_count(v.at("usage"@).at("output_tokens"@)),
{
}

} // verus!
