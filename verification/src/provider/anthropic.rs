//! Anthropic Messages API adapter.
//!
//! Anthropic has only user/assistant roles; tool calls are `tool_use` blocks on
//! assistant turns and results are `tool_result` blocks inside a *user* turn.
//! Consecutive tool results coalesce into one user message.
use vstd::prelude::*;

use crate::config::ProviderConfig;
use crate::error::{outcome, Error, ErrorModel};
use crate::json::{array, json_read, Json, JsonModel, Members};
use crate::provider::types::{
    ChatRequest, ChatRequestModel, ChatResponse, ChatResponseModel, FinishReason, Message,
    MessageModel, Role, ToolCall, ToolCallModel, ToolSpec, ToolSpecModel, Usage,
};
use crate::provider::wire::{
    accept, accepted, endpoint, endpoint_of, opt_text, opt_text_json, token_count, tokens, Endpoint,
    EndpointModel, HttpReply, HttpReplyModel, HttpRequest, HttpRequestModel,
};
use crate::text::{opt_view, pair_views, same, views};

verus! {

/// One turn of a conversation, as Anthropic counts turns.
#[verifier::ext_equal]
pub enum Turn {
    /// A user or assistant message.
    Single(MessageModel),
    /// Tool results that came right behind one another.
    Results(Seq<MessageModel>),
}

/// The turns of a conversation. System messages do not count.
pub open spec fn turns(s: Seq<MessageModel>) -> Seq<Turn>
    decreases s.len(),
{
    if s.len() == 0 {
        Seq::empty()
    } else {
        let before = turns(s.drop_last());
        let m = s.last();
        match m.role {
            Role::System => before,
            Role::Tool => if before.len() > 0 && before.last() is Results {
                before.drop_last().push(Turn::Results(before.last()->Results_0.push(m)))
            } else {
                before.push(Turn::Results(seq![m]))
            },
            _ => before.push(Turn::Single(m)),
        }
    }
}

pub open spec fn text_block(text: Seq<char>) -> JsonModel {
    JsonModel::Obj(map!["type"@ => JsonModel::Str("text"@), "text"@ => JsonModel::Str(text)])
}

pub open spec fn result_block(m: MessageModel) -> JsonModel {
    JsonModel::Obj(
        map![
            "type"@ => JsonModel::Str("tool_result"@),
            "tool_use_id"@ => opt_text_json(m.tool_call_id),
            "content"@ => JsonModel::Str(m.content),
        ],
    )
}

pub open spec fn call_block(c: ToolCallModel) -> JsonModel {
    JsonModel::Obj(
        map![
            "type"@ => JsonModel::Str("tool_use"@),
            "id"@ => JsonModel::Str(c.id),
            "name"@ => JsonModel::Str(c.name),
            "input"@ => c.arguments,
        ],
    )
}

pub open spec fn call_blocks(s: Seq<ToolCallModel>) -> Seq<JsonModel> {
    Seq::new(s.len(), |i: int| call_block(s[i]))
}

pub open spec fn result_blocks(s: Seq<MessageModel>) -> Seq<JsonModel> {
    Seq::new(s.len(), |i: int| result_block(s[i]))
}

/// The blocks of an assistant message: its text, if any, then its calls.
pub open spec fn assistant_blocks(m: MessageModel) -> Seq<JsonModel> {
    if m.content.len() == 0 {
        call_blocks(m.tool_calls)
    } else {
        seq![text_block(m.content)] + call_blocks(m.tool_calls)
    }
}

/// A turn on the wire.
pub open spec fn wire_turn(t: Turn) -> JsonModel {
    match t {
        Turn::Results(s) => JsonModel::Obj(
            map![
                "role"@ => JsonModel::Str("user"@),
                "content"@ => JsonModel::Arr(result_blocks(s)),
            ],
        ),
        Turn::Single(m) => if m.role == Role::Assistant {
            JsonModel::Obj(
                map![
                    "role"@ => JsonModel::Str("assistant"@),
                    "content"@ => JsonModel::Arr(assistant_blocks(m)),
                ],
            )
        } else {
            JsonModel::Obj(
                map![
                    "role"@ => JsonModel::Str("user"@),
                    "content"@ => JsonModel::Arr(seq![text_block(m.content)]),
                ],
            )
        },
    }
}

pub open spec fn wire_turns(s: Seq<Turn>) -> Seq<JsonModel> {
    Seq::new(s.len(), |i: int| wire_turn(s[i]))
}

pub open spec fn wire_tool(t: ToolSpecModel) -> JsonModel {
    JsonModel::Obj(
        map![
            "name"@ => JsonModel::Str(t.name),
            "description"@ => JsonModel::Str(t.description),
            "input_schema"@ => t.parameters,
        ],
    )
}

pub open spec fn wire_tools(s: Seq<ToolSpecModel>) -> Seq<JsonModel> {
    Seq::new(s.len(), |i: int| wire_tool(s[i]))
}

/// The members of the body of a request.
pub open spec fn body_members(req: ChatRequestModel) -> Map<Seq<char>, JsonModel> {
    let base = map![
        "model"@ => JsonModel::Str(req.model),
        "max_tokens"@ => JsonModel::Int(req.max_tokens as int),
        "messages"@ => JsonModel::Arr(wire_turns(turns(req.messages))),
    ];
    let with_system = match req.system {
        Some(text) => base.insert("system"@, JsonModel::Str(text)),
        None => base,
    };
    let with_temperature = match req.temperature {
        Some(t) => with_system.insert("temperature"@, t),
        None => with_system,
    };
    if req.tools.len() == 0 {
        with_temperature
    } else {
        with_temperature.insert("tools"@, JsonModel::Arr(wire_tools(req.tools)))
    }
}

fn text_body(text: &str) -> (r: Json)
    ensures
        r@ == text_block(text@),
{
    let mut m = Members::new();
    m.put_text("type", "text");
    m.put_text("text", text);
    m.done()
}

fn result_body(msg: &Message) -> (r: Json)
    ensures
        r@ == result_block(msg@),
{
    let mut m = Members::new();
    m.put_text("type", "tool_result");
    m.put("tool_use_id", opt_text(&msg.tool_call_id));
    m.put_text("content", msg.content.as_str());
    m.done()
}

fn call_body(c: &ToolCall) -> (r: Json)
    ensures
        r@ == call_block(c@),
{
    let mut m = Members::new();
    m.put_text("type", "tool_use");
    m.put_text("id", c.id.as_str());
    m.put_text("name", c.name.as_str());
    m.put("input", c.arguments.clone());
    m.done()
}

fn turn_body(role: &str, blocks: Vec<Json>) -> (r: Json)
    ensures
        r@ == JsonModel::Obj(
            map![
                "role"@ => JsonModel::Str(role@),
                "content"@ => JsonModel::Arr(views(blocks@)),
            ],
        ),
{
    let mut m = Members::new();
    m.put_text("role", role);
    m.put("content", array(blocks));
    m.done()
}

fn assistant_body(msg: &Message) -> (r: Json)
    requires
        msg.role == Role::Assistant,
    ensures
        r@ == wire_turn(Turn::Single(msg@)),
{
    let mut blocks: Vec<Json> = Vec::new();
    if !msg.content.as_str().is_empty() {
        blocks.push(text_body(msg.content.as_str()));
    }
    let first: usize = blocks.len();
    let mut i: usize = 0;
    while i < msg.tool_calls.len()
        invariant
            i <= msg.tool_calls@.len(),
            first <= 1,
            blocks@.len() == first + i,
            first == (if msg.content@.len() == 0 { 0int } else { 1 }),
            first == 1 ==> blocks@[0]@ == text_block(msg.content@),
            forall|k: int|
                first <= k < blocks@.len() ==> (#[trigger] blocks@[k])@ == call_block(
                    msg.tool_calls@[k - first]@,
                ),
        decreases msg.tool_calls@.len() - i,
    {
        blocks.push(call_body(&msg.tool_calls[i]));
        i += 1;
    }
    assert(views(blocks@) =~= assistant_blocks(msg@));
    turn_body("assistant", blocks)
}

fn tool_body(t: &ToolSpec) -> (r: Json)
    ensures
        r@ == wire_tool(t@),
{
    let mut m = Members::new();
    m.put_text("name", t.name.as_str());
    m.put_text("description", t.description.as_str());
    m.put("input_schema", t.parameters.clone());
    m.done()
}

fn turn_bodies(messages: &Vec<Message>) -> (r: Vec<Json>)
    ensures
        views(r@) == wire_turns(turns(views(messages@))),
{
    let ghost all = views(messages@);
    let mut out: Vec<Json> = Vec::new();
    // Tool results that are to go out as one user turn.
    let mut pending: Vec<Json> = Vec::new();
    let mut i: usize = 0;
    assert(all.take(0) =~= Seq::empty());
    while i < messages.len()
        invariant
            all == views(messages@),
            i <= messages@.len(),
            forall|k: int|
                0 <= k < out@.len() ==> (#[trigger] out@[k])@ == wire_turn(
                    turns(all.take(i as int))[k],
                ),
            pending@.len() == 0 ==> {
                &&& out@.len() == turns(all.take(i as int)).len()
                &&& out@.len() > 0 ==> turns(all.take(i as int)).last() is Single
            },
            pending@.len() > 0 ==> {
                &&& out@.len() + 1 == turns(all.take(i as int)).len()
                &&& turns(all.take(i as int)).last() is Results
                &&& views(pending@) == result_blocks(turns(all.take(i as int)).last()->Results_0)
            },
        decreases messages@.len() - i,
    {
        let m = &messages[i];
        let ghost before = turns(all.take(i as int));
        assert(all.take(i + 1).drop_last() =~= all.take(i as int));
        assert(all.take(i + 1).last() == m@);
        match m.role {
            Role::Tool => {
                let ghost held = views(pending@);
                pending.push(result_body(m));
                proof {
                    let run = turns(all.take(i + 1)).last()->Results_0;
                    assert(views(pending@) =~= held.push(result_block(m@)));
                    if held.len() > 0 {
                        assert(run == before.last()->Results_0.push(m@));
                        assert(result_blocks(run) =~= held.push(result_block(m@)));
                    } else {
                        assert(run == seq![m@]);
                        assert(result_blocks(run) =~= held.push(result_block(m@)));
                    }
                }
            },
            Role::User => {
                if pending.len() > 0 {
                    out.push(turn_body("user", pending));
                    pending = Vec::new();
                }
                let mut blocks: Vec<Json> = Vec::new();
                blocks.push(text_body(m.content.as_str()));
                assert(views(blocks@) =~= seq![text_block(m.content@)]);
                out.push(turn_body("user", blocks));
            },
            Role::Assistant => {
                if pending.len() > 0 {
                    out.push(turn_body("user", pending));
                    pending = Vec::new();
                }
                out.push(assistant_body(m));
            },
            Role::System => {},
        }
        i += 1;
    }
    assert(all.take(i as int) =~= all);
    if pending.len() > 0 {
        out.push(turn_body("user", pending));
    }
    assert(views(out@) =~= wire_turns(turns(all)));
    out
}

fn members(req: &ChatRequest) -> (r: Members)
    ensures
        r@ == body_members(req@),
{
    let mut body = Members::new();
    body.put_text("model", req.model.as_str());
    body.put("max_tokens", Json::UInt(req.max_tokens as u64));
    body.put("messages", array(turn_bodies(&req.messages)));
    if let Some(text) = &req.system {
        body.put_text("system", text.as_str());
    }
    if let Some(t) = &req.temperature {
        body.put("temperature", t.clone());
    }
    if req.tools.len() > 0 {
        let mut tools: Vec<Json> = Vec::new();
        let mut k: usize = 0;
        while k < req.tools.len()
            invariant
                k <= req.tools@.len(),
                tools@.len() == k,
                forall|j: int| 0 <= j < k ==> (#[trigger] tools@[j])@ == wire_tool(req.tools@[j]@),
            decreases req.tools@.len() - k,
        {
            tools.push(tool_body(&req.tools[k]));
            k += 1;
        }
        assert(views(tools@) =~= wire_tools(req@.tools));
        body.put("tools", array(tools));
    }
    body
}

/// Translate a unified request into a Messages API body.
pub fn build_body(req: &ChatRequest) -> (r: Json)
    ensures
        r@ == JsonModel::Obj(body_members(req@)),
{
    members(req).done()
}

/// The text that a block adds to a reply.
pub open spec fn block_text(b: JsonModel) -> Seq<char> {
    if b.at("type"@).text() == Some("text"@) {
        b.at("text"@).text_or_empty()
    } else {
        Seq::empty()
    }
}

/// The text of a reply: that of its text blocks.
pub open spec fn read_text(blocks: Seq<JsonModel>) -> Seq<char>
    decreases blocks.len(),
{
    if blocks.len() == 0 {
        Seq::empty()
    } else {
        read_text(blocks.drop_last()) + block_text(blocks.last())
    }
}

pub open spec fn is_call(b: JsonModel) -> bool {
    b.at("type"@).text() == Some("tool_use"@)
}

pub open spec fn read_call(b: JsonModel) -> ToolCallModel {
    ToolCallModel {
        id: b.at("id"@).text_or_empty(),
        name: b.at("name"@).text_or_empty(),
        arguments: b.at("input"@),
    }
}

/// The calls in a reply: its `tool_use` blocks.
pub open spec fn read_calls(blocks: Seq<JsonModel>) -> Seq<ToolCallModel>
    decreases blocks.len(),
{
    if blocks.len() == 0 {
        Seq::empty()
    } else if is_call(blocks.last()) {
        read_calls(blocks.drop_last()).push(read_call(blocks.last()))
    } else {
        read_calls(blocks.drop_last())
    }
}

pub open spec fn read_finish(reason: Option<Seq<char>>, calls: bool) -> FinishReason {
    if reason == Some("end_turn"@) || reason == Some("stop_sequence"@) {
        FinishReason::Stop
    } else if reason == Some("tool_use"@) {
        FinishReason::ToolCalls
    } else if reason == Some("max_tokens"@) {
        FinishReason::Length
    } else if calls {
        FinishReason::ToolCalls
    } else {
        FinishReason::Stop
    }
}

/// The reply that a response body holds.
pub open spec fn read_response(v: JsonModel) -> Result<ChatResponseModel, ErrorModel> {
    match v.at("content"@).items() {
        Some(blocks) => Ok(
            ChatResponseModel {
                content: read_text(blocks),
                tool_calls: read_calls(blocks),
                finish: read_finish(v.at("stop_reason"@).text(), read_calls(blocks).len() > 0),
                usage: Usage {
                    input_tokens: token_count(v.at("usage"@).at("input_tokens"@)),
                    output_tokens: token_count(v.at("usage"@).at("output_tokens"@)),
                },
            },
        ),
        None => Err(ErrorModel::Provider("anthropic: missing content"@)),
    }
}

fn finish_from(reason: Option<&str>, calls: bool) -> (r: FinishReason)
    ensures
        r == read_finish(
            match reason {
                Some(s) => Some(s@),
                None => None,
            },
            calls,
        ),
{
    if let Some(s) = reason {
        if same(s, "end_turn") || same(s, "stop_sequence") {
            return FinishReason::Stop;
        }
        if same(s, "tool_use") {
            return FinishReason::ToolCalls;
        }
        if same(s, "max_tokens") {
            return FinishReason::Length;
        }
    }
    if calls {
        FinishReason::ToolCalls
    } else {
        FinishReason::Stop
    }
}

/// Parse a Messages API response.
pub fn parse_response(v: &Json) -> (r: Result<ChatResponse, Error>)
    ensures
        outcome(r) == read_response(v@),
{
    let blocks = match v.at("content").items() {
        Some(b) => b,
        None => return Err(Error::Provider("anthropic: missing content".to_owned())),
    };
    let ghost all = views(blocks@);
    let mut content = String::new();
    let mut tool_calls: Vec<ToolCall> = Vec::new();
    let mut i: usize = 0;
    assert(all.take(0) =~= Seq::empty());
    assert(views(tool_calls@) =~= Seq::empty());
    proof {
        reveal_strlit("text");
        reveal_strlit("tool_use");
        assert("text"@.len() < "tool_use"@.len());
    }
    while i < blocks.len()
        invariant
            all == views(blocks@),
            i <= blocks@.len(),
            "text"@ != "tool_use"@,
            content@ == read_text(all.take(i as int)),
            views(tool_calls@) == read_calls(all.take(i as int)),
        decreases blocks@.len() - i,
    {
        let b = &blocks[i];
        assert(all.take(i + 1).drop_last() =~= all.take(i as int));
        assert(all.take(i + 1).last() == b@);
        let ghost calls = views(tool_calls@);
        if let Some(kind) = b.at("type").text() {
            if same(kind, "text") {
                content.append(b.at("text").text_or_empty().as_str());
            } else if same(kind, "tool_use") {
                tool_calls.push(
                    ToolCall {
                        id: b.at("id").text_or_empty(),
                        name: b.at("name").text_or_empty(),
                        arguments: b.at("input").clone(),
                    },
                );
                assert(views(tool_calls@) =~= calls.push(read_call(b@)));
            }
        }
        assert(content@ =~= read_text(all.take(i + 1)));
        i += 1;
    }
    assert(all.take(i as int) =~= all);
    let has_calls = tool_calls.len() > 0;
    let usage = v.at("usage");
    Ok(
        ChatResponse {
            content,
            tool_calls,
            finish: finish_from(v.at("stop_reason").text(), has_calls),
            usage: Usage {
                input_tokens: tokens(usage.at("input_tokens")),
                output_tokens: tokens(usage.at("output_tokens")),
            },
        },
    )
}

/// An adapter for the Messages API.
pub struct AnthropicAdapter {
    endpoint: Endpoint,
}

impl View for AnthropicAdapter {
    type V = EndpointModel;

    closed spec fn view(&self) -> EndpointModel {
        self.endpoint@
    }
}

/// The headers of a request: the API version, and the key where there is one.
pub open spec fn headers_for(api_key: Option<Seq<char>>) -> Seq<(Seq<char>, Seq<char>)> {
    let version = ("anthropic-version"@, "2023-06-01"@);
    match api_key {
        Some(key) => seq![version, ("x-api-key"@, key)],
        None => seq![version],
    }
}

/// The request for a completion, under the endpoint's own model.
pub open spec fn completion_request(to: EndpointModel, req: ChatRequestModel) -> HttpRequestModel {
    HttpRequestModel {
        url: endpoint_of(to.base_url, "/v1/messages"@),
        bearer: None,
        headers: headers_for(to.api_key),
        body: JsonModel::Obj(body_members(req).insert("model"@, JsonModel::Str(to.model))),
    }
}

/// The reply that an HTTP reply holds.
pub open spec fn completed(reply: HttpReplyModel) -> Result<ChatResponseModel, ErrorModel> {
    match accepted("anthropic"@, reply) {
        Ok(body) => match json_read(body) {
            Ok(v) => read_response(v),
            Err(e) => Err(ErrorModel::Json(e)),
        },
        Err(e) => Err(e),
    }
}

impl AnthropicAdapter {
    pub fn new(cfg: &ProviderConfig, api_key: Option<String>) -> (r: AnthropicAdapter)
        ensures
            r@ == EndpointModel::configured(
                cfg@,
                "https://api.anthropic.com"@,
                opt_view(api_key),
            ),
    {
        AnthropicAdapter { endpoint: Endpoint::new(cfg, "https://api.anthropic.com", api_key) }
    }

    /// The config handle.
    pub fn name(&self) -> (r: &str)
        ensures
            r@ == self@.name,
    {
        self.endpoint.name.as_str()
    }

    /// The request for a completion.
    pub fn complete_request(&self, req: &ChatRequest) -> (r: HttpRequest)
        ensures
            r@ == completion_request(self@, req@),
    {
        let mut body = members(req);
        body.put_text("model", self.endpoint.model.as_str());
        let mut headers: Vec<(String, String)> = Vec::new();
        headers.push(("anthropic-version".to_owned(), "2023-06-01".to_owned()));
        if let Some(key) = &self.endpoint.api_key {
            headers.push(("x-api-key".to_owned(), key.clone()));
        }
        assert(pair_views(headers@) =~= headers_for(self@.api_key));
        HttpRequest {
            url: endpoint(self.endpoint.base_url.as_str(), "/v1/messages"),
            bearer: None,
            headers,
            body: body.done(),
        }
    }

    /// The completion that came back.
    pub fn complete(&self, reply: HttpReply) -> (r: Result<ChatResponse, Error>)
        ensures
            outcome(r) == completed(reply@),
    {
        match accept("anthropic", reply) {
            Ok(body) => match Json::parse(body.as_str()) {
                Ok(v) => parse_response(&v),
                Err(e) => Err(Error::Json(e)),
            },
            Err(e) => Err(e),
        }
    }
}

/// The messages that a turn stands for.
pub open spec fn turn_messages(t: Turn) -> Seq<MessageModel> {
    match t {
        Turn::Single(m) => seq![m],
        Turn::Results(s) => s,
    }
}

/// The messages that turns stand for, one behind the other.
pub open spec fn all_messages(s: Seq<Turn>) -> Seq<MessageModel>
    decreases s.len(),
{
    if s.len() == 0 {
        Seq::empty()
    } else {
        all_messages(s.drop_last()) + turn_messages(s.last())
    }
}

/// A conversation without its system messages.
pub open spec fn without_system(s: Seq<MessageModel>) -> Seq<MessageModel>
    decreases s.len(),
{
    if s.len() == 0 {
        Seq::empty()
    } else if s.last().role == Role::System {
        without_system(s.drop_last())
    } else {
        without_system(s.drop_last()).push(s.last())
    }
}

/// Making turns loses nothing, adds nothing and keeps the order: the turns hold
/// the messages of the conversation, but for those of the system.
pub proof fn law_turns_keep_messages(s: Seq<MessageModel>)
    ensures
        all_messages(turns(s)) == without_system(s),
    decreases s.len(),
{
    if s.len() > 0 {
        law_turns_keep_messages(s.drop_last());
        let before = turns(s.drop_last());
        let now = turns(s);
        let m = s.last();
        if m.role == Role::Tool && before.len() > 0 && before.last() is Results {
            assert(now.drop_last() =~= before.drop_last());
            assert(all_messages(now) =~= all_messages(before).push(m));
        } else if m.role != Role::System {
            assert(now.drop_last() =~= before);
            assert(all_messages(now) =~= all_messages(before).push(m));
        }
    }
}

/// Consecutive tool results make one turn: no two result turns stand next to each
/// other, none is empty, and they hold tool results alone; all other turns are
/// user or assistant messages.
pub proof fn law_results_coalesce(s: Seq<MessageModel>)
    ensures
        forall|i: int|
            0 <= i < turns(s).len() - 1 && (#[trigger] turns(s)[i]) is Results ==> turns(s)[i
                + 1] is Single,
        forall|i: int|
            0 <= i < turns(s).len() ==> match #[trigger] turns(s)[i] {
                Turn::Single(m) => m.role == Role::User || m.role == Role::Assistant,
                Turn::Results(r) => r.len() > 0 && forall|k: int|
                    0 <= k < r.len() ==> (#[trigger] r[k]).role == Role::Tool,
            },
    decreases s.len(),
{
    if s.len() > 0 {
        law_results_coalesce(s.drop_last());
        let before = turns(s.drop_last());
        let now = turns(s);
        let n = now.len() as int;
        if now != before {
            assert forall|i: int| 0 <= i < n - 1 implies now[i] == #[trigger] before[i] by {}
            assert forall|i: int| 0 <= i < n - 1 && (#[trigger] now[i]) is Results implies now[i
                + 1] is Single by {
                assert(before[i] is Results);
                if i + 1 < n - 1 {
                    assert(before[i + 1] is Single);
                }
            }
            assert forall|i: int| 0 <= i < n implies match #[trigger] now[i] {
                Turn::Single(m) => m.role == Role::User || m.role == Role::Assistant,
                Turn::Results(r) => r.len() > 0 && forall|k: int|
                    0 <= k < r.len() ==> (#[trigger] r[k]).role == Role::Tool,
            } by {
                if i < n - 1 {
                    assert(now[i] == before[i]);
                } else if s.last().role == Role::Tool && before.len() > 0
                    && before.last() is Results {
                    assert(before[n - 1] is Results);
                }
            }
        }
    }
}

/// What an assistant message looks like on the wire reads back as its text and
/// its calls.
pub proof fn law_assistant_reads_back(m: MessageModel)
    ensures
        read_text(assistant_blocks(m)) == m.content,
        read_calls(assistant_blocks(m)) == m.tool_calls,
{
    lemma_calls_read_back(m.tool_calls);
    let calls = call_blocks(m.tool_calls);
    if m.content.len() > 0 {
        lemma_text_block(m.content);
        let head = seq![text_block(m.content)];
        lemma_read_add(head, calls);
        assert(head.drop_last() =~= Seq::empty());
        assert(head.last() == text_block(m.content));
        assert(read_text(Seq::empty()) == Seq::<char>::empty());
        assert(read_calls(Seq::empty()) == Seq::<ToolCallModel>::empty());
        assert(read_text(head) =~= m.content);
        assert(read_calls(head) =~= Seq::empty());
        assert(assistant_blocks(m) =~= head + calls);
        assert(m.content + Seq::<char>::empty() =~= m.content);
        assert(Seq::<ToolCallModel>::empty() + m.tool_calls =~= m.tool_calls);
    } else {
        assert(m.content =~= Seq::empty());
    }
}

proof fn lemma_text_block(text: Seq<char>)
    ensures
        block_text(text_block(text)) == text,
        !is_call(text_block(text)),
{
    reveal_strlit("type");
    reveal_strlit("text");
    reveal_strlit("tool_use");
    assert("type"@[1] == 'y');
    assert("text"@[1] == 'e');
    assert("text"@.len() < "tool_use"@.len());
}

proof fn lemma_call_block(c: ToolCallModel)
    ensures
        block_text(call_block(c)) == Seq::<char>::empty(),
        is_call(call_block(c)),
        read_call(call_block(c)) == c,
{
    reveal_strlit("type");
    reveal_strlit("text");
    reveal_strlit("tool_use");
    reveal_strlit("id");
    reveal_strlit("name");
    reveal_strlit("input");
    assert("id"@.len() < "type"@.len() < "input"@.len());
    assert("type"@[0] == 't' && "name"@[0] == 'n');
    assert("name"@.len() == 4);
    assert("text"@.len() < "tool_use"@.len());
}

proof fn lemma_read_add(a: Seq<JsonModel>, b: Seq<JsonModel>)
    ensures
        read_text(a + b) == read_text(a) + read_text(b),
        read_calls(a + b) == read_calls(a) + read_calls(b),
    decreases b.len(),
{
    if b.len() == 0 {
        assert(a + b =~= a);
        assert(read_text(a) + read_text(b) =~= read_text(a));
        assert(read_calls(a) + read_calls(b) =~= read_calls(a));
    } else {
        assert((a + b).drop_last() =~= a + b.drop_last());
        lemma_read_add(a, b.drop_last());
        assert(read_text(a + b) =~= read_text(a) + read_text(b));
        assert(read_calls(a + b) =~= read_calls(a) + read_calls(b));
    }
}

proof fn lemma_calls_read_back(s: Seq<ToolCallModel>)
    ensures
        read_text(call_blocks(s)) == Seq::<char>::empty(),
        read_calls(call_blocks(s)) == s,
    decreases s.len(),
{
    let b = call_blocks(s);
    if s.len() == 0 {
        assert(read_calls(b) =~= s);
    } else {
        assert(b.drop_last() =~= call_blocks(s.drop_last()));
        lemma_calls_read_back(s.drop_last());
        lemma_call_block(s.last());
        assert(read_text(b) =~= Seq::empty());
        assert(read_calls(b) =~= s);
    }
}

} // verus!
