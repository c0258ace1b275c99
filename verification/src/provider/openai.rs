//! OpenAI-compatible adapter (`/chat/completions`).
//!
//! Covers OpenAI, Deepseek, Mimo, local servers, and most OSS endpoints.
use std::collections::BTreeMap;

use vstd::prelude::*;
use vstd::std_specs::btree::increasing_seq;
use vstd::std_specs::cmp::OrdSpec;
use vstd::std_specs::iter::IteratorSpec;

use crate::config::ProviderConfig;
use crate::error::{outcome, Error, ErrorModel};
use crate::json::{array, json_read, json_text, plain_within, Json, JsonModel, Members};
use crate::provider::sse::{
    joined_chunks, law_chunking, law_chunks_join, DataReader, ReaderModel,
};
use crate::provider::types::{
    ChatRequest, ChatRequestModel, ChatResponse, ChatResponseModel, FinishReason, Message,
    MessageModel, Role, ToolCall, ToolCallModel, ToolSpec, ToolSpecModel, Usage,
};
use crate::provider::wire::{
    accept, accepted, endpoint, endpoint_of, is_success, is_success_code, opt_text, opt_text_json,
    refusal, refusal_of, token_count, tokens, Endpoint, EndpointModel, HttpReply, HttpReplyModel,
    HttpRequest, HttpRequestModel,
};
use crate::text::{cat2, lemma_views_push, opt_view, same, views};

verus! {

/// The name of a role on the wire.
pub open spec fn role_name(role: Role) -> Seq<char> {
    match role {
        Role::System => "system"@,
        Role::User => "user"@,
        Role::Assistant => "assistant"@,
        Role::Tool => "tool"@,
    }
}

/// A tool call as the model sees it again: its arguments go as JSON text.
pub open spec fn wire_call(c: ToolCallModel) -> JsonModel {
    JsonModel::Obj(
        map![
            "id"@ => JsonModel::Str(c.id),
            "type"@ => JsonModel::Str("function"@),
            "function"@ => JsonModel::Obj(map![
                "name"@ => JsonModel::Str(c.name),
                "arguments"@ => JsonModel::Str(json_text(c.arguments)),
            ]),
        ],
    )
}

pub open spec fn wire_calls(s: Seq<ToolCallModel>) -> Seq<JsonModel> {
    Seq::new(s.len(), |i: int| wire_call(s[i]))
}

/// A history message on the wire.
pub open spec fn wire_message(m: MessageModel) -> JsonModel {
    if m.role == Role::Tool {
        JsonModel::Obj(
            map![
                "role"@ => JsonModel::Str("tool"@),
                "tool_call_id"@ => opt_text_json(m.tool_call_id),
                "content"@ => JsonModel::Str(m.content),
            ],
        )
    } else if m.role == Role::Assistant && m.tool_calls.len() > 0 {
        JsonModel::Obj(
            map![
                "role"@ => JsonModel::Str("assistant"@),
                "content"@ => if m.content.len() == 0 { JsonModel::Null } else { JsonModel::Str(m.content) },
                "tool_calls"@ => JsonModel::Arr(wire_calls(m.tool_calls)),
            ],
        )
    } else {
        JsonModel::Obj(
            map![
                "role"@ => JsonModel::Str(role_name(m.role)),
                "content"@ => JsonModel::Str(m.content),
            ],
        )
    }
}

/// The system prompt, if any, and the history behind it.
pub open spec fn wire_messages(system: Option<Seq<char>>, s: Seq<MessageModel>) -> Seq<JsonModel> {
    let history = Seq::new(s.len(), |i: int| wire_message(s[i]));
    match system {
        Some(text) => seq![
            JsonModel::Obj(
                map!["role"@ => JsonModel::Str("system"@), "content"@ => JsonModel::Str(text)],
            ),
        ] + history,
        None => history,
    }
}

pub open spec fn wire_tool(t: ToolSpecModel) -> JsonModel {
    JsonModel::Obj(
        map![
            "type"@ => JsonModel::Str("function"@),
            "function"@ => JsonModel::Obj(map![
                "name"@ => JsonModel::Str(t.name),
                "description"@ => JsonModel::Str(t.description),
                "parameters"@ => t.parameters,
            ]),
        ],
    )
}

pub open spec fn wire_tools(s: Seq<ToolSpecModel>) -> Seq<JsonModel> {
    Seq::new(s.len(), |i: int| wire_tool(s[i]))
}

/// The members of the body of a chat request.
pub open spec fn body_members(req: ChatRequestModel) -> Map<Seq<char>, JsonModel> {
    let base = map![
        "model"@ => JsonModel::Str(req.model),
        "messages"@ => JsonModel::Arr(wire_messages(req.system, req.messages)),
        "max_tokens"@ => JsonModel::Int(req.max_tokens as int),
    ];
    let with_temperature = match req.temperature {
        Some(t) => base.insert("temperature"@, t),
        None => base,
    };
    if req.tools.len() == 0 {
        with_temperature
    } else {
        with_temperature.insert("tools"@, JsonModel::Arr(wire_tools(req.tools)))
    }
}

/// A tool call as it goes back to the model. Reading it again gives the same call,
/// where its arguments hold no fraction and are not nested too deeply.
pub fn call_body(c: &ToolCall) -> (r: Json)
    ensures
        r@ == wire_call(c@),
        plain_within(c@.arguments, 127) ==> read_call(r@) == c@,
{
    let mut f = Members::new();
    f.put_text("name", c.name.as_str());
    f.put_text("arguments", c.arguments.render().as_str());
    let mut m = Members::new();
    m.put_text("id", c.id.as_str());
    m.put_text("type", "function");
    m.put("function", f.done());
    proof {
        reveal_strlit("id");
        reveal_strlit("type");
        reveal_strlit("function");
        reveal_strlit("name");
        reveal_strlit("arguments");
        assert("id"@.len() < "type"@.len() < "function"@.len());
        assert("name"@.len() < "arguments"@.len());
        assert(m@["function"@].at("arguments"@) == JsonModel::Str(json_text(c@.arguments)));
        assert(m@["function"@].at("name"@) == JsonModel::Str(c@.name));
    }
    m.done()
}

fn message_body(msg: &Message) -> (r: Json)
    ensures
        r@ == wire_message(msg@),
{
    let mut m = Members::new();
    match msg.role {
        Role::Tool => {
            m.put_text("role", "tool");
            m.put("tool_call_id", opt_text(&msg.tool_call_id));
            m.put_text("content", msg.content.as_str());
        },
        Role::Assistant => {
            m.put_text("role", "assistant");
            if msg.tool_calls.len() > 0 {
                let mut calls: Vec<Json> = Vec::new();
                let mut i: usize = 0;
                while i < msg.tool_calls.len()
                    invariant
                        i <= msg.tool_calls@.len(),
                        calls@.len() == i,
                        forall|k: int|
                            0 <= k < i ==> (#[trigger] calls@[k])@ == wire_call(msg.tool_calls@[k]@),
                    decreases msg.tool_calls@.len() - i,
                {
                    calls.push(call_body(&msg.tool_calls[i]));
                    i += 1;
                }
                assert(views(calls@) =~= wire_calls(msg@.tool_calls));
                if msg.content.as_str().is_empty() {
                    m.put("content", Json::Null);
                } else {
                    m.put_text("content", msg.content.as_str());
                }
                m.put("tool_calls", array(calls));
            } else {
                m.put_text("content", msg.content.as_str());
            }
        },
        Role::System => {
            m.put_text("role", "system");
            m.put_text("content", msg.content.as_str());
        },
        Role::User => {
            m.put_text("role", "user");
            m.put_text("content", msg.content.as_str());
        },
    }
    m.done()
}

fn tool_body(t: &ToolSpec) -> (r: Json)
    ensures
        r@ == wire_tool(t@),
{
    let mut f = Members::new();
    f.put_text("name", t.name.as_str());
    f.put_text("description", t.description.as_str());
    f.put("parameters", t.parameters.clone());
    let mut m = Members::new();
    m.put_text("type", "function");
    m.put("function", f.done());
    m.done()
}

fn members(req: &ChatRequest) -> (r: Members)
    ensures
        r@ == body_members(req@),
{
    let mut messages: Vec<Json> = Vec::new();
    if let Some(text) = &req.system {
        let mut m = Members::new();
        m.put_text("role", "system");
        m.put_text("content", text.as_str());
        messages.push(m.done());
    }
    let ghost head = views(messages@);
    let first: usize = messages.len();
    let mut i: usize = 0;
    while i < req.messages.len()
        invariant
            i <= req.messages@.len(),
            first == head.len(),
            first <= 1,
            messages@.len() == first + i,
            forall|k: int| 0 <= k < first ==> (#[trigger] messages@[k])@ == head[k],
            forall|k: int|
                first <= k < messages@.len() ==> (#[trigger] messages@[k])@ == wire_message(
                    req.messages@[k - first]@,
                ),
        decreases req.messages@.len() - i,
    {
        messages.push(message_body(&req.messages[i]));
        i += 1;
    }
    assert(views(messages@) =~= wire_messages(req@.system, req@.messages));

    let mut body = Members::new();
    body.put_text("model", req.model.as_str());
    body.put("messages", array(messages));
    body.put("max_tokens", Json::UInt(req.max_tokens as u64));
    if let Some(t) = &req.temperature {
        body.put("temperature", t.clone());
    }
    if req.tools.len() > 0 {
        let mut tools: Vec<Json> = Vec::new();
        let mut k: usize = 0;
        while k < req.tools.len()
            invariant
                k <= req.tools@.len(),
                tools@.len() == k,
                forall|j: int| 0 <= j < k ==> (#[trigger] tools@[j])@ == wire_tool(req.tools@[j]@),
            decreases req.tools@.len() - k,
        {
            tools.push(tool_body(&req.tools[k]));
            k += 1;
        }
        assert(views(tools@) =~= wire_tools(req@.tools));
        body.put("tools", array(tools));
    }
    body
}

/// Translate a unified request into an OpenAI chat body.
pub fn build_body(req: &ChatRequest) -> (r: Json)
    ensures
        r@ == JsonModel::Obj(body_members(req@)),
{
    members(req).done()
}

/// What stands for arguments that cannot be read: the empty object.
pub open spec fn arguments_of(read: Result<JsonModel, Seq<char>>) -> JsonModel {
    match read {
        Ok(v) => v,
        Err(_) => JsonModel::Obj(Map::empty()),
    }
}

/// The arguments of a call from what came of reading their text.
pub fn arguments_from(read: Result<Json, String>) -> (r: Json)
    ensures
        match read {
            Ok(v) => r@ == v@,
            Err(_) => r@ == JsonModel::Obj(Map::empty()),
        },
{
    match read {
        Ok(v) => v,
        Err(_) => Members::new().done(),
    }
}

/// A tool call in a reply.
pub open spec fn read_call(c: JsonModel) -> ToolCallModel {
    let text = match c.at("function"@).at("arguments"@).text() {
        Some(s) => s,
        None => "{}"@,
    };
    ToolCallModel {
        id: c.at("id"@).text_or_empty(),
        name: c.at("function"@).at("name"@).text_or_empty(),
        arguments: arguments_of(json_read(text)),
    }
}

/// The tool calls in a reply; none where no list stands.
pub open spec fn read_calls(v: JsonModel) -> Seq<ToolCallModel> {
    match v.items() {
        Some(s) => Seq::new(s.len(), |i: int| read_call(s[i])),
        None => Seq::empty(),
    }
}

pub open spec fn read_finish(reason: Option<Seq<char>>, calls: bool) -> FinishReason {
    if reason == Some("stop"@) {
        FinishReason::Stop
    } else if reason == Some("tool_calls"@) {
        FinishReason::ToolCalls
    } else if reason == Some("length"@) {
        FinishReason::Length
    } else if calls {
        FinishReason::ToolCalls
    } else {
        FinishReason::Other
    }
}

pub open spec fn read_usage(v: JsonModel) -> Usage {
    Usage {
        input_tokens: token_count(v.at("prompt_tokens"@)),
        output_tokens: token_count(v.at("completion_tokens"@)),
    }
}

/// The reply that a response body holds.
pub open spec fn read_response(v: JsonModel) -> Result<ChatResponseModel, ErrorModel> {
    match v.at("choices"@).first() {
        Some(choice) => {
            let calls = read_calls(choice.at("message"@).at("tool_calls"@));
            Ok(
                ChatResponseModel {
                    content: choice.at("message"@).at("content"@).text_or_empty(),
                    tool_calls: calls,
                    finish: read_finish(choice.at("finish_reason"@).text(), calls.len() > 0),
                    usage: read_usage(v.at("usage"@)),
                },
            )
        },
        None => Err(ErrorModel::Provider("openai: no choices"@)),
    }
}

/// A tool call in a reply.
pub fn call_from(c: &Json) -> (r: ToolCall)
    ensures
        r@ == read_call(c@),
{
    let function = c.at("function");
    let read = match function.at("arguments").text() {
        Some(s) => Json::parse(s),
        None => Json::parse("{}"),
    };
    ToolCall {
        id: c.at("id").text_or_empty(),
        name: function.at("name").text_or_empty(),
        arguments: arguments_from(read),
    }
}

fn finish_from(reason: Option<&str>, calls: bool) -> (r: FinishReason)
    ensures
        r == read_finish(
            match reason {
                Some(s) => Some(s@),
                None => None,
            },
            calls,
        ),
{
    if let Some(s) = reason {
        if same(s, "stop") {
            return FinishReason::Stop;
        }
        if same(s, "tool_calls") {
            return FinishReason::ToolCalls;
        }
        if same(s, "length") {
            return FinishReason::Length;
        }
    }
    if calls {
        FinishReason::ToolCalls
    } else {
        FinishReason::Other
    }
}

fn usage_from(v: &Json) -> (r: Usage)
    ensures
        r == read_usage(v@),
{
    Usage {
        input_tokens: tokens(v.at("prompt_tokens")),
        output_tokens: tokens(v.at("completion_tokens")),
    }
}

/// Parse an OpenAI chat response.
pub fn parse_response(v: &Json) -> (r: Result<ChatResponse, Error>)
    ensures
        outcome(r) == read_response(v@),
{
    let choice = match v.at("choices").first() {
        Some(c) => c,
        None => return Err(Error::Provider("openai: no choices".to_owned())),
    };
    let msg = choice.at("message");
    let mut tool_calls: Vec<ToolCall> = Vec::new();
    if let Some(calls) = msg.at("tool_calls").items() {
        let mut i: usize = 0;
        while i < calls.len()
            invariant
                i <= calls@.len(),
                tool_calls@.len() == i,
                forall|k: int| 0 <= k < i ==> (#[trigger] tool_calls@[k])@ == read_call(calls@[k]@),
            decreases calls@.len() - i,
        {
            tool_calls.push(call_from(&calls[i]));
            i += 1;
        }
    }
    assert(views(tool_calls@) =~= read_calls(choice@.at("message"@).at("tool_calls"@)));
    let has_calls = tool_calls.len() > 0;
    Ok(
        ChatResponse {
            content: msg.at("content").text_or_empty(),
            tool_calls,
            finish: finish_from(choice.at("finish_reason").text(), has_calls),
            usage: usage_from(v.at("usage")),
        },
    )
}

/// The pieces of one tool call that have come in so far.
#[derive(Debug)]
struct CallParts {
    id: String,
    name: String,
    arguments: String,
}

/// The model of the pieces of one tool call.
#[verifier::ext_equal]
pub struct CallPartsModel {
    pub id: Seq<char>,
    pub name: Seq<char>,
    pub arguments: Seq<char>,
}

impl View for CallParts {
    type V = CallPartsModel;

    closed spec fn view(&self) -> CallPartsModel {
        CallPartsModel { id: self.id@, name: self.name@, arguments: self.arguments@ }
    }
}

impl CallPartsModel {
    pub open spec fn empty() -> CallPartsModel {
        CallPartsModel { id: Seq::empty(), name: Seq::empty(), arguments: Seq::empty() }
    }

    /// A fragment sets the id, and adds to the name and to the arguments.
    pub open spec fn extended(self, fragment: JsonModel) -> CallPartsModel {
        CallPartsModel {
            id: match fragment.at("id"@).text() {
                Some(id) => id,
                None => self.id,
            },
            name: self.name + fragment.at("function"@).at("name"@).text_or_empty(),
            arguments: self.arguments + fragment.at("function"@).at("arguments"@).text_or_empty(),
        }
    }

    /// The call that the pieces make up.
    pub open spec fn call(self) -> ToolCallModel {
        ToolCallModel {
            id: self.id,
            name: self.name,
            arguments: arguments_of(json_read(self.arguments)),
        }
    }
}

/// The number of the call that a fragment belongs to.
pub open spec fn fragment_index(fragment: JsonModel) -> u64 {
    match fragment.at("index"@).uint() {
        Some(n) => n,
        None => 0,
    }
}

/// The calls with a fragment added to the one it belongs to. Calls are held in
/// ascending order of their number; a call not yet known goes in at its place.
pub open spec fn merged(s: Seq<(u64, CallPartsModel)>, fragment: JsonModel) -> Seq<
    (u64, CallPartsModel),
>
    decreases s.len(),
{
    let n = fragment_index(fragment);
    if s.len() == 0 || n < s[0].0 {
        seq![(n, CallPartsModel::empty().extended(fragment))] + s
    } else if s[0].0 == n {
        seq![(n, s[0].1.extended(fragment))] + s.skip(1)
    } else {
        seq![s[0]] + merged(s.skip(1), fragment)
    }
}

/// The calls after each of the fragments, in order.
pub open spec fn merged_all(
    s: Seq<(u64, CallPartsModel)>,
    fragments: Seq<JsonModel>,
) -> Seq<(u64, CallPartsModel)>
    decreases fragments.len(),
{
    if fragments.len() == 0 {
        s
    } else {
        merged(merged_all(s, fragments.drop_last()), fragments.last())
    }
}

/// The model of a [`StreamState`].
#[verifier::ext_equal]
pub struct StreamModel {
    pub content: Seq<char>,
    /// The tool calls, by number.
    pub calls: Seq<(u64, CallPartsModel)>,
    pub finish: FinishReason,
    pub usage: Usage,
}

/// The text that an event adds, where it adds any.
pub open spec fn delta_text(v: JsonModel) -> Option<Seq<char>> {
    match v.at("choices"@).first() {
        Some(choice) => match choice.at("delta"@).at("content"@).text() {
            Some(text) => if text.len() == 0 {
                None
            } else {
                Some(text)
            },
            None => None,
        },
        None => None,
    }
}

/// The fragments of tool calls in an event.
pub open spec fn delta_fragments(choice: JsonModel) -> Seq<JsonModel> {
    match choice.at("delta"@).at("tool_calls"@).items() {
        Some(s) => s,
        None => Seq::empty(),
    }
}

pub open spec fn finish_after(finish: FinishReason, reason: Option<Seq<char>>) -> FinishReason {
    if reason == Some("tool_calls"@) {
        FinishReason::ToolCalls
    } else if reason == Some("length"@) {
        FinishReason::Length
    } else if reason == Some("stop"@) {
        FinishReason::Stop
    } else {
        finish
    }
}

/// The calls that the gathered pieces make up, in order of their number.
pub open spec fn gathered_calls(s: Seq<(u64, CallPartsModel)>) -> Seq<ToolCallModel> {
    Seq::new(s.len(), |i: int| s[i].1.call())
}

impl StreamModel {
    pub open spec fn empty() -> StreamModel {
        StreamModel {
            content: Seq::empty(),
            calls: Seq::empty(),
            finish: FinishReason::Stop,
            usage: Usage { input_tokens: 0, output_tokens: 0 },
        }
    }

    /// The state after an event.
    pub open spec fn after(self, v: JsonModel) -> StreamModel {
        let usage = match v.non_null("usage"@) {
            Some(u) => read_usage(u),
            None => self.usage,
        };
        match v.at("choices"@).first() {
            Some(choice) => StreamModel {
                content: match delta_text(v) {
                    Some(text) => self.content + text,
                    None => self.content,
                },
                calls: merged_all(self.calls, delta_fragments(choice)),
                finish: finish_after(self.finish, choice.at("finish_reason"@).text()),
                usage,
            },
            None => StreamModel { usage, ..self },
        }
    }

    /// The state after each of the events, in order.
    pub open spec fn after_all(self, events: Seq<JsonModel>) -> StreamModel
        decreases events.len(),
    {
        if events.len() == 0 {
            self
        } else {
            self.after_all(events.drop_last()).after(events.last())
        }
    }

    /// The reply that the stream amounts to.
    pub open spec fn response(self) -> ChatResponseModel {
        ChatResponseModel {
            content: self.content,
            tool_calls: gathered_calls(self.calls),
            finish: if self.calls.len() > 0 {
                FinishReason::ToolCalls
            } else {
                self.finish
            },
            usage: self.usage,
        }
    }
}

/// The calls below number `n` in a map, in ascending order.
spec fn listed(m: Map<u64, CallParts>, n: nat) -> Seq<(u64, CallPartsModel)>
    decreases n,
{
    if n == 0 {
        Seq::empty()
    } else {
        let k = (n - 1) as u64;
        let before = listed(m, (n - 1) as nat);
        if m.contains_key(k) {
            before.push((k, m[k]@))
        } else {
            before
        }
    }
}

/// The calls in a map, in ascending order of their number.
spec fn in_order(m: Map<u64, CallParts>) -> Seq<(u64, CallPartsModel)> {
    listed(m, (u64::MAX + 1) as nat)
}

/// `s` holds the calls in `m`, in ascending order of their number.
spec fn lists(s: Seq<(u64, CallPartsModel)>, m: Map<u64, CallParts>) -> bool {
    &&& ascending(s)
    &&& forall|i: int|
        0 <= i < s.len() ==> m.contains_key((#[trigger] s[i]).0) && m[s[i].0]@ == s[i].1
    &&& forall|k: u64| #[trigger]
        m.contains_key(k) ==> exists|i: int| 0 <= i < s.len() && (#[trigger] s[i]).0 == k
}

proof fn lemma_listed(m: Map<u64, CallParts>, n: nat)
    requires
        n <= u64::MAX + 1,
    ensures
        ascending(listed(m, n)),
        forall|i: int|
            0 <= i < listed(m, n).len() ==> {
                let (k, parts) = #[trigger] listed(m, n)[i];
                k < n && m.contains_key(k) && m[k]@ == parts
            },
        forall|k: u64|
            k < n && #[trigger] m.contains_key(k) ==> exists|i: int|
                0 <= i < listed(m, n).len() && (#[trigger] listed(m, n)[i]).0 == k,
    decreases n,
{
    if n > 0 {
        lemma_listed(m, (n - 1) as nat);
        let last = (n - 1) as u64;
        let before = listed(m, (n - 1) as nat);
        let s = listed(m, n);
        assert forall|k: u64| k < n && #[trigger] m.contains_key(k) implies exists|i: int|
            0 <= i < s.len() && (#[trigger] s[i]).0 == k by {
            if k == last {
                assert(s[s.len() - 1].0 == k);
            } else {
                let i = choose|i: int| 0 <= i < before.len() && (#[trigger] before[i]).0 == k;
                assert(s[i].0 == k);
            }
        }
        if m.contains_key(last) {
            assert forall|i: int| 0 <= i < s.len() implies {
                let (k, parts) = #[trigger] s[i];
                k < n && m.contains_key(k) && m[k]@ == parts
            } by {
                if i < before.len() {
                    assert(s[i] == before[i]);
                }
            }
            assert forall|i: int, j: int| 0 <= i < j < s.len() implies (#[trigger] s[i]).0 < (
            #[trigger] s[j]).0 by {
                assert(s[i] == before[i]);
                if j < before.len() {
                    assert(s[j] == before[j]);
                }
            }
        }
    }
}

proof fn lemma_in_order(m: Map<u64, CallParts>)
    ensures
        lists(in_order(m), m),
{
    lemma_listed(m, (u64::MAX + 1) as nat);
}

/// The models of numbered calls.
spec fn pair_models(s: Seq<(&u64, &CallParts)>) -> Seq<(u64, CallPartsModel)> {
    Seq::new(s.len(), |i: int| (*s[i].0, s[i].1@))
}

/// A map has one list.
proof fn lemma_lists_unique(
    s: Seq<(u64, CallPartsModel)>,
    t: Seq<(u64, CallPartsModel)>,
    m: Map<u64, CallParts>,
)
    requires
        lists(s, m),
        lists(t, m),
    ensures
        s == t,
    decreases s.len(),
{
    if s.len() == 0 {
        if t.len() > 0 {
            assert(m.contains_key(t[0].0));
        }
        assert(s =~= t);
    } else {
        assert(m.contains_key(s[0].0));
        let j = choose|j: int| 0 <= j < t.len() && (#[trigger] t[j]).0 == s[0].0;
        assert(m.contains_key(t[0].0));
        let i = choose|i: int| 0 <= i < s.len() && (#[trigger] s[i]).0 == t[0].0;
        if i > 0 {
            assert(s[0].0 < s[i].0);
        }
        if j > 0 {
            assert(t[0].0 < t[j].0);
        }
        assert(s[0] == t[0]);
        lemma_lists_rest(s, m);
        lemma_lists_rest(t, m);
        lemma_lists_unique(s.skip(1), t.skip(1), m.remove(s[0].0));
        assert(s =~= seq![s[0]] + s.skip(1));
        assert(t =~= seq![t[0]] + t.skip(1));
    }
}

/// Without its first call, a list is that of the map without it.
proof fn lemma_lists_rest(s: Seq<(u64, CallPartsModel)>, m: Map<u64, CallParts>)
    requires
        lists(s, m),
        s.len() > 0,
    ensures
        lists(s.skip(1), m.remove(s[0].0)),
{
    let t = s.skip(1);
    let rest = m.remove(s[0].0);
    assert forall|i: int, j: int| 0 <= i < j < t.len() implies (#[trigger] t[i]).0 < (
    #[trigger] t[j]).0 by {
        assert(t[i] == s[i + 1] && t[j] == s[j + 1]);
    }
    assert forall|i: int| 0 <= i < t.len() implies rest.contains_key((#[trigger] t[i]).0)
        && rest[t[i].0]@ == t[i].1 by {
        assert(t[i] == s[i + 1]);
        assert(s[0].0 < s[i + 1].0);
    }
    assert forall|k: u64| #[trigger] rest.contains_key(k) implies exists|i: int|
        0 <= i < t.len() && (#[trigger] t[i]).0 == k by {
        assert(m.contains_key(k));
        let i = choose|i: int| 0 <= i < s.len() && (#[trigger] s[i]).0 == k;
        assert(t[i - 1].0 == k);
    }
}

/// A fragment that is merged into a list is merged into the map.
proof fn lemma_merged_lists(
    s: Seq<(u64, CallPartsModel)>,
    m: Map<u64, CallParts>,
    fragment: JsonModel,
    parts: CallParts,
)
    requires
        lists(s, m),
        parts@ == (if m.contains_key(fragment_index(fragment)) {
            m[fragment_index(fragment)]@
        } else {
            CallPartsModel::empty()
        }).extended(fragment),
    ensures
        lists(merged(s, fragment), m.insert(fragment_index(fragment), parts)),
    decreases s.len(),
{
    let n = fragment_index(fragment);
    let r = merged(s, fragment);
    let after = m.insert(n, parts);
    law_merged(s, fragment, n);
    if s.len() == 0 || n < s[0].0 {
        if m.contains_key(n) {
            let i = choose|i: int| 0 <= i < s.len() && (#[trigger] s[i]).0 == n;
            assert(s[0].0 <= s[i].0);
        }
        assert forall|i: int| 0 <= i < r.len() implies after.contains_key((#[trigger] r[i]).0)
            && after[r[i].0]@ == r[i].1 by {
            if i > 0 {
                assert(r[i] == s[i - 1]);
                assert(r[0].0 < r[i].0);
            }
        }
        assert forall|k: u64| #[trigger] after.contains_key(k) implies exists|i: int|
            0 <= i < r.len() && (#[trigger] r[i]).0 == k by {
            if k == n {
                assert(r[0].0 == k);
            } else {
                assert(m.contains_key(k));
                let i = choose|i: int| 0 <= i < s.len() && (#[trigger] s[i]).0 == k;
                assert(r[i + 1] == s[i]);
            }
        }
    } else if s[0].0 == n {
        assert(m.contains_key(s[0].0));
        assert forall|i: int| 0 <= i < r.len() implies after.contains_key((#[trigger] r[i]).0)
            && after[r[i].0]@ == r[i].1 by {
            if i > 0 {
                assert(r[i] == s[i]);
                assert(s[0].0 < s[i].0);
            }
        }
        assert forall|k: u64| #[trigger] after.contains_key(k) implies exists|i: int|
            0 <= i < r.len() && (#[trigger] r[i]).0 == k by {
            if k == n {
                assert(r[0].0 == k);
            } else {
                assert(m.contains_key(k));
                let i = choose|i: int| 0 <= i < s.len() && (#[trigger] s[i]).0 == k;
                assert(r[i] == s[i]);
            }
        }
    } else {
        let t = s.skip(1);
        let first = s[0].0;
        let rest = m.remove(first);
        assert(m.contains_key(first));
        lemma_lists_rest(s, m);
        lemma_merged_lists(t, rest, fragment, parts);
        let q = merged(t, fragment);
        assert forall|i: int| 0 <= i < r.len() implies after.contains_key((#[trigger] r[i]).0)
            && after[r[i].0]@ == r[i].1 by {
            if i > 0 {
                assert(r[i] == q[i - 1]);
                assert(r[0].0 < r[i].0);
                assert(rest.insert(n, parts).contains_key(q[i - 1].0));
            } else {
                assert(r[0] == s[0]);
            }
        }
        assert forall|k: u64| #[trigger] after.contains_key(k) implies exists|i: int|
            0 <= i < r.len() && (#[trigger] r[i]).0 == k by {
            if k == first {
                assert(r[0].0 == k);
            } else {
                assert(rest.insert(n, parts).contains_key(k));
                let i = choose|i: int| 0 <= i < q.len() && (#[trigger] q[i]).0 == k;
                assert(r[i + 1] == q[i]);
            }
        }
    }
}

/// A streamed reply, as far as it has come in.
#[derive(Debug)]
pub struct StreamState {
    content: String,
    calls: BTreeMap<u64, CallParts>,
    finish: FinishReason,
    usage: Usage,
}

impl View for StreamState {
    type V = StreamModel;

    closed spec fn view(&self) -> StreamModel {
        StreamModel {
            content: self.content@,
            calls: in_order(self.calls@),
            finish: self.finish,
            usage: self.usage,
        }
    }
}

fn merge_fragment(calls: &mut BTreeMap<u64, CallParts>, fragment: &Json)
    ensures
        in_order(final(calls)@) == merged(in_order(old(calls)@), fragment@),
{
    let n: u64 = match fragment.at("index").uint() {
        Some(n) => n,
        None => 0,
    };
    let ghost before = calls@;
    let mut parts = match calls.remove(&n) {
        Some(parts) => parts,
        None => CallParts { id: String::new(), name: String::new(), arguments: String::new() },
    };
    if let Some(id) = fragment.at("id").text() {
        parts.id = id.to_owned();
    }
    let function = fragment.at("function");
    parts.name.append(function.at("name").text_or_empty().as_str());
    parts.arguments.append(function.at("arguments").text_or_empty().as_str());
    calls.insert(n, parts);
    proof {
        assert(calls@ =~= before.insert(n, parts));
        lemma_in_order(before);
        lemma_in_order(calls@);
        lemma_merged_lists(in_order(before), before, fragment@, parts);
        lemma_lists_unique(
            in_order(calls@),
            merged(in_order(before), fragment@),
            calls@,
        );
    }
}

impl StreamState {
    /// The start of a streamed reply.
    pub fn new() -> (r: StreamState)
        ensures
            r@ == StreamModel::empty(),
    {
        let r = StreamState {
            content: String::new(),
            calls: BTreeMap::new(),
            finish: FinishReason::Stop,
            usage: Usage { input_tokens: 0, output_tokens: 0 },
        };
        proof {
            lemma_in_order(r.calls@);
            if r@.calls.len() > 0 {
                assert(r.calls@.contains_key(r@.calls[0].0));
            }
        }
        assert(r@.calls =~= Seq::empty());
        r
    }

    /// Take in one event, already parsed. Returns the text it adds, for whoever
    /// shows the reply as it comes.
    pub fn apply(&mut self, v: &Json) -> (r: Option<String>)
        ensures
            final(self)@ == old(self)@.after(v@),
            opt_view(r) == delta_text(v@),
    {
        if let Some(u) = v.non_null("usage") {
            self.usage = usage_from(u);
        }
        let choice = match v.at("choices").first() {
            Some(c) => c,
            None => return None,
        };
        let delta = choice.at("delta");
        let mut added: Option<String> = None;
        if let Some(text) = delta.at("content").text() {
            if !text.is_empty() {
                self.content.append(text);
                added = Some(text.to_owned());
            }
        }
        if let Some(fragments) = delta.at("tool_calls").items() {
            let ghost start = in_order(self.calls@);
            let ghost all = views(fragments@);
            let ghost kept = (self.content@, self.finish, self.usage);
            let mut i: usize = 0;
            assert(all.take(0) =~= Seq::empty());
            while i < fragments.len()
                invariant
                    all == views(fragments@),
                    i <= fragments@.len(),
                    kept == (self.content@, self.finish, self.usage),
                    in_order(self.calls@) == merged_all(start, all.take(i as int)),
                decreases fragments@.len() - i,
            {
                merge_fragment(&mut self.calls, &fragments[i]);
                assert(all.take(i + 1).drop_last() =~= all.take(i as int));
                i += 1;
            }
            assert(all.take(i as int) =~= all);
        }
        if let Some(reason) = choice.at("finish_reason").text() {
            if same(reason, "tool_calls") {
                self.finish = FinishReason::ToolCalls;
            } else if same(reason, "length") {
                self.finish = FinishReason::Length;
            } else if same(reason, "stop") {
                self.finish = FinishReason::Stop;
            }
        }
        added
    }

    /// Take in the payload of one `data:` line.
    pub fn on_event(&mut self, data: &str) -> (r: Result<Option<String>, Error>)
        ensures
            match json_read(data@) {
                Ok(v) => final(self)@ == old(self)@.after(v) && r is Ok && opt_view(r->Ok_0)
                    == delta_text(v),
                Err(e) => final(self)@ == old(self)@ && r is Err && r->Err_0@
                    == ErrorModel::Provider("openai stream json: "@ + e),
            },
    {
        match Json::parse(data) {
            Ok(v) => Ok(self.apply(&v)),
            Err(e) => Err(Error::Provider(cat2("openai stream json: ", e.as_str()))),
        }
    }

    /// The reply, once the stream has ended.
    pub fn finish(self) -> (r: ChatResponse)
        ensures
            r@ == self@.response(),
    {
        let mut tool_calls: Vec<ToolCall> = Vec::new();
        let ghost all = in_order(self.calls@);
        let entries = self.calls.iter();
        let ghost pairs = entries.remaining();
        proof {
            let keys = pairs.map_values(|kv: (&u64, &CallParts)| *kv.0);
            let s = pair_models(pairs);
            assert(increasing_seq(keys));
            assert forall|i: int, j: int| 0 <= i < j < s.len() implies (#[trigger] s[i]).0 < (
            #[trigger] s[j]).0 by {
                assert(keys[i] == s[i].0 && keys[j] == s[j].0);
                assert(keys[i].cmp_spec(&keys[j]) is Less);
            }
            assert forall|i: int| 0 <= i < s.len() implies self.calls@.contains_key(
                (#[trigger] s[i]).0,
            ) && self.calls@[s[i].0]@ == s[i].1 by {
                assert(self.calls@.contains_key(*pairs[i].0));
            }
            assert forall|k: u64| #[trigger] self.calls@.contains_key(k) implies exists|i: int|
                0 <= i < s.len() && (#[trigger] s[i]).0 == k by {
                let e = (&k, &self.calls@[k]);
                assert(pairs.contains(e));
                let i = choose|i: int| 0 <= i < pairs.len() && pairs[i] == e;
                assert(s[i].0 == k);
            }
            lemma_in_order(self.calls@);
            lemma_lists_unique(s, all, self.calls@);
        }
        for (_, parts) in it: entries
            invariant
                all == pair_models(it.seq()),
                tool_calls@.len() == it.index(),
                forall|k: int|
                    0 <= k < it.index() ==> (#[trigger] tool_calls@[k])@ == all[k].1.call(),
        {
            tool_calls.push(
                ToolCall {
                    id: parts.id.clone(),
                    name: parts.name.clone(),
                    arguments: arguments_from(Json::parse(parts.arguments.as_str())),
                },
            );
        }
        assert(views(tool_calls@) =~= gathered_calls(self@.calls));
        let finish = if tool_calls.len() > 0 {
            FinishReason::ToolCalls
        } else {
            self.finish
        };
        ChatResponse { content: self.content, tool_calls, finish, usage: self.usage }
    }
}

/// What comes of payloads: the state behind them, the texts to show, and the failure
/// that ended it, if any.
#[verifier::ext_equal]
pub struct Taken {
    pub state: StreamModel,
    pub shown: Seq<Seq<char>>,
    pub failure: Option<ErrorModel>,
}

/// Takes in payloads in order, up to one that is no JSON.
pub open spec fn taken(state: StreamModel, payloads: Seq<Seq<char>>) -> Taken
    decreases payloads.len(),
{
    if payloads.len() == 0 {
        Taken { state, shown: Seq::empty(), failure: None }
    } else {
        let before = taken(state, payloads.drop_last());
        if before.failure is Some {
            before
        } else {
            match json_read(payloads.last()) {
                Ok(v) => Taken {
                    state: before.state.after(v),
                    shown: match delta_text(v) {
                        Some(text) => before.shown.push(text),
                        None => before.shown,
                    },
                    failure: None,
                },
                Err(e) => Taken {
                    failure: Some(ErrorModel::Provider("openai stream json: "@ + e)),
                    ..before
                },
            }
        }
    }
}

/// What a [`StreamReader`] is after a chunk, and what the chunk brought.
#[verifier::ext_equal]
pub struct ChunkTaken {
    pub data: ReaderModel,
    pub taken: Taken,
}

/// A chunk taken in behind `data` and `state`.
pub open spec fn chunk_taken(data: ReaderModel, state: StreamModel, chunk: Seq<u8>) -> ChunkTaken {
    let read = data.fed(chunk);
    ChunkTaken { data: read.reader, taken: taken(state, read.data) }
}

/// What a chunk of a streamed reply brings.
#[derive(Debug)]
pub struct Fed {
    /// The texts to show, in order.
    pub shown: Vec<String>,
    /// Why the stream has to be given up.
    pub failure: Option<Error>,
}

/// A streamed reply that is read from the chunks of a response body.
#[derive(Debug)]
pub struct StreamReader {
    data: DataReader,
    state: StreamState,
}

impl StreamReader {
    /// What is left of the body so far.
    pub closed spec fn data(self) -> ReaderModel {
        self.data@
    }

    /// The reply so far.
    pub closed spec fn state(self) -> StreamModel {
        self.state@
    }

    pub fn new(state: StreamState) -> (r: StreamReader)
        ensures
            r.data() == ReaderModel::fresh(),
            r.state() == state@,
    {
        StreamReader { data: DataReader::new(), state }
    }

    /// Take in a chunk of the body.
    pub fn feed(&mut self, chunk: &Vec<u8>) -> (r: Fed)
        ensures
            chunk_taken(old(self).data(), old(self).state(), chunk@) == (ChunkTaken {
                data: final(self).data(),
                taken: Taken {
                    state: final(self).state(),
                    shown: views(r.shown@),
                    failure: opt_view(r.failure),
                },
            }),
    {
        broadcast use lemma_views_push;

        let payloads = self.data.feed(chunk);
        let ghost start = self.state@;
        let ghost reader = self.data@;
        let ghost all = views(payloads@);
        let mut shown: Vec<String> = Vec::new();
        let mut i: usize = 0;
        assert(all.take(0) =~= Seq::empty());
        assert(views(shown@) =~= Seq::empty());
        while i < payloads.len()
            invariant
                all == views(payloads@),
                all == old(self).data().fed(chunk@).data,
                start == old(self).state(),
                reader == old(self).data().fed(chunk@).reader,
                self.data@ == reader,
                i <= payloads@.len(),
                taken(start, all.take(i as int)) == (Taken {
                    state: self.state@,
                    shown: views(shown@),
                    failure: None,
                }),
            decreases payloads@.len() - i,
        {
            broadcast use lemma_views_push;

            assert(all.take(i + 1).drop_last() =~= all.take(i as int));
            assert(all.take(i + 1).last() == payloads@[i as int]@);
            match self.state.on_event(payloads[i].as_str()) {
                Ok(Some(text)) => {
                    shown.push(text);
                },
                Ok(None) => {},
                Err(e) => {
                    proof {
                        lemma_failure_stays(start, all, i + 1);
                    }
                    return Fed { shown, failure: Some(e) };
                },
            }
            i += 1;
        }
        assert(all.take(i as int) =~= all);
        Fed { shown, failure: None }
    }

    /// The stream is at its end: no chunk brings anything more.
    pub fn done(&self) -> (r: bool)
        ensures
            r == self.data().done,
    {
        self.data.done()
    }

    /// The reply, once the stream has ended.
    pub fn finish(self) -> (r: ChatResponse)
        ensures
            r@ == self.state().response(),
    {
        self.state.finish()
    }
}

proof fn lemma_failure_stays(state: StreamModel, payloads: Seq<Seq<char>>, n: int)
    requires
        0 <= n <= payloads.len(),
        taken(state, payloads.take(n)).failure is Some,
    ensures
        taken(state, payloads) == taken(state, payloads.take(n)),
    decreases payloads.len() - n,
{
    if n == payloads.len() {
        assert(payloads.take(n) =~= payloads);
    } else {
        assert(payloads.take(n + 1).drop_last() =~= payloads.take(n));
        lemma_failure_stays(state, payloads, n + 1);
    }
}

/// Texts one behind the other.
pub open spec fn joined_texts(s: Seq<Seq<char>>) -> Seq<char>
    decreases s.len(),
{
    if s.len() == 0 {
        Seq::empty()
    } else {
        joined_texts(s.drop_last()) + s.last()
    }
}

/// What was shown as it came is what the reply says in the end: nothing is shown
/// twice, and nothing is left out, even where the stream fails.
pub proof fn law_shown_is_content(state: StreamModel, payloads: Seq<Seq<char>>)
    ensures
        taken(state, payloads).state.content == state.content + joined_texts(
            taken(state, payloads).shown,
        ),
    decreases payloads.len(),
{
    if payloads.len() == 0 {
        assert(state.content + joined_texts(Seq::empty()) =~= state.content);
    } else {
        law_shown_is_content(state, payloads.drop_last());
        let before = taken(state, payloads.drop_last());
        let now = taken(state, payloads);
        if before.failure is None {
            if let Ok(v) = json_read(payloads.last()) {
                if let Some(text) = delta_text(v) {
                    assert(now.shown.drop_last() =~= before.shown);
                    assert(now.state.content =~= state.content + joined_texts(now.shown));
                }
            }
        }
    }
}

/// Payloads come to the same whether they come at once or in two parts: the second part
/// goes on behind the first, unless that failed.
pub proof fn law_taken_in_parts(state: StreamModel, p: Seq<Seq<char>>, q: Seq<Seq<char>>)
    ensures
        taken(state, p + q) == ({
            let first = taken(state, p);
            let second = taken(first.state, q);
            if first.failure is Some {
                first
            } else {
                Taken { shown: first.shown + second.shown, ..second }
            }
        }),
    decreases q.len(),
{
    let first = taken(state, p);
    if q.len() == 0 {
        assert(p + q =~= p);
        assert(first.shown + Seq::<Seq<char>>::empty() =~= first.shown);
    } else {
        law_taken_in_parts(state, p, q.drop_last());
        assert((p + q).drop_last() =~= p + q.drop_last());
        assert((p + q).last() == q.last());
        let second = taken(first.state, q);
        assert(taken(state, p + q).shown =~= (if first.failure is Some {
            first.shown
        } else {
            first.shown + second.shown
        }));
    }
}

/// All of these payloads are JSON.
pub open spec fn all_json(payloads: Seq<Seq<char>>) -> bool {
    forall|i: int| 0 <= i < payloads.len() ==> json_read(#[trigger] payloads[i]) is Ok
}

/// The events that payloads hold.
pub open spec fn events_of(payloads: Seq<Seq<char>>) -> Seq<JsonModel> {
    Seq::new(payloads.len(), |i: int| json_read(payloads[i])->Ok_0)
}

/// Where all payloads are JSON, taking them in is taking in their events, and nothing
/// fails. Where one is not, the stream fails.
pub proof fn law_taken_events(state: StreamModel, payloads: Seq<Seq<char>>)
    ensures
        all_json(payloads) ==> taken(state, payloads).state == state.after_all(
            events_of(payloads),
        ),
        taken(state, payloads).failure is None <==> all_json(payloads),
    decreases payloads.len(),
{
    if payloads.len() == 0 {
        assert(events_of(payloads) =~= Seq::empty());
    } else {
        let front = payloads.drop_last();
        law_taken_events(state, front);
        assert(events_of(payloads).drop_last() =~= events_of(front));
        assert(payloads[payloads.len() - 1] == payloads.last());
        assert(all_json(payloads) <==> all_json(front) && json_read(payloads.last()) is Ok) by {
            if all_json(front) && json_read(payloads.last()) is Ok {
                assert forall|i: int| 0 <= i < payloads.len() implies json_read(
                    #[trigger] payloads[i],
                ) is Ok by {
                    if i < front.len() {
                        assert(front[i] == payloads[i]);
                    }
                }
            }
            if all_json(payloads) {
                assert forall|i: int| 0 <= i < front.len() implies json_read(
                    #[trigger] front[i],
                ) is Ok by {
                    assert(front[i] == payloads[i]);
                }
            }
        }
    }
}

/// Chunks taken in one after the other, up to one that fails.
pub open spec fn chunks_taken(
    data: ReaderModel,
    state: StreamModel,
    chunks: Seq<Seq<u8>>,
) -> ChunkTaken
    decreases chunks.len(),
{
    if chunks.len() == 0 {
        ChunkTaken { data, taken: Taken { state, shown: Seq::empty(), failure: None } }
    } else {
        let before = chunks_taken(data, state, chunks.drop_last());
        if before.taken.failure is Some {
            before
        } else {
            let last = chunk_taken(before.data, before.taken.state, chunks.last());
            ChunkTaken {
                data: last.data,
                taken: Taken { shown: before.taken.shown + last.taken.shown, ..last.taken },
            }
        }
    }
}

/// However the body of a streamed reply is cut into chunks, the same texts are shown, the
/// same reply comes of it, and it fails or not in the same way, as if the whole body came
/// at once.
pub proof fn law_stream_chunking(state: StreamModel, chunks: Seq<Seq<u8>>)
    ensures
        chunks_taken(ReaderModel::fresh(), state, chunks).taken == chunk_taken(
            ReaderModel::fresh(),
            state,
            joined_chunks(chunks),
        ).taken,
        chunks_taken(ReaderModel::fresh(), state, chunks).taken.failure is None
            ==> chunks_taken(ReaderModel::fresh(), state, chunks).data == chunk_taken(
            ReaderModel::fresh(),
            state,
            joined_chunks(chunks),
        ).data,
    decreases chunks.len(),
{
    let fresh = ReaderModel::fresh();
    law_chunking(chunks);
    if chunks.len() == 0 {
        assert(fresh.fed(joined_chunks(chunks)).data =~= Seq::empty());
    } else {
        let front = chunks.drop_last();
        law_stream_chunking(state, front);
        law_chunking(front);
        law_chunks_join(fresh, joined_chunks(front), chunks.last());
        let p = fresh.fed(joined_chunks(front)).data;
        let q = fresh.fed(joined_chunks(front)).reader.fed(chunks.last()).data;
        law_taken_in_parts(state, p, q);
    }
}

/// A body that is read to its end without a failure gives the reply that its events
/// amount to, however it came in.
pub proof fn law_stream_is_its_events(chunks: Seq<Seq<u8>>)
    ensures
        ({
            let payloads = ReaderModel::fresh().fed(joined_chunks(chunks)).data;
            let end = chunks_taken(ReaderModel::fresh(), StreamModel::empty(), chunks).taken;
            &&& end.failure is None <==> all_json(payloads)
            &&& all_json(payloads) ==> end.state == StreamModel::empty().after_all(
                events_of(payloads),
            )
        }),
{
    law_stream_chunking(StreamModel::empty(), chunks);
    law_taken_events(
        StreamModel::empty(),
        ReaderModel::fresh().fed(joined_chunks(chunks)).data,
    );
}

/// The texts that the events add, one behind the other.
pub open spec fn delta_texts(events: Seq<JsonModel>) -> Seq<char>
    decreases events.len(),
{
    if events.len() == 0 {
        Seq::empty()
    } else {
        delta_texts(events.drop_last()) + (match delta_text(events.last()) {
            Some(text) => text,
            None => Seq::empty(),
        })
    }
}

/// The content of a streamed reply is exactly what was handed out piece by piece.
pub proof fn law_stream_content(events: Seq<JsonModel>)
    ensures
        StreamModel::empty().after_all(events).response().content == delta_texts(events),
    decreases events.len(),
{
    if events.len() > 0 {
        law_stream_content(events.drop_last());
        assert(delta_texts(events) =~= StreamModel::empty().after_all(events).content);
    }
}

/// The calls stand in strictly ascending order of their numbers.
pub open spec fn ascending(s: Seq<(u64, CallPartsModel)>) -> bool {
    forall|i: int, j: int| 0 <= i < j < s.len() ==> (#[trigger] s[i]).0 < (#[trigger] s[j]).0
}

/// The pieces of the call with the given number; none if the call is unknown.
pub open spec fn parts_of(s: Seq<(u64, CallPartsModel)>, n: u64) -> CallPartsModel
    decreases s.len(),
{
    if s.len() == 0 {
        CallPartsModel::empty()
    } else if s[0].0 == n {
        s[0].1
    } else {
        parts_of(s.skip(1), n)
    }
}

/// A fragment changes the call it belongs to and no other, and keeps the order.
pub proof fn law_merged(s: Seq<(u64, CallPartsModel)>, fragment: JsonModel, n: u64)
    requires
        ascending(s),
    ensures
        ascending(merged(s, fragment)),
        parts_of(merged(s, fragment), n) == if n == fragment_index(fragment) {
            parts_of(s, n).extended(fragment)
        } else {
            parts_of(s, n)
        },
    decreases s.len(),
{
    let f = fragment_index(fragment);
    let r = merged(s, fragment);
    if s.len() == 0 || f < s[0].0 {
        assert(r.skip(1) =~= s);
        lemma_parts_absent(s, f);
        assert forall|i: int, j: int| 0 <= i < j < r.len() implies (#[trigger] r[i]).0 < (
        #[trigger] r[j]).0 by {
            assert(r[j] == s[j - 1]);
            if i > 0 {
                assert(r[i] == s[i - 1]);
            }
        }
    } else if s[0].0 == f {
        assert(r.skip(1) =~= s.skip(1));
        assert forall|i: int, j: int| 0 <= i < j < r.len() implies (#[trigger] r[i]).0 < (
        #[trigger] r[j]).0 by {
            assert(r[j] == s[j]);
            assert(s[i].0 < s[j].0);
        }
    } else {
        let t = s.skip(1);
        assert(ascending(t)) by {
            assert forall|i: int, j: int| 0 <= i < j < t.len() implies (#[trigger] t[i]).0 < (
            #[trigger] t[j]).0 by {
                assert(t[i] == s[i + 1] && t[j] == s[j + 1]);
            }
        }
        law_merged(t, fragment, n);
        lemma_merged_above(t, fragment, s[0].0);
        let m = merged(t, fragment);
        assert(r.skip(1) =~= m);
        assert forall|i: int, j: int| 0 <= i < j < r.len() implies (#[trigger] r[i]).0 < (
        #[trigger] r[j]).0 by {
            assert(r[j] == m[j - 1]);
            if i > 0 {
                assert(r[i] == m[i - 1]);
            }
        }
    }
}

proof fn lemma_parts_absent(s: Seq<(u64, CallPartsModel)>, n: u64)
    requires
        forall|i: int| 0 <= i < s.len() ==> (#[trigger] s[i]).0 != n,
    ensures
        parts_of(s, n) == CallPartsModel::empty(),
    decreases s.len(),
{
    if s.len() > 0 {
        assert forall|i: int| 0 <= i < s.skip(1).len() implies (#[trigger] s.skip(1)[i]).0 != n by {
            assert(s.skip(1)[i] == s[i + 1]);
        }
        lemma_parts_absent(s.skip(1), n);
    }
}

proof fn lemma_merged_above(s: Seq<(u64, CallPartsModel)>, fragment: JsonModel, low: u64)
    requires
        forall|i: int| 0 <= i < s.len() ==> low < (#[trigger] s[i]).0,
        low < fragment_index(fragment),
    ensures
        forall|i: int| 0 <= i < merged(s, fragment).len() ==> low < (#[trigger] merged(
            s,
            fragment,
        )[i]).0,
    decreases s.len(),
{
    let r = merged(s, fragment);
    if s.len() > 0 && s[0].0 < fragment_index(fragment) {
        let t = s.skip(1);
        assert forall|i: int| 0 <= i < t.len() implies low < (#[trigger] t[i]).0 by {
            assert(t[i] == s[i + 1]);
        }
        lemma_merged_above(t, fragment, low);
        assert forall|i: int| 0 <= i < r.len() implies low < (#[trigger] r[i]).0 by {
            if i > 0 {
                assert(r[i] == merged(t, fragment)[i - 1]);
            }
        }
    } else {
        assert forall|i: int| 0 <= i < r.len() implies low < (#[trigger] r[i]).0 by {
            if i > 0 {
                assert(r[i] == s[i] || r[i] == s[i - 1]);
            }
        }
    }
}

/// Whatever the events were, the calls of a streamed reply come out in ascending
/// order of their numbers, each number once.
pub proof fn law_stream_ascending(events: Seq<JsonModel>)
    ensures
        ascending(StreamModel::empty().after_all(events).calls),
    decreases events.len(),
{
    if events.len() > 0 {
        law_stream_ascending(events.drop_last());
        let before = StreamModel::empty().after_all(events.drop_last()).calls;
        if let Some(choice) = events.last().at("choices"@).first() {
            lemma_merged_all_ascending(before, delta_fragments(choice));
        }
    }
}

proof fn lemma_merged_all_ascending(s: Seq<(u64, CallPartsModel)>, fragments: Seq<JsonModel>)
    requires
        ascending(s),
    ensures
        ascending(merged_all(s, fragments)),
    decreases fragments.len(),
{
    if fragments.len() > 0 {
        lemma_merged_all_ascending(s, fragments.drop_last());
        law_merged(merged_all(s, fragments.drop_last()), fragments.last(), 0);
    }
}

/// The reason for the end of a reply that an event gives, where it gives a known one.
pub open spec fn reason_given(v: JsonModel) -> Option<FinishReason> {
    match v.at("choices"@).first() {
        Some(choice) => {
            let reason = choice.at("finish_reason"@).text();
            if reason == Some("tool_calls"@) {
                Some(FinishReason::ToolCalls)
            } else if reason == Some("length"@) {
                Some(FinishReason::Length)
            } else if reason == Some("stop"@) {
                Some(FinishReason::Stop)
            } else {
                None
            }
        },
        None => None,
    }
}

/// The last reason that was given; a stop where none was.
pub open spec fn last_reason(events: Seq<JsonModel>) -> FinishReason
    decreases events.len(),
{
    if events.len() == 0 {
        FinishReason::Stop
    } else {
        match reason_given(events.last()) {
            Some(reason) => reason,
            None => last_reason(events.drop_last()),
        }
    }
}

/// A reply that calls tools says so, however the provider put it, and a reply
/// that calls none carries the last reason the provider gave.
pub proof fn law_stream_finish(events: Seq<JsonModel>)
    ensures
        ({
            let r = StreamModel::empty().after_all(events).response();
            r.finish == if r.tool_calls.len() > 0 {
                FinishReason::ToolCalls
            } else {
                last_reason(events)
            }
        }),
{
    lemma_last_reason(events);
}

proof fn lemma_last_reason(events: Seq<JsonModel>)
    ensures
        StreamModel::empty().after_all(events).finish == last_reason(events),
    decreases events.len(),
{
    if events.len() > 0 {
        lemma_last_reason(events.drop_last());
    }
}

/// An adapter for one configured OpenAI-compatible endpoint.
pub struct OpenAiAdapter {
    endpoint: Endpoint,
}

impl View for OpenAiAdapter {
    type V = EndpointModel;

    closed spec fn view(&self) -> EndpointModel {
        self.endpoint@
    }
}

/// A request to the chat endpoint, under the endpoint's own model.
pub open spec fn chat_request(
    to: EndpointModel,
    members: Map<Seq<char>, JsonModel>,
) -> HttpRequestModel {
    HttpRequestModel {
        url: endpoint_of(to.base_url, "/chat/completions"@),
        bearer: to.api_key,
        headers: Seq::empty(),
        body: JsonModel::Obj(members.insert("model"@, JsonModel::Str(to.model))),
    }
}

/// The members of the body of a streaming request.
pub open spec fn stream_members(req: ChatRequestModel) -> Map<Seq<char>, JsonModel> {
    body_members(req).insert("stream"@, JsonModel::Bool(true)).insert(
        "stream_options"@,
        JsonModel::Obj(map!["include_usage"@ => JsonModel::Bool(true)]),
    )
}

/// The reply that an HTTP reply holds.
pub open spec fn completed(reply: HttpReplyModel) -> Result<ChatResponseModel, ErrorModel> {
    match accepted("openai"@, reply) {
        Ok(body) => match json_read(body) {
            Ok(v) => read_response(v),
            Err(e) => Err(ErrorModel::Json(e)),
        },
        Err(e) => Err(e),
    }
}

/// The head of the response to a streaming request.
#[derive(Debug)]
pub struct StreamHead {
    pub code: u16,
    /// The status in words.
    pub status: String,
    /// The body of a refusal, where it could be read.
    pub refusal: Option<String>,
}

/// Why a streaming request gives no stream: it was not sent, or was refused. The
/// body of a refusal that could not be read counts as empty.
pub open spec fn stream_refused(sent: Result<StreamHead, String>) -> Option<ErrorModel> {
    match sent {
        Err(e) => Some(ErrorModel::Provider("openai stream request: "@ + e@)),
        Ok(head) => if is_success_code(head.code) {
            None
        } else {
            let body = match head.refusal {
                Some(text) => text@,
                None => Seq::empty(),
            };
            Some(refusal_of("openai"@, head.status@, body))
        },
    }
}

impl OpenAiAdapter {
    pub fn new(cfg: &ProviderConfig, api_key: Option<String>) -> (r: OpenAiAdapter)
        ensures
            r@ == EndpointModel::configured(
                cfg@,
                "https://api.openai.com/v1"@,
                opt_view(api_key),
            ),
    {
        OpenAiAdapter { endpoint: Endpoint::new(cfg, "https://api.openai.com/v1", api_key) }
    }

    /// The config handle.
    pub fn name(&self) -> (r: &str)
        ensures
            r@ == self@.name,
    {
        self.endpoint.name.as_str()
    }

    fn request(&self, body: Members) -> (r: HttpRequest)
        ensures
            r@ == chat_request(self@, body@),
    {
        let mut body = body;
        body.put_text("model", self.endpoint.model.as_str());
        let r = HttpRequest {
            url: endpoint(self.endpoint.base_url.as_str(), "/chat/completions"),
            bearer: self.endpoint.api_key.clone(),
            headers: Vec::new(),
            body: body.done(),
        };
        assert(r@.headers =~= Seq::empty());
        r
    }

    /// The request for a completion in one piece.
    pub fn complete_request(&self, req: &ChatRequest) -> (r: HttpRequest)
        ensures
            r@ == chat_request(self@, body_members(req@)),
    {
        self.request(members(req))
    }

    /// The completion that came back.
    pub fn complete(&self, reply: HttpReply) -> (r: Result<ChatResponse, Error>)
        ensures
            outcome(r) == completed(reply@),
    {
        match accept("openai", reply) {
            Ok(body) => match Json::parse(body.as_str()) {
                Ok(v) => parse_response(&v),
                Err(e) => Err(Error::Json(e)),
            },
            Err(e) => Err(e),
        }
    }

    /// The request for a streamed completion.
    pub fn stream_request(&self, req: &ChatRequest) -> (r: HttpRequest)
        ensures
            r@ == chat_request(self@, stream_members(req@)),
    {
        let mut body = members(req);
        body.put("stream", Json::Bool(true));
        let mut options = Members::new();
        options.put("include_usage", Json::Bool(true));
        body.put("stream_options", options.done());
        self.request(body)
    }

    /// The start of a streamed completion, or why there is none.
    pub fn stream(&self, sent: Result<StreamHead, String>) -> (r: Result<StreamReader, Error>)
        ensures
            match stream_refused(sent) {
                Some(e) => r is Err && r->Err_0@ == e,
                None => r is Ok && r->Ok_0.data() == ReaderModel::fresh() && r->Ok_0.state()
                    == StreamModel::empty(),
            },
    {
        match sent {
            Err(e) => Err(Error::Provider(cat2("openai stream request: ", e.as_str()))),
            Ok(head) => {
                if is_success(head.code) {
                    return Ok(StreamReader::new(StreamState::new()));
                }
                let body = match head.refusal {
                    Some(text) => text,
                    None => String::new(),
                };
                Err(refusal("openai", head.status.as_str(), body.as_str()))
            },
        }
    }
}

} // verus!
