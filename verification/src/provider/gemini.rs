//! Google Gemini `generateContent` adapter.
//!
//! Roles are `user`/`model`; tool calls and results are `functionCall` and
//! `functionResponse` parts. Gemini assigns no call ids, so the id is synthesised
//! from the function name (matched back by name on the response turn).
use vstd::prelude::*;

use crate::config::ProviderConfig;
use crate::error::{outcome, Error, ErrorModel};
use crate::json::{array, json_read, Json, JsonModel, Members};
use crate::provider::types::{
    ChatRequest, ChatRequestModel, ChatResponse, ChatResponseModel, FinishReason, Message,
    MessageModel, Role, ToolCall, ToolCallModel, ToolSpec, ToolSpecModel, Usage,
};
use crate::provider::wire::{
    accept, accepted, opt_text, opt_text_json, token_count, tokens, Endpoint, EndpointModel,
    HttpReply, HttpReplyModel, HttpRequest, HttpRequestModel,
};
use crate::text::{cat5, opt_view, same, trim_end_char, trim_end_char_of, views};

verus! {

pub open spec fn text_part(text: Seq<char>) -> JsonModel {
    JsonModel::Obj(map!["text"@ => JsonModel::Str(text)])
}

pub open spec fn call_part(c: ToolCallModel) -> JsonModel {
    JsonModel::Obj(
        map![
            "functionCall"@ => JsonModel::Obj(map![
                "name"@ => JsonModel::Str(c.name),
                "args"@ => c.arguments,
            ]),
        ],
    )
}

pub open spec fn call_parts(s: Seq<ToolCallModel>) -> Seq<JsonModel> {
    Seq::new(s.len(), |i: int| call_part(s[i]))
}

/// The parts of an assistant message: its text, if any, then its calls.
pub open spec fn model_parts(m: MessageModel) -> Seq<JsonModel> {
    if m.content.len() == 0 {
        call_parts(m.tool_calls)
    } else {
        seq![text_part(m.content)] + call_parts(m.tool_calls)
    }
}

/// A tool result goes back under the name of the function.
pub open spec fn result_part(m: MessageModel) -> JsonModel {
    JsonModel::Obj(
        map![
            "functionResponse"@ => JsonModel::Obj(map![
                "name"@ => opt_text_json(m.tool_call_id),
                "response"@ => JsonModel::Obj(map!["result"@ => JsonModel::Str(m.content)]),
            ]),
        ],
    )
}

pub open spec fn content_of(role: Seq<char>, parts: Seq<JsonModel>) -> JsonModel {
    JsonModel::Obj(map!["role"@ => JsonModel::Str(role), "parts"@ => JsonModel::Arr(parts)])
}

/// A history message on the wire.
pub open spec fn wire_content(m: MessageModel) -> JsonModel {
    match m.role {
        Role::Assistant => content_of("model"@, model_parts(m)),
        Role::Tool => content_of("user"@, seq![result_part(m)]),
        _ => content_of("user"@, seq![text_part(m.content)]),
    }
}

/// A conversation on the wire. System messages do not count.
pub open spec fn wire_contents(s: Seq<MessageModel>) -> Seq<JsonModel>
    decreases s.len(),
{
    if s.len() == 0 {
        Seq::empty()
    } else if s.last().role == Role::System {
        wire_contents(s.drop_last())
    } else {
        wire_contents(s.drop_last()).push(wire_content(s.last()))
    }
}

pub open spec fn wire_tool(t: ToolSpecModel) -> JsonModel {
    JsonModel::Obj(
        map![
            "name"@ => JsonModel::Str(t.name),
            "description"@ => JsonModel::Str(t.description),
            "parameters"@ => t.parameters,
        ],
    )
}

pub open spec fn wire_tools(s: Seq<ToolSpecModel>) -> Seq<JsonModel> {
    Seq::new(s.len(), |i: int| wire_tool(s[i]))
}

/// The body of a request.
pub open spec fn body_of(req: ChatRequestModel) -> JsonModel {
    let base = map!["contents"@ => JsonModel::Arr(wire_contents(req.messages))];
    let with_system = match req.system {
        Some(text) => base.insert(
            "systemInstruction"@,
            JsonModel::Obj(map!["parts"@ => JsonModel::Arr(seq![text_part(text)])]),
        ),
        None => base,
    };
    let with_tools = if req.tools.len() == 0 {
        with_system
    } else {
        let declarations = JsonModel::Obj(
            map!["functionDeclarations"@ => JsonModel::Arr(wire_tools(req.tools))],
        );
        with_system.insert("tools"@, JsonModel::Arr(seq![declarations]))
    };
    let limit = map!["maxOutputTokens"@ => JsonModel::Int(req.max_tokens as int)];
    let generation = match req.temperature {
        Some(t) => limit.insert("temperature"@, t),
        None => limit,
    };
    JsonModel::Obj(with_tools.insert("generationConfig"@, JsonModel::Obj(generation)))
}

fn one(v: Json) -> (r: Json)
    ensures
        r@ == JsonModel::Arr(seq![v@]),
{
    let mut items: Vec<Json> = Vec::new();
    items.push(v);
    assert(views(items@) =~= seq![v@]);
    array(items)
}

fn text_body(text: &str) -> (r: Json)
    ensures
        r@ == text_part(text@),
{
    let mut m = Members::new();
    m.put_text("text", text);
    m.done()
}

fn call_body(c: &ToolCall) -> (r: Json)
    ensures
        r@ == call_part(c@),
{
    let mut f = Members::new();
    f.put_text("name", c.name.as_str());
    f.put("args", c.arguments.clone());
    let mut m = Members::new();
    m.put("functionCall", f.done());
    m.done()
}

fn result_body(msg: &Message) -> (r: Json)
    ensures
        r@ == result_part(msg@),
{
    let mut response = Members::new();
    response.put_text("result", msg.content.as_str());
    let mut f = Members::new();
    f.put("name", opt_text(&msg.tool_call_id));
    f.put("response", response.done());
    let mut m = Members::new();
    m.put("functionResponse", f.done());
    m.done()
}

fn content_body(role: &str, parts: Json) -> (r: Json)
    ensures
        r@ == JsonModel::Obj(map!["role"@ => JsonModel::Str(role@), "parts"@ => parts@]),
{
    let mut m = Members::new();
    m.put_text("role", role);
    m.put("parts", parts);
    m.done()
}

fn model_body(msg: &Message) -> (r: Json)
    ensures
        r@ == content_of("model"@, model_parts(msg@)),
{
    let mut parts: Vec<Json> = Vec::new();
    if !msg.content.as_str().is_empty() {
        parts.push(text_body(msg.content.as_str()));
    }
    let first: usize = parts.len();
    let mut i: usize = 0;
    while i < msg.tool_calls.len()
        invariant
            i <= msg.tool_calls@.len(),
            first <= 1,
            parts@.len() == first + i,
            first == (if msg.content@.len() == 0 { 0int } else { 1 }),
            first == 1 ==> parts@[0]@ == text_part(msg.content@),
            forall|k: int|
                first <= k < parts@.len() ==> (#[trigger] parts@[k])@ == call_part(
                    msg.tool_calls@[k - first]@,
                ),
        decreases msg.tool_calls@.len() - i,
    {
        parts.push(call_body(&msg.tool_calls[i]));
        i += 1;
    }
    assert(views(parts@) =~= model_parts(msg@));
    content_body("model", array(parts))
}

fn content_bodies(messages: &Vec<Message>) -> (r: Vec<Json>)
    ensures
        views(r@) == wire_contents(views(messages@)),
{
    let ghost all = views(messages@);
    let mut out: Vec<Json> = Vec::new();
    let mut i: usize = 0;
    assert(all.take(0) =~= Seq::empty());
    assert(views(out@) =~= Seq::empty());
    while i < messages.len()
        invariant
            all == views(messages@),
            i <= messages@.len(),
            views(out@) == wire_contents(all.take(i as int)),
        decreases messages@.len() - i,
    {
        let m = &messages[i];
        let ghost before = views(out@);
        assert(all.take(i + 1).drop_last() =~= all.take(i as int));
        assert(all.take(i + 1).last() == m@);
        match m.role {
            Role::User => {
                out.push(content_body("user", one(text_body(m.content.as_str()))));
                assert(views(out@) =~= before.push(wire_content(m@)));
            },
            Role::Assistant => {
                out.push(model_body(m));
                assert(views(out@) =~= before.push(wire_content(m@)));
            },
            Role::Tool => {
                out.push(content_body("user", one(result_body(m))));
                assert(views(out@) =~= before.push(wire_content(m@)));
            },
            Role::System => {},
        }
        i += 1;
    }
    assert(all.take(i as int) =~= all);
    out
}

fn tool_body(t: &ToolSpec) -> (r: Json)
    ensures
        r@ == wire_tool(t@),
{
    let mut m = Members::new();
    m.put_text("name", t.name.as_str());
    m.put_text("description", t.description.as_str());
    m.put("parameters", t.parameters.clone());
    m.done()
}

/// Translate a unified request into a `generateContent` body.
pub fn build_body(req: &ChatRequest) -> (r: Json)
    ensures
        r@ == body_of(req@),
{
    let mut body = Members::new();
    body.put("contents", array(content_bodies(&req.messages)));
    if let Some(text) = &req.system {
        let mut instruction = Members::new();
        instruction.put("parts", one(text_body(text.as_str())));
        body.put("systemInstruction", instruction.done());
    }
    if req.tools.len() > 0 {
        let mut tools: Vec<Json> = Vec::new();
        let mut k: usize = 0;
        while k < req.tools.len()
            invariant
                k <= req.tools@.len(),
                tools@.len() == k,
                forall|j: int| 0 <= j < k ==> (#[trigger] tools@[j])@ == wire_tool(req.tools@[j]@),
            decreases req.tools@.len() - k,
        {
            tools.push(tool_body(&req.tools[k]));
            k += 1;
        }
        assert(views(tools@) =~= wire_tools(req@.tools));
        let mut declarations = Members::new();
        declarations.put("functionDeclarations", array(tools));
        body.put("tools", one(declarations.done()));
    }
    let mut generation = Members::new();
    generation.put("maxOutputTokens", Json::UInt(req.max_tokens as u64));
    if let Some(t) = &req.temperature {
        generation.put("temperature", t.clone());
    }
    body.put("generationConfig", generation.done());
    body.done()
}

/// The text of a reply: that of its parts.
pub open spec fn read_text(parts: Seq<JsonModel>) -> Seq<char>
    decreases parts.len(),
{
    if parts.len() == 0 {
        Seq::empty()
    } else {
        read_text(parts.drop_last()) + parts.last().at("text"@).text_or_empty()
    }
}

/// A call, with its function's name for an id.
pub open spec fn read_call(f: JsonModel) -> ToolCallModel {
    ToolCallModel {
        id: f.at("name"@).text_or_empty(),
        name: f.at("name"@).text_or_empty(),
        arguments: f.at("args"@),
    }
}

/// The calls in a reply.
pub open spec fn read_calls(parts: Seq<JsonModel>) -> Seq<ToolCallModel>
    decreases parts.len(),
{
    if parts.len() == 0 {
        Seq::empty()
    } else {
        match parts.last().non_null("functionCall"@) {
            Some(f) => read_calls(parts.drop_last()).push(read_call(f)),
            None => read_calls(parts.drop_last()),
        }
    }
}

pub open spec fn read_finish(reason: Option<Seq<char>>, calls: bool) -> FinishReason {
    if reason == Some("MAX_TOKENS"@) {
        FinishReason::Length
    } else if calls {
        FinishReason::ToolCalls
    } else {
        FinishReason::Stop
    }
}

/// The reply that a response body holds.
pub open spec fn read_response(v: JsonModel) -> Result<ChatResponseModel, ErrorModel> {
    match v.at("candidates"@).first() {
        Some(candidate) => {
            let parts = match candidate.at("content"@).at("parts"@).items() {
                Some(s) => s,
                None => Seq::empty(),
            };
            Ok(
                ChatResponseModel {
                    content: read_text(parts),
                    tool_calls: read_calls(parts),
                    finish: read_finish(
                        candidate.at("finishReason"@).text(),
                        read_calls(parts).len() > 0,
                    ),
                    usage: Usage {
                        input_tokens: token_count(v.at("usageMetadata"@).at("promptTokenCount"@)),
                        output_tokens: token_count(
                            v.at("usageMetadata"@).at("candidatesTokenCount"@),
                        ),
                    },
                },
            )
        },
        None => Err(ErrorModel::Provider("gemini: no candidates"@)),
    }
}

/// Parse a `generateContent` response.
pub fn parse_response(v: &Json) -> (r: Result<ChatResponse, Error>)
    ensures
        outcome(r) == read_response(v@),
{
    let candidate = match v.at("candidates").first() {
        Some(c) => c,
        None => return Err(Error::Provider("gemini: no candidates".to_owned())),
    };
    let mut content = String::new();
    let mut tool_calls: Vec<ToolCall> = Vec::new();
    assert(views(tool_calls@) =~= Seq::empty());
    if let Some(parts) = candidate.at("content").at("parts").items() {
        let ghost all = views(parts@);
        let mut i: usize = 0;
        assert(all.take(0) =~= Seq::empty());
        while i < parts.len()
            invariant
                all == views(parts@),
                i <= parts@.len(),
                content@ == read_text(all.take(i as int)),
                views(tool_calls@) == read_calls(all.take(i as int)),
            decreases parts@.len() - i,
        {
            let p = &parts[i];
            assert(all.take(i + 1).drop_last() =~= all.take(i as int));
            assert(all.take(i + 1).last() == p@);
            let ghost calls = views(tool_calls@);
            content.append(p.at("text").text_or_empty().as_str());
            if let Some(f) = p.non_null("functionCall") {
                tool_calls.push(
                    ToolCall {
                        id: f.at("name").text_or_empty(),
                        name: f.at("name").text_or_empty(),
                        arguments: f.at("args").clone(),
                    },
                );
                assert(views(tool_calls@) =~= calls.push(read_call(f@)));
            }
            i += 1;
        }
        assert(all.take(i as int) =~= all);
    }
    let has_calls = tool_calls.len() > 0;
    let cut = match candidate.at("finishReason").text() {
        Some(reason) => same(reason, "MAX_TOKENS"),
        None => false,
    };
    let finish = if cut {
        FinishReason::Length
    } else if has_calls {
        FinishReason::ToolCalls
    } else {
        FinishReason::Stop
    };
    let usage = v.at("usageMetadata");
    Ok(
        ChatResponse {
            content,
            tool_calls,
            finish,
            usage: Usage {
                input_tokens: tokens(usage.at("promptTokenCount")),
                output_tokens: tokens(usage.at("candidatesTokenCount")),
            },
        },
    )
}

/// An adapter for the Gemini API.
pub struct GeminiAdapter {
    endpoint: Endpoint,
}

impl View for GeminiAdapter {
    type V = EndpointModel;

    closed spec fn view(&self) -> EndpointModel {
        self.endpoint@
    }
}

/// The request for a completion; there is none without a key.
pub open spec fn completion_request(to: EndpointModel, req: ChatRequestModel) -> Result<
    HttpRequestModel,
    ErrorModel,
> {
    match to.api_key {
        Some(key) => Ok(
            HttpRequestModel {
                url: trim_end_char_of(to.base_url, '/') + "/v1beta/models/"@ + to.model
                    + ":generateContent?key="@ + key,
                bearer: None,
                headers: Seq::empty(),
                body: body_of(req),
            },
        ),
        None => Err(ErrorModel::Provider("gemini: api_key required"@)),
    }
}

/// The reply that an HTTP reply holds.
pub open spec fn completed(reply: HttpReplyModel) -> Result<ChatResponseModel, ErrorModel> {
    match accepted("gemini"@, reply) {
        Ok(body) => match json_read(body) {
            Ok(v) => read_response(v),
            Err(e) => Err(ErrorModel::Json(e)),
        },
        Err(e) => Err(e),
    }
}

impl GeminiAdapter {
    pub fn new(cfg: &ProviderConfig, api_key: Option<String>) -> (r: GeminiAdapter)
        ensures
            r@ == EndpointModel::configured(
                cfg@,
                "https://generativelanguage.googleapis.com"@,
                opt_view(api_key),
            ),
    {
        GeminiAdapter {
            endpoint: Endpoint::new(cfg, "https://generativelanguage.googleapis.com", api_key),
        }
    }

    /// The config handle.
    pub fn name(&self) -> (r: &str)
        ensures
            r@ == self@.name,
    {
        self.endpoint.name.as_str()
    }

    /// The request for a completion.
    pub fn complete_request(&self, req: &ChatRequest) -> (r: Result<HttpRequest, Error>)
        ensures
            outcome(r) == completion_request(self@, req@),
    {
        match &self.endpoint.api_key {
            Some(key) => {
                let base = trim_end_char(self.endpoint.base_url.as_str(), '/');
                let r = HttpRequest {
                    url: cat5(
                        base.as_str(),
                        "/v1beta/models/",
                        self.endpoint.model.as_str(),
                        ":generateContent?key=",
                        key.as_str(),
                    ),
                    bearer: None,
                    headers: Vec::new(),
                    body: build_body(req),
                };
                assert(r@.headers =~= Seq::empty());
                Ok(r)
            },
            None => Err(Error::Provider("gemini: api_key required".to_owned())),
        }
    }

    /// The completion that came back.
    pub fn complete(&self, reply: HttpReply) -> (r: Result<ChatResponse, Error>)
        ensures
            outcome(r) == completed(reply@),
    {
        match accept("gemini", reply) {
            Ok(body) => match Json::parse(body.as_str()) {
                Ok(v) => parse_response(&v),
                Err(e) => Err(Error::Json(e)),
            },
            Err(e) => Err(e),
        }
    }
}

/// What an assistant message looks like on the wire reads back as its text and
/// its calls, where each call has its function's name for an id.
pub proof fn law_model_reads_back(m: MessageModel)
    requires
        forall|i: int|
            0 <= i < m.tool_calls.len() ==> (#[trigger] m.tool_calls[i]).id == m.tool_calls[i].name,
    ensures
        read_text(model_parts(m)) == m.content,
        read_calls(model_parts(m)) == m.tool_calls,
{
    lemma_calls_read_back(m.tool_calls);
    let calls = call_parts(m.tool_calls);
    if m.content.len() > 0 {
        reveal_strlit("text");
        reveal_strlit("functionCall");
        assert("text"@.len() < "functionCall"@.len());
        let head = seq![text_part(m.content)];
        lemma_read_add(head, calls);
        assert(head.drop_last() =~= Seq::empty());
        assert(head.last() == text_part(m.content));
        assert(read_text(Seq::empty()) == Seq::<char>::empty());
        assert(read_calls(Seq::empty()) == Seq::<ToolCallModel>::empty());
        assert(read_text(head) =~= m.content);
        assert(read_calls(head) =~= Seq::empty());
        assert(model_parts(m) =~= head + calls);
        assert(m.content + Seq::<char>::empty() =~= m.content);
        assert(Seq::<ToolCallModel>::empty() + m.tool_calls =~= m.tool_calls);
    } else {
        assert(m.content =~= Seq::empty());
    }
}

/// The result of a call that was read from a reply goes back under the name of the
/// function that was called.
pub proof fn law_result_by_name(f: JsonModel, output: Seq<char>)
    ensures
        result_part(MessageModel::result(read_call(f).id, output)).at("functionResponse"@).at(
            "name"@,
        ) == JsonModel::Str(read_call(f).name),
{
    reveal_strlit("name");
    reveal_strlit("response");
    assert("name"@.len() < "response"@.len());
}

proof fn lemma_call_part(c: ToolCallModel)
    requires
        c.id == c.name,
    ensures
        call_part(c).at("text"@).text_or_empty() == Seq::<char>::empty(),
        call_part(c).non_null("functionCall"@) is Some,
        read_call(call_part(c).non_null("functionCall"@)->Some_0) == c,
{
    reveal_strlit("text");
    reveal_strlit("functionCall");
    reveal_strlit("name");
    reveal_strlit("args");
    assert("text"@.len() < "functionCall"@.len());
    assert("name"@[0] == 'n' && "args"@[0] == 'a');
}

proof fn lemma_read_add(a: Seq<JsonModel>, b: Seq<JsonModel>)
    ensures
        read_text(a + b) == read_text(a) + read_text(b),
        read_calls(a + b) == read_calls(a) + read_calls(b),
    decreases b.len(),
{
    if b.len() == 0 {
        assert(a + b =~= a);
        assert(read_text(a) + read_text(b) =~= read_text(a));
        assert(read_calls(a) + read_calls(b) =~= read_calls(a));
    } else {
        assert((a + b).drop_last() =~= a + b.drop_last());
        lemma_read_add(a, b.drop_last());
        assert(read_text(a + b) =~= read_text(a) + read_text(b));
        assert(read_calls(a + b) =~= read_calls(a) + read_calls(b));
    }
}

proof fn lemma_calls_read_back(s: Seq<ToolCallModel>)
    requires
        forall|i: int| 0 <= i < s.len() ==> (#[trigger] s[i]).id == s[i].name,
    ensures
        read_text(call_parts(s)) == Seq::<char>::empty(),
        read_calls(call_parts(s)) == s,
    decreases s.len(),
{
    let b = call_parts(s);
    if s.len() == 0 {
        assert(read_calls(b) =~= s);
    } else {
        assert(b.drop_last() =~= call_parts(s.drop_last()));
        assert forall|i: int| 0 <= i < s.drop_last().len() implies (#[trigger] s.drop_last()[i]).id
            == s.drop_last()[i].name by {
            assert(s.drop_last()[i] == s[i]);
        }
        lemma_calls_read_back(s.drop_last());
        assert(s[s.len() - 1].id == s[s.len() - 1].name);
        lemma_call_part(s.last());
        assert(read_text(b) =~= Seq::empty());
        assert(read_calls(b) =~= s);
    }
}

} // verus!
