//! JSON-RPC messages to and from an MCP server, and the handshake.
use vstd::prelude::*;

use crate::config::{McpConfig, McpConfigModel};
use crate::error::{outcome, Error, ErrorModel};
use crate::json::{json_read, json_text, plain_within, Json, JsonModel, Members};
use crate::keystore::{resolve_all, resolved_all, KeySources, KeySourcesModel};
use crate::provider::types::{ToolSpec, ToolSpecModel};
use crate::text::{
    cat2, cat3, cat4, cat5, lemma_index_of_char_unique, lemma_trim_line, lines_of, opt_view,
    pair_views, push_char, trim, trim_of, views,
};

verus! {

pub open spec fn request_of(id: i64, method: Seq<char>, params: JsonModel) -> JsonModel {
    JsonModel::Obj(
        map![
            "jsonrpc"@ => JsonModel::Str("2.0"@),
            "id"@ => JsonModel::Int(id as int),
            "method"@ => JsonModel::Str(method),
            "params"@ => params,
        ],
    )
}

/// A JSON-RPC request.
pub fn request_message(id: i64, method: &str, params: Json) -> (r: Json)
    ensures
        r@ == request_of(id, method@, params@),
{
    let mut m = Members::new();
    m.put_text("jsonrpc", "2.0");
    m.put("id", Json::Int(id));
    m.put_text("method", method);
    m.put("params", params);
    m.done()
}

pub open spec fn notification_of(method: Seq<char>, params: JsonModel) -> JsonModel {
    JsonModel::Obj(
        map![
            "jsonrpc"@ => JsonModel::Str("2.0"@),
            "method"@ => JsonModel::Str(method),
            "params"@ => params,
        ],
    )
}

/// A JSON-RPC notification: a request that wants no answer.
pub fn notification_message(method: &str, params: Json) -> (r: Json)
    ensures
        r@ == notification_of(method@, params@),
{
    let mut m = Members::new();
    m.put_text("jsonrpc", "2.0");
    m.put_text("method", method);
    m.put("params", params);
    m.done()
}

/// A message as it goes over a pipe: its JSON text and a line feed. That is one line,
/// and reading it gives the message back, where it holds no fraction and is not nested
/// too deeply.
pub fn frame(msg: &Json) -> (r: String)
    ensures
        r@ == json_text(msg@).push('\n'),
        lines_of(r@) == seq![json_text(msg@)],
        plain_within(msg@, 127) ==> json_read(trim_of(r@)) == Ok::<JsonModel, Seq<char>>(msg@),
{
    let mut line = msg.render();
    let ghost text = line@;
    push_char(&mut line, '\n');
    proof {
        lemma_trim_line(text);
        lemma_index_of_char_unique(line@, '\n', text.len() as int);
        assert(line@.take(text.len() as int) =~= text);
        assert(line@.skip(text.len() as int + 1) =~= Seq::empty());
        assert(seq![text] + lines_of(Seq::empty()) =~= seq![text]);
    }
    line
}

/// The ids of the requests over one connection: 1, 2, 3 and so on.
#[derive(Debug)]
pub struct RequestIds {
    last: i64,
}

impl View for RequestIds {
    type V = int;

    closed spec fn view(&self) -> int {
        self.last as int
    }
}

impl RequestIds {
    pub fn new() -> (r: RequestIds)
        ensures
            r@ == 0,
    {
        RequestIds { last: 0 }
    }

    /// The last id that was given out; zero before the first.
    pub fn last(&self) -> (r: i64)
        ensures
            r == self@,
    {
        self.last
    }

    /// The next id.
    pub fn next(&mut self) -> (r: i64)
        requires
            old(self)@ < i64::MAX,
        ensures
            r == old(self)@ + 1,
            final(self)@ == r,
    {
        self.last = self.last + 1;
        self.last
    }
}

/// What came of reading a line of a server's output.
#[derive(Debug)]
pub enum LineRead {
    /// The read failed, with this message.
    Failed(String),
    /// The server closed its output.
    Closed,
    Line(String),
}

/// Where the wait for an answer stands.
#[derive(Debug)]
pub enum Wait {
    /// The line was no answer to this request.
    Again,
    /// The result of the request.
    Answer(Json),
    /// The request failed.
    Failed(Error),
}

/// The model of a [`Wait`].
#[verifier::ext_equal]
pub enum WaitModel {
    Again,
    Answer(JsonModel),
    Failed(ErrorModel),
}

impl View for Wait {
    type V = WaitModel;

    open spec fn view(&self) -> WaitModel {
        match *self {
            Wait::Again => WaitModel::Again,
            Wait::Answer(v) => WaitModel::Answer(v@),
            Wait::Failed(e) => WaitModel::Failed(e@),
        }
    }
}

/// What a message says to the request `id`.
pub open spec fn judged(
    server: Seq<char>,
    method: Seq<char>,
    id: i64,
    v: JsonModel,
) -> WaitModel {
    if v.at("id"@).sint() != Some(id) {
        WaitModel::Again
    } else {
        match v.non_null("error"@) {
            Some(err) => WaitModel::Failed(
                ErrorModel::Provider(
                    "mcp '"@ + server + "' "@ + method + ": "@ + json_text(err),
                ),
            ),
            None => WaitModel::Answer(v.at("result"@)),
        }
    }
}

/// What a message says to the request `id`.
pub fn judge(server: &str, method: &str, id: i64, v: &Json) -> (r: Wait)
    ensures
        r@ == judged(server@, method@, id, v@),
{
    match v.at("id").sint() {
        Some(n) => if n != id {
            return Wait::Again;
        },
        None => return Wait::Again,
    }
    match v.non_null("error") {
        Some(err) => {
            let head = cat5("mcp '", server, "' ", method, ": ");
            Wait::Failed(Error::Provider(cat2(head.as_str(), err.render().as_str())))
        },
        None => Wait::Answer(v.at("result").clone()),
    }
}

/// What a line of a server's output says to the request `id`.
pub open spec fn heard(server: Seq<char>, method: Seq<char>, id: i64, read: LineRead) -> WaitModel {
    match read {
        LineRead::Failed(e) => WaitModel::Failed(
            ErrorModel::Provider("mcp '"@ + server + "' read: "@ + e@),
        ),
        LineRead::Closed => WaitModel::Failed(
            ErrorModel::Provider("mcp '"@ + server + "': connection closed"@),
        ),
        LineRead::Line(line) => if trim_of(line@).len() == 0 {
            WaitModel::Again
        } else {
            match json_read(trim_of(line@)) {
                Ok(v) => judged(server, method, id, v),
                Err(e) => WaitModel::Failed(
                    ErrorModel::Provider("mcp '"@ + server + "' bad json: "@ + e),
                ),
            }
        },
    }
}

/// Listen for the answer to the request `id`: what a line of the server's output
/// says to it.
pub fn hear(server: &str, method: &str, id: i64, read: LineRead) -> (r: Wait)
    ensures
        r@ == heard(server@, method@, id, read),
{
    match read {
        LineRead::Failed(e) => Wait::Failed(
            Error::Provider(cat4("mcp '", server, "' read: ", e.as_str())),
        ),
        LineRead::Closed => Wait::Failed(
            Error::Provider(cat3("mcp '", server, "': connection closed")),
        ),
        LineRead::Line(line) => {
            let text = trim(line.as_str());
            if text.as_str().is_empty() {
                return Wait::Again;
            }
            match Json::parse(text.as_str()) {
                Ok(v) => judge(server, method, id, &v),
                Err(e) => Wait::Failed(
                    Error::Provider(cat4("mcp '", server, "' bad json: ", e.as_str())),
                ),
            }
        },
    }
}

/// The parameters of the `initialize` request.
pub open spec fn initialize_of(version: Seq<char>) -> JsonModel {
    JsonModel::Obj(
        map![
            "protocolVersion"@ => JsonModel::Str("2024-11-05"@),
            "capabilities"@ => JsonModel::Obj(Map::empty()),
            "clientInfo"@ => JsonModel::Obj(map![
                "name"@ => JsonModel::Str("ade"@),
                "version"@ => JsonModel::Str(version),
            ]),
        ],
    )
}

pub fn initialize_params(version: &str) -> (r: Json)
    ensures
        r@ == initialize_of(version@),
{
    let mut info = Members::new();
    info.put_text("name", "ade");
    info.put_text("version", version);
    let mut m = Members::new();
    m.put_text("protocolVersion", "2024-11-05");
    m.put("capabilities", Members::new().done());
    m.put("clientInfo", info.done());
    m.done()
}

/// The name under which a server's tool is offered to the model.
pub open spec fn full_name_of(server: Seq<char>, bare: Seq<char>) -> Seq<char> {
    "mcp__"@ + server + "__"@ + bare
}

/// A tool that a server advertises, under its full name. A tool without a schema
/// takes any object.
pub open spec fn advertised_tool(server: Seq<char>, t: JsonModel) -> ToolSpecModel {
    ToolSpecModel {
        name: full_name_of(server, t.at("name"@).text_or_empty()),
        description: t.at("description"@).text_or_empty(),
        parameters: match t.get("inputSchema"@) {
            Some(schema) => schema,
            None => JsonModel::Obj(map!["type"@ => JsonModel::Str("object"@)]),
        },
    }
}

/// The tools that a server advertises.
pub open spec fn advertised(server: Seq<char>, result: JsonModel) -> Seq<ToolSpecModel> {
    match result.at("tools"@).items() {
        Some(s) => Seq::new(s.len(), |i: int| advertised_tool(server, s[i])),
        None => Seq::empty(),
    }
}

/// The tools in the result of a `tools/list` request.
pub fn list_tools(server: &str, result: &Json) -> (r: Vec<ToolSpec>)
    ensures
        views(r@) == advertised(server@, result@),
{
    let mut specs: Vec<ToolSpec> = Vec::new();
    if let Some(tools) = result.at("tools").items() {
        let mut i: usize = 0;
        while i < tools.len()
            invariant
                i <= tools@.len(),
                specs@.len() == i,
                forall|k: int|
                    0 <= k < i ==> (#[trigger] specs@[k])@ == advertised_tool(
                        server@,
                        tools@[k]@,
                    ),
            decreases tools@.len() - i,
        {
            let t = &tools[i];
            let bare = t.at("name").text_or_empty();
            let parameters = match t.get("inputSchema") {
                Some(schema) => schema.clone(),
                None => {
                    let mut m = Members::new();
                    m.put_text("type", "object");
                    m.done()
                },
            };
            specs.push(
                ToolSpec {
                    name: cat4("mcp__", server, "__", bare.as_str()),
                    description: t.at("description").text_or_empty(),
                    parameters,
                },
            );
            i += 1;
        }
    }
    assert(views(specs@) =~= advertised(server@, result@));
    specs
}

pub open spec fn call_params_of(bare: Seq<char>, args: JsonModel) -> JsonModel {
    JsonModel::Obj(map!["name"@ => JsonModel::Str(bare), "arguments"@ => args])
}

/// The parameters of a `tools/call` request. A tool goes by its bare name.
pub fn call_params(bare: &str, args: &Json) -> (r: Json)
    ensures
        r@ == call_params_of(bare@, args@),
{
    let mut m = Members::new();
    m.put_text("name", bare);
    m.put("arguments", args.clone());
    m.done()
}

/// The text of the blocks of a tool's output.
pub open spec fn output_text(blocks: Seq<JsonModel>) -> Seq<char>
    decreases blocks.len(),
{
    if blocks.len() == 0 {
        Seq::empty()
    } else {
        output_text(blocks.drop_last()) + blocks.last().at("text"@).text_or_empty()
    }
}

/// What a tool returned: its text, as an error where the server says so.
pub open spec fn returned(result: JsonModel) -> Result<Seq<char>, ErrorModel> {
    let out = match result.at("content"@).items() {
        Some(blocks) => output_text(blocks),
        None => Seq::empty(),
    };
    if result.at("isError"@).flag() == Some(true) {
        Err(ErrorModel::Tool("mcp tool error: "@ + out))
    } else {
        Ok(out)
    }
}

/// The output in the result of a `tools/call` request.
pub fn call_output(result: &Json) -> (r: Result<String, Error>)
    ensures
        outcome(r) == returned(result@),
{
    let mut out = String::new();
    if let Some(blocks) = result.at("content").items() {
        let ghost all = views(blocks@);
        let mut i: usize = 0;
        assert(all.take(0) =~= Seq::empty());
        while i < blocks.len()
            invariant
                all == views(blocks@),
                i <= blocks@.len(),
                out@ == output_text(all.take(i as int)),
            decreases blocks@.len() - i,
        {
            assert(all.take(i + 1).drop_last() =~= all.take(i as int));
            out.append(blocks[i].at("text").text_or_empty().as_str());
            i += 1;
        }
        assert(all.take(i as int) =~= all);
    }
    match result.at("isError").flag() {
        Some(failed) => if failed {
            return Err(Error::Tool(cat2("mcp tool error: ", out.as_str())));
        },
        None => {},
    }
    Ok(out)
}

/// The process that serves over stdio.
pub struct Launch {
    pub program: String,
    pub args: Vec<String>,
    pub env: Vec<(String, String)>,
}

/// The model of a [`Launch`].
#[verifier::ext_equal]
pub struct LaunchModel {
    pub program: Seq<char>,
    pub args: Seq<Seq<char>>,
    pub env: Seq<(Seq<char>, Seq<char>)>,
}

impl View for Launch {
    type V = LaunchModel;

    open spec fn view(&self) -> LaunchModel {
        LaunchModel { program: self.program@, args: views(self.args@), env: pair_views(self.env@) }
    }
}

/// The process to launch for a stdio server.
pub open spec fn launch_of(cfg: McpConfigModel, keys: KeySourcesModel) -> Result<
    LaunchModel,
    ErrorModel,
> {
    match cfg.command {
        Some(program) => match resolved_all(cfg.env, keys) {
            Ok(env) => Ok(LaunchModel { program, args: cfg.args, env }),
            Err(e) => Err(e),
        },
        None => Err(ErrorModel::Provider("mcp '"@ + cfg.name + "': missing command"@)),
    }
}

/// The process to launch for a stdio server, its environment resolved in `keys`.
pub fn launch(cfg: &McpConfig, keys: &KeySources) -> (r: Result<Launch, Error>)
    ensures
        outcome(r) == launch_of(cfg@, keys@),
{
    match &cfg.command {
        Some(program) => match resolve_all(&cfg.env, keys) {
            Ok(env) => {
                let r = Launch { program: program.clone(), args: cfg.args.clone(), env };
                assert(r@.args =~= cfg@.args);
                Ok(r)
            },
            Err(e) => Err(e),
        },
        None => Err(Error::Provider(cat3("mcp '", cfg.name.as_str(), "': missing command"))),
    }
}

/// The error for a process that could not be launched.
pub open spec fn spawn_error(name: Seq<char>, message: Seq<char>) -> ErrorModel {
    ErrorModel::Provider("mcp '"@ + name + "' spawn: "@ + message)
}

/// The error for a process that could not be launched.
pub fn spawn_failed(name: &str, message: &str) -> (r: Error)
    ensures
        r@ == spawn_error(name@, message@),
{
    Error::Provider(cat4("mcp '", name, "' spawn: ", message))
}

/// Where an SSE server listens, and the headers to send.
pub struct SseTarget {
    pub url: String,
    pub headers: Vec<(String, String)>,
}

/// The model of an [`SseTarget`].
#[verifier::ext_equal]
pub struct SseTargetModel {
    pub url: Seq<char>,
    pub headers: Seq<(Seq<char>, Seq<char>)>,
}

impl View for SseTarget {
    type V = SseTargetModel;

    open spec fn view(&self) -> SseTargetModel {
        SseTargetModel { url: self.url@, headers: pair_views(self.headers@) }
    }
}

/// The target of an SSE server: its env entries become HTTP headers.
pub open spec fn sse_target_of(cfg: McpConfigModel, keys: KeySourcesModel) -> Result<
    SseTargetModel,
    ErrorModel,
> {
    match cfg.url {
        Some(url) => match resolved_all(cfg.env, keys) {
            Ok(headers) => Ok(SseTargetModel { url, headers }),
            Err(e) => Err(e),
        },
        None => Err(ErrorModel::Provider("mcp '"@ + cfg.name + "': sse transport needs a url"@)),
    }
}

/// The target of an SSE server. Its `env` entries become HTTP headers (e.g.
/// Authorization), key-resolved in `keys`.
pub fn sse_target(cfg: &McpConfig, keys: &KeySources) -> (r: Result<SseTarget, Error>)
    ensures
        outcome(r) == sse_target_of(cfg@, keys@),
{
    match &cfg.url {
        Some(url) => match resolve_all(&cfg.env, keys) {
            Ok(headers) => Ok(SseTarget { url: url.clone(), headers }),
            Err(e) => Err(e),
        },
        None => Err(
            Error::Provider(cat3("mcp '", cfg.name.as_str(), "': sse transport needs a url")),
        ),
    }
}

/// What came of a request over the SSE worker.
#[derive(Debug)]
pub enum SseReply {
    /// The worker is gone.
    Stopped,
    /// No answer in time.
    TimedOut,
    Answered(Json),
    Refused(Error),
}

pub open spec fn sse_result_of(server: Seq<char>, method: Seq<char>, reply: SseReply) -> Result<
    JsonModel,
    ErrorModel,
> {
    match reply {
        SseReply::Stopped => Err(
            ErrorModel::Provider("mcp '"@ + server + "': worker stopped"@),
        ),
        SseReply::TimedOut => Err(
            ErrorModel::Provider("mcp '"@ + server + "': "@ + method + " timed out"@),
        ),
        SseReply::Answered(v) => Ok(v@),
        SseReply::Refused(e) => Err(e@),
    }
}

/// The result of a request over the SSE worker.
pub fn sse_result(server: &str, method: &str, reply: SseReply) -> (r: Result<Json, Error>)
    ensures
        outcome(r) == sse_result_of(server@, method@, reply),
{
    match reply {
        SseReply::Stopped => Err(Error::Provider(cat3("mcp '", server, "': worker stopped"))),
        SseReply::TimedOut => Err(
            Error::Provider(cat5("mcp '", server, "': ", method, " timed out")),
        ),
        SseReply::Answered(v) => Ok(v),
        SseReply::Refused(e) => Err(e),
    }
}

/// How far the handshake with a server has come.
#[derive(Debug)]
pub enum Handshake {
    /// To do: the `initialize` request.
    Initialize,
    /// To do: the `notifications/initialized` notification.
    Announce,
    /// To do: the `tools/list` request.
    ListTools,
    /// The server is ready, with these tools.
    Ready(Vec<ToolSpec>),
    Failed(Error),
}

/// The model of a [`Handshake`].
#[verifier::ext_equal]
pub enum HandshakeModel {
    Initialize,
    Announce,
    ListTools,
    Ready(Seq<ToolSpecModel>),
    Failed(ErrorModel),
}

impl View for Handshake {
    type V = HandshakeModel;

    open spec fn view(&self) -> HandshakeModel {
        match *self {
            Handshake::Initialize => HandshakeModel::Initialize,
            Handshake::Announce => HandshakeModel::Announce,
            Handshake::ListTools => HandshakeModel::ListTools,
            Handshake::Ready(tools) => HandshakeModel::Ready(views(tools@)),
            Handshake::Failed(e) => HandshakeModel::Failed(e@),
        }
    }
}

/// What to send to a server.
#[derive(Debug)]
pub enum Outgoing {
    /// A request, whose result is waited for.
    Request(String, Json),
    Notification(String, Json),
}

/// The model of an [`Outgoing`].
#[verifier::ext_equal]
pub enum OutgoingModel {
    Request(Seq<char>, JsonModel),
    Notification(Seq<char>, JsonModel),
}

impl View for Outgoing {
    type V = OutgoingModel;

    open spec fn view(&self) -> OutgoingModel {
        match *self {
            Outgoing::Request(method, params) => OutgoingModel::Request(method@, params@),
            Outgoing::Notification(method, params) => OutgoingModel::Notification(method@, params@),
        }
    }
}

impl HandshakeModel {
    /// What to send next; nothing once the handshake is over.
    pub open spec fn next(self, version: Seq<char>) -> Option<OutgoingModel> {
        match self {
            HandshakeModel::Initialize => Some(
                OutgoingModel::Request("initialize"@, initialize_of(version)),
            ),
            HandshakeModel::Announce => Some(
                OutgoingModel::Notification(
                    "notifications/initialized"@,
                    JsonModel::Obj(Map::empty()),
                ),
            ),
            HandshakeModel::ListTools => Some(
                OutgoingModel::Request("tools/list"@, JsonModel::Obj(Map::empty())),
            ),
            _ => None,
        }
    }

    /// The handshake after what came of the last message.
    pub open spec fn after(
        self,
        server: Seq<char>,
        result: Result<JsonModel, ErrorModel>,
    ) -> HandshakeModel {
        match (self, result) {
            (HandshakeModel::Ready(tools), _) => self,
            (HandshakeModel::Failed(e), _) => self,
            (_, Err(e)) => HandshakeModel::Failed(e),
            (HandshakeModel::Initialize, Ok(_)) => HandshakeModel::Announce,
            (HandshakeModel::Announce, Ok(_)) => HandshakeModel::ListTools,
            (HandshakeModel::ListTools, Ok(v)) => HandshakeModel::Ready(advertised(server, v)),
        }
    }
}

impl Handshake {
    /// What to send next; nothing once the handshake is over.
    pub fn next(&self, version: &str) -> (r: Option<Outgoing>)
        ensures
            opt_view(r) == self@.next(version@),
    {
        match self {
            Handshake::Initialize => Some(
                Outgoing::Request("initialize".to_owned(), initialize_params(version)),
            ),
            Handshake::Announce => Some(
                Outgoing::Notification(
                    "notifications/initialized".to_owned(),
                    Members::new().done(),
                ),
            ),
            Handshake::ListTools => Some(
                Outgoing::Request("tools/list".to_owned(), Members::new().done()),
            ),
            Handshake::Ready(_) => None,
            Handshake::Failed(_) => None,
        }
    }

    /// Go on after the last message: with its result, for a notification with any
    /// value.
    pub fn after(self, server: &str, result: Result<Json, Error>) -> (r: Handshake)
        ensures
            r@ == self@.after(server@, outcome(result)),
    {
        match self {
            Handshake::Ready(tools) => Handshake::Ready(tools),
            Handshake::Failed(e) => Handshake::Failed(e),
            Handshake::Initialize => match result {
                Ok(_) => Handshake::Announce,
                Err(e) => Handshake::Failed(e),
            },
            Handshake::Announce => match result {
                Ok(_) => Handshake::ListTools,
                Err(e) => Handshake::Failed(e),
            },
            Handshake::ListTools => match result {
                Ok(v) => Handshake::Ready(list_tools(server, &v)),
                Err(e) => Handshake::Failed(e),
            },
        }
    }
}

/// A server answers `initialize`, the notification goes out, and its answer to
/// `tools/list` gives the tools: three good results make the server ready, with
/// the tools of the last.
pub proof fn law_handshake(server: Seq<char>, a: JsonModel, b: JsonModel, c: JsonModel)
    ensures
        HandshakeModel::Initialize.after(server, Ok(a)).after(server, Ok(b)).after(server, Ok(c))
            == HandshakeModel::Ready(advertised(server, c)),
{
}

/// A failed message ends the handshake: whatever comes later changes nothing, and
/// nothing more is sent.
pub proof fn law_handshake_fails(
    h: HandshakeModel,
    server: Seq<char>,
    e: ErrorModel,
    later: Result<JsonModel, ErrorModel>,
    version: Seq<char>,
)
    requires
        h.next(version) is Some,
    ensures
        h.after(server, Err(e)) == HandshakeModel::Failed(e),
        h.after(server, Err(e)).after(server, later) == HandshakeModel::Failed(e),
        h.after(server, Err(e)).next(version) is None,
{
}

/// Every tool of a server is offered under a name of that server's own.
pub proof fn law_tools_namespaced(server: Seq<char>, result: JsonModel, i: int)
    requires
        0 <= i < advertised(server, result).len(),
    ensures
        advertised(server, result)[i].name.len() >= ("mcp__"@ + server + "__"@).len(),
        advertised(server, result)[i].name.take(("mcp__"@ + server + "__"@).len() as int)
            == "mcp__"@ + server + "__"@,
{
    let prefix = "mcp__"@ + server + "__"@;
    assert(advertised(server, result)[i].name.take(prefix.len() as int) =~= prefix);
}

/// A request is answered by the message that carries its id, and by no other.
pub proof fn law_answered_by_id(server: Seq<char>, method: Seq<char>, id: i64, v: JsonModel)
    ensures
        judged(server, method, id, v) is Again <==> v.at("id"@).sint() != Some(id),
{
}

} // verus!
