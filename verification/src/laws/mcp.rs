//! What is said to an MCP server, and what becomes of its answers.
use vstd::prelude::*;

use crate::config::McpConfigModel;
use crate::error::ErrorModel;
use crate::json::{json_read, json_text, JsonModel};
use crate::keystore::{resolved, resolved_all, KeySourcesModel};
use crate::mcp::host::{started, with_server, SpawnedModel};
use crate::mcp::rpc::{
    advertised, call_params_of, full_name_of, heard, initialize_of, judged, launch_of,
    notification_of, request_of, returned, sse_result_of, sse_target_of, HandshakeModel, LineRead,
    OutgoingModel, SseReply, WaitModel,
};
use crate::provider::types::ToolSpecModel;
use crate::text::{is_space, trim_of};
use crate::tools::{tool_named, ToolModel};

verus! {

proof fn lemma_keys()
    ensures
        "jsonrpc"@.len() == 7,
        "id"@.len() == 2,
        "method"@.len() == 6 && "method"@[0] == 'm',
        "params"@.len() == 6 && "params"@[0] == 'p',
        "name"@.len() == 4,
        "arguments"@.len() == 9,
        "protocolVersion"@.len() == 15,
        "capabilities"@.len() == 12,
        "clientInfo"@.len() == 10,
        "version"@.len() == 7 && "version"@[0] == 'v',
{
    reveal_strlit("jsonrpc");
    reveal_strlit("id");
    reveal_strlit("method");
    reveal_strlit("params");
    reveal_strlit("name");
    reveal_strlit("arguments");
    reveal_strlit("protocolVersion");
    reveal_strlit("capabilities");
    reveal_strlit("clientInfo");
    reveal_strlit("version");
}

/// A tool has failed exactly if the server says so: where `isError` is false, missing or no
/// truth value, what it returned is a success.
pub proof fn law_failure_is_marked(result: JsonModel)
    ensures
        returned(result) is Err <==> result.at("isError"@) == JsonModel::Bool(true),
{
}

/// The text that a tool returned, whether it succeeded or failed.
pub open spec fn text_returned(result: JsonModel) -> Seq<char> {
    match returned(result) {
        Ok(text) => text,
        Err(e) => e.message().skip("mcp tool error: "@.len() as int),
    }
}

/// A failure is told as one, before the text of the tool.
pub proof fn law_failure_tells_the_text(result: JsonModel)
    ensures
        returned(result) matches Err(e) ==> e == ErrorModel::Tool(
            "mcp tool error: "@ + text_returned(result),
        ),
{
    if let Err(e) = returned(result) {
        let head = "mcp tool error: "@;
        let tail = e.message().skip(head.len() as int);
        assert(e.message().take(head.len() as int) =~= head);
        assert(head + tail =~= e.message());
    }
}

/// What a tool returned is the text of all its content blocks, in order, whether it
/// succeeded or failed: a further block adds its text at the end, or nothing where it has
/// none.
pub proof fn law_blocks_are_joined(
    before: JsonModel,
    after: JsonModel,
    blocks: Seq<JsonModel>,
    block: JsonModel,
)
    requires
        before.at("content"@) == JsonModel::Arr(blocks),
        after.at("content"@) == JsonModel::Arr(blocks.push(block)),
    ensures
        blocks.len() == 0 ==> text_returned(before).len() == 0,
        text_returned(after) == match block.at("text"@) {
            JsonModel::Str(text) => text_returned(before) + text,
            _ => text_returned(before),
        },
{
    let head = "mcp tool error: "@;
    assert(blocks.push(block).drop_last() =~= blocks);
    assert(forall|s: Seq<char>| #[trigger] (head + s).skip(head.len() as int) =~= s);
    assert(text_returned(before) + Seq::<char>::empty() =~= text_returned(before));
}

/// Without content there is no text.
pub proof fn law_no_content_no_text(result: JsonModel)
    requires
        !(result.at("content"@) is Arr),
    ensures
        text_returned(result).len() == 0,
{
    let head = "mcp tool error: "@;
    assert((head + Seq::<char>::empty()).skip(head.len() as int) =~= Seq::empty());
}

/// A request says which one it is, what it asks for and with what; a notification is one
/// without a number.
pub proof fn law_messages(id: i64, method: Seq<char>, params: JsonModel)
    ensures
        ({
            let q = request_of(id, method, params);
            let n = notification_of(method, params);
            &&& q.at("jsonrpc"@) == JsonModel::Str("2.0"@)
            &&& q.at("id"@) == JsonModel::Int(id as int)
            &&& q.at("method"@) == JsonModel::Str(method)
            &&& q.at("params"@) == params
            &&& n.get("id"@) is None
            &&& forall|k: Seq<char>| k != "id"@ ==> #[trigger] n.get(k) == q.get(k)
        }),
{
    lemma_keys();
}

/// The handshake names the protocol and the client.
pub proof fn law_introduction(version: Seq<char>)
    ensures
        initialize_of(version).at("protocolVersion"@) == JsonModel::Str("2024-11-05"@),
        initialize_of(version).at("capabilities"@) == JsonModel::Obj(Map::empty()),
        initialize_of(version).at("clientInfo"@).at("name"@) == JsonModel::Str("ade"@),
        initialize_of(version).at("clientInfo"@).at("version"@) == JsonModel::Str(version),
        HandshakeModel::Initialize.next(version) == Some(
            OutgoingModel::Request("initialize"@, initialize_of(version)),
        ),
        HandshakeModel::Announce.next(version) == Some(
            OutgoingModel::Notification(
                "notifications/initialized"@,
                JsonModel::Obj(Map::empty()),
            ),
        ),
        HandshakeModel::ListTools.next(version) == Some(
            OutgoingModel::Request("tools/list"@, JsonModel::Obj(Map::empty())),
        ),
{
    lemma_keys();
}

/// A call says which tool is meant and with which arguments, and nothing else.
pub proof fn law_call_is_told(bare: Seq<char>, args: JsonModel, k: Seq<char>)
    ensures
        call_params_of(bare, args).at("name"@) == JsonModel::Str(bare),
        call_params_of(bare, args).at("arguments"@) == args,
        k != "name"@ && k != "arguments"@ ==> call_params_of(bare, args).get(k) is None,
{
    lemma_keys();
}

/// A message with another number, or none, says nothing to a request. One with its number
/// answers it: with the error where there is one, else with the result.
pub proof fn law_answer_is_read(server: Seq<char>, method: Seq<char>, id: i64, v: JsonModel)
    ensures
        v.at("id"@) != JsonModel::Int(id as int) ==> judged(server, method, id, v) is Again,
        v.at("id"@) == JsonModel::Int(id as int) && v.at("error"@) is Null ==> judged(
            server,
            method,
            id,
            v,
        ) == WaitModel::Answer(v.at("result"@)),
        v.at("id"@) == JsonModel::Int(id as int) && !(v.at("error"@) is Null) ==> judged(
            server,
            method,
            id,
            v,
        ) == WaitModel::Failed(
            ErrorModel::Provider(
                "mcp '"@ + server + "' "@ + method + ": "@ + json_text(v.at("error"@)),
            ),
        ),
{
}

/// A line of white space is passed over.
pub proof fn law_blank_line_is_skipped(
    server: Seq<char>,
    method: Seq<char>,
    id: i64,
    line: String,
)
    requires
        forall|i: int| 0 <= i < line@.len() ==> is_space(#[trigger] line@[i]),
    ensures
        heard(server, method, id, LineRead::Line(line)) is Again,
{
    crate::laws::text::law_trim(line@);
    let t = trim_of(line@);
    let k = line@.len() - crate::text::trim_start_of(line@).len();
    if t.len() > 0 {
        assert(t[0] == line@[k]);
    }
}

/// A line that holds a message is judged by it; one that holds none, a read that fails and
/// an end of the output all fail the request.
pub proof fn law_line_is_heard(server: Seq<char>, method: Seq<char>, id: i64, line: String, e: String)
    requires
        trim_of(line@).len() > 0,
    ensures
        json_read(trim_of(line@)) matches Ok(v) ==> heard(
            server,
            method,
            id,
            LineRead::Line(line),
        ) == judged(server, method, id, v),
        json_read(trim_of(line@)) matches Err(why) ==> heard(
            server,
            method,
            id,
            LineRead::Line(line),
        ) == WaitModel::Failed(ErrorModel::Provider("mcp '"@ + server + "' bad json: "@ + why)),
        heard(server, method, id, LineRead::Failed(e)) == WaitModel::Failed(
            ErrorModel::Provider("mcp '"@ + server + "' read: "@ + e@),
        ),
        heard(server, method, id, LineRead::Closed) == WaitModel::Failed(
            ErrorModel::Provider("mcp '"@ + server + "': connection closed"@),
        ),
{
}

/// Every tool that a server lists is offered, in order: with its description and its own
/// schema, under a name that tells server and tool. Without a schema it takes an object.
pub proof fn law_tools_are_offered(server: Seq<char>, result: JsonModel, tools: Seq<JsonModel>, i: int)
    requires
        result.at("tools"@) == JsonModel::Arr(tools),
        0 <= i < tools.len(),
    ensures
        ({
            let all = advertised(server, result);
            &&& all.len() == tools.len()
            &&& tools[i].at("name"@) matches JsonModel::Str(name) ==> all[i].name == "mcp__"@
                + server + "__"@ + name
            &&& tools[i].at("description"@) matches JsonModel::Str(text) ==> all[i].description
                == text
            &&& tools[i].at("description"@) is Null ==> all[i].description.len() == 0
            &&& tools[i].get("inputSchema"@) matches Some(schema) ==> all[i].parameters == schema
            &&& tools[i].get("inputSchema"@) is None ==> all[i].parameters.at("type"@)
                == JsonModel::Str("object"@)
        }),
{
}

/// A list without tools offers none.
pub proof fn law_no_tools(server: Seq<char>, result: JsonModel)
    requires
        !(result.at("tools"@) is Arr),
    ensures
        advertised(server, result).len() == 0,
{
}

/// Entries keep their names and their order; each value is what its reference stands for.
/// They are had exactly if every reference stands for something.
pub proof fn law_entries_are_resolved(
    entries: Seq<(Seq<char>, Seq<char>)>,
    keys: KeySourcesModel,
)
    ensures
        match resolved_all(entries, keys) {
            Ok(done) => done.len() == entries.len() && forall|i: int|
                0 <= i < entries.len() ==> (#[trigger] done[i]).0 == entries[i].0 && resolved(
                    entries[i].1,
                    keys,
                ) == Ok::<Seq<char>, ErrorModel>(done[i].1),
            Err(e) => exists|i: int|
                0 <= i < entries.len() && resolved((#[trigger] entries[i]).1, keys) == Err::<
                    Seq<char>,
                    ErrorModel,
                >(e),
        },
    decreases entries.len(),
{
    if entries.len() > 0 {
        let rest = entries.drop_last();
        law_entries_are_resolved(rest, keys);
        match resolved_all(rest, keys) {
            Ok(done) => {
                match resolved(entries.last().1, keys) {
                    Ok(value) => {
                        let all = done.push((entries.last().0, value));
                        assert forall|i: int| 0 <= i < entries.len() implies (
                        #[trigger] all[i]).0 == entries[i].0 && resolved(entries[i].1, keys)
                            == Ok::<Seq<char>, ErrorModel>(all[i].1) by {
                            if i < rest.len() {
                                assert(all[i] == done[i]);
                                assert(rest[i] == entries[i]);
                            }
                        }
                    },
                    Err(e) => {
                        assert(entries[entries.len() - 1] == entries.last());
                    },
                }
            },
            Err(e) => {
                let i = choose|i: int|
                    0 <= i < rest.len() && resolved((#[trigger] rest[i]).1, keys) == Err::<
                        Seq<char>,
                        ErrorModel,
                    >(e);
                assert(entries[i] == rest[i]);
            },
        }
    }
}

/// A stdio server is its command with its arguments, in the environment that the
/// configuration gives; without a command there is none.
pub proof fn law_launch(cfg: McpConfigModel, keys: KeySourcesModel)
    ensures
        cfg.command is None ==> launch_of(cfg, keys) == Err::<crate::mcp::rpc::LaunchModel, ErrorModel>(
            ErrorModel::Provider("mcp '"@ + cfg.name + "': missing command"@),
        ),
        cfg.command is Some ==> (launch_of(cfg, keys) is Ok <==> resolved_all(cfg.env, keys) is Ok),
        launch_of(cfg, keys) matches Ok(l) ==> cfg.command == Some(l.program) && l.args == cfg.args
            && resolved_all(cfg.env, keys) == Ok::<Seq<(Seq<char>, Seq<char>)>, ErrorModel>(l.env),
        cfg.command is Some ==> (launch_of(cfg, keys) matches Err(e) ==> resolved_all(cfg.env, keys)
            == Err::<Seq<(Seq<char>, Seq<char>)>, ErrorModel>(e)),
{
}

/// An SSE server is its address, with the environment of the configuration as headers;
/// without an address there is none.
pub proof fn law_sse_target(cfg: McpConfigModel, keys: KeySourcesModel)
    ensures
        cfg.url is None ==> sse_target_of(cfg, keys) == Err::<crate::mcp::rpc::SseTargetModel, ErrorModel>(
            ErrorModel::Provider("mcp '"@ + cfg.name + "': sse transport needs a url"@),
        ),
        cfg.url is Some ==> (sse_target_of(cfg, keys) is Ok <==> resolved_all(cfg.env, keys) is Ok),
        sse_target_of(cfg, keys) matches Ok(t) ==> cfg.url == Some(t.url) && resolved_all(
            cfg.env,
            keys,
        ) == Ok::<Seq<(Seq<char>, Seq<char>)>, ErrorModel>(t.headers),
        cfg.url is Some ==> (sse_target_of(cfg, keys) matches Err(e) ==> resolved_all(cfg.env, keys)
            == Err::<Seq<(Seq<char>, Seq<char>)>, ErrorModel>(e)),
{
}

/// A request over SSE succeeds exactly if it was answered with a result, and with that
/// result; a refusal is handed on.
pub proof fn law_sse_result(server: Seq<char>, method: Seq<char>, reply: SseReply)
    ensures
        sse_result_of(server, method, reply) is Ok <==> reply is Answered,
        reply matches SseReply::Answered(v) ==> sse_result_of(server, method, reply) == Ok::<
            JsonModel,
            ErrorModel,
        >(v@),
        reply matches SseReply::Refused(e) ==> sse_result_of(server, method, reply) == Err::<
            JsonModel,
            ErrorModel,
        >(e@),
        reply is TimedOut ==> sse_result_of(server, method, reply)->Err_0.message() == "mcp '"@
            + server + "': "@ + method + " timed out"@,
        reply is Stopped ==> sse_result_of(server, method, reply)->Err_0.message() == "mcp '"@
            + server + "': worker stopped"@,
{
}

/// A server that connects counts, and has its tools registered under its number; one that
/// does not leaves a warning that says why, and nothing else.
pub proof fn law_servers_are_counted(
    tools: Seq<ToolModel>,
    spawned: Seq<SpawnedModel>,
    next: SpawnedModel,
)
    ensures
        started(tools, Seq::empty()).tools == tools,
        started(tools, Seq::empty()).servers == 0,
        started(tools, Seq::empty()).warnings.len() == 0,
        ({
            let before = started(tools, spawned);
            let after = started(tools, spawned.push(next));
            match next.tools {
                Ok(specs) => after.servers == before.servers + 1 && after.warnings
                    == before.warnings && after.tools == with_server(
                    before.tools,
                    before.servers as usize,
                    next.server,
                    specs,
                ),
                Err(e) => after.servers == before.servers && after.tools == before.tools
                    && after.warnings == before.warnings.push("warning: "@ + e.message()),
            }
        }),
{
    assert(spawned.push(next).drop_last() =~= spawned);
}

/// A tool of a server is found under its full name, and calls the server by its number and
/// the tool by its bare name.
pub proof fn law_server_tool_is_found(
    s: Seq<ToolModel>,
    number: usize,
    server: Seq<char>,
    specs: Seq<ToolSpecModel>,
    bare: Seq<char>,
    description: Seq<char>,
    parameters: JsonModel,
)
    requires
        crate::tools::in_order(with_server(s, number, server, specs)),
    ensures
        ({
            let spec = ToolSpecModel { name: full_name_of(server, bare), description, parameters };
            let tools = with_server(s, number, server, specs.push(spec));
            &&& tool_named(tools, "mcp__"@ + server + "__"@ + bare) matches Some(ToolModel::Mcp(t))
            &&& t.server == number
            &&& t.bare_name == bare
            &&& t.spec == spec
        }),
{
    let spec = ToolSpecModel { name: full_name_of(server, bare), description, parameters };
    assert(specs.push(spec).drop_last() =~= specs);
    crate::mcp::host::law_bare_name(server, bare);
    crate::tools::law_register(
        with_server(s, number, server, specs),
        crate::mcp::host::server_tool(number, server, spec),
        full_name_of(server, bare),
    );
}

} // verus!
