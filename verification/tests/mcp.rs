use ade_core::config::{McpConfig, McpTransport};
use ade_core::error::Error;
use ade_core::json::Json;
use ade_core::keystore::KeySources;
use ade_core::mcp::host::{McpHost, Spawned};
use ade_core::mcp::rpc::{
    call_output, call_params, frame, hear, initialize_params, judge, launch, list_tools,
    notification_message, request_message, spawn_failed, sse_result, sse_target, Handshake,
    LineRead, Outgoing, RequestIds, SseReply, Wait,
};
use ade_core::mcp::worker::{
    connected, open_stream, origin, post_outcome, resolve_endpoint, runtime_failed, Action,
    Command, Worker,
};
use ade_core::provider::types::ToolSpec;
use ade_core::tools::{Tool, ToolRegistry};

fn json(text: &str) -> Json {
    Json::parse(text).unwrap()
}

fn server(transport: McpTransport) -> McpConfig {
    McpConfig {
        name: "s".into(),
        transport,
        command: None,
        args: vec!["-x".into()],
        env: vec![("TOKEN".to_string(), "env:T".to_string())],
        url: None,
    }
}

#[test]
fn messages() {
    assert_eq!(
        request_message(3, "tools/list", json("{}")).render(),
        r#"{"id":3,"jsonrpc":"2.0","method":"tools/list","params":{}}"#
    );
    assert_eq!(
        notification_message("n", json("[]")).render(),
        r#"{"jsonrpc":"2.0","method":"n","params":[]}"#
    );
    assert_eq!(frame(&json(r#"{"a": "x\ny"}"#)), "{\"a\":\"x\\ny\"}\n");
    assert_eq!(
        initialize_params("0.1.0").render(),
        r#"{"capabilities":{},"clientInfo":{"name":"ade","version":"0.1.0"},"protocolVersion":"2024-11-05"}"#
    );
    assert_eq!(call_params("t", &json("[1]")).render(), r#"{"arguments":[1],"name":"t"}"#);
    let mut ids = RequestIds::new();
    assert_eq!(ids.last(), 0);
    assert_eq!((ids.next(), ids.next()), (1, 2));
}

#[test]
fn waiting_for_an_answer() {
    let line = |s: &str| LineRead::Line(s.to_string());
    assert!(matches!(hear("s", "m", 1, line(" \n")), Wait::Again));
    assert!(matches!(hear("s", "m", 1, line(r#"{"id":2,"result":1}"#)), Wait::Again));
    assert!(matches!(hear("s", "m", 1, line(r#"{"method":"log"}"#)), Wait::Again));
    assert!(matches!(hear("s", "m", 1, line(r#"{"id":"1","result":1}"#)), Wait::Again));
    match hear("s", "m", 1, line("{\"id\":1,\"result\":{\"a\":1},\"error\":null}\n")) {
        Wait::Answer(v) => assert_eq!(v.render(), r#"{"a":1}"#),
        other => panic!("{other:?}"),
    }
    match hear("s", "m", 1, line(r#"{"id":1}"#)) {
        Wait::Answer(v) => assert!(v.is_null()),
        other => panic!("{other:?}"),
    }
    let failed = |w: Wait| match w {
        Wait::Failed(Error::Provider(m)) => m,
        other => panic!("{other:?}"),
    };
    assert_eq!(
        failed(judge("s", "m", 1, &json(r#"{"id":1,"error":{"code":-1}}"#))),
        r#"mcp 's' m: {"code":-1}"#
    );
    assert_eq!(failed(hear("s", "m", 1, LineRead::Closed)), "mcp 's': connection closed");
    assert_eq!(failed(hear("s", "m", 1, LineRead::Failed("e".into()))), "mcp 's' read: e");
    assert!(failed(hear("s", "m", 1, line("nope"))).starts_with("mcp 's' bad json: "));
}

#[test]
fn handshake() {
    let h = Handshake::Initialize;
    match h.next("1.2.3") {
        Some(Outgoing::Request(method, params)) => {
            assert_eq!(method, "initialize");
            assert_eq!(params.at("clientInfo").at("version").text(), Some("1.2.3"));
        }
        other => panic!("{other:?}"),
    }
    let h = h.after("s", Ok(Json::Null));
    match h.next("") {
        Some(Outgoing::Notification(method, _)) => assert_eq!(method, "notifications/initialized"),
        other => panic!("{other:?}"),
    }
    let h = h.after("s", Ok(Json::Null));
    match h.next("") {
        Some(Outgoing::Request(method, _)) => assert_eq!(method, "tools/list"),
        other => panic!("{other:?}"),
    }
    let h = h.after("s", Ok(json(r#"{"tools": [{"name": "t"}]}"#)));
    assert!(h.next("").is_none());
    match h {
        Handshake::Ready(tools) => assert_eq!(tools[0].name, "mcp__s__t"),
        other => panic!("{other:?}"),
    }
    let failed = Handshake::Announce.after("s", Err(Error::Io("pipe".into())));
    assert!(failed.next("").is_none());
    match failed.after("s", Ok(Json::Null)) {
        Handshake::Failed(e) => assert_eq!(e, Error::Io("pipe".into())),
        other => panic!("{other:?}"),
    }
}

#[test]
fn tools_and_calls() {
    let specs = list_tools(
        "fs",
        &json(r#"{"tools": [{"name": "read", "description": "d", "inputSchema": {"x": 1}}, {"name": "w"}, {}]}"#),
    );
    assert_eq!(specs.len(), 3);
    assert_eq!(specs[0].name, "mcp__fs__read");
    assert_eq!(specs[0].parameters.render(), r#"{"x":1}"#);
    assert_eq!(specs[1].parameters.render(), r#"{"type":"object"}"#);
    assert_eq!(specs[2].name, "mcp__fs__");
    assert!(list_tools("fs", &Json::Null).is_empty());
    assert_eq!(
        call_output(&json(r#"{"content": [{"text": "a"}, {"image": 1}, {"text": "b"}]}"#)).unwrap(),
        "ab"
    );
    assert_eq!(
        call_output(&json(r#"{"content": [{"text": "bad"}], "isError": true}"#)).unwrap_err(),
        Error::Tool("mcp tool error: bad".into())
    );
    assert_eq!(call_output(&Json::Null).unwrap(), "");
}

#[test]
fn connecting() {
    let vars = KeySources::of_vars(vec![("T".to_string(), "secret".to_string())]);
    let mut cfg = server(McpTransport::Stdio);
    assert_eq!(
        launch(&cfg, &vars).err().unwrap(),
        Error::Provider("mcp 's': missing command".into())
    );
    cfg.command = Some("srv".into());
    let l = launch(&cfg, &vars).unwrap();
    assert_eq!((l.program.as_str(), l.args.len()), ("srv", 1));
    assert_eq!(l.env, vec![("TOKEN".to_string(), "secret".to_string())]);
    assert_eq!(
        launch(&cfg, &KeySources::of_vars(vec![])).err().unwrap(),
        Error::Key("env var 'T' not set".into())
    );
    assert_eq!(spawn_failed("s", "e"), Error::Provider("mcp 's' spawn: e".into()));
    let mut cfg = server(McpTransport::Sse);
    assert_eq!(
        sse_target(&cfg, &vars).err().unwrap(),
        Error::Provider("mcp 's': sse transport needs a url".into())
    );
    cfg.url = Some("http://h".into());
    assert_eq!(sse_target(&cfg, &vars).unwrap().headers[0].1, "secret");
    assert_eq!(
        sse_result("s", "m", SseReply::Stopped).unwrap_err(),
        Error::Provider("mcp 's': worker stopped".into())
    );
    assert_eq!(
        sse_result("s", "m", SseReply::TimedOut).unwrap_err(),
        Error::Provider("mcp 's': m timed out".into())
    );
    assert!(sse_result("s", "m", SseReply::Answered(Json::Null)).is_ok());
    assert!(open_stream(Ok((204, "204 No Content".into()))).is_ok());
    assert_eq!(
        open_stream(Ok((404, "404 Not Found".into()))).unwrap_err(),
        Error::Provider("mcp sse status 404 Not Found".into())
    );
    assert_eq!(
        open_stream(Err("e".into())).unwrap_err(),
        Error::Provider("mcp sse connect: e".into())
    );
    assert_eq!(
        post_outcome(Ok((500, "500 X".into()))).unwrap_err(),
        Error::Provider("mcp post status 500 X".into())
    );
    assert_eq!(post_outcome(Err("e".into())).unwrap_err(), Error::Provider("mcp post: e".into()));
    assert_eq!(runtime_failed("e"), Error::Provider("mcp sse runtime: e".into()));
    assert!(connected(Some(Ok(()))).is_ok());
    assert_eq!(
        connected(None).unwrap_err(),
        Error::Provider("mcp sse: timed out waiting for endpoint".into())
    );
    assert_eq!(
        connected(Some(Err(Error::Io("x".into())))).unwrap_err(),
        Error::Io("x".into())
    );
}

#[test]
fn origins_and_endpoints() {
    assert_eq!(origin("https://h:8/a/b"), "https://h:8");
    assert_eq!(origin("https://h"), "https://h");
    assert_eq!(origin("h/a"), "h/a");
    assert_eq!(origin("http://h:1?x=1"), "http://h:1");
    assert_eq!(origin("http://h:1#f/g"), "http://h:1");
    assert_eq!(origin("http://h/a?b#c"), "http://h");
    assert_eq!(resolve_endpoint("http://h", "/m?x=1"), "http://h/m?x=1");
    assert_eq!(resolve_endpoint("http://h", "m"), "http://h/m");
    assert_eq!(resolve_endpoint("http://h", "https://o/m"), "https://o/m");
}

fn drain(w: &mut Worker) -> Vec<String> {
    let mut out = Vec::new();
    while let Some(a) = w.poll() {
        out.push(match a {
            Action::Ready => "ready".to_string(),
            Action::NotReady(e) => format!("not ready: {}", e.message()),
            Action::Post { url, command } => format!("post {url} {:?}", command.id),
            Action::Answer(id, v) => format!("answer {id} {}", v.render()),
            Action::Refuse(id, e) => format!("refuse {id} {}", e.message()),
        });
    }
    out
}

fn command(id: Option<i64>) -> Command {
    Command { id, msg: Json::Null }
}

#[test]
fn worker_learns_endpoint_then_posts() {
    let mut w = Worker::new("http://h/sse");
    w.command(command(Some(1)));
    w.command(command(None));
    assert!(drain(&mut w).is_empty());
    w.feed(&b"event: endpoint\r\ndata: /messages\r\n".to_vec());
    assert!(drain(&mut w).is_empty());
    w.feed(&b"\r\n".to_vec());
    assert_eq!(
        drain(&mut w),
        vec!["ready", "post http://h/messages Some(1)", "post http://h/messages None"]
    );
    w.feed(&b"data: {\"id\":1,\ndata: \"result\":[2]}\n\ndata: {\"id\":1,\"result\":3}\n\n".to_vec());
    assert_eq!(drain(&mut w), vec!["answer 1 [2]"]);
    w.command(command(Some(2)));
    assert_eq!(drain(&mut w), vec!["post http://h/messages Some(2)"]);
    w.feed(&b"event: message\ndata: {\"id\":2,\"error\":{\"m\":1}}\n\nevent: endpoint\ndata: x\n\n".to_vec());
    assert_eq!(drain(&mut w), vec!["refuse 2 mcp: {\"m\":1}"]);
    w.command(command(None));
    assert_eq!(drain(&mut w), vec!["post http://h/x None"]);
}

#[test]
fn worker_failures() {
    let mut w = Worker::new("http://h");
    w.feed(&b"event: endpoint\ndata: /m\n\ndata: not json\n\ndata: {\"id\":9}\n\n: c\n\n".to_vec());
    w.command(command(Some(1)));
    w.command(command(Some(2)));
    w.command(command(Some(3)));
    assert_eq!(drain(&mut w).len(), 4);
    match w.on_post_failed(Some(2), Error::Provider("mcp post: e".into())) {
        Some(Action::Refuse(id, e)) => {
            assert_eq!(id, 2);
            assert_eq!(e, Error::Provider("mcp post: e".into()));
        }
        other => panic!("{other:?}"),
    }
    assert!(w.on_post_failed(Some(2), Error::Io("x".into())).is_none());
    assert!(w.on_post_failed(None, Error::Io("x".into())).is_none());
    let left: Vec<i64> = w
        .close()
        .into_iter()
        .map(|a| match a {
            Action::Refuse(id, e) => {
                assert_eq!(e, Error::Provider("mcp sse: connection closed".into()));
                id
            }
            other => panic!("{other:?}"),
        })
        .collect();
    assert_eq!(left, vec![1, 3]);
    let early = Worker::new("http://h").close();
    match &early[0] {
        Action::NotReady(e) => assert_eq!(e.message(), "mcp sse: closed before endpoint"),
        other => panic!("{other:?}"),
    }
}

#[test]
fn worker_chunks_do_not_matter() {
    let body = "event: endpoint\ndata: /é\n\ndata: {\"id\":1,\"result\":\"→\"}\n\n".as_bytes();
    let run = |cut: usize| {
        let mut w = Worker::new("http://h/s");
        w.command(command(Some(1)));
        w.feed(&body[..cut].to_vec());
        let mut out = drain(&mut w);
        w.feed(&body[cut..].to_vec());
        out.extend(drain(&mut w));
        out
    };
    let want = run(body.len());
    assert_eq!(want, vec!["ready", "post http://h/é Some(1)", "answer 1 \"→\""]);
    for cut in 0..body.len() {
        assert_eq!(run(cut), want);
    }
}

#[test]
fn host_registers_tools() {
    let spec = |name: &str| ToolSpec {
        name: name.into(),
        description: String::new(),
        parameters: json("{}"),
    };
    let spawned = |server: &str, tools| Spawned { server: server.into(), tools };
    let mut reg = ToolRegistry::with_builtins();
    let host = McpHost::start(
        &vec![
            spawned("a", Err(Error::Provider("mcp 'a': missing command".into()))),
            spawned("b", Ok(vec![spec("mcp__b__x"), spec("mcp__b__y_z")])),
            spawned("c", Ok(vec![spec("mcp__c__x")])),
        ],
        &mut reg,
    );
    assert_eq!(host.count(), 2);
    assert_eq!(host.warned(), &vec!["warning: mcp 'a': missing command".to_string()]);
    assert_eq!(reg.len(), 9);
    match reg.get("mcp__c__x") {
        Some(Tool::Mcp(t)) => {
            assert_eq!((t.server, t.bare_name.as_str()), (1, "x"));
        }
        other => panic!("{other:?}"),
    }
    let t = reg.get("mcp__b__y_z").unwrap();
    assert!(t.mutating());
    assert_eq!(t.summarize(&Json::Null), "mcp__b__y_z");
    assert_eq!(t.spec().name, "mcp__b__y_z");
}

#[test]
fn tools_are_called_by_their_own_name() {
    let names = ["a__b", "_x", "__", "", "mcp__s__y", "plain"];
    for server in ["s", "my__srv", "_"] {
        for name in names {
            let result = json(&format!(r#"{{"tools": [{{"name": "{name}"}}]}}"#));
            let tools = list_tools(server, &result);
            let full = format!("mcp__{server}__{name}");
            assert_eq!(tools[0].name, full);
            let mut reg = ToolRegistry::new();
            McpHost::start(&vec![Spawned { server: server.into(), tools: Ok(tools) }], &mut reg);
            match reg.get(&full) {
                Some(Tool::Mcp(t)) => {
                    assert_eq!(t.bare_name, name);
                    assert_eq!(call_params(&t.bare_name, &json("{}")).at("name").text(), Some(name));
                }
                other => panic!("{other:?}"),
            }
        }
    }
}

#[test]
fn frames_read_back() {
    let msg = request_message(4, "m", json(r#"{"t": "a\nb"}"#));
    let line = frame(&msg);
    assert_eq!(line.matches('\n').count(), 1);
    assert!(line.ends_with('\n'));
    assert_eq!(json(line.trim()).render(), msg.render());
    let answer = frame(&json(r#"{"id": 4, "result": "x\ny"}"#));
    match hear("s", "m", 4, LineRead::Line(answer)) {
        Wait::Answer(v) => assert_eq!(v.text(), Some("x\ny")),
        other => panic!("{other:?}"),
    }
}

#[test]
fn servers_shadow_nothing() {
    let mut reg = ToolRegistry::with_builtins();
    let tools = list_tools("s", &json(r#"{"tools": [{"name": "read_file"}, {"name": "aaa"}]}"#));
    McpHost::start(&vec![Spawned { server: "s".into(), tools: Ok(tools) }], &mut reg);
    assert!(matches!(reg.get("read_file"), Some(Tool::ReadFile)));
    assert!(matches!(reg.get("mcp__s__read_file"), Some(Tool::Mcp(_))));
    let names: Vec<String> = reg.specs().into_iter().map(|s| s.name).collect();
    let mut sorted = names.clone();
    sorted.sort();
    assert_eq!(names, sorted);
    assert_eq!(names.len(), 8);
}
