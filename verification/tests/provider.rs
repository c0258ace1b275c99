use ade_core::config::{ProviderConfig, ProviderKind};
use ade_core::error::Error;
use ade_core::json::Json;
use ade_core::keystore::KeySources;
use ade_core::provider::types::{ChatRequest, FinishReason, Message, Role, ToolCall, ToolSpec, Usage};
use ade_core::provider::wire::{endpoint, HttpReply};
use ade_core::provider::{anthropic, build, gemini, openai, Provider};

fn json(text: &str) -> Json {
    Json::parse(text).unwrap()
}

fn nth<'a>(v: &'a Json, i: usize) -> &'a Json {
    &v.items().unwrap()[i]
}

fn assistant(content: &str, id: &str, name: &str, arguments: &str) -> Message {
    Message {
        role: Role::Assistant,
        content: content.into(),
        tool_calls: vec![ToolCall { id: id.into(), name: name.into(), arguments: json(arguments) }],
        tool_call_id: None,
    }
}

fn config(kind: ProviderKind, base_url: Option<&str>, api_key: Option<&str>) -> ProviderConfig {
    ProviderConfig {
        name: "handle".into(),
        kind,
        base_url: base_url.map(|s| s.to_string()),
        model: "the-model".into(),
        api_key: api_key.map(|s| s.to_string()),
    }
}

fn full(code: u16, status: &str, body: &str) -> HttpReply {
    HttpReply::Full { code, status: status.into(), body: body.into() }
}

#[test]
fn body_includes_tools_and_tool_results() {
    let mut req = ChatRequest::new("gpt");
    req.system = Some("be terse".into());
    req.messages = vec![
        Message::user("hi"),
        assistant("", "call_1", "read_file", r#"{"path": "a.txt"}"#),
        Message::tool_result("call_1", "hello"),
    ];
    req.tools = vec![ToolSpec {
        name: "read_file".into(),
        description: "read".into(),
        parameters: json(r#"{"type": "object"}"#),
    }];
    let body = openai::build_body(&req);
    let messages = body.at("messages");
    assert_eq!(nth(messages, 0).at("role").text(), Some("system"));
    assert_eq!(nth(nth(messages, 2).at("tool_calls"), 0).at("id").text(), Some("call_1"));
    assert_eq!(nth(messages, 3).at("role").text(), Some("tool"));
    assert_eq!(
        nth(body.at("tools"), 0).at("function").at("name").text(),
        Some("read_file")
    );
}

#[test]
fn openai_body_text() {
    let mut req = ChatRequest::new("gpt");
    req.messages = vec![
        Message::user("hi"),
        assistant("", "c", "f", r#"{"b": 1, "a": "x"}"#),
        Message::assistant("bye"),
    ];
    req.temperature = Some(json("0.5"));
    let text = openai::build_body(&req).render();
    assert_eq!(
        text,
        concat_all(&[
            r#"{"max_tokens":4096,"messages":[{"content":"hi","role":"user"},"#,
            r#"{"content":null,"role":"assistant","tool_calls":[{"function":{"arguments":"#,
            r#""{\"a\":\"x\",\"b\":1}","name":"f"},"id":"c","type":"function"}]},"#,
            r#"{"content":"bye","role":"assistant"}],"model":"gpt","temperature":0.5}"#,
        ])
    );
}

fn concat_all(parts: &[&str]) -> String {
    let mut out = String::new();
    for p in parts {
        out.push_str(p);
    }
    out
}

#[test]
fn parse_tool_call_response() {
    let v = json(
        r#"{
            "choices": [{
                "message": {
                    "content": null,
                    "tool_calls": [{
                        "id": "call_9",
                        "function": {"name": "run_shell", "arguments": "{\"cmd\":\"ls\"}"}
                    }]
                },
                "finish_reason": "tool_calls"
            }],
            "usage": {"prompt_tokens": 10, "completion_tokens": 5}
        }"#,
    );
    let r = openai::parse_response(&v).unwrap();
    assert_eq!(r.finish, FinishReason::ToolCalls);
    assert_eq!(r.tool_calls[0].name, "run_shell");
    assert_eq!(r.tool_calls[0].arguments.at("cmd").text(), Some("ls"));
    assert_eq!(r.usage.input_tokens, 10);
    assert_eq!(r.usage.output_tokens, 5);
}

#[test]
fn openai_response_edges() {
    let none = openai::parse_response(&json(r#"{"choices": []}"#));
    assert_eq!(none.unwrap_err(), Error::Provider("openai: no choices".into()));

    // Arguments that are no JSON stand for an empty object, and a missing reason is
    // told from the calls.
    let v = json(
        r#"{"choices": [{"message": {"content": "x", "tool_calls": [
            {"id": "1", "function": {"name": "f", "arguments": "nope"}},
            {"id": "2", "function": {"name": "g"}}
        ]}}]}"#,
    );
    let r = openai::parse_response(&v).unwrap();
    assert_eq!(r.content, "x");
    assert_eq!(r.finish, FinishReason::ToolCalls);
    assert_eq!(r.tool_calls.len(), 2);
    assert_eq!(r.tool_calls[0].arguments.render(), "{}");
    assert_eq!(r.tool_calls[1].arguments.render(), "{}");
    assert_eq!(r.usage, Usage { input_tokens: 0, output_tokens: 0 });

    let reason = |s: &str| {
        let text = format!(r#"{{"choices": [{{"message": {{"content": ""}}, "finish_reason": "{s}"}}]}}"#);
        openai::parse_response(&json(&text)).unwrap().finish
    };
    assert_eq!(reason("stop"), FinishReason::Stop);
    assert_eq!(reason("length"), FinishReason::Length);
    assert_eq!(reason("content_filter"), FinishReason::Other);
}

#[test]
fn token_counts_keep_their_low_bits() {
    let v = json(
        r#"{"choices": [{"message": {}}], "usage": {"prompt_tokens": 4294967298, "completion_tokens": -1}}"#,
    );
    let r = openai::parse_response(&v).unwrap();
    assert_eq!(r.usage, Usage { input_tokens: 2, output_tokens: 0 });
}

#[test]
fn call_reads_back() {
    let c = ToolCall {
        id: "c1".into(),
        name: "f".into(),
        arguments: json(r#"{"path": "a\nb", "deep": [1, -2, {"x": null}], "ok": true}"#),
    };
    let wire = openai::call_body(&c);
    assert_eq!(wire.at("function").at("arguments").text(), Some(c.arguments.render().as_str()));
    let again = openai::call_from(&wire);
    assert_eq!(again.id, c.id);
    assert_eq!(again.name, c.name);
    assert_eq!(again.arguments.render(), c.arguments.render());
}

#[test]
fn openai_requests() {
    let a = openai::OpenAiAdapter::new(
        &config(ProviderKind::Openai, Some("http://localhost:1234/v1//"), None),
        Some("key".into()),
    );
    assert_eq!(a.name(), "handle");
    let req = ChatRequest::new("ignored");
    let r = a.complete_request(&req);
    assert_eq!(r.url, "http://localhost:1234/v1/chat/completions");
    assert_eq!(r.bearer, Some("key".to_string()));
    assert!(r.headers.is_empty());
    assert_eq!(r.body.at("model").text(), Some("the-model"));
    assert!(r.body.get("stream").is_none());

    let s = a.stream_request(&req);
    assert_eq!(s.body.at("stream").flag(), Some(true));
    assert_eq!(s.body.at("stream_options").at("include_usage").flag(), Some(true));
    assert_eq!(s.body.at("model").text(), Some("the-model"));

    let plain = openai::OpenAiAdapter::new(&config(ProviderKind::Openai, None, None), None);
    let r = plain.complete_request(&req);
    assert_eq!(r.url, "https://api.openai.com/v1/chat/completions");
    assert_eq!(r.bearer, None);
}

#[test]
fn openai_replies() {
    let a = openai::OpenAiAdapter::new(&config(ProviderKind::Openai, None, None), None);
    let ok = a.complete(full(200, "200 OK", r#"{"choices": [{"message": {"content": "hi"}}]}"#));
    assert_eq!(ok.unwrap().content, "hi");
    assert_eq!(
        a.complete(HttpReply::Unsent("no route".into())).unwrap_err(),
        Error::Provider("openai request: no route".into())
    );
    assert_eq!(
        a.complete(HttpReply::Unread("cut".into())).unwrap_err(),
        Error::Provider("openai body: cut".into())
    );
    assert_eq!(
        a.complete(full(401, "401 Unauthorized", "bad key")).unwrap_err(),
        Error::Provider("openai 401 Unauthorized: bad key".into())
    );
    assert!(matches!(a.complete(full(299, "299", "not json")).unwrap_err(), Error::Json(_)));
    assert!(matches!(a.complete(full(300, "300", "{}")).unwrap_err(), Error::Provider(_)));
}

#[test]
fn stream_is_put_together() {
    let a = openai::OpenAiAdapter::new(&config(ProviderKind::Openai, None, None), None);
    let head = openai::StreamHead { code: 200, status: "200 OK".into(), refusal: None };
    let mut s = a.stream(Ok(head)).unwrap();
    let mut shown: Vec<String> = Vec::new();
    let chunks: Vec<&str> = vec![
        "data: {\"choices\":[{\"delta\":{\"content\":\"Hel\"}}]}\n\nda",
        "ta: {\"choices\":[{\"delta\":{\"content\":\"lo\"}}]}\r\n",
        ": a comment\nevent: x\ndata:\n",
        "data: {\"choices\":[{\"delta\":{\"tool_calls\":[{\"index\":1,\"id\":\"b\",\"function\":{\"name\":\"g\",\"arguments\":\"{}\"}}]}}]}\n",
        "data: {\"choices\":[{\"delta\":{\"tool_calls\":[{\"index\":0,\"id\":\"a\",\"function\":{\"name\":\"f\",\"arguments\":\"{\\\"x\\\"\"}}]}}]}\n",
        "data: {\"choices\":[{\"delta\":{\"content\":\"\",\"tool_calls\":[{\"index\":0,\"function\":{\"arguments\":\":1}\"}}]},\"finish_reason\":\"stop\"}]}\n",
        "data: {\"choices\":[],\"usage\":{\"prompt_tokens\":3,\"completion_tokens\":4}}\n",
        "data: [DONE]\ndata: {\"choices\":[{\"delta\":{\"content\":\"late\"}}]}\n",
    ];
    for c in &chunks {
        let fed = s.feed(&c.as_bytes().to_vec());
        assert!(fed.failure.is_none());
        shown.extend(fed.shown);
    }
    assert!(s.done());
    assert_eq!(shown, vec!["Hel".to_string(), "lo".to_string()]);
    let r = s.finish();
    assert_eq!(r.content, "Hello");
    assert_eq!(r.finish, FinishReason::ToolCalls);
    assert_eq!(r.usage, Usage { input_tokens: 3, output_tokens: 4 });
    assert_eq!(r.tool_calls.len(), 2);
    assert_eq!(r.tool_calls[0].id, "a");
    assert_eq!(r.tool_calls[0].name, "f");
    assert_eq!(r.tool_calls[0].arguments.render(), r#"{"x":1}"#);
    assert_eq!(r.tool_calls[1].id, "b");
}

#[test]
fn stream_finish_reasons() {
    let mut s = openai::StreamState::new();
    assert_eq!(s.apply(&json(r#"{"choices":[{"delta":{"content":"x"},"finish_reason":"length"}]}"#)), Some("x".to_string()));
    assert_eq!(s.apply(&json(r#"{"choices":[{"delta":{},"finish_reason":"odd"}]}"#)), None);
    assert_eq!(s.finish().finish, FinishReason::Length);
    assert_eq!(openai::StreamState::new().finish().finish, FinishReason::Stop);
}

#[test]
fn stream_failures() {
    let a = openai::OpenAiAdapter::new(&config(ProviderKind::Openai, None, None), None);
    assert_eq!(
        a.stream(Err("down".into())).unwrap_err(),
        Error::Provider("openai stream request: down".into())
    );
    let refused = openai::StreamHead {
        code: 500,
        status: "500 Internal Server Error".into(),
        refusal: Some("oops".into()),
    };
    assert_eq!(
        a.stream(Ok(refused)).unwrap_err(),
        Error::Provider("openai 500 Internal Server Error: oops".into())
    );
    let unread = openai::StreamHead { code: 404, status: "404 Not Found".into(), refusal: None };
    assert_eq!(a.stream(Ok(unread)).unwrap_err(), Error::Provider("openai 404 Not Found: ".into()));

    let head = openai::StreamHead { code: 200, status: "200 OK".into(), refusal: None };
    let mut s = a.stream(Ok(head)).unwrap();
    let fed = s.feed(
        &b"data: {\"choices\":[{\"delta\":{\"content\":\"a\"}}]}\ndata: {oops\ndata: {}\n".to_vec(),
    );
    assert_eq!(fed.shown, vec!["a".to_string()]);
    match fed.failure {
        Some(Error::Provider(m)) => assert!(m.starts_with("openai stream json: ")),
        other => panic!("{other:?}"),
    }
}

#[test]
fn tool_results_coalesce_into_user_turn() {
    let mut req = ChatRequest::new("sonnet");
    req.messages = vec![
        Message::user("hi"),
        assistant("let me check", "t1", "read_file", r#"{"path": "a"}"#),
        Message::tool_result("t1", "data"),
    ];
    let body = anthropic::build_body(&req);
    let msgs = body.at("messages").items().unwrap();
    assert_eq!(msgs.len(), 3);
    assert_eq!(nth(msgs[1].at("content"), 0).at("type").text(), Some("text"));
    assert_eq!(nth(msgs[1].at("content"), 1).at("type").text(), Some("tool_use"));
    assert_eq!(msgs[2].at("role").text(), Some("user"));
    assert_eq!(nth(msgs[2].at("content"), 0).at("type").text(), Some("tool_result"));
}

#[test]
fn anthropic_groups_runs_of_results() {
    let mut req = ChatRequest::new("sonnet");
    req.system = Some("sys".into());
    req.messages = vec![
        Message::tool_result("a", "1"),
        Message { role: Role::System, content: "dropped".into(), tool_calls: vec![], tool_call_id: None },
        Message::tool_result("b", "2"),
        Message::user("next"),
        Message::tool_result("c", "3"),
    ];
    let body = anthropic::build_body(&req);
    assert_eq!(body.at("system").text(), Some("sys"));
    assert_eq!(
        body.at("messages").render(),
        concat_all(&[
            r#"[{"content":[{"content":"1","tool_use_id":"a","type":"tool_result"},"#,
            r#"{"content":"2","tool_use_id":"b","type":"tool_result"}],"role":"user"},"#,
            r#"{"content":[{"text":"next","type":"text"}],"role":"user"},"#,
            r#"{"content":[{"content":"3","tool_use_id":"c","type":"tool_result"}],"role":"user"}]"#,
        ])
    );
}

#[test]
fn parse_mixed_text_and_tool_use() {
    let v = json(
        r#"{
            "content": [
                {"type": "text", "text": "ok"},
                {"type": "tool_use", "id": "t2", "name": "edit_file", "input": {"path": "x"}}
            ],
            "stop_reason": "tool_use",
            "usage": {"input_tokens": 7, "output_tokens": 3}
        }"#,
    );
    let r = anthropic::parse_response(&v).unwrap();
    assert_eq!(r.content, "ok");
    assert_eq!(r.finish, FinishReason::ToolCalls);
    assert_eq!(r.tool_calls[0].arguments.at("path").text(), Some("x"));
    assert_eq!(r.usage, Usage { input_tokens: 7, output_tokens: 3 });
}

#[test]
fn anthropic_edges() {
    assert_eq!(
        anthropic::parse_response(&json("{}")).unwrap_err(),
        Error::Provider("anthropic: missing content".into())
    );
    let reason = |s: &str| {
        anthropic::parse_response(&json(&format!(r#"{{"content": [], "stop_reason": "{s}"}}"#)))
            .unwrap()
            .finish
    };
    assert_eq!(reason("end_turn"), FinishReason::Stop);
    assert_eq!(reason("stop_sequence"), FinishReason::Stop);
    assert_eq!(reason("max_tokens"), FinishReason::Length);
    assert_eq!(reason("refusal"), FinishReason::Stop);

    let a = anthropic::AnthropicAdapter::new(
        &config(ProviderKind::Anthropic, None, None),
        Some("k".into()),
    );
    let r = a.complete_request(&ChatRequest::new(""));
    assert_eq!(r.url, "https://api.anthropic.com/v1/messages");
    assert_eq!(r.bearer, None);
    assert_eq!(
        r.headers,
        vec![
            ("anthropic-version".to_string(), "2023-06-01".to_string()),
            ("x-api-key".to_string(), "k".to_string()),
        ]
    );
    assert_eq!(r.body.at("model").text(), Some("the-model"));
    assert_eq!(
        a.complete(full(529, "529 <unknown status code>", "busy")).unwrap_err(),
        Error::Provider("anthropic 529 <unknown status code>: busy".into())
    );
    let ok = a.complete(full(200, "200 OK", r#"{"content":[{"type":"text","text":"hey"}]}"#));
    assert_eq!(ok.unwrap().content, "hey");
}

#[test]
fn anthropic_assistant_reads_back() {
    let mut req = ChatRequest::new("sonnet");
    req.messages = vec![assistant("thinking", "t1", "f", r#"{"a": [1.5]}"#)];
    let body = anthropic::build_body(&req);
    let content = nth(body.at("messages"), 0).at("content").render();
    let r = anthropic::parse_response(&json(&format!(r#"{{"content": {content}}}"#))).unwrap();
    assert_eq!(r.to_message(), req.messages[0]);
}

#[test]
fn function_call_roundtrip() {
    let mut req = ChatRequest::new("gemini-2.0");
    req.system = Some("sys".into());
    req.messages = vec![
        Message::user("hi"),
        assistant("", "search", "search", r#"{"q": "x"}"#),
        Message::tool_result("search", "found"),
    ];
    let body = gemini::build_body(&req);
    assert_eq!(
        nth(body.at("systemInstruction").at("parts"), 0).at("text").text(),
        Some("sys")
    );
    let contents = body.at("contents");
    assert_eq!(nth(contents, 1).at("role").text(), Some("model"));
    assert_eq!(
        nth(nth(contents, 1).at("parts"), 0).at("functionCall").at("name").text(),
        Some("search")
    );
    assert_eq!(
        nth(nth(contents, 2).at("parts"), 0).at("functionResponse").at("name").text(),
        Some("search")
    );
}

#[test]
fn parse_function_call() {
    let v = json(
        r#"{
            "candidates": [{
                "content": {"parts": [
                    {"text": "thinking"},
                    {"functionCall": {"name": "list_dir", "args": {"path": "."}}}
                ]},
                "finishReason": "STOP"
            }],
            "usageMetadata": {"promptTokenCount": 4, "candidatesTokenCount": 2}
        }"#,
    );
    let r = gemini::parse_response(&v).unwrap();
    assert_eq!(r.content, "thinking");
    assert_eq!(r.finish, FinishReason::ToolCalls);
    assert_eq!(r.tool_calls[0].name, "list_dir");
    assert_eq!(r.tool_calls[0].id, "list_dir");
    assert_eq!(r.usage, Usage { input_tokens: 4, output_tokens: 2 });
}

#[test]
fn gemini_edges() {
    assert_eq!(
        gemini::parse_response(&json("{}")).unwrap_err(),
        Error::Provider("gemini: no candidates".into())
    );
    let cut = gemini::parse_response(&json(
        r#"{"candidates":[{"content":{"parts":[{"functionCall":{"name":"f"}},{"functionCall":null}]},"finishReason":"MAX_TOKENS"}]}"#,
    ))
    .unwrap();
    assert_eq!(cut.finish, FinishReason::Length);
    assert_eq!(cut.tool_calls.len(), 1);
    assert!(cut.tool_calls[0].arguments.is_null());
    let plain = gemini::parse_response(&json(r#"{"candidates":[{}]}"#)).unwrap();
    assert_eq!(plain.finish, FinishReason::Stop);

    let a = gemini::GeminiAdapter::new(&config(ProviderKind::Gemini, Some("http://h/"), None), Some("K".into()));
    let r = a.complete_request(&ChatRequest::new("")).unwrap();
    assert_eq!(r.url, "http://h/v1beta/models/the-model:generateContent?key=K");
    assert_eq!(
        r.body.render(),
        r#"{"contents":[],"generationConfig":{"maxOutputTokens":4096}}"#
    );
    let keyless = gemini::GeminiAdapter::new(&config(ProviderKind::Gemini, None, None), None);
    assert_eq!(
        keyless.complete_request(&ChatRequest::new("")).err().unwrap(),
        Error::Provider("gemini: api_key required".into())
    );
    let ok = a.complete(full(200, "200 OK", r#"{"candidates":[{"content":{"parts":[{"text":"t"}]}}]}"#));
    assert_eq!(ok.unwrap().content, "t");
}

#[test]
fn gemini_tools_and_temperature() {
    let mut req = ChatRequest::new("");
    req.tools = vec![ToolSpec {
        name: "f".into(),
        description: "d".into(),
        parameters: json(r#"{"type":"object"}"#),
    }];
    req.temperature = Some(json("0.25"));
    req.max_tokens = 7;
    assert_eq!(
        gemini::build_body(&req).render(),
        concat_all(&[
            r#"{"contents":[],"generationConfig":{"maxOutputTokens":7,"temperature":0.25},"#,
            r#""tools":[{"functionDeclarations":[{"description":"d","name":"f","parameters":{"type":"object"}}]}]}"#,
        ])
    );
}

#[test]
fn builds_by_kind() {
    let vars = KeySources::of_vars(vec![("K".to_string(), "secret".to_string())]);
    let p = build(&config(ProviderKind::Openai, None, Some("env:K")), &vars).unwrap();
    assert!(matches!(&p, Provider::Openai(_)));
    assert_eq!(p.name(), "handle");
    let r = p.complete_request(&ChatRequest::new("other")).unwrap();
    assert_eq!(r.bearer, Some("secret".to_string()));
    assert_eq!(r.body.at("model").text(), Some("the-model"));
    assert!(matches!(
        build(&config(ProviderKind::Anthropic, None, None), &vars).unwrap(),
        Provider::Anthropic(_)
    ));
    assert!(matches!(
        build(&config(ProviderKind::Gemini, None, Some("lit")), &vars).unwrap(),
        Provider::Gemini(_)
    ));
    assert_eq!(
        build(&config(ProviderKind::Gemini, None, Some("env:NOPE")), &vars).err().unwrap(),
        Error::Key("env var 'NOPE' not set".into())
    );
    assert_eq!(endpoint("http://x///", "/p"), "http://x/p");
}

#[test]
fn keys_stay_out_of_bodies_and_replies() {
    let mut req = ChatRequest::new("");
    req.messages = vec![Message::user("hi")];
    for kind in [ProviderKind::Openai, ProviderKind::Anthropic, ProviderKind::Gemini] {
        let a = build(&config(kind, None, Some("first-key")), &KeySources::of_vars(vec![])).unwrap();
        let b = build(&config(kind, None, Some("second-key")), &KeySources::of_vars(vec![])).unwrap();
        let (x, y) = (a.complete_request(&req).unwrap(), b.complete_request(&req).unwrap());
        assert_eq!(x.body, y.body);
        assert!(!x.body.render().contains("first-key"));
        assert_eq!(
            a.complete(full(500, "500", "no")).unwrap_err(),
            b.complete(full(500, "500", "no")).unwrap_err()
        );
    }
}

#[test]
fn streams_do_not_depend_on_chunks() {
    let body = concat_lines(&[
        r#"data: {"choices":[{"delta":{"content":"Hé"}}]}"#,
        r#"data: {"choices":[{"delta":{"tool_calls":[{"index":9,"id":"z","function":{"name":"g","arguments":"{}"}}]}}]}"#,
        r#"data: {"choices":[{"delta":{"content":"llo","tool_calls":[{"index":2,"id":"y","function":{"name":"f","arguments":"{\"a\":"}}]}}]}"#,
        r#"data: {"choices":[{"delta":{"tool_calls":[{"index":2,"function":{"arguments":"1}"}}]}}]}"#,
        "data: [DONE]",
        "data: no json",
    ]);
    for size in [1, 2, 3, 7, body.len()] {
        let mut reader = openai::StreamReader::new(openai::StreamState::new());
        let mut shown = Vec::new();
        for chunk in body.chunks(size) {
            let fed = reader.feed(&chunk.to_vec());
            assert!(fed.failure.is_none());
            shown.extend(fed.shown);
        }
        assert!(reader.done());
        assert_eq!(shown, vec!["Hé".to_string(), "llo".to_string()]);
        let r = reader.finish();
        assert_eq!(r.content, "Héllo");
        let calls: Vec<(&str, String)> =
            r.tool_calls.iter().map(|c| (c.id.as_str(), c.arguments.render())).collect();
        assert_eq!(calls, vec![("y", r#"{"a":1}"#.to_string()), ("z", "{}".to_string())]);
        assert_eq!(r.shown_at_once(), Some("Héllo"));
    }
    assert_eq!(openai::StreamState::new().finish().shown_at_once(), None);
}

fn concat_lines(lines: &[&str]) -> Vec<u8> {
    lines.iter().flat_map(|l| format!("{l}\n\n").into_bytes()).collect()
}

#[test]
fn the_configured_model_is_rendered() {
    let mut req = ChatRequest::new("other");
    req.messages = vec![Message::user("hi")];
    for kind in [ProviderKind::Openai, ProviderKind::Anthropic] {
        let cfg = config(kind, None, Some("key"));
        let p = build(&cfg, &KeySources::of_vars(vec![])).unwrap();
        let sent = json(&p.complete_request(&req).unwrap().body.render());
        assert_eq!(sent.at("model").text(), Some(cfg.model.as_str()));
    }
}
