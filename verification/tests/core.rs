use ade_core::config::{
    Config, ConfigRead, McpConfig, McpTransport, PermissionConfig, ProviderConfig, ProviderKind,
};
use ade_core::error::Error;
use ade_core::json::{array, Json};
use ade_core::keystore::{keyring_secret, resolve, resolve_all, resolve_keyring, KeySources};
use ade_core::paths::{join, relative_to};
use ade_core::provider::sse::{read_line, DataReader, Line};
use ade_core::provider::types::{Message, Role, ToolCall};
use ade_core::session::{Session, SessionRead};
use ade_core::skills::{parse_skill_md, project_dir, SkillFolder, SkillRegistry};
use ade_core::text;

fn provider(name: &str, kind: ProviderKind, model: &str) -> ProviderConfig {
    ProviderConfig { name: name.into(), kind, base_url: None, model: model.into(), api_key: None }
}

fn config(default_model: Option<&str>, providers: Vec<ProviderConfig>) -> Config {
    Config {
        default_model: default_model.map(|s| s.to_string()),
        providers,
        mcp: vec![],
        permission: PermissionConfig { allow: vec![] },
    }
}

#[test]
fn merge_appends_and_overrides() {
    let mut base = config(Some("a"), vec![provider("a", ProviderKind::Anthropic, "sonnet")]);
    let proj = config(Some("b"), vec![provider("b", ProviderKind::Openai, "deepseek-chat")]);
    base.merge(proj);
    assert_eq!(base.default_model.as_deref(), Some("b"));
    assert_eq!(base.providers.len(), 2);
}

#[test]
fn merge_keeps_what_is_not_overridden() {
    let mut base = config(Some("a"), vec![provider("a", ProviderKind::Gemini, "g")]);
    base.permission.allow.push("x".into());
    let mut proj = config(None, vec![]);
    proj.permission.allow.push("y".into());
    proj.mcp.push(McpConfig {
        name: "m".into(),
        transport: McpTransport::Sse,
        command: None,
        args: vec![],
        env: vec![],
        url: None,
    });
    base.merge(proj);
    assert_eq!(base.default_model.as_deref(), Some("a"));
    assert_eq!(base.permission.allow, vec!["x".to_string(), "y".to_string()]);
    assert_eq!(base.mcp.len(), 1);
}

#[test]
fn select_falls_back_to_first() {
    let cfg = config(None, vec![provider("only", ProviderKind::Openai, "x")]);
    assert_eq!(cfg.select_provider(None).unwrap().name, "only");
    assert!(cfg.select_provider(Some("nope")).is_err());
}

#[test]
fn select_follows_request_then_default() {
    let cfg = config(
        Some("b"),
        vec![
            provider("a", ProviderKind::Openai, "1"),
            provider("b", ProviderKind::Openai, "2"),
            provider("b", ProviderKind::Openai, "3"),
        ],
    );
    assert_eq!(cfg.select_provider(None).unwrap().model, "2");
    assert_eq!(cfg.select_provider(Some("a")).unwrap().model, "1");
    assert_eq!(
        cfg.select_provider(Some("c")).unwrap_err(),
        Error::Config("unknown model 'c'".into())
    );
    assert_eq!(
        config(None, vec![]).select_provider(None).unwrap_err(),
        Error::Config("no providers configured".into())
    );
    assert_eq!(
        config(Some("gone"), vec![]).select_provider(None).unwrap_err(),
        Error::Config("unknown model 'gone'".into())
    );
}

#[test]
fn load_merges_both_files() {
    let global = config(Some("g"), vec![provider("g", ProviderKind::Openai, "1")]);
    let project = config(None, vec![provider("p", ProviderKind::Openai, "2")]);
    let cfg = Config::load(
        Some("/home/u/.config"),
        ConfigRead::Parsed(global),
        "/proj",
        ConfigRead::Parsed(project),
    )
    .unwrap();
    assert_eq!(cfg.default_model.as_deref(), Some("g"));
    assert_eq!(cfg.providers.len(), 2);
    assert_eq!(cfg.providers[1].name, "p");
}

#[test]
fn load_failures() {
    let none = Config::load(None, ConfigRead::Unreadable("x".into()), "/p", ConfigRead::Missing);
    assert!(none.unwrap().providers.is_empty());
    assert_eq!(
        Config::load(Some("/c"), ConfigRead::Malformed("bad".into()), "/p", ConfigRead::Missing)
            .unwrap_err(),
        Error::Config("/c/ade/config.toml: bad".into())
    );
    assert_eq!(
        Config::load(Some("/c"), ConfigRead::Missing, "/p", ConfigRead::Malformed("e".into()))
            .unwrap_err(),
        Error::Config("/p/.ade/config.toml: e".into())
    );
    assert_eq!(
        Config::load(Some("/c"), ConfigRead::Unreadable("denied".into()), "/p", ConfigRead::Missing)
            .unwrap_err(),
        Error::Io("denied".into())
    );
    assert_eq!(
        Config::global_path(None).unwrap_err(),
        Error::Config("cannot locate user config dir".into())
    );
    assert_eq!(Config::global_path(Some("/c")).unwrap(), "/c/ade/config.toml");
    assert_eq!(Config::project_path("/p"), "/p/.ade/config.toml");
    assert_eq!(Error::Io("m".into()).message(), "m");
}

#[test]
fn literal_passthrough() {
    assert_eq!(resolve("sk-abc", &KeySources::of_vars(vec![])).unwrap(), "sk-abc");
}

#[test]
fn env_resolution() {
    let vars = KeySources::of_vars(vec![("ADE_TEST_KEY".to_string(), "secret123".to_string())]);
    assert_eq!(resolve("env:ADE_TEST_KEY", &vars).unwrap(), "secret123");
    assert!(resolve("env:ADE_TEST_MISSING", &vars).is_err());
}

#[test]
fn key_errors() {
    assert_eq!(
        resolve("env:X", &KeySources::of_vars(vec![])).unwrap_err(),
        Error::Key("env var 'X' not set".into())
    );
    assert_eq!(
        resolve("keyring:svc", &KeySources::of_vars(vec![])).unwrap_err(),
        Error::Key(
            "keyring reference 'svc' requires building ade with --features keyring".into()
        )
    );
    assert_eq!(keyring_secret("svc", &Ok(Ok("s".into()))).unwrap(), "s");
    assert_eq!(
        keyring_secret("svc", &Ok(Err("locked".into()))).unwrap_err(),
        Error::Key("keyring read 'svc': locked".into())
    );
    assert_eq!(
        keyring_secret("svc", &Err("none".into())).unwrap_err(),
        Error::Key("keyring open 'svc': none".into())
    );
    assert_eq!(resolve_keyring("svc", Some(&Ok(Ok("s".into())))).unwrap(), "s");
    assert!(resolve_keyring("svc", None).is_err());
    let built_in = KeySources {
        vars: vec![],
        keyring: vec![
            ("svc".to_string(), Ok(Ok("s".to_string()))),
            ("locked".to_string(), Ok(Err("denied".to_string()))),
        ],
    };
    assert_eq!(resolve("keyring:svc", &built_in).unwrap(), "s");
    assert_eq!(
        resolve("keyring:locked", &built_in).unwrap_err(),
        Error::Key("keyring read 'locked': denied".into())
    );
    let vars = KeySources::of_vars(vec![("A".to_string(), "1".to_string())]);
    let entries = vec![
        ("x".to_string(), "env:A".to_string()),
        ("y".to_string(), "lit".to_string()),
    ];
    assert_eq!(
        resolve_all(&entries, &vars).unwrap(),
        vec![("x".to_string(), "1".to_string()), ("y".to_string(), "lit".to_string())]
    );
    let bad = vec![
        ("x".to_string(), "env:B".to_string()),
        ("y".to_string(), "env:C".to_string()),
    ];
    assert_eq!(
        resolve_all(&bad, &vars).unwrap_err(),
        Error::Key("env var 'B' not set".into())
    );
}

#[test]
fn parses_frontmatter() {
    let md = "---\nname: \"commit\"\ndescription: write a commit\n---\nDo the thing.";
    let (n, d, b) = parse_skill_md(md, "fallback");
    assert_eq!(n, "commit");
    assert_eq!(d, "write a commit");
    assert_eq!(b, "Do the thing.");
}

#[test]
fn falls_back_without_frontmatter() {
    let (n, d, b) = parse_skill_md("just body", "myskill");
    assert_eq!(n, "myskill");
    assert!(d.is_empty());
    assert_eq!(b, "just body");
}

#[test]
fn frontmatter_edges() {
    // No end of the frontmatter: all of it is body.
    let (n, d, b) = parse_skill_md("  ---\nname: x\n---\n", "f");
    assert_eq!((n.as_str(), d.as_str(), b.as_str()), ("f", "", "---\nname: x\n---"));
    let (n, d, b) = parse_skill_md("---\nname: x\n", "f");
    assert_eq!((n.as_str(), d.as_str(), b.as_str()), ("f", "", "---\nname: x"));
    // The last line of a kind counts, and dashes behind the end do not.
    let (n, d, b) = parse_skill_md("---\nname: a\nname:  b \r\n-----\n\n body\n", "f");
    assert_eq!((n.as_str(), d.as_str(), b.as_str()), ("b", "", "body\n"));
}

fn folder(dir: &str, name: &str, text: Option<&str>) -> SkillFolder {
    SkillFolder { dir: dir.into(), name: name.into(), text: text.map(|s| s.to_string()) }
}

#[test]
fn project_skills_override_global_ones() {
    let global = vec![
        folder("/g/a", "a", Some("global a")),
        folder("/g/b", "b", Some("---\nname: shared\ndescription: old\n---\nold body")),
        folder("/g/c", "c", None),
    ];
    let project = vec![folder("/p/x", "x", Some("---\nname: shared\ndescription: new\n---\nnew body"))];
    let reg = SkillRegistry::discover(&global, &project);
    assert!(!reg.is_empty());
    let names: Vec<&str> = reg.list().iter().map(|s| s.name.as_str()).collect();
    assert_eq!(names, vec!["a", "shared"]);
    assert_eq!(
        reg.system_prompt().unwrap(),
        "Available skills (call use_skill with the name to load full instructions):\n- a: \n- shared: new\n"
    );
    let args = Json::parse(r#"{"name": "shared"}"#).unwrap();
    assert_eq!(
        reg.use_skill(&args).unwrap(),
        "# Skill: shared\nDirectory: /p/x\n\nnew body"
    );
    assert_eq!(
        reg.use_skill(&Json::parse(r#"{"name": "zz"}"#).unwrap()).unwrap_err(),
        Error::Tool("unknown skill 'zz'".into())
    );
    assert_eq!(
        reg.use_skill(&Json::Null).unwrap_err(),
        Error::Tool("use_skill: missing 'name'".into())
    );
    let none = SkillRegistry::discover(&vec![], &vec![]);
    assert!(none.is_empty());
    assert!(none.system_prompt().is_none());
    assert_eq!(project_dir("/p"), "/p/.ade/skills");
}

#[test]
fn roundtrip_jsonl() {
    let mut s = Session::new();
    s.push(Message::user("hi"));
    s.push(Message::assistant("hello"));
    let file = s.save();
    let loaded = Session::load(SessionRead::Text(file)).unwrap();
    assert_eq!(loaded.messages.len(), 2);
    assert_eq!(loaded.messages[1].content, "hello");
    assert_eq!(loaded.messages, s.messages);
}

#[test]
fn session_keeps_everything() {
    let mut s = Session::new();
    s.push(Message { role: Role::System, content: "a\r\nb\u{2028} ".into(), tool_calls: vec![], tool_call_id: None });
    s.push(Message::user(""));
    s.push(Message {
        role: Role::Assistant,
        content: "\"q\"".into(),
        tool_calls: vec![
            ToolCall {
                id: "1".into(),
                name: "f".into(),
                arguments: Json::parse(r#"{"x": [1, null, {"y": "\n"}]}"#).unwrap(),
            },
            ToolCall { id: "".into(), name: "g".into(), arguments: Json::Null },
        ],
        tool_call_id: None,
    });
    s.push(Message::tool_result("1", "out\n"));
    let file = s.save();
    assert_eq!(file.matches('\n').count(), 4);
    assert_eq!(Session::load(SessionRead::Text(file)).unwrap().messages, s.messages);
    assert_eq!(Session::new().save(), "");
}

#[test]
fn session_files() {
    let mut s = Session::new();
    s.push(Message::user("x"));
    s.push(Message::tool_result("7", "r"));
    assert_eq!(
        s.save(),
        "{\"content\":\"x\",\"role\":\"user\"}\n{\"content\":\"r\",\"role\":\"tool\",\"tool_call_id\":\"7\"}\n"
    );
    let load = |text: &str| Session::load(SessionRead::Text(text.into()));
    let s = load("{\"role\":\"user\",\"content\":\"a\"}\r\n\n  \n {\"role\":\"assistant\",\"tool_call_id\":null,\"more\":1}").unwrap();
    assert_eq!(s.messages, vec![Message::user("a"), Message::assistant("")]);
    assert!(Session::load(SessionRead::Missing).unwrap().messages.is_empty());
    assert_eq!(
        Session::load(SessionRead::Unreadable("no".into())).unwrap_err(),
        Error::Io("no".into())
    );
    // A record may be written as an array, and a role as an object.
    let s = load("[\"user\", \"a\"]\n[{\"tool\": null}, \"r\", [], \"7\"]\n[\"assistant\", \"\", [[\"1\", \"f\", null]]]").unwrap();
    assert_eq!(s.messages[0], Message::user("a"));
    assert_eq!(s.messages[1], Message::tool_result("7", "r"));
    assert_eq!(
        s.messages[2].tool_calls,
        vec![ToolCall { id: "1".into(), name: "f".into(), arguments: Json::Null }]
    );
    let bad = |line: &str| match load(&format!("{{\"role\":\"user\"}}\n{line}\n?")).unwrap_err() {
        Error::Json(e) => e,
        other => panic!("{other:?}"),
    };
    assert_eq!(bad("{}"), "missing field `role`");
    assert_eq!(bad("[]"), "missing field `role`");
    assert_eq!(bad(r#"["user", "", [], null, 1]"#), "too many items in a message");
    assert_eq!(bad(r#"["user", 1]"#), "invalid field `content`");
    assert_eq!(bad(r#"{"role": {"user": 1}}"#), "invalid field `role`");
    assert_eq!(bad(r#"{"role": {"user": null, "tool": null}}"#), "invalid field `role`");
    assert_eq!(bad(r#"["user", "", [["1", "f", {}, 2]]]"#), "too many items in a tool call");
    assert_eq!(bad(r#"["user", "", [["1", "f"]]]"#), "missing field `arguments`");
    assert_eq!(bad(r#"{"role": "robot"}"#), "invalid field `role`");
    assert_eq!(bad(r#"{"role": "user", "content": null}"#), "invalid field `content`");
    assert_eq!(bad(r#"{"role": "user", "tool_calls": {}}"#), "invalid field `tool_calls`");
    assert_eq!(bad(r#"{"role": "user", "tool_calls": [{"id": 1}]}"#), "invalid field `id`");
    assert_eq!(bad(r#"{"role": "user", "tool_calls": [{"id": "1"}]}"#), "missing field `name`");
    assert_eq!(
        bad(r#"{"role": "user", "tool_calls": [{"id": "1", "name": "f"}]}"#),
        "missing field `arguments`"
    );
    assert_eq!(bad(r#"{"role": "user", "tool_call_id": 3}"#), "invalid field `tool_call_id`");
    assert!(bad("{").contains("EOF"));
    assert_eq!(Session::dir("/p"), "/p/.ade/sessions");
}

#[test]
fn json_reads_and_writes() {
    let v = Json::parse(r#"{"b": [1, -2, 18446744073709551615, 1.5, true, null], "a": "é\n", "a": "x"}"#).unwrap();
    assert_eq!(v.render(), r#"{"a":"x","b":[1,-2,18446744073709551615,1.5,true,null]}"#);
    let b = v.at("b").items().unwrap();
    assert_eq!(b[0].uint(), Some(1));
    assert_eq!(b[1].uint(), None);
    assert_eq!(b[1].sint(), Some(-2));
    assert_eq!(b[2].uint(), Some(18446744073709551615));
    assert_eq!(b[2].sint(), None);
    assert_eq!(b[3].uint(), None);
    assert_eq!(b[4].flag(), Some(true));
    assert!(b[5].is_null());
    assert_eq!(v.at("a").text(), Some("x"));
    assert!(v.at("zz").is_null());
    assert!(v.get("zz").is_none());
    assert!(Json::Null.at("x").is_null());
    assert!(v.at("b").first().is_some());
    assert!(v.non_null("b").is_some());
    assert_eq!(Json::parse("[").unwrap_err(), "EOF while parsing a list at line 1 column 1");
    assert_eq!(array(vec![Json::Int(-1), Json::Str("\"".into())]).render(), r#"[-1,"\""]"#);
    assert_eq!(v.clone().render(), v.render());
}

#[test]
fn json_keeps_deep_values() {
    let mut v = Json::UInt(7);
    for _ in 0..127 {
        v = array(vec![v]);
    }
    let text = v.render();
    assert_eq!(Json::parse(&text).unwrap().render(), text);
    // One level more is too deep for the reader.
    assert!(Json::parse(&array(vec![v]).render()).is_err());
}

#[test]
fn sse_lines() {
    assert_eq!(read_line("data: x \r\n"), Line::Data("x".into()));
    assert_eq!(read_line("data:[DONE]"), Line::Done);
    assert_eq!(read_line("data:   \n"), Line::Skip);
    assert_eq!(read_line("event: x"), Line::Skip);
    assert_eq!(read_line(" data: x"), Line::Skip);
}

#[test]
fn sse_chunks_do_not_matter() {
    let body = "data: é1\n\ndata: {\"x\": \"→\"}\r\nevent: e\ndata: last".as_bytes();
    let mut whole = DataReader::new();
    let want = whole.feed(&body.to_vec());
    assert_eq!(want, vec!["é1".to_string(), "{\"x\": \"→\"}".to_string()]);
    for cut in 0..body.len() {
        let mut r = DataReader::new();
        let mut got = r.feed(&body[..cut].to_vec());
        got.extend(r.feed(&body[cut..].to_vec()));
        assert_eq!(got, want);
    }
    let mut bad = DataReader::new();
    assert_eq!(bad.feed(&b"data: a\xffb\n".to_vec()), vec!["a\u{fffd}b".to_string()]);
    let mut done = DataReader::new();
    assert!(done.feed(&b"data: [DONE]\ndata: x\n".to_vec()).is_empty());
    assert!(done.done());
    assert!(done.feed(&b"data: y\n".to_vec()).is_empty());
}

#[test]
fn paths_join_and_show() {
    assert_eq!(join("/a", "b"), "/a/b");
    assert_eq!(join("/a/", "b"), "/a/b");
    assert_eq!(join("/a", "/b"), "/b");
    assert_eq!(join("", "b"), "b");
    assert_eq!(join("/a", ""), "/a/");
    assert_eq!(relative_to("/proj", "/proj/./src/a.rs"), Some("src/a.rs".to_string()));
    assert_eq!(relative_to("/proj/", "/proj//a/./b"), Some("a/./b".to_string()));
    assert_eq!(relative_to("/proj", "/project/a"), None);
    assert_eq!(relative_to(".", "./a"), Some("a".to_string()));
    assert_eq!(relative_to(".", "a"), None);
    assert_eq!(relative_to("", "a/b"), Some("a/b".to_string()));
    assert_eq!(relative_to("/a/b", "/a"), None);
}

#[test]
fn text_helpers() {
    assert_eq!(text::trim("\u{3000} a b\t\n"), "a b");
    assert_eq!(text::trim_end(" a \n"), " a");
    assert_eq!(text::lines("a\r\nb\n\nc"), vec!["a", "b", "", "c"]);
    assert_eq!(text::lines("a\r"), vec!["a\r"]);
    assert_eq!(text::words("  a  b\tc "), vec!["a", "b", "c"]);
    assert_eq!(text::split("a,,b", ','), vec!["a", "", "b"]);
    assert_eq!(text::count_matches("aaaa", "aa"), 2);
    assert_eq!(text::count_matches("ab", ""), 3);
    assert_eq!(text::count_places("aaaa", "aa"), 3);
    assert_eq!(text::count_places("ab", ""), 3);
    assert_eq!(text::count_places("ab", "c"), 0);
    assert_eq!(text::decimal(0), "0");
    assert_eq!(text::decimal(18446744073709551615), "18446744073709551615");
    assert_eq!(text::signed(-2147483648), "-2147483648");
    assert_eq!(text::parse_u32("+12"), Some(12));
    assert_eq!(text::parse_u32("4294967296"), None);
    assert_eq!(text::parse_u32(""), None);
    assert_eq!(text::parse_u32("1 "), None);
    assert_eq!(text::padded("ab", 4), "ab  ");
    assert_eq!(text::padded("abcde", 4), "abcde");
    assert_eq!(text::replaced("a\nb", '\n', "--"), "a--b");
    assert!(text::comes_before("a", "b") && text::comes_before("a", "ab"));
    assert!(!text::comes_before("b", "a") && !text::comes_before("a", "a"));
}

#[test]
fn prompts_advertise_without_bodies() {
    let md = |body: &str| format!("---\nname: n\ndescription: d\n---\n{body}");
    let a = SkillRegistry::discover(&vec![folder("/a", "x", Some(&md("one")))], &vec![]);
    let b = SkillRegistry::discover(&vec![folder("/b", "y", Some(&md("two")))], &vec![]);
    assert_eq!(a.system_prompt(), b.system_prompt());
    let args = Json::parse(r#"{"name": "n"}"#).unwrap();
    assert_eq!(a.use_skill(&args).unwrap(), "# Skill: n\nDirectory: /a\n\none");
    assert_eq!(b.use_skill(&args).unwrap(), "# Skill: n\nDirectory: /b\n\ntwo");
}

#[test]
fn later_members_hide_earlier_ones() {
    let v = Json::Object(vec![
        ("a".to_string(), Json::Int(1)),
        ("b".to_string(), Json::Int(2)),
        ("a".to_string(), Json::Int(3)),
        ("b".to_string(), Json::Int(4)),
        ("a".to_string(), Json::Int(5)),
    ]);
    assert_eq!(v.render(), r#"{"a":5,"b":4}"#);
    assert_eq!(v.at("a").sint(), Some(5));
    assert!(v.only("a").is_none());
    let one = Json::Object(vec![("a".to_string(), Json::Int(1)), ("a".to_string(), Json::Null)]);
    assert!(one.only("a").unwrap().is_null());
    assert!(one.only("b").is_none());
    assert!(Json::Object(vec![]).only("a").is_none());
}

#[test]
fn rendered_json_is_one_line() {
    let v = Json::Object(vec![("a\nb".to_string(), Json::Str("x\r\n\u{2028}y ".into()))]);
    let text = v.render();
    assert_eq!(text, "{\"a\\nb\":\"x\\r\\n\u{2028}y \"}");
    assert_eq!(text::lines(&text).len(), 1);
    assert_eq!(Json::parse(&text).unwrap(), v);
    assert_eq!(text::decimal(340282366920938463463374607431768211455), "340282366920938463463374607431768211455");
}
