use std::collections::BTreeMap;

use ade_core::agent::{payload, Agent, Dispatch, Reporter, SilentReporter, Todo, Turn};
use ade_core::error::Error;
use ade_core::json::Json;
use ade_core::permission::{AlwaysAllow, AlwaysDeny, ApprovalRequest, Approver, Decision, PermissionGate};
use ade_core::provider::types::{ChatResponse, FinishReason, Role, ToolCall, Usage};
use ade_core::session::Session;
use ade_core::skills::{SkillFolder, SkillRegistry};
use ade_core::tools::builtin::{
    edit, edit_file_output, list_dir_output, run_shell_output, shell_for, shell_text, spawn_failed,
    write_file_output, ToolAction,
};
use ade_core::tools::search::{Entry, EntryKind, Walk, WalkStep, MAX_HITS};
use ade_core::tools::{safe_join, Tool, ToolContext, ToolRegistry};

fn json(text: &str) -> Json {
    Json::parse(text).unwrap()
}

fn ctx() -> ToolContext {
    ToolContext { root: "/proj".into(), windows: false }
}

/// Runs a tool against files that are held in memory.
fn run(tool: Tool, args: &str, files: &mut BTreeMap<String, String>) -> Result<String, Error> {
    let missing = || Error::Io("No such file or directory".into());
    match tool.plan(&json(args), &ctx())? {
        ToolAction::ReadFile { path } => files.get(&path).cloned().ok_or_else(missing),
        ToolAction::WriteFile { path, rel, content } => {
            let out = write_file_output(&content, &rel);
            files.insert(path, content);
            Ok(out)
        }
        ToolAction::EditFile { path, rel, find, replacement } => {
            let text = files.get(&path).cloned().ok_or_else(missing)?;
            let updated = edit(&text, &find, &replacement, &rel)?;
            files.insert(path, updated);
            Ok(edit_file_output(&rel))
        }
        other => panic!("{other:?}"),
    }
}

#[test]
fn safe_join_rejects_escape() {
    let root = "/proj";
    assert!(safe_join(root, "../etc/passwd", false).is_err());
    assert!(safe_join(root, "/etc/passwd", false).is_err());
    assert_eq!(safe_join(root, "src/a.rs", false).unwrap(), "/proj/src/a.rs");
}

#[test]
fn safe_join_on_windows() {
    let root = r"C:\proj";
    for rel in ["..\\x", "a\\..\\x", "a/../x", ".."] {
        assert_eq!(
            safe_join(root, rel, true).unwrap_err(),
            Error::Tool(format!("path escapes project root: {rel}"))
        );
    }
    for rel in ["C:\\x", "c:/x", "C:x", "\\x", "/x", "\\\\server\\share"] {
        assert_eq!(
            safe_join(root, rel, true).unwrap_err(),
            Error::Tool(format!("absolute paths not allowed: {rel}"))
        );
    }
    assert_eq!(safe_join(root, "src\\a.rs", true).unwrap(), "C:\\proj\\src\\a.rs");
    assert_eq!(safe_join("C:\\", "a", true).unwrap(), "C:\\a");
    // Elsewhere a backslash is a character like any other.
    assert_eq!(safe_join("/p", "..\\x", false).unwrap(), "/p/..\\x");
    assert_eq!(safe_join("/p", "C:\\x", false).unwrap(), "/p/C:\\x");
    let mut w = Walk::new(&ToolContext { root: root.into(), windows: true }, "q");
    w.on_file("C:\\proj\\.\\src\\a.rs", Some("q"));
    assert_eq!(w.output(), "src\\a.rs:1: q\n");
}

#[test]
fn safe_join_messages() {
    assert_eq!(
        safe_join("/p", "a/../b", false).unwrap_err(),
        Error::Tool("path escapes project root: a/../b".into())
    );
    assert_eq!(
        safe_join("/p", "/x", false).unwrap_err(),
        Error::Tool("absolute paths not allowed: /x".into())
    );
    // Dots that are part of a name do not climb.
    assert_eq!(safe_join("/p", "a..b/...", false).unwrap(), "/p/a..b/...");
    assert_eq!(safe_join("/p", ".", false).unwrap(), "/p/.");
    assert_eq!(safe_join("/p", "..", false).unwrap_err(), Error::Tool("path escapes project root: ..".into()));
}

#[test]
fn write_then_read() {
    let mut files = BTreeMap::new();
    let out = run(Tool::WriteFile, r#"{"path": "a.txt", "content": "hello"}"#, &mut files).unwrap();
    assert_eq!(out, "wrote 5 bytes to a.txt");
    let got = run(Tool::ReadFile, r#"{"path": "a.txt"}"#, &mut files).unwrap();
    assert_eq!(got, "hello");
}

#[test]
fn edit_requires_unique_match() {
    let mut files = BTreeMap::new();
    run(Tool::WriteFile, r#"{"path": "b.txt", "content": "x x"}"#, &mut files).unwrap();
    let err = run(Tool::EditFile, r#"{"path": "b.txt", "old": "x", "new": "y"}"#, &mut files);
    assert!(err.is_err());
    assert_eq!(
        err.unwrap_err(),
        Error::Tool("'old' matches 2 times in b.txt; make it unique".into())
    );
    run(Tool::EditFile, r#"{"path": "b.txt", "old": "x x", "new": "y"}"#, &mut files).unwrap();
    let got = run(Tool::ReadFile, r#"{"path": "b.txt"}"#, &mut files).unwrap();
    assert_eq!(got, "y");
}

#[test]
fn escape_is_blocked() {
    let mut files = BTreeMap::new();
    assert!(run(Tool::ReadFile, r#"{"path": "../x"}"#, &mut files).is_err());
}

#[test]
fn edits() {
    assert_eq!(edit("a-b-c", "-b", "+", "f").unwrap(), "a+-c");
    assert_eq!(edit("abc", "z", "y", "f").unwrap_err(), Error::Tool("'old' not found in f".into()));
    // Places that overlap are two places.
    assert_eq!(
        edit("aaa", "aa", "b", "f").unwrap_err(),
        Error::Tool("'old' matches 2 times in f; make it unique".into())
    );
    assert_eq!(
        edit("aaaa", "aa", "b", "f").unwrap_err(),
        Error::Tool("'old' matches 2 times in f; make it unique".into())
    );
    assert_eq!(edit("aab", "ab", "c", "f").unwrap(), "ac");
    assert_eq!(edit("", "", "new", "f").unwrap(), "new");
    assert_eq!(
        edit("ab", "", "x", "f").unwrap_err(),
        Error::Tool("'old' matches 3 times in f; make it unique".into())
    );
    assert_eq!(edit_file_output("f"), "edited f");
    assert_eq!(write_file_output("é→", "f"), "wrote 5 bytes to f");
}

#[test]
fn missing_arguments() {
    let plan = |t: Tool, args: &str| t.plan(&json(args), &ctx()).unwrap_err();
    assert_eq!(plan(Tool::ReadFile, "{}"), Error::Tool("missing string arg 'path'".into()));
    assert_eq!(plan(Tool::Search, "{}"), Error::Tool("missing string arg 'query'".into()));
    assert_eq!(
        plan(Tool::WriteFile, r#"{"path": "a"}"#),
        Error::Tool("missing string arg 'content'".into())
    );
    assert_eq!(
        plan(Tool::WriteFile, r#"{"path": "/a"}"#),
        Error::Tool("absolute paths not allowed: /a".into())
    );
    assert_eq!(
        plan(Tool::EditFile, r#"{"path": "a", "new": "x"}"#),
        Error::Tool("missing string arg 'old'".into())
    );
    assert_eq!(
        plan(Tool::EditFile, r#"{"path": "a", "old": "x"}"#),
        Error::Tool("missing string arg 'new'".into())
    );
    assert_eq!(plan(Tool::RunShell, r#"{"cmd": 3}"#), Error::Tool("missing string arg 'cmd'".into()));
}

#[test]
fn default_paths() {
    match Tool::ListDir.plan(&json("{}"), &ctx()).unwrap() {
        ToolAction::ListDir { path } => assert_eq!(path, "/proj/."),
        other => panic!("{other:?}"),
    }
    match Tool::Search.plan(&json(r#"{"query": "q", "path": "src"}"#), &ctx()).unwrap() {
        ToolAction::Search { start, query } => {
            assert_eq!(start, "/proj/src");
            assert_eq!(query, "q");
        }
        other => panic!("{other:?}"),
    }
}

#[test]
fn outputs() {
    assert_eq!(
        list_dir_output(&vec![("a.txt".to_string(), false), ("src".to_string(), true)]),
        "a.txt\nsrc/\n"
    );
    assert_eq!(list_dir_output(&vec![]), "");
    assert_eq!(shell_text("out", "", Some(0)), "out\n[exit 0]");
    assert_eq!(shell_text("", "bad", None), "\n[stderr]\nbad\n[exit -1]");
    assert_eq!(
        run_shell_output(&b"a\xff".to_vec(), &b"e".to_vec(), Some(2)),
        "a\u{fffd}\n[stderr]\ne\n[exit 2]"
    );
    assert_eq!(shell_for(true), ("cmd", "/C"));
    assert_eq!(shell_for(false), ("/bin/sh", "-c"));
    assert_eq!(spawn_failed("x"), Error::Tool("spawn failed: x".into()));
}

#[test]
fn registry_is_sorted_and_replaces() {
    let mut reg = ToolRegistry::with_builtins();
    assert_eq!(reg.len(), 6);
    assert!(!reg.is_empty());
    assert!(ToolRegistry::new().is_empty());
    let names: Vec<String> = reg.specs().into_iter().map(|s| s.name).collect();
    assert_eq!(
        names,
        vec!["edit_file", "list_dir", "read_file", "run_shell", "search", "write_file"]
    );
    reg.register(Tool::Search);
    assert_eq!(reg.len(), 6);
    assert!(matches!(reg.get("run_shell"), Some(Tool::RunShell)));
    assert!(reg.get("nope").is_none());
    let skills = SkillRegistry::discover(
        &vec![SkillFolder { dir: "/g/a".into(), name: "a".into(), text: Some("body".into()) }],
        &vec![],
    );
    skills.register_tool(&mut reg);
    assert_eq!(reg.len(), 7);
    assert!(matches!(reg.get("use_skill"), Some(Tool::UseSkill(_))));
    SkillRegistry::discover(&vec![], &vec![]).register_tool(&mut reg);
    assert_eq!(reg.len(), 7);
}

#[test]
fn tool_specs() {
    let spec = Tool::EditFile.spec();
    assert_eq!(spec.description, "Replace an exact, unique string in a file with new text.");
    assert_eq!(
        spec.parameters.render(),
        r#"{"properties":{"new":{"type":"string"},"old":{"description":"exact text to replace (must be unique)","type":"string"},"path":{"type":"string"}},"required":["path","old","new"],"type":"object"}"#
    );
    assert_eq!(
        Tool::ListDir.spec().parameters.render(),
        r#"{"properties":{"path":{"default":".","type":"string"}},"type":"object"}"#
    );
    assert_eq!(
        Tool::Search.spec().parameters.render(),
        r#"{"properties":{"path":{"default":".","type":"string"},"query":{"type":"string"}},"required":["query"],"type":"object"}"#
    );
}

#[test]
fn summaries_and_mutation() {
    let args = json(r#"{"path": "a", "cmd": "ls -l"}"#);
    assert_eq!(Tool::WriteFile.summarize(&args), "write_file a");
    assert_eq!(Tool::EditFile.summarize(&Json::Null), "edit_file ?");
    assert_eq!(Tool::RunShell.summarize(&args), "ls -l");
    assert_eq!(Tool::ReadFile.summarize(&args), "read_file");
    assert!(Tool::WriteFile.mutating() && Tool::EditFile.mutating() && Tool::RunShell.mutating());
    assert!(!Tool::ReadFile.mutating() && !Tool::ListDir.mutating() && !Tool::Search.mutating());
}

fn at(root: &str) -> ToolContext {
    ToolContext { root: root.into(), windows: false }
}

fn entry(dir: &str, name: &str, kind: EntryKind) -> Entry {
    Entry { name: name.into(), path: format!("{dir}/{name}"), kind }
}

#[test]
fn search_walks_depth_first() {
    let mut w = Walk::new(&at("/p"), "hit");
    w.on_dir(Some(vec![
        entry("/p/.", "src", EntryKind::Dir),
        entry("/p/.", ".git", EntryKind::Dir),
        entry("/p/.", "target", EntryKind::Dir),
        entry("/p/.", "sock", EntryKind::Other),
        entry("/p/.", "z.txt", EntryKind::File),
    ]));
    match w.next() {
        WalkStep::ReadDir(path) => assert_eq!(path, "/p/./src"),
        other => panic!("{other:?}"),
    }
    w.on_dir(Some(vec![entry("/p/./src", "a.rs", EntryKind::File), entry("/p/./src", "locked", EntryKind::Dir)]));
    match w.next() {
        WalkStep::ReadFile(path) => {
            assert_eq!(path, "/p/./src/a.rs");
            w.on_file(&path, Some("no\n  a hit here \r\nhit\n"));
        }
        other => panic!("{other:?}"),
    }
    match w.next() {
        WalkStep::ReadDir(path) => {
            assert_eq!(path, "/p/./src/locked");
            w.on_dir(None);
        }
        other => panic!("{other:?}"),
    }
    match w.next() {
        WalkStep::ReadFile(path) => {
            assert_eq!(path, "/p/./z.txt");
            w.on_file(&path, None);
        }
        other => panic!("{other:?}"),
    }
    assert!(matches!(w.next(), WalkStep::Done));
    assert_eq!(w.output(), "src/a.rs:2: a hit here\nsrc/a.rs:3: hit\n");
    assert_eq!(Walk::new(&at("/p"), "x").output(), "(no matches)");
}

#[test]
fn search_skips_directories_by_name() {
    let mut w = Walk::new(&at("/p"), "needle");
    w.on_dir(Some(vec![
        entry("/p", "target", EntryKind::File),
        entry("/p", "node_modules", EntryKind::Dir),
        entry("/p", ".target", EntryKind::File),
    ]));
    match w.next() {
        WalkStep::ReadFile(path) => {
            assert_eq!(path, "/p/target");
            w.on_file(&path, Some("needle"));
        }
        other => panic!("{other:?}"),
    }
    assert!(matches!(w.next(), WalkStep::Done));
    assert_eq!(w.output(), "target:1: needle\n");
}

#[test]
fn search_stops_at_the_limit() {
    let mut w = Walk::new(&at("/p"), "x");
    w.on_dir(Some(vec![entry("/p", "a", EntryKind::File), entry("/p", "b", EntryKind::File)]));
    assert!(matches!(w.next(), WalkStep::ReadFile(_)));
    w.on_file("/p/a", Some(&"x\n".repeat(250)));
    assert_eq!(w.output().lines().count(), MAX_HITS);
    assert!(matches!(w.next(), WalkStep::Done));
}

fn reply(content: &str, calls: Vec<(&str, &str, &str)>) -> ChatResponse {
    ChatResponse {
        content: content.into(),
        tool_calls: calls
            .into_iter()
            .map(|(id, name, args)| ToolCall { id: id.into(), name: name.into(), arguments: json(args) })
            .collect(),
        finish: FinishReason::Stop,
        usage: Usage::default(),
    }
}

#[test]
fn turn_answers_each_call() {
    let mut session = Session::new();
    let mut turn = Turn::start(&mut session, "do it", 3);
    assert!(matches!(turn.todo(), Todo::Ask));
    let r = reply("working", vec![("1", "read_file", "{}"), ("2", "run_shell", "{}")]);
    assert!(turn.on_reply(&mut session, &r));
    match turn.todo() {
        Todo::Run(call) => assert_eq!(call.id, "1"),
        other => panic!("{other:?}"),
    }
    let shown = turn.on_result(&mut session, Ok("text".into())).unwrap();
    assert_eq!((shown.name.as_str(), shown.payload.as_str(), shown.ok), ("read_file", "text", true));
    let shown = turn.on_result(&mut session, Err(Error::Tool("boom".into()))).unwrap();
    assert_eq!((shown.name.as_str(), shown.payload.as_str(), shown.ok), ("run_shell", "ERROR: boom", false));
    assert!(matches!(turn.todo(), Todo::Ask));
    assert!(turn.on_result(&mut session, Ok("stray".into())).is_none());
    assert!(!turn.on_reply(&mut session, &reply("", vec![])));
    match turn.todo() {
        Todo::Finish(text) => assert_eq!(text, ""),
        other => panic!("{other:?}"),
    }
    let roles: Vec<Role> = session.messages.iter().map(|m| m.role).collect();
    assert_eq!(roles, vec![Role::User, Role::Assistant, Role::Tool, Role::Tool, Role::Assistant]);
    assert_eq!(session.messages[2].tool_call_id.as_deref(), Some("1"));
    assert_eq!(session.messages[3].tool_call_id.as_deref(), Some("2"));
    assert_eq!(session.messages[3].content, "ERROR: boom");
    // A finished turn takes nothing more.
    assert!(!turn.on_reply(&mut session, &reply("late", vec![])));
    assert_eq!(session.messages.len(), 5);
}

#[test]
fn turn_is_stopped() {
    let mut session = Session::new();
    let mut turn = Turn::start(&mut session, "loop", 2);
    for _ in 0..2 {
        assert!(matches!(turn.todo(), Todo::Ask));
        turn.on_reply(&mut session, &reply("", vec![("1", "f", "{}")]));
        turn.on_result(&mut session, Ok("r".into()));
    }
    match turn.todo() {
        Todo::Finish(text) => assert_eq!(text, "(stopped after 2 tool iterations)"),
        other => panic!("{other:?}"),
    }
    assert_eq!(session.messages.len(), 5);
    let mut none = Session::new();
    match Turn::start(&mut none, "x", 0).todo() {
        Todo::Finish(text) => assert_eq!(text, "(stopped after 0 tool iterations)"),
        other => panic!("{other:?}"),
    }
    assert_eq!(payload(&Ok("a".into())), "a");
}

fn agent<'a, A: Approver>(
    registry: &'a ToolRegistry,
    gate: &'a PermissionGate<A>,
    ctx: &'a ToolContext,
) -> Agent<'a, A> {
    Agent { registry, gate, ctx, system: Some("sys".into()), max_iters: 25 }
}

#[test]
fn calls_are_gated() {
    let reg = ToolRegistry::with_builtins();
    let c = ctx();
    let deny = PermissionGate::new(vec!["cargo".to_string()], Box::new(AlwaysDeny));
    let a = agent(&reg, &deny, &c);
    let req = a.announce("run_shell", &json(r#"{"cmd": "rm x"}"#)).unwrap();
    assert_eq!((req.tool.as_str(), req.summary.as_str(), req.mutating), ("run_shell", "rm x", true));
    assert!(matches!(a.dispatch_tool("run_shell", &json(r#"{"cmd": "rm x"}"#)), Dispatch::Denied));
    assert!(matches!(
        a.dispatch_tool("run_shell", &json(r#"{"cmd": "cargo test"}"#)),
        Dispatch::Run(ToolAction::RunShell { .. })
    ));
    assert!(matches!(
        a.dispatch_tool("read_file", &json(r#"{"path": "a"}"#)),
        Dispatch::Run(ToolAction::ReadFile { .. })
    ));
    assert_eq!(a.announce("nope", &Json::Null).unwrap_err(), Error::Tool("unknown tool 'nope'".into()));
    match a.dispatch_tool("nope", &Json::Null) {
        Dispatch::Failed(e) => assert_eq!(e, Error::Tool("unknown tool 'nope'".into())),
        other => panic!("{other:?}"),
    }
    let allow = PermissionGate::new(vec![], Box::new(AlwaysAllow));
    let b = agent(&reg, &allow, &c);
    match b.dispatch_tool("write_file", &json(r#"{"path": "../a", "content": ""}"#)) {
        Dispatch::Failed(e) => assert_eq!(e, Error::Tool("path escapes project root: ../a".into())),
        other => panic!("{other:?}"),
    }
    assert_eq!(ade_core::agent::denied_result(), "denied by user");
}

#[test]
fn requests_carry_history_and_tools() {
    let reg = ToolRegistry::with_builtins();
    let c = ctx();
    let gate = PermissionGate::new(vec![], Box::new(AlwaysDeny));
    let a = agent(&reg, &gate, &c);
    let mut session = Session::new();
    Turn::start(&mut session, "hi", 1);
    let req = a.request(&session);
    assert_eq!(req.model, "");
    assert_eq!(req.system.as_deref(), Some("sys"));
    assert_eq!(req.messages, session.messages);
    assert_eq!(req.tools.len(), 6);
    assert_eq!(req.max_tokens, 4096);
}

struct Asked(bool);

impl Approver for Asked {
    fn approve(&self, req: &ApprovalRequest) -> Decision {
        if self.0 && req.tool == "write_file" {
            Decision::Allow
        } else {
            Decision::Deny
        }
    }
}

#[test]
fn settles_with_an_answer() {
    let gate = PermissionGate::new(vec!["edit_file".to_string()], Box::new(Asked(true)));
    let req = |tool: &str, mutating: bool, summary: &str| ApprovalRequest {
        tool: tool.into(),
        mutating,
        summary: summary.into(),
    };
    assert!(gate.passes(&req("edit_file", true, "edit_file a")));
    assert!(!gate.passes(&req("write_file", true, "write_file a")));
    assert_eq!(gate.check(&req("write_file", true, "write_file a")), Decision::Allow);
    assert_eq!(gate.check(&req("run_shell", true, "x")), Decision::Deny);
    assert_eq!(gate.settle(&req("x", true, "y"), Decision::Deny), Decision::Deny);
    assert_eq!(gate.settle(&req("x", false, "y"), Decision::Deny), Decision::Allow);
    // An entry covers what starts with it, character by character.
    let prefix = PermissionGate::new(vec!["cargo b".to_string()], Box::new(AlwaysDeny));
    assert_eq!(prefix.check(&req("run_shell", true, "cargo build")), Decision::Allow);
    SilentReporter.on_tool_call("a", "b");
}

#[test]
fn history_only_grows() {
    let mut session = Session::new();
    let mut turn = Turn::start(&mut session, "go", 3);
    turn.on_reply(&mut session, &reply("a", vec![("1", "f", "{}"), ("2", "g", "{}")]));
    let before = session.messages.clone();
    turn.on_result(&mut session, Err(Error::Tool("no".into())));
    assert_eq!(session.messages[..before.len()], before[..]);
    assert_eq!(session.messages.len(), before.len() + 1);
    // A reply that was not asked for changes nothing.
    assert!(!turn.on_reply(&mut session, &reply("b", vec![])));
    assert_eq!(session.messages.len(), before.len() + 1);
}
