use ade_core::approver::{
    choice_clicked, choice_typed, Choice, InteractiveApprover, PermissionDesk,
};
use ade_core::cli::{
    banner, build_provider, build_registry, chat_input, config_paths, denied_line, list_tools,
    mcp_list, models, run_prompt, save_path, skills_list, system_prompt, tool_call_line,
    tool_result_line, Chat, ChatInput, SlashResult,
};
use ade_core::config::{
    Config, McpConfig, McpTransport, PermissionConfig, ProviderConfig, ProviderKind,
};
use ade_core::error::Error;
use ade_core::git::{
    git_commit, git_diff, git_discard, git_not_run, git_outcome, git_stage, git_stage_all,
    git_status, git_unstage, diff_args, diff_suffices, readable, rename_target, repo_args,
    status_args, tracked_args, Discard, GitFile, GitStatus,
};
use ade_core::gui::{
    denied_event, file_path, list_models, list_tree, permission_event, tool_call_event,
    tool_result_event, tree_dir, TreeEntry,
};
use ade_core::keystore::KeySources;
use ade_core::mcp::host::Spawned;
use ade_core::permission::{ApprovalRequest, Decision};
use ade_core::provider::types::Message;
use ade_core::session::Session;
use ade_core::skills::{SkillFolder, SkillRegistry};
use ade_core::terminal::{default_shell, exit_event, output_event, Terminals};
use ade_core::tools::ToolRegistry;

fn request(tool: &str, summary: &str) -> ApprovalRequest {
    ApprovalRequest { tool: tool.into(), mutating: true, summary: summary.into() }
}

#[test]
fn typed_answers() {
    assert_eq!(choice_typed(Some(" y\n")), Choice::Once);
    assert_eq!(choice_typed(Some("Y")), Choice::Once);
    assert_eq!(choice_typed(Some("a\r\n")), Choice::Always);
    assert_eq!(choice_typed(Some("A")), Choice::Always);
    assert_eq!(choice_typed(Some("yes")), Choice::No);
    assert_eq!(choice_typed(Some("")), Choice::No);
    assert_eq!(choice_typed(None), Choice::No);
    assert_eq!(choice_clicked(Some(1)), Choice::Once);
    assert_eq!(choice_clicked(Some(2)), Choice::Always);
    assert_eq!(choice_clicked(Some(0)), Choice::No);
    assert_eq!(choice_clicked(Some(3)), Choice::No);
    assert_eq!(choice_clicked(None), Choice::No);
}

#[test]
fn always_lasts_for_the_session() {
    let mut a = InteractiveApprover::new(false);
    let shell = request("run_shell", "ls");
    assert!(!a.knows(&shell));
    assert_eq!(a.approve(&shell, Some("y")), Decision::Allow);
    assert!(!a.knows(&shell));
    assert_eq!(a.approve(&shell, None), Decision::Deny);
    assert_eq!(a.approve(&shell, Some("a")), Decision::Allow);
    assert!(a.knows(&shell));
    assert_eq!(a.approve(&shell, None), Decision::Allow);
    assert!(!a.knows(&request("write_file", "x")));
    let mut auto = InteractiveApprover::new(true);
    assert_eq!(auto.approve(&shell, None), Decision::Allow);
    assert_eq!(
        InteractiveApprover::question(&shell),
        "\n  permission: run_shell → ls\n  allow? [y]es / [a]lways / [N]o: "
    );
}

#[test]
fn desk_matches_answers_to_questions() {
    let mut d = PermissionDesk::new();
    assert_eq!(d.next_id(), 1);
    let first = d.ask();
    let second = d.ask();
    assert_eq!((first, second), (1, 2));
    assert!(d.respond(first));
    assert!(!d.respond(first));
    assert!(!d.respond(99));
    assert!(d.respond(second));
    assert_eq!(d.settle("run_shell", Some(1)), Decision::Allow);
    assert!(!d.knows("run_shell"));
    assert_eq!(d.settle("run_shell", Some(2)), Decision::Allow);
    assert!(d.knows("run_shell"));
    assert_eq!(d.settle("write_file", None), Decision::Deny);
}

fn file(path: &str, code: &str, untracked: bool) -> GitFile {
    GitFile { path: path.into(), code: code.into(), untracked }
}

#[test]
fn status_is_parsed() {
    let raw = "## main...origin/main [ahead 1, behind 22]\nM  staged.rs\n M tree.rs\nMM both.rs\nR  a -> b\n?? new file\nA\n";
    assert!(readable(raw));
    let st = GitStatus::parse(raw);
    assert!(st.repo);
    assert_eq!(st.branch, "main");
    assert_eq!((st.ahead, st.behind), (1, 22));
    assert_eq!(
        st.staged,
        vec![file("staged.rs", "M", false), file("both.rs", "M", false), file("b", "R", false)]
    );
    assert_eq!(
        st.unstaged,
        vec![file("tree.rs", "M", false), file("both.rs", "M", false), file("new file", "?", true)]
    );
}

#[test]
fn branch_lines() {
    let branch = |raw: &str| {
        assert!(readable(raw));
        let st = GitStatus::parse(raw);
        (st.branch, st.ahead, st.behind)
    };
    assert_eq!(branch("## No commits yet on trunk\n"), ("trunk".to_string(), 0, 0));
    assert_eq!(branch("## No commits yet on \n"), ("".to_string(), 0, 0));
    assert_eq!(branch("## No commits yet on main...origin/main [gone]\n"), ("main".to_string(), 0, 0));
    assert_eq!(branch("## dev\n"), ("dev".to_string(), 0, 0));
    assert_eq!(branch("## HEAD (no branch)\n"), ("HEAD".to_string(), 0, 0));
    assert_eq!(branch("## a...b [behind 3]\n"), ("a".to_string(), 0, 3));
    assert_eq!(branch("## a...b [gone]\n"), ("a".to_string(), 0, 0));
    assert_eq!(branch("## a...b [ahead x, behind 4294967296]\n"), ("a".to_string(), 0, 0));
    assert_eq!(branch("## a...b [ahead 5"), ("a".to_string(), 5, 0));
    assert_eq!(branch("## a\n## b\n"), ("b".to_string(), 0, 0));
}

#[test]
fn unreadable_status() {
    assert!(!readable("## a]b[c\n"));
    // The path would start in the middle of a character.
    assert!(!readable("MMé\n"));
    assert!(readable(""));
    assert!(!git_status(false, Some("MMé\n")).repo);
    let st = git_status(false, Some("M  x\n"));
    assert!(!st.repo && st.staged.is_empty());
    assert!(!git_status(true, None).repo);
    assert!(git_status(true, Some("M  x\n")).repo);
    assert_eq!(rename_target("old -> new -> x"), "new -> x");
    assert_eq!(rename_target("plain"), "plain");
    // A path may hold any character.
    assert_eq!(git_status(true, Some("A  é → x\n")).staged, vec![file("é → x", "A", false)]);
}

fn strings(v: &[&str]) -> Vec<String> {
    v.iter().map(|s| s.to_string()).collect()
}

#[test]
fn git_commands() {
    assert_eq!(repo_args(), strings(&["rev-parse", "--is-inside-work-tree"]));
    assert_eq!(
        tracked_args("a"),
        strings(&["--literal-pathspecs", "ls-files", "--error-unmatch", "--", "a"])
    );
    assert_eq!(status_args(), strings(&["status", "--porcelain=v1", "--branch"]));
    assert_eq!(diff_args("f", true), strings(&["diff", "--cached", "--", "f"]));
    assert_eq!(diff_args("f", false), strings(&["diff", "--", "f"]));
    assert_eq!(git_stage("f"), strings(&["add", "--", "f"]));
    assert_eq!(git_unstage("f"), strings(&["reset", "-q", "HEAD", "--", "f"]));
    assert_eq!(git_stage_all(), strings(&["add", "-A"]));
    assert_eq!(git_commit(" msg \n").unwrap(), strings(&["commit", "-m", "msg"]));
    assert_eq!(git_commit(" \n").unwrap_err(), "empty commit message");
    match git_discard("/p", "a", true) {
        Discard::Remove(path) => assert_eq!(path, "/p/a"),
        other => panic!("{other:?}"),
    }
    match git_discard("/p", "a", false) {
        Discard::Git(args) => assert_eq!(args, strings(&["checkout", "--", "a"])),
        other => panic!("{other:?}"),
    }
    assert_eq!(git_outcome(true, &b"ok\n".to_vec(), &b"noise".to_vec()), Ok("ok\n".to_string()));
    assert_eq!(git_outcome(false, &b"".to_vec(), &b" fatal: x\n".to_vec()), Err("fatal: x".to_string()));
    assert_eq!(git_not_run("e"), "failed to run git: e");
}

#[test]
fn diffs() {
    assert_eq!(git_diff("f", true, true, "", Some("x")), "");
    assert_eq!(git_diff("f", false, true, "@@ real", Some("x")), "@@ real");
    assert_eq!(
        git_diff("f", false, true, " \n", Some("a\nb")),
        "--- /dev/null\n+++ b/f\n+a\n+b\n"
    );
    assert_eq!(git_diff("f", false, true, "", None), "");
    // A tracked file without changes has an empty diff.
    assert_eq!(git_diff("f", false, false, "", Some("a\nb")), "");
    assert!(diff_suffices(true, ""));
    assert!(!diff_suffices(false, "\n"));
}

fn provider(name: &str, kind: ProviderKind, model: &str) -> ProviderConfig {
    ProviderConfig { name: name.into(), kind, base_url: None, model: model.into(), api_key: None }
}

fn config() -> Config {
    Config {
        default_model: Some("b".into()),
        providers: vec![
            provider("a", ProviderKind::Anthropic, "m-a"),
            provider("b", ProviderKind::Openai, "m-b"),
        ],
        mcp: vec![],
        permission: PermissionConfig { allow: vec![] },
    }
}

#[test]
fn model_listing() {
    let p = models(&config(), None, None);
    assert_eq!(
        p.lines,
        strings(&["  a              anthropic  m-a", "* b              openai     m-b"])
    );
    assert!(p.failure.is_none());
    let p = models(&config(), Some("a"), None);
    assert!(p.lines[0].starts_with("* a "));
    let p = models(&config(), Some("zz"), None);
    assert!(p.lines[0].starts_with("  a ") && p.lines[1].starts_with("  b "));
    let empty = Config::default();
    assert_eq!(
        models(&empty, None, Some("/c")).lines,
        strings(&["No providers configured.", "Add one to /c/ade/config.toml"])
    );
    let p = models(&empty, None, None);
    assert_eq!(p.lines, strings(&["No providers configured."]));
    assert_eq!(p.failure, Some(Error::Config("cannot locate user config dir".into())));
}

#[test]
fn other_listings() {
    assert_eq!(
        config_paths("/p", Some("/c")).unwrap(),
        strings(&["global:  /c/ade/config.toml", "project: /p/.ade/config.toml"])
    );
    assert!(config_paths("/p", None).is_err());
    assert_eq!(mcp_list(&config(), &ToolRegistry::new()), strings(&["No MCP servers configured."]));
    let mut cfg = config();
    cfg.mcp.push(McpConfig {
        name: "fs".into(),
        transport: McpTransport::Stdio,
        command: None,
        args: vec![],
        env: vec![],
        url: None,
    });
    let mut reg = ToolRegistry::new();
    reg.register(ade_core::tools::Tool::Search);
    assert_eq!(mcp_list(&cfg, &reg), strings(&["fs (Stdio)", "\ntools:", "  search"]));
    let none = SkillRegistry::discover(&vec![], &vec![]);
    assert_eq!(skills_list(&none)[0], "No skills found.");
    let some = SkillRegistry::discover(
        &vec![SkillFolder {
            dir: "/g".into(),
            name: "x".into(),
            text: Some("---\nname: x\ndescription: does x\n---\n".into()),
        }],
        &vec![],
    );
    assert_eq!(skills_list(&some), strings(&["x                    does x"]));
    assert_eq!(
        system_prompt("/p", &none),
        "You are an agent running inside ADE in the project at /p. Use the provided tools to read, edit, and run code. Be concise and act directly."
    );
    assert!(ade_core::gui::system_prompt("/p", &some)
        .ends_with("Be concise.\n\nAvailable skills (call use_skill with the name to load full instructions):\n- x: does x\n"));
}

#[test]
fn prompts() {
    assert_eq!(run_prompt(&strings(&["add", "a", "flag"])).unwrap(), "add a flag");
    assert_eq!(run_prompt(&strings(&[" ", ""])).unwrap_err(), "run: empty prompt");
    assert_eq!(run_prompt(&vec![]).unwrap_err(), "run: empty prompt");
}

fn chat() -> Chat {
    let mut session = Session::new();
    session.push(Message::user("hi"));
    Chat { model: None, provider: build_provider(&config(), None, &KeySources::of_vars(vec![])).unwrap(), session }
}

#[test]
fn chat_lines() {
    assert!(matches!(chat_input(None), ChatInput::End));
    assert!(matches!(chat_input(Some(" \n")), ChatInput::Blank));
    match chat_input(Some(" /model x\n")) {
        ChatInput::Slash { cmd, line } => {
            assert_eq!(cmd, "model x");
            assert_eq!(line, "/model x");
        }
        other => panic!("{other:?}"),
    }
    match chat_input(Some("hello there\n")) {
        ChatInput::Prompt(p) => assert_eq!(p, "hello there"),
        other => panic!("{other:?}"),
    }
}

fn handled(r: SlashResult) -> (Vec<String>, Vec<String>) {
    match r {
        SlashResult::Handled { out, err } => (out, err),
        other => panic!("{other:?}"),
    }
}

#[test]
fn slash_commands() {
    let cfg = config();
    let reg = ToolRegistry::with_builtins();
    let vars = KeySources::of_vars(vec![]);
    let mut c = chat();
    assert_eq!(c.provider.name(), "b");
    for quit in ["quit", "q", "exit now"] {
        assert!(matches!(c.handle_slash(quit, &cfg, &reg, &vars, None), SlashResult::Quit));
    }
    assert!(matches!(c.handle_slash("save", &cfg, &reg, &vars, None), SlashResult::Save));
    assert!(matches!(c.handle_slash("", &cfg, &reg, &vars, None), SlashResult::NotACommand));
    assert!(matches!(c.handle_slash("Model a", &cfg, &reg, &vars, None), SlashResult::NotACommand));
    assert_eq!(handled(c.handle_slash("help", &cfg, &reg, &vars, None)).0.len(), 6);
    assert_eq!(handled(c.handle_slash("tools", &cfg, &reg, &vars, None)).0, list_tools(&reg));
    let (out, err) = handled(c.handle_slash(" model  a ", &cfg, &reg, &vars, None));
    assert_eq!((out, err), (strings(&["switched to a"]), vec![]));
    assert_eq!(c.model.as_deref(), Some("a"));
    assert_eq!(c.provider.name(), "a");
    assert_eq!(c.session.messages.len(), 1);
    assert!(handled(c.handle_slash("models", &cfg, &reg, &vars, None)).0[0].starts_with("* a"));
    let (out, err) = handled(c.handle_slash("model zz", &cfg, &reg, &vars, None));
    assert_eq!((out, err), (vec![], strings(&["unknown model 'zz'"])));
    assert_eq!(c.provider.name(), "a");
    let (_, err) = handled(c.handle_slash("model", &cfg, &reg, &vars, None));
    assert_eq!(err, strings(&["usage: /model <name>"]));
    let (out, _) = handled(c.handle_slash("clear", &cfg, &reg, &vars, None));
    assert_eq!(out, strings(&["(history cleared)"]));
    assert!(c.session.messages.is_empty());
    assert_eq!(banner(&c.provider, &reg), "ADE chat — model: a, 6 tools. /help for commands.");
    assert_eq!(save_path("/p", 1700000000), "/p/.ade/sessions/1700000000.jsonl");
}

#[test]
fn shown_activity() {
    assert_eq!(tool_call_line("f", "s"), "  ▸ f: s");
    assert_eq!(denied_line("f"), "    ✗ f denied");
    assert_eq!(tool_result_line("a\nb\nc", true, false), "    ✓ a (+2 lines)");
    assert_eq!(tool_result_line("a\n", false, false), "    ✗ a");
    assert_eq!(tool_result_line("", true, false), "    ✓ ");
    assert_eq!(tool_result_line("a\nb", true, true), "    a\n    b");
}

#[test]
fn registry_is_assembled() {
    let skills = SkillRegistry::discover(
        &vec![SkillFolder { dir: "/g".into(), name: "x".into(), text: Some("b".into()) }],
        &vec![],
    );
    let (reg, host) = build_registry(
        &vec![Spawned {
            server: "a".into(),
            tools: Err(Error::Provider("mcp 'a': missing command".into())),
        }],
        &skills,
    );
    assert_eq!(reg.len(), 7);
    assert_eq!(host.count(), 0);
    assert_eq!(host.warned(), &strings(&["warning: mcp 'a': missing command"]));
}

#[test]
fn window_listings() {
    let infos = list_models(&config());
    assert_eq!(infos.len(), 2);
    assert_eq!((infos[0].kind.as_str(), infos[0].default), ("anthropic", false));
    assert_eq!((infos[1].model.as_str(), infos[1].default), ("m-b", true));
    let e = |name: &str, dir: bool| TreeEntry { name: name.into(), dir };
    let tree = list_tree(&vec![
        e("b.rs", false),
        e(".hidden", false),
        e("zoo", true),
        e("target", true),
        e("a.rs", false),
        e("app", true),
        e("node_modules", true),
        e("node_modules", false),
    ]);
    let names: Vec<&str> = tree.iter().map(|t| t.name.as_str()).collect();
    assert_eq!(names, vec!["app", "zoo", "a.rs", "b.rs", "node_modules"]);
    assert_eq!(tree_dir("/p", "", false), Ok("/p/.".to_string()));
    assert_eq!(tree_dir("/p", "a", false), Ok("/p/a".to_string()));
    assert_eq!(tree_dir("/p", "..", false), Err("path escapes project root: ..".to_string()));
    assert_eq!(file_path("/p", "/x", false), Err("absolute paths not allowed: /x".to_string()));
}

#[test]
fn window_events() {
    assert_eq!(tool_call_event("f", "s").render(), r#"{"name":"f","summary":"s"}"#);
    assert_eq!(tool_result_event("f", "r", true).render(), r#"{"name":"f","ok":true,"result":"r"}"#);
    assert_eq!(denied_event("f").render(), r#"{"name":"f","ok":false,"result":"denied"}"#);
    assert_eq!(permission_event(3, "t", "s").render(), r#"{"id":3,"summary":"s","tool":"t"}"#);
    assert_eq!(output_event(1, &b"a\xff".to_vec()).render(), "{\"data\":\"a\u{fffd}\",\"id\":1}");
    assert_eq!(exit_event(2).render(), r#"{"id":2}"#);
}

#[test]
fn terminals_have_ids() {
    let mut t = Terminals::new();
    let a = t.term_open();
    let b = t.term_open();
    assert_eq!((a, b), (1, 2));
    assert!(t.is_open(a) && t.is_open(b));
    t.term_close(a);
    assert!(!t.is_open(a) && t.is_open(b));
    assert_eq!(t.term_open(), 3);
    assert_eq!(t.last(), 3);
    assert_eq!(default_shell(true, Some("/bin/zsh")), "cmd.exe");
    assert_eq!(default_shell(false, Some("/bin/zsh")), "/bin/zsh");
    assert_eq!(default_shell(false, None), "/bin/bash");
}
