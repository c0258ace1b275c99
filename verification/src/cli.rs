//! What the command line says and does.
//!
//! Listings come back as lines to print, and a chat as a state with commands that
//! change it; reading, printing and talking to a provider are left to the program.
use vstd::prelude::*;

use crate::config::{
    global_path_in, project_path_in, Config, ConfigModel, McpConfigModel, McpTransport,
    ProviderConfigModel,
};
use crate::error::{outcome, Error, ErrorModel};
use crate::keystore::{KeySources, KeySourcesModel};
use crate::mcp::host::{
    are_namespaced, law_servers_shadow_nothing, started, McpHost, Spawned, SpawnedModel,
};
use crate::paths::{join, joined};
use crate::provider::types::MessageModel;
use crate::provider::{build, built, Provider, ProviderModel};
use crate::session::Session;
use crate::skills::{advertisement, SkillModel, SkillRegistry};
use crate::text::{
    after_prefix, cat2, cat3, cat4, cat5, decimal, decimal_of, lines, lines_of, opt_view, padded,
    padded_of, replaced, replaced_of, same, strip_prefix, trim, trim_of, views, words,
    words_of,
};
use crate::tools::builtin::{is_builtin, law_builtins_are_found, lemma_builtin_names};
use crate::tools::{
    builtins, in_order, law_register, registered, specs_of, tool_named, ToolModel, ToolRegistry,
};

verus! {

/// How often the model may reply in one turn.
pub const MAX_ITERS: usize = 25;

/// Lines to print, and the failure behind them, if any.
#[derive(Debug)]
pub struct Printed {
    pub lines: Vec<String>,
    pub failure: Option<Error>,
}

/// The model of [`Printed`].
#[verifier::ext_equal]
pub struct PrintedModel {
    pub lines: Seq<Seq<char>>,
    pub failure: Option<ErrorModel>,
}

impl View for Printed {
    type V = PrintedModel;

    open spec fn view(&self) -> PrintedModel {
        PrintedModel { lines: views(self.lines@), failure: opt_view(self.failure) }
    }
}

/// A line of the list of models: a star before the active one.
pub open spec fn model_line(p: ProviderConfigModel, active: Option<Seq<char>>) -> Seq<char> {
    let marker = if active == Some(p.name) {
        "*"@
    } else {
        " "@
    };
    marker + " "@ + padded_of(p.name, 14) + " "@ + padded_of(p.kind.label(), 10) + " "@ + p.model
}

/// The name of the model that is used without further ado.
pub open spec fn active_name(cfg: ConfigModel, requested: Option<Seq<char>>) -> Option<Seq<char>> {
    match cfg.selected(requested) {
        Ok(p) => Some(p.name),
        Err(_) => None,
    }
}

/// The list of models.
pub open spec fn models_of(
    cfg: ConfigModel,
    requested: Option<Seq<char>>,
    config_dir: Option<Seq<char>>,
) -> PrintedModel {
    if cfg.providers.len() == 0 {
        match global_path_in(config_dir) {
            Ok(path) => PrintedModel {
                lines: seq!["No providers configured."@, "Add one to "@ + path],
                failure: None,
            },
            Err(e) => PrintedModel {
                lines: seq!["No providers configured."@],
                failure: Some(e),
            },
        }
    } else {
        PrintedModel {
            lines: Seq::new(
                cfg.providers.len(),
                |i: int| model_line(cfg.providers[i], active_name(cfg, requested)),
            ),
            failure: None,
        }
    }
}

/// List configured providers/models.
pub fn models(cfg: &Config, requested: Option<&str>, config_dir: Option<&str>) -> (r: Printed)
    ensures
        r@ == models_of(cfg@, opt_view(requested), opt_view(config_dir)),
{
    let mut lines: Vec<String> = Vec::new();
    if cfg.providers.len() == 0 {
        lines.push("No providers configured.".to_owned());
        return match Config::global_path(config_dir) {
            Ok(path) => {
                lines.push(cat2("Add one to ", path.as_str()));
                let r = Printed { lines, failure: None };
                assert(r@.lines =~= seq!["No providers configured."@, "Add one to "@ + path@]);
                r
            },
            Err(e) => {
                let r = Printed { lines, failure: Some(e) };
                assert(r@.lines =~= seq!["No providers configured."@]);
                r
            },
        };
    }
    let active: Option<&str> = match cfg.select_provider(requested) {
        Ok(p) => Some(p.name.as_str()),
        Err(_) => None,
    };
    let mut i: usize = 0;
    while i < cfg.providers.len()
        invariant
            i <= cfg.providers@.len(),
            lines@.len() == i,
            forall|k: int|
                0 <= k < i ==> (#[trigger] lines@[k])@ == model_line(
                    cfg.providers@[k]@,
                    opt_view(active),
                ),
        decreases cfg.providers@.len() - i,
    {
        let p = &cfg.providers[i];
        let marker = match active {
            Some(name) => if same(name, p.name.as_str()) {
                "*"
            } else {
                " "
            },
            None => " ",
        };
        let mut line = marker.to_owned();
        line.append(" ");
        line.append(padded(p.name.as_str(), 14).as_str());
        line.append(" ");
        line.append(padded(p.kind.name(), 10).as_str());
        line.append(" ");
        line.append(p.model.as_str());
        lines.push(line);
        i += 1;
    }
    let r = Printed { lines, failure: None };
    assert(r@ =~= models_of(cfg@, opt_view(requested), opt_view(config_dir)));
    r
}

/// The lines that show where the config files are.
pub open spec fn config_paths_of(cwd: Seq<char>, config_dir: Option<Seq<char>>) -> Result<
    Seq<Seq<char>>,
    ErrorModel,
> {
    match global_path_in(config_dir) {
        Ok(path) => Ok(seq!["global:  "@ + path, "project: "@ + project_path_in(cwd)]),
        Err(e) => Err(e),
    }
}

/// The global and project config paths.
pub fn config_paths(cwd: &str, config_dir: Option<&str>) -> (r: Result<Vec<String>, Error>)
    ensures
        match r {
            Ok(v) => config_paths_of(cwd@, opt_view(config_dir)) is Ok && views(v@)
                == config_paths_of(cwd@, opt_view(config_dir))->Ok_0,
            Err(e) => config_paths_of(cwd@, opt_view(config_dir)) is Err && e@ == config_paths_of(
                cwd@,
                opt_view(config_dir),
            )->Err_0,
        },
{
    match Config::global_path(config_dir) {
        Ok(path) => {
            let mut out: Vec<String> = Vec::new();
            out.push(cat2("global:  ", path.as_str()));
            out.push(cat2("project: ", Config::project_path(cwd).as_str()));
            assert(views(out@) =~= seq![
                "global:  "@ + path@,
                "project: "@ + project_path_in(cwd@),
            ]);
            Ok(out)
        },
        Err(e) => Err(e),
    }
}

pub open spec fn transport_name(t: McpTransport) -> Seq<char> {
    match t {
        McpTransport::Stdio => "Stdio"@,
        McpTransport::Sse => "Sse"@,
    }
}

pub open spec fn server_line(s: McpConfigModel) -> Seq<char> {
    s.name + " ("@ + transport_name(s.transport) + ")"@
}

/// The lines that list tools.
pub open spec fn tool_lines(tools: Seq<ToolModel>) -> Seq<Seq<char>> {
    Seq::new(tools.len(), |i: int| "  "@ + tools[i].name())
}

/// List available tools.
pub fn list_tools(registry: &ToolRegistry) -> (r: Vec<String>)
    ensures
        views(r@) == tool_lines(registry@),
{
    let specs = registry.specs();
    let mut out: Vec<String> = Vec::new();
    let mut i: usize = 0;
    while i < specs.len()
        invariant
            i <= specs@.len(),
            views(specs@) == specs_of(registry@),
            out@.len() == i,
            forall|k: int| 0 <= k < i ==> (#[trigger] out@[k])@ == "  "@ + registry@[k].name(),
        decreases specs@.len() - i,
    {
        assert(views(specs@).len() == specs@.len());
        assert(views(specs@)[i as int] == specs@[i as int]@);
        assert(specs_of(registry@)[i as int] == registry@[i as int].spec());
        out.push(cat2("  ", specs[i].name.as_str()));
        i += 1;
    }
    assert(specs@.len() == views(specs@).len());
    assert(views(out@) =~= tool_lines(registry@));
    out
}

/// The list of MCP servers and of the tools that they gave.
pub open spec fn mcp_list_of(servers: Seq<McpConfigModel>, tools: Seq<ToolModel>) -> Seq<
    Seq<char>,
> {
    if servers.len() == 0 {
        seq!["No MCP servers configured."@]
    } else {
        Seq::new(servers.len(), |i: int| server_line(servers[i])) + seq!["\ntools:"@] + tool_lines(
            tools,
        )
    }
}

/// List configured servers and their discovered tools.
pub fn mcp_list(cfg: &Config, registry: &ToolRegistry) -> (r: Vec<String>)
    ensures
        views(r@) == mcp_list_of(cfg@.mcp, registry@),
{
    let mut out: Vec<String> = Vec::new();
    if cfg.mcp.len() == 0 {
        out.push("No MCP servers configured.".to_owned());
        assert(views(out@) =~= seq!["No MCP servers configured."@]);
        return out;
    }
    let mut i: usize = 0;
    while i < cfg.mcp.len()
        invariant
            i <= cfg.mcp@.len(),
            out@.len() == i,
            forall|k: int| 0 <= k < i ==> (#[trigger] out@[k])@ == server_line(cfg.mcp@[k]@),
        decreases cfg.mcp@.len() - i,
    {
        let s = &cfg.mcp[i];
        let kind = match s.transport {
            McpTransport::Stdio => "Stdio",
            McpTransport::Sse => "Sse",
        };
        out.push(cat4(s.name.as_str(), " (", kind, ")"));
        i += 1;
    }
    let ghost servers = views(out@);
    assert(servers =~= Seq::new(cfg@.mcp.len(), |i: int| server_line(cfg@.mcp[i])));
    out.push("\ntools:".to_owned());
    let mut tools = list_tools(registry);
    let ghost listed = views(tools@);
    out.append(&mut tools);
    assert(views(out@) =~= servers + seq!["\ntools:"@] + listed);
    out
}

pub open spec fn skill_line(s: SkillModel) -> Seq<char> {
    padded_of(s.name, 20) + " "@ + s.description
}

/// The list of skills.
pub open spec fn skills_list_of(skills: Seq<SkillModel>) -> Seq<Seq<char>> {
    if skills.len() == 0 {
        seq![
            "No skills found."@,
            "Add one at ~/.config/ade/skills/<name>/SKILL.md or ./.ade/skills/<name>/SKILL.md"@,
        ]
    } else {
        Seq::new(skills.len(), |i: int| skill_line(skills[i]))
    }
}

/// List skills found in the global and project folders.
pub fn skills_list(skills: &SkillRegistry) -> (r: Vec<String>)
    ensures
        views(r@) == skills_list_of(skills@),
{
    let mut out: Vec<String> = Vec::new();
    if skills.is_empty() {
        out.push("No skills found.".to_owned());
        out.push(
            "Add one at ~/.config/ade/skills/<name>/SKILL.md or ./.ade/skills/<name>/SKILL.md".to_owned(),
        );
        assert(views(out@) =~= skills_list_of(skills@));
        return out;
    }
    let list = skills.list();
    let mut i: usize = 0;
    while i < list.len()
        invariant
            views(list@) == skills@,
            i <= list@.len(),
            out@.len() == i,
            forall|k: int| 0 <= k < i ==> (#[trigger] out@[k])@ == skill_line(skills@[k]),
        decreases list@.len() - i,
    {
        assert(views(list@)[i as int] == list@[i as int]@);
        out.push(cat3(padded(list[i].name.as_str(), 20).as_str(), " ", list[i].description.as_str()));
        i += 1;
    }
    assert(list@.len() == views(list@).len());
    assert(views(out@) =~= skills_list_of(skills@));
    out
}

/// Words with blanks between them.
pub open spec fn spaced(words: Seq<Seq<char>>) -> Seq<char>
    decreases words.len(),
{
    if words.len() == 0 {
        Seq::empty()
    } else if words.len() == 1 {
        words[0]
    } else {
        spaced(words.drop_last()) + " "@ + words.last()
    }
}

/// The task of a one-shot run.
pub open spec fn prompt_of(words: Seq<Seq<char>>) -> Result<Seq<char>, Seq<char>> {
    if trim_of(spaced(words)).len() > 0 {
        Ok(spaced(words))
    } else {
        Err("run: empty prompt"@)
    }
}

/// The task of a one-shot run. A blank task is an error.
pub fn run_prompt(words: &Vec<String>) -> (r: Result<String, String>)
    ensures
        match r {
            Ok(task) => prompt_of(views(words@)) == Ok::<Seq<char>, Seq<char>>(task@),
            Err(e) => prompt_of(views(words@)) == Err::<Seq<char>, Seq<char>>(e@),
        },
{
    let ghost all = views(words@);
    let mut task = String::new();
    let mut i: usize = 0;
    assert(all.take(0) =~= Seq::empty());
    while i < words.len()
        invariant
            all == views(words@),
            i <= words@.len(),
            task@ == spaced(all.take(i as int)),
        decreases words@.len() - i,
    {
        assert(all.take(i + 1).drop_last() =~= all.take(i as int));
        assert(all.take(i + 1).last() == words@[i as int]@);
        if i > 0 {
            task.append(" ");
        }
        let ghost before = task@;
        task.append(words[i].as_str());
        assert(i == 0 ==> before + words@[i as int]@ =~= words@[i as int]@);
        i += 1;
    }
    assert(all.take(i as int) =~= all);
    if trim(task.as_str()).as_str().is_empty() {
        return Err("run: empty prompt".to_owned());
    }
    Ok(task)
}

/// The system prompt of an agent: where it runs, how it should behave, and the
/// skills it can use.
pub open spec fn system_prompt_of(
    cwd: Seq<char>,
    manner: Seq<char>,
    skills: Option<Seq<char>>,
) -> Seq<char> {
    let base = "You are an agent running inside ADE in the project at "@ + cwd
        + ". Use the provided tools to read, edit, and run code. "@ + manner;
    match skills {
        Some(text) => base + "\n\n"@ + text,
        None => base,
    }
}

/// The system prompt of an agent with the given skills: it is told of them where there are
/// any.
pub open spec fn prompt_for(cwd: Seq<char>, manner: Seq<char>, skills: Seq<SkillModel>) -> Seq<
    char,
> {
    system_prompt_of(
        cwd,
        manner,
        if skills.len() == 0 {
            None
        } else {
            Some(advertisement(skills))
        },
    )
}

/// The system prompt of an agent that should behave in the given manner.
pub fn prompt_with(cwd: &str, manner: &str, skills: &SkillRegistry) -> (r: String)
    ensures
        r@ == prompt_for(cwd@, manner@, skills@),
{
    let mut out = cat4(
        "You are an agent running inside ADE in the project at ",
        cwd,
        ". Use the provided tools to read, edit, and run code. ",
        manner,
    );
    if let Some(text) = skills.system_prompt() {
        out.append("\n\n");
        out.append(text.as_str());
    }
    out
}

/// The system prompt of an agent on the command line.
pub fn system_prompt(cwd: &str, skills: &SkillRegistry) -> (r: String)
    ensures
        r@ == prompt_for(cwd@, "Be concise and act directly."@, skills@),
{
    prompt_with(cwd, "Be concise and act directly.", skills)
}

/// The tools of a session: the built-in ones, those of the MCP servers, and the one
/// that loads skills.
pub open spec fn session_tools(
    spawned: Seq<SpawnedModel>,
    skills: Seq<SkillModel>,
) -> Seq<ToolModel> {
    let with_servers = started(builtins(), spawned).tools;
    if skills.len() == 0 {
        with_servers
    } else {
        registered(with_servers, ToolModel::UseSkill(skills))
    }
}

/// Assemble the tools of a session, from what came of connecting each MCP server.
/// Servers and skills are shared across every model used in the session.
pub fn build_registry(
    spawned: &Vec<Spawned>,
    skills: &SkillRegistry,
) -> (r: (ToolRegistry, McpHost))
    ensures
        r.0@ == session_tools(views(spawned@), skills@),
        in_order(r.0@),
        r.1.servers() == started(builtins(), views(spawned@)).servers,
        r.1.warnings() == started(builtins(), views(spawned@)).warnings,
{
    let mut registry = ToolRegistry::with_builtins();
    let host = McpHost::start(spawned, &mut registry);
    skills.register_tool(&mut registry);
    (registry, host)
}

/// A session has all of the built-in tools, and the one that loads skills where there
/// are skills, whatever the MCP servers advertise.
pub proof fn law_session_has_tools(
    spawned: Seq<SpawnedModel>,
    skills: Seq<SkillModel>,
    t: ToolModel,
)
    requires
        forall|i: int|
            0 <= i < spawned.len() ==> match (#[trigger] spawned[i]).tools {
                Ok(specs) => are_namespaced(specs),
                Err(_) => true,
            },
        is_builtin(t),
    ensures
        tool_named(session_tools(spawned, skills), t.name()) == Some(t),
        skills.len() > 0 ==> tool_named(session_tools(spawned, skills), "use_skill"@) == Some(
            ToolModel::UseSkill(skills),
        ),
{
    law_builtins_are_found(t);
    lemma_builtin_names(t, t);
    law_servers_shadow_nothing(builtins(), spawned, t.name());
    let with_servers = started(builtins(), spawned).tools;
    law_register(with_servers, ToolModel::UseSkill(skills), t.name());
    law_register(with_servers, ToolModel::UseSkill(skills), "use_skill"@);
}

/// The provider for a model name, or for the default.
pub open spec fn provider_for(
    cfg: ConfigModel,
    model: Option<Seq<char>>,
    keys: KeySourcesModel,
) -> Result<ProviderModel, ErrorModel> {
    match cfg.selected(model) {
        Ok(p) => built(p, keys),
        Err(e) => Err(e),
    }
}

/// Build the provider for a model name, or for the default.
pub fn build_provider(cfg: &Config, model: Option<&str>, keys: &KeySources) -> (r: Result<
    Provider,
    Error,
>)
    ensures
        outcome(r) == provider_for(cfg@, opt_view(model), keys@),
{
    match cfg.select_provider(model) {
        Ok(p) => build(p, keys),
        Err(e) => Err(e),
    }
}

/// The first line of a chat.
pub open spec fn banner_of(model: Seq<char>, tools: nat) -> Seq<char> {
    "ADE chat — model: "@ + model + ", "@ + decimal_of(tools) + " tools. /help for commands."@
}

/// The first line of a chat.
pub fn banner(provider: &Provider, registry: &ToolRegistry) -> (r: String)
    ensures
        r@ == banner_of(provider@.to.name, registry@.len()),
{
    let n: usize = registry.len();
    cat5(
        "ADE chat — model: ",
        provider.name(),
        ", ",
        decimal(n as u128).as_str(),
        " tools. /help for commands.",
    )
}

/// What was typed in a chat.
#[derive(Debug)]
pub enum ChatInput {
    /// The input is at its end.
    End,
    /// Nothing.
    Blank,
    /// A line that starts with a slash: what follows it, and the whole line.
    Slash { cmd: String, line: String },
    /// Something for the agent.
    Prompt(String),
}

/// The model of a [`ChatInput`].
#[verifier::ext_equal]
pub enum ChatInputModel {
    End,
    Blank,
    Slash { cmd: Seq<char>, line: Seq<char> },
    Prompt(Seq<char>),
}

impl View for ChatInput {
    type V = ChatInputModel;

    open spec fn view(&self) -> ChatInputModel {
        match *self {
            ChatInput::End => ChatInputModel::End,
            ChatInput::Blank => ChatInputModel::Blank,
            ChatInput::Slash { cmd, line } => ChatInputModel::Slash { cmd: cmd@, line: line@ },
            ChatInput::Prompt(line) => ChatInputModel::Prompt(line@),
        }
    }
}

pub open spec fn typed(line: Option<Seq<char>>) -> ChatInputModel {
    match line {
        None => ChatInputModel::End,
        Some(text) => {
            let line = trim_of(text);
            if line.len() == 0 {
                ChatInputModel::Blank
            } else {
                match after_prefix(line, "/"@) {
                    Some(cmd) => ChatInputModel::Slash { cmd, line },
                    None => ChatInputModel::Prompt(line),
                }
            }
        },
    }
}

/// What was typed in a chat.
pub fn chat_input(line: Option<&str>) -> (r: ChatInput)
    ensures
        r@ == typed(opt_view(line)),
{
    let text = match line {
        Some(text) => text,
        None => return ChatInput::End,
    };
    let line = trim(text);
    if line.as_str().is_empty() {
        return ChatInput::Blank;
    }
    match strip_prefix(line.as_str(), "/") {
        Some(cmd) => ChatInput::Slash { cmd, line },
        None => ChatInput::Prompt(line),
    }
}

/// A command of a chat.
#[derive(Debug)]
pub enum Slash {
    Quit,
    Help,
    Models,
    Tools,
    Clear,
    Save,
    /// Switch to the named model.
    Model(Option<String>),
    NotACommand,
}

/// The model of a [`Slash`].
#[verifier::ext_equal]
pub enum SlashModel {
    Quit,
    Help,
    Models,
    Tools,
    Clear,
    Save,
    Model(Option<Seq<char>>),
    NotACommand,
}

impl View for Slash {
    type V = SlashModel;

    open spec fn view(&self) -> SlashModel {
        match *self {
            Slash::Quit => SlashModel::Quit,
            Slash::Help => SlashModel::Help,
            Slash::Models => SlashModel::Models,
            Slash::Tools => SlashModel::Tools,
            Slash::Clear => SlashModel::Clear,
            Slash::Save => SlashModel::Save,
            Slash::Model(name) => SlashModel::Model(opt_view(name)),
            Slash::NotACommand => SlashModel::NotACommand,
        }
    }
}

/// The command that words make.
pub open spec fn slash_of(words: Seq<Seq<char>>) -> SlashModel {
    if words.len() == 0 {
        SlashModel::NotACommand
    } else {
        let w = words[0];
        if w == "quit"@ || w == "q"@ || w == "exit"@ {
            SlashModel::Quit
        } else if w == "help"@ {
            SlashModel::Help
        } else if w == "models"@ {
            SlashModel::Models
        } else if w == "tools"@ {
            SlashModel::Tools
        } else if w == "clear"@ {
            SlashModel::Clear
        } else if w == "save"@ {
            SlashModel::Save
        } else if w == "model"@ {
            SlashModel::Model(
                if words.len() > 1 {
                    Some(words[1])
                } else {
                    None
                },
            )
        } else {
            SlashModel::NotACommand
        }
    }
}

/// Read a command.
pub fn parse_slash(cmd: &str) -> (r: Slash)
    ensures
        r@ == slash_of(words_of(cmd@)),
{
    let parts = words(cmd);
    let ghost all = views(parts@);
    if parts.len() == 0 {
        return Slash::NotACommand;
    }
    assert(all[0] == parts@[0]@);
    let w = parts[0].as_str();
    if same(w, "quit") || same(w, "q") || same(w, "exit") {
        Slash::Quit
    } else if same(w, "help") {
        Slash::Help
    } else if same(w, "models") {
        Slash::Models
    } else if same(w, "tools") {
        Slash::Tools
    } else if same(w, "clear") {
        Slash::Clear
    } else if same(w, "save") {
        Slash::Save
    } else if same(w, "model") {
        if parts.len() > 1 {
            assert(all[1] == parts@[1]@);
            Slash::Model(Some(parts[1].clone()))
        } else {
            Slash::Model(None)
        }
    } else {
        Slash::NotACommand
    }
}

/// The help text of a chat.
pub open spec fn help_of() -> Seq<Seq<char>> {
    seq![
        "/model <name>  switch model (history kept)"@,
        "/models        list models"@,
        "/tools         list available tools"@,
        "/clear         clear conversation history"@,
        "/save          save session to .ade/sessions/"@,
        "/quit          exit"@,
    ]
}

fn help() -> (r: Vec<String>)
    ensures
        views(r@) == help_of(),
{
    let mut out: Vec<String> = Vec::new();
    out.push("/model <name>  switch model (history kept)".to_owned());
    out.push("/models        list models".to_owned());
    out.push("/tools         list available tools".to_owned());
    out.push("/clear         clear conversation history".to_owned());
    out.push("/save          save session to .ade/sessions/".to_owned());
    out.push("/quit          exit".to_owned());
    assert(views(out@) =~= help_of());
    out
}

fn one(line: String) -> (r: Vec<String>)
    ensures
        views(r@) == seq![line@],
{
    let mut out: Vec<String> = Vec::new();
    out.push(line);
    assert(views(out@) =~= seq![line@]);
    out
}

fn none() -> (r: Vec<String>)
    ensures
        views(r@) == Seq::<Seq<char>>::empty(),
{
    let out: Vec<String> = Vec::new();
    assert(views(out@) =~= Seq::empty());
    out
}

/// What came of a command.
#[derive(Debug)]
pub enum SlashResult {
    Quit,
    /// The session is to be saved.
    Save,
    /// Done: lines for the output, and lines for the error output.
    Handled { out: Vec<String>, err: Vec<String> },
    NotACommand,
}

/// The model of a [`SlashResult`].
#[verifier::ext_equal]
pub enum SlashResultModel {
    Quit,
    Save,
    Handled { out: Seq<Seq<char>>, err: Seq<Seq<char>> },
    NotACommand,
}

impl View for SlashResult {
    type V = SlashResultModel;

    open spec fn view(&self) -> SlashResultModel {
        match *self {
            SlashResult::Quit => SlashResultModel::Quit,
            SlashResult::Save => SlashResultModel::Save,
            SlashResult::Handled { out, err } => SlashResultModel::Handled {
                out: views(out@),
                err: views(err@),
            },
            SlashResult::NotACommand => SlashResultModel::NotACommand,
        }
    }
}

/// A chat: the model asked for, the provider that stands for it, and the
/// conversation.
pub struct Chat {
    pub model: Option<String>,
    pub provider: Provider,
    pub session: Session,
}

/// The model of a [`Chat`].
#[verifier::ext_equal]
pub struct ChatModel {
    pub model: Option<Seq<char>>,
    pub provider: ProviderModel,
    pub history: Seq<MessageModel>,
}

impl View for Chat {
    type V = ChatModel;

    open spec fn view(&self) -> ChatModel {
        ChatModel {
            model: opt_view(self.model),
            provider: self.provider@,
            history: self.session@,
        }
    }
}

impl ChatModel {
    /// The chat after a command, and what came of it.
    pub open spec fn after(
        self,
        slash: SlashModel,
        cfg: ConfigModel,
        tools: Seq<ToolModel>,
        keys: KeySourcesModel,
        config_dir: Option<Seq<char>>,
    ) -> (ChatModel, SlashResultModel) {
        match slash {
            SlashModel::Quit => (self, SlashResultModel::Quit),
            SlashModel::Help => (
                self,
                SlashResultModel::Handled { out: help_of(), err: Seq::empty() },
            ),
            SlashModel::Models => (
                self,
                SlashResultModel::Handled {
                    out: models_of(cfg, self.model, config_dir).lines,
                    err: Seq::empty(),
                },
            ),
            SlashModel::Tools => (
                self,
                SlashResultModel::Handled { out: tool_lines(tools), err: Seq::empty() },
            ),
            SlashModel::Clear => (
                ChatModel { history: Seq::empty(), ..self },
                SlashResultModel::Handled {
                    out: seq!["(history cleared)"@],
                    err: Seq::empty(),
                },
            ),
            SlashModel::Save => (self, SlashResultModel::Save),
            SlashModel::Model(Some(name)) => match provider_for(cfg, Some(name), keys) {
                Ok(provider) => (
                    ChatModel { model: Some(name), provider, ..self },
                    SlashResultModel::Handled {
                        out: seq!["switched to "@ + name],
                        err: Seq::empty(),
                    },
                ),
                Err(e) => (
                    self,
                    SlashResultModel::Handled { out: Seq::empty(), err: seq![e.message()] },
                ),
            },
            SlashModel::Model(None) => (
                self,
                SlashResultModel::Handled {
                    out: Seq::empty(),
                    err: seq!["usage: /model <name>"@],
                },
            ),
            SlashModel::NotACommand => (self, SlashResultModel::NotACommand),
        }
    }
}

impl Chat {
    /// Carry out a command.
    pub fn handle_slash(
        &mut self,
        cmd: &str,
        cfg: &Config,
        registry: &ToolRegistry,
        keys: &KeySources,
        config_dir: Option<&str>,
    ) -> (r: SlashResult)
        ensures
            (final(self)@, r@) == old(self)@.after(
                slash_of(words_of(cmd@)),
                cfg@,
                registry@,
                keys@,
                opt_view(config_dir),
            ),
    {
        match parse_slash(cmd) {
            Slash::Quit => SlashResult::Quit,
            Slash::Help => SlashResult::Handled { out: help(), err: none() },
            Slash::Models => {
                let requested: Option<&str> = match &self.model {
                    Some(name) => Some(name.as_str()),
                    None => None,
                };
                let printed = models(cfg, requested, config_dir);
                SlashResult::Handled { out: printed.lines, err: none() }
            },
            Slash::Tools => SlashResult::Handled { out: list_tools(registry), err: none() },
            Slash::Clear => {
                self.session = Session::new();
                SlashResult::Handled { out: one("(history cleared)".to_owned()), err: none() }
            },
            Slash::Save => SlashResult::Save,
            Slash::Model(Some(name)) => match build_provider(cfg, Some(name.as_str()), keys) {
                Ok(provider) => {
                    self.provider = provider;
                    let line = cat2("switched to ", name.as_str());
                    self.model = Some(name);
                    SlashResult::Handled { out: one(line), err: none() }
                },
                Err(e) => SlashResult::Handled { out: none(), err: one(e.message().to_owned()) },
            },
            Slash::Model(None) => SlashResult::Handled {
                out: none(),
                err: one("usage: /model <name>".to_owned()),
            },
            Slash::NotACommand => SlashResult::NotACommand,
        }
    }
}

/// Switching models keeps the history, and a switch that fails changes nothing.
pub proof fn law_switch_keeps_history(
    chat: ChatModel,
    name: Option<Seq<char>>,
    cfg: ConfigModel,
    tools: Seq<ToolModel>,
    keys: KeySourcesModel,
    config_dir: Option<Seq<char>>,
)
    ensures
        ({
            let after = chat.after(SlashModel::Model(name), cfg, tools, keys, config_dir).0;
            &&& after.history == chat.history
            &&& (name is None || provider_for(cfg, name, keys) is Err) ==> after == chat
        }),
{
}

/// Only `/clear` touches the history, and it leaves none.
pub proof fn law_only_clear_forgets(
    chat: ChatModel,
    slash: SlashModel,
    cfg: ConfigModel,
    tools: Seq<ToolModel>,
    keys: KeySourcesModel,
    config_dir: Option<Seq<char>>,
)
    ensures
        chat.after(slash, cfg, tools, keys, config_dir).0.history == (if slash is Clear {
            Seq::empty()
        } else {
            chat.history
        }),
{
}

/// The file that a session is saved to at a time in seconds.
pub open spec fn save_path_of(cwd: Seq<char>, seconds: u64) -> Seq<char> {
    joined(joined(joined(cwd, ".ade"@), "sessions"@), decimal_of(seconds as nat) + ".jsonl"@)
}

/// The file that a session is saved to at a time in seconds.
pub fn save_path(cwd: &str, seconds: u64) -> (r: String)
    ensures
        r@ == save_path_of(cwd@, seconds),
{
    join(Session::dir(cwd).as_str(), cat2(decimal(seconds as u128).as_str(), ".jsonl").as_str())
}

/// How a tool call is shown.
pub open spec fn call_shown(name: Seq<char>, summary: Seq<char>) -> Seq<char> {
    "  ▸ "@ + name + ": "@ + summary
}

/// How a denied call is shown.
pub open spec fn denial_shown(name: Seq<char>) -> Seq<char> {
    "    ✗ "@ + name + " denied"@
}

/// How a tool call is shown.
pub fn tool_call_line(name: &str, summary: &str) -> (r: String)
    ensures
        r@ == call_shown(name@, summary@),
{
    cat4("  ▸ ", name, ": ", summary)
}

/// How a denied call is shown.
pub fn denied_line(name: &str) -> (r: String)
    ensures
        r@ == denial_shown(name@),
{
    cat3("    ✗ ", name, " denied")
}

/// How a tool's result is shown: in full, indented, or its first line and how many
/// more there are.
pub open spec fn tool_result_of(result: Seq<char>, ok: bool, verbose: bool) -> Seq<char> {
    if verbose {
        "    "@ + replaced_of(result, '\n', "\n    "@)
    } else {
        let all = lines_of(result);
        let first = if all.len() > 0 {
            all[0]
        } else {
            ""@
        };
        let tail = if all.len() > 1 {
            " (+"@ + decimal_of((all.len() - 1) as nat) + " lines)"@
        } else {
            ""@
        };
        let mark = if ok {
            "✓"@
        } else {
            "✗"@
        };
        "    "@ + mark + " "@ + first + tail
    }
}

/// How a tool's result is shown.
pub fn tool_result_line(result: &str, ok: bool, verbose: bool) -> (r: String)
    ensures
        r@ == tool_result_of(result@, ok, verbose),
{
    if verbose {
        return cat2("    ", replaced(result, '\n', "\n    ").as_str());
    }
    let all = lines(result);
    let ghost split = views(all@);
    let first = if all.len() > 0 {
        assert(split[0] == all@[0]@);
        all[0].as_str()
    } else {
        ""
    };
    let tail = if all.len() > 1 {
        let more: usize = all.len() - 1;
        cat3(" (+", decimal(more as u128).as_str(), " lines)")
    } else {
        "".to_owned()
    };
    let mark = if ok {
        "✓"
    } else {
        "✗"
    };
    cat5("    ", mark, " ", first, tail.as_str())
}

} // verus!
