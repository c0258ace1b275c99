//! What the command line shows, and what its commands do.
use vstd::prelude::*;

use crate::cli::{
    active_name, banner_of, call_shown, config_paths_of, denial_shown, mcp_list_of, models_of,
    prompt_for, prompt_of, provider_for, save_path_of, session_tools, skills_list_of, slash_of,
    spaced, system_prompt_of, tool_lines, tool_result_of, typed, ChatInputModel, ChatModel,
    SlashModel, SlashResultModel,
};
use crate::config::{ConfigModel, McpConfigModel, McpTransport, ProviderKind};
use crate::error::ErrorModel;
use crate::keystore::KeySourcesModel;
use crate::paths::joined;
use crate::provider::{built, ProviderModel};
use crate::skills::SkillModel;
use crate::text::{decimal_of, lines_of, occurs_at, padded_of, trim_of};
use crate::tools::ToolModel;

verus! {

/// Every configured model has its line, in order: a star before the one that is used, a
/// blank before any other, then its name, its protocol and the model it stands for.
pub proof fn law_models_are_listed(
    cfg: ConfigModel,
    requested: Option<Seq<char>>,
    config_dir: Option<Seq<char>>,
    i: int,
)
    requires
        0 <= i < cfg.providers.len(),
    ensures
        ({
            let r = models_of(cfg, requested, config_dir);
            let p = cfg.providers[i];
            let used = cfg.selected(requested) matches Ok(q) && q.name == p.name;
            let kind = match p.kind {
                ProviderKind::Openai => "openai"@,
                ProviderKind::Anthropic => "anthropic"@,
                ProviderKind::Gemini => "gemini"@,
            };
            let row = padded_of(p.name, 14) + " "@ + padded_of(kind, 10) + " "@ + p.model;
            &&& r.failure is None
            &&& r.lines.len() == cfg.providers.len()
            &&& used ==> r.lines[i] == "*"@ + " "@ + row
            &&& !used ==> r.lines[i] == " "@ + " "@ + row
        }),
{
    let r = models_of(cfg, requested, config_dir);
    let p = cfg.providers[i];
    let row = padded_of(p.name, 14) + " "@ + padded_of(p.kind.label(), 10) + " "@ + p.model;
    assert(r.lines[i] =~= (if active_name(cfg, requested) == Some(p.name) {
        "*"@
    } else {
        " "@
    }) + " "@ + row);
}

/// Where nothing is configured, the list says so, and where to change that.
pub proof fn law_no_models(cfg: ConfigModel, requested: Option<Seq<char>>, dir: Seq<char>)
    requires
        cfg.providers.len() == 0,
    ensures
        models_of(cfg, requested, Some(dir)).failure is None,
        models_of(cfg, requested, Some(dir)).lines == seq![
            "No providers configured."@,
            "Add one to "@ + joined(joined(dir, "ade"@), "config.toml"@),
        ],
        models_of(cfg, requested, None).failure == Some(
            ErrorModel::Config("cannot locate user config dir"@),
        ),
        models_of(cfg, requested, None).lines == seq!["No providers configured."@],
{
}

/// Both configuration files are shown with their paths.
pub proof fn law_config_paths(cwd: Seq<char>, dir: Seq<char>)
    ensures
        config_paths_of(cwd, Some(dir)) == Ok::<Seq<Seq<char>>, ErrorModel>(
            seq![
                "global:  "@ + joined(joined(dir, "ade"@), "config.toml"@),
                "project: "@ + joined(joined(cwd, ".ade"@), "config.toml"@),
            ],
        ),
        config_paths_of(cwd, None) == Err::<Seq<Seq<char>>, ErrorModel>(
            ErrorModel::Config("cannot locate user config dir"@),
        ),
{
}

/// Every tool has its line, in order, with its name.
pub proof fn law_tools_are_listed(tools: Seq<ToolModel>, i: int)
    ensures
        tool_lines(tools).len() == tools.len(),
        0 <= i < tools.len() ==> tool_lines(tools)[i] == "  "@ + tools[i].spec().name,
{
}

/// Every server has its line, in order, with its transport; behind them stand the tools.
pub proof fn law_servers_are_listed(servers: Seq<McpConfigModel>, tools: Seq<ToolModel>, i: int)
    requires
        0 <= i < servers.len(),
    ensures
        ({
            let r = mcp_list_of(servers, tools);
            let n = servers.len() as int;
            &&& r.len() == n + 1 + tools.len()
            &&& r[i] == servers[i].name + " ("@ + (match servers[i].transport {
                McpTransport::Stdio => "Stdio"@,
                McpTransport::Sse => "Sse"@,
            }) + ")"@
            &&& r[n] == "\ntools:"@
            &&& r.skip(n + 1) == tool_lines(tools)
        }),
        mcp_list_of(Seq::empty(), tools) == seq!["No MCP servers configured."@],
{
    let r = mcp_list_of(servers, tools);
    assert(r.skip(servers.len() as int + 1) =~= tool_lines(tools));
}

/// Every skill has its line, in order, with its name and its description.
pub proof fn law_skills_are_listed(skills: Seq<SkillModel>, i: int)
    requires
        0 <= i < skills.len(),
    ensures
        skills_list_of(skills).len() == skills.len(),
        skills_list_of(skills)[i] == padded_of(skills[i].name, 20) + " "@ + skills[i].description,
        skills_list_of(Seq::empty()).len() == 2,
        skills_list_of(Seq::empty())[0] == "No skills found."@,
{
}

/// A task is its words with one blank between them, and is refused exactly if it is blank.
pub proof fn law_task(words: Seq<Seq<char>>, word: Seq<char>)
    ensures
        spaced(Seq::empty()).len() == 0,
        spaced(seq![word]) == word,
        words.len() > 0 ==> spaced(words.push(word)) == spaced(words) + " "@ + word,
        prompt_of(words) is Ok <==> trim_of(spaced(words)).len() > 0,
        prompt_of(words) matches Ok(task) ==> task == spaced(words),
        prompt_of(words) matches Err(e) ==> e == "run: empty prompt"@,
{
    assert(words.push(word).drop_last() =~= words);
}

/// The agent is told where it is, how to behave and, where there are any, its skills.
pub proof fn law_agent_is_told(cwd: Seq<char>, manner: Seq<char>, skills: Seq<char>)
    ensures
        system_prompt_of(cwd, manner, None)
            == "You are an agent running inside ADE in the project at "@ + cwd
            + ". Use the provided tools to read, edit, and run code. "@ + manner,
        system_prompt_of(cwd, manner, Some(skills)) == system_prompt_of(cwd, manner, None)
            + "\n\n"@ + skills,
{
}

/// The provider for a name is the one that is configured under it, or the error that keeps
/// it from being selected or built.
pub proof fn law_provider_for_a_name(
    cfg: ConfigModel,
    model: Option<Seq<char>>,
    keys: KeySourcesModel,
)
    ensures
        cfg.selected(model) matches Ok(p) ==> provider_for(cfg, model, keys) == built(p, keys),
        cfg.selected(model) matches Err(e) ==> provider_for(cfg, model, keys) == Err::<
            ProviderModel,
            ErrorModel,
        >(e),
{
}

/// The banner names the model and counts the tools.
pub proof fn law_banner(model: Seq<char>, tools: nat)
    ensures
        banner_of(model, tools) == "ADE chat — model: "@ + model + ", "@ + decimal_of(tools)
            + " tools. /help for commands."@,
{
}

/// The white space around a line does not matter. A line that starts with a slash is a
/// command, a blank line is nothing, and any other is for the agent, whole.
pub proof fn law_line_is_typed(line: Seq<char>, cmd: Seq<char>)
    ensures
        typed(None) is End,
        trim_of(line).len() == 0 ==> typed(Some(line)) is Blank,
        trim_of(line).len() > 0 && trim_of(line)[0] != '/' ==> typed(Some(line))
            == ChatInputModel::Prompt(trim_of(line)),
        trim_of(line) == "/"@ + cmd ==> typed(Some(line)) == (ChatInputModel::Slash {
            cmd,
            line: "/"@ + cmd,
        }),
{
    reveal_strlit("/");
    let t = trim_of(line);
    if t == "/"@ + cmd {
        assert(t.subrange(0, 1) =~= "/"@);
        assert(occurs_at(t, "/"@, 0));
        assert(t.skip(1) =~= cmd);
    }
    if t.len() > 0 && t[0] != '/' {
        if occurs_at(t, "/"@, 0) {
            assert(t.subrange(0, 1)[0] == '/');
        }
    }
}

proof fn lemma_commands()
    ensures
        "quit"@.len() == 4 && "quit"@[0] == 'q',
        "q"@.len() == 1,
        "exit"@.len() == 4 && "exit"@[0] == 'e',
        "help"@.len() == 4 && "help"@[0] == 'h',
        "models"@.len() == 6,
        "tools"@.len() == 5 && "tools"@[0] == 't',
        "clear"@.len() == 5 && "clear"@[0] == 'c',
        "save"@.len() == 4 && "save"@[0] == 's',
        "model"@.len() == 5 && "model"@[0] == 'm',
{
    reveal_strlit("quit");
    reveal_strlit("q");
    reveal_strlit("exit");
    reveal_strlit("help");
    reveal_strlit("models");
    reveal_strlit("tools");
    reveal_strlit("clear");
    reveal_strlit("save");
    reveal_strlit("model");
}

/// A command goes by its first word; the second word of `/model` names the model, and what
/// follows does not matter.
pub proof fn law_commands(words: Seq<Seq<char>>)
    requires
        words.len() > 0,
    ensures
        slash_of(words) is Quit <==> words[0] == "quit"@ || words[0] == "q"@ || words[0] == "exit"@,
        slash_of(words) is Help <==> words[0] == "help"@,
        slash_of(words) is Models <==> words[0] == "models"@,
        slash_of(words) is Tools <==> words[0] == "tools"@,
        slash_of(words) is Clear <==> words[0] == "clear"@,
        slash_of(words) is Save <==> words[0] == "save"@,
        slash_of(words) is Model <==> words[0] == "model"@,
        words[0] == "model"@ && words.len() > 1 ==> slash_of(words) == SlashModel::Model(
            Some(words[1]),
        ),
        words[0] == "model"@ && words.len() == 1 ==> slash_of(words) == SlashModel::Model(None),
        slash_of(Seq::empty()) is NotACommand,
{
    lemma_commands();
}

/// A switch takes the model that is named, with its provider; one that fails says why.
pub proof fn law_switch(
    chat: ChatModel,
    name: Seq<char>,
    cfg: ConfigModel,
    tools: Seq<ToolModel>,
    keys: KeySourcesModel,
    config_dir: Option<Seq<char>>,
)
    ensures
        ({
            let (after, said) = chat.after(
                SlashModel::Model(Some(name)),
                cfg,
                tools,
                keys,
                config_dir,
            );
            match provider_for(cfg, Some(name), keys) {
                Ok(p) => after.provider == p && after.model == Some(name) && after.history
                    == chat.history && said == (SlashResultModel::Handled {
                    out: seq!["switched to "@ + name],
                    err: Seq::empty(),
                }),
                Err(e) => after == chat && said == (SlashResultModel::Handled {
                    out: Seq::empty(),
                    err: seq![e.message()],
                }),
            }
        }),
        chat.after(SlashModel::Model(None), cfg, tools, keys, config_dir) == (
            chat,
            SlashResultModel::Handled { out: Seq::empty(), err: seq!["usage: /model <name>"@] },
        ),
{
}

/// Listing, helping, saving and quitting change nothing, and show what they are about.
pub proof fn law_other_commands(
    chat: ChatModel,
    cfg: ConfigModel,
    tools: Seq<ToolModel>,
    keys: KeySourcesModel,
    config_dir: Option<Seq<char>>,
)
    ensures
        chat.after(SlashModel::Quit, cfg, tools, keys, config_dir) == (
            chat,
            SlashResultModel::Quit,
        ),
        chat.after(SlashModel::Save, cfg, tools, keys, config_dir) == (
            chat,
            SlashResultModel::Save,
        ),
        chat.after(SlashModel::NotACommand, cfg, tools, keys, config_dir) == (
            chat,
            SlashResultModel::NotACommand,
        ),
        chat.after(SlashModel::Help, cfg, tools, keys, config_dir).0 == chat,
        chat.after(SlashModel::Tools, cfg, tools, keys, config_dir) == (
            chat,
            SlashResultModel::Handled { out: tool_lines(tools), err: Seq::empty() },
        ),
        chat.after(SlashModel::Models, cfg, tools, keys, config_dir) == (
            chat,
            SlashResultModel::Handled {
                out: models_of(cfg, chat.model, config_dir).lines,
                err: Seq::empty(),
            },
        ),
        ({
            let after = chat.after(SlashModel::Clear, cfg, tools, keys, config_dir).0;
            after.history.len() == 0 && after.model == chat.model && after.provider
                == chat.provider
        }),
{
}

/// A session is saved under the time, in the project's directory of sessions.
pub proof fn law_save_path(cwd: Seq<char>, seconds: u64)
    ensures
        save_path_of(cwd, seconds) == joined(
            joined(joined(cwd, ".ade"@), "sessions"@),
            decimal_of(seconds as nat) + ".jsonl"@,
        ),
{
}

/// A call is shown with its name and with what it is about to do, a denied one as denied.
pub proof fn law_calls_are_shown(name: Seq<char>, summary: Seq<char>)
    ensures
        call_shown(name, summary) == "  ▸ "@ + name + ": "@ + summary,
        denial_shown(name) == "    ✗ "@ + name + " denied"@,
{
}

/// A result of one line is shown whole, and marked as good or bad.
pub proof fn law_short_result(line: Seq<char>, ok: bool)
    requires
        line.len() > 0,
        forall|i: int| 0 <= i < line.len() ==> line[i] != '\n',
    ensures
        ok ==> tool_result_of(line, ok, false) == "    ✓ "@ + line,
        !ok ==> tool_result_of(line, ok, false) == "    ✗ "@ + line,
{
    crate::laws::text::law_last_line(line);
    lemma_marks();
    reveal_strlit("");
    assert(lines_of(line)[0] == line);
    let shown = tool_result_of(line, ok, false);
    assert(""@ =~= Seq::<char>::empty());
    if ok {
        assert(shown =~= "    "@ + "✓"@ + " "@ + line);
    } else {
        assert(shown =~= "    "@ + "✗"@ + " "@ + line);
    }
}

proof fn lemma_marks()
    ensures
        "    ✓ "@ == "    "@ + "✓"@ + " "@,
        "    ✗ "@ == "    "@ + "✗"@ + " "@,
{
    reveal_strlit("    ✓ ");
    reveal_strlit("    ✗ ");
    reveal_strlit("    ");
    reveal_strlit("✓");
    reveal_strlit("✗");
    reveal_strlit(" ");
    assert("    ✓ "@ =~= "    "@ + "✓"@ + " "@);
    assert("    ✗ "@ =~= "    "@ + "✗"@ + " "@);
}

/// Of a longer result the first line is shown, and how many more there are.
pub proof fn law_long_result(result: Seq<char>, ok: bool)
    requires
        lines_of(result).len() > 1,
    ensures
        tool_result_of(result, ok, false) == (if ok {
            "    ✓ "@
        } else {
            "    ✗ "@
        }) + lines_of(result)[0] + (" (+"@ + decimal_of((lines_of(result).len() - 1) as nat)
            + " lines)"@),
{
    lemma_marks();
}

/// In full, a result is shown behind an indent, with every line of it indented.
pub proof fn law_full_result(line: Seq<char>, rest: Seq<char>, ok: bool)
    requires
        forall|i: int| 0 <= i < line.len() ==> line[i] != '\n',
    ensures
        tool_result_of(line, ok, true) == "    "@ + line,
        tool_result_of(line.push('\n') + rest, ok, true) == "    "@ + line + "\n"@
            + tool_result_of(rest, ok, true),
{
    lemma_indented(line, rest);
    let none = Seq::<char>::empty();
    lemma_untouched(line);
    reveal_strlit("\n    ");
    reveal_strlit("\n");
    reveal_strlit("    ");
    let a = crate::text::replaced_of(rest, '\n', "\n    "@);
    assert("    "@ + (line + "\n    "@ + a) =~= "    "@ + line + "\n"@ + ("    "@ + a));
}

proof fn lemma_untouched(line: Seq<char>)
    requires
        forall|i: int| 0 <= i < line.len() ==> line[i] != '\n',
    ensures
        crate::text::replaced_of(line, '\n', "\n    "@) == line,
    decreases line.len(),
{
    if line.len() > 0 {
        lemma_untouched(line.drop_last());
        assert(line.drop_last() + seq![line.last()] =~= line);
    }
}

proof fn lemma_indented(line: Seq<char>, rest: Seq<char>)
    requires
        forall|i: int| 0 <= i < line.len() ==> line[i] != '\n',
    ensures
        crate::text::replaced_of(line.push('\n') + rest, '\n', "\n    "@) == line + "\n    "@
            + crate::text::replaced_of(rest, '\n', "\n    "@),
    decreases rest.len(),
{
    let with = "\n    "@;
    let s = line.push('\n') + rest;
    if rest.len() == 0 {
        lemma_untouched(line);
        assert(s =~= line.push('\n'));
        assert(s.drop_last() =~= line);
        assert(crate::text::replaced_of(rest, '\n', with) =~= Seq::empty());
        assert(line + with + Seq::<char>::empty() =~= line + with);
    } else {
        let front = rest.drop_last();
        lemma_indented(line, front);
        assert(s.drop_last() =~= line.push('\n') + front);
        assert(s.last() == rest.last());
        let a = crate::text::replaced_of(front, '\n', with);
        let b = if rest.last() == '\n' {
            with
        } else {
            seq![rest.last()]
        };
        assert(line + with + a + b =~= line + with + (a + b));
    }
}

/// The agent is told of its skills exactly if it has any.
pub proof fn law_prompt_names_the_skills(
    cwd: Seq<char>,
    manner: Seq<char>,
    skills: Seq<SkillModel>,
)
    ensures
        skills.len() == 0 ==> prompt_for(cwd, manner, skills) == system_prompt_of(
            cwd,
            manner,
            None,
        ),
        skills.len() > 0 ==> prompt_for(cwd, manner, skills) == system_prompt_of(cwd, manner, None)
            + "\n\n"@ + crate::skills::advertisement(skills),
{
}

/// The tools of a session are the built-in ones and those of the servers, and the one that
/// loads skills exactly if there are skills.
pub proof fn law_session_tools(
    spawned: Seq<crate::mcp::host::SpawnedModel>,
    skills: Seq<SkillModel>,
)
    ensures
        skills.len() == 0 ==> session_tools(spawned, skills) == crate::mcp::host::started(
            crate::tools::builtins(),
            spawned,
        ).tools,
        skills.len() > 0 ==> session_tools(spawned, skills) == crate::tools::registered(
            crate::mcp::host::started(crate::tools::builtins(), spawned).tools,
            ToolModel::UseSkill(skills),
        ),
{
}

/// In one turn the model may reply as often as this.
pub proof fn law_turns_are_limited()
    ensures
        crate::cli::MAX_ITERS == 25,
{
}

} // verus!
