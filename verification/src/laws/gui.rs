//! What the window shows, and what it is sent.
use vstd::prelude::*;

use crate::config::{ConfigModel, ProviderKind};
use crate::gui::{
    call_payload, goes_before, is_hidden, model_infos, permission_payload, result_payload,
    shown_dir, shown_path, TreeEntryModel,
};
use crate::json::JsonModel;
use crate::terminal::{exit_payload, output_payload, shell_of, TerminalsModel};
use crate::text::precedes;
use crate::tools::safely_joined;

verus! {

/// Every configured model is listed, in order; the one that is used by default is marked.
pub proof fn law_models_are_listed(cfg: ConfigModel, i: int)
    requires
        0 <= i < cfg.providers.len(),
    ensures
        ({
            let m = model_infos(cfg)[i];
            let p = cfg.providers[i];
            &&& model_infos(cfg).len() == cfg.providers.len()
            &&& m.name == p.name
            &&& m.model == p.model
            &&& m.kind == match p.kind {
                ProviderKind::Openai => "openai"@,
                ProviderKind::Anthropic => "anthropic"@,
                ProviderKind::Gemini => "gemini"@,
            }
            &&& m.default <==> cfg.selected(None) is Ok && cfg.selected(None)->Ok_0.name == p.name
        }),
{
}

/// Hidden entries are left out of the tree, and the directories of builds and packages;
/// every other entry shows.
pub proof fn law_hidden(e: TreeEntryModel)
    ensures
        is_hidden(e) <==> (e.name.len() > 0 && e.name[0] == '.') || (e.dir && (e.name == "target"@
            || e.name == "node_modules"@)),
{
    reveal_strlit(".git");
    assert(".git"@[0] == '.' && ".git"@.len() == 4);
}

/// A directory stands before every file, and entries of one kind stand by their names.
pub proof fn law_tree_order(a: TreeEntryModel, b: TreeEntryModel)
    ensures
        a.dir && !b.dir ==> goes_before(a, b) && !goes_before(b, a),
        a.dir == b.dir ==> (goes_before(a, b) <==> precedes(a.name, b.name)),
{
}

/// A path in the window is a path below the project, or what is said against it; the empty
/// path is the project itself.
pub proof fn law_shown_paths(root: Seq<char>, rel: Seq<char>, windows: bool)
    ensures
        match safely_joined(root, rel, windows) {
            Ok(path) => shown_path(root, rel, windows) == Ok::<Seq<char>, Seq<char>>(path),
            Err(e) => shown_path(root, rel, windows) == Err::<Seq<char>, Seq<char>>(e.message()),
        },
        rel.len() > 0 ==> shown_dir(root, rel, windows) == shown_path(root, rel, windows),
        shown_dir(root, Seq::empty(), windows) == shown_path(root, "."@, windows),
{
}

/// The window is told of a call, of its result and of a question by what these hold, and
/// of nothing else.
pub proof fn law_events(name: Seq<char>, text: Seq<char>, ok: bool, id: u64, k: Seq<char>)
    ensures
        call_payload(name, text).at("name"@) == JsonModel::Str(name),
        call_payload(name, text).at("summary"@) == JsonModel::Str(text),
        k != "name"@ && k != "summary"@ ==> call_payload(name, text).get(k) is None,
        result_payload(name, text, ok).at("name"@) == JsonModel::Str(name),
        result_payload(name, text, ok).at("result"@) == JsonModel::Str(text),
        result_payload(name, text, ok).at("ok"@) == JsonModel::Bool(ok),
        permission_payload(id, name, text).at("id"@) == JsonModel::Int(id as int),
        permission_payload(id, name, text).at("tool"@) == JsonModel::Str(name),
        permission_payload(id, name, text).at("summary"@) == JsonModel::Str(text),
        output_payload(id, text).at("id"@) == JsonModel::Int(id as int),
        output_payload(id, text).at("data"@) == JsonModel::Str(text),
        exit_payload(id).at("id"@) == JsonModel::Int(id as int),
{
    reveal_strlit("name");
    reveal_strlit("summary");
    reveal_strlit("result");
    reveal_strlit("ok");
    reveal_strlit("id");
    reveal_strlit("tool");
    reveal_strlit("data");
    assert("name"@.len() == 4 && "summary"@.len() == 7 && "result"@.len() == 6);
    assert("ok"@.len() == 2 && "id"@.len() == 2 && "tool"@.len() == 4 && "data"@.len() == 4);
}

/// A terminal runs the user's own shell where there is one, but for Windows.
pub proof fn law_shell(shell: Seq<char>, any: Option<Seq<char>>)
    ensures
        shell_of(false, Some(shell)) == shell,
        shell_of(false, None) == "/bin/bash"@,
        shell_of(true, any) == "cmd.exe"@,
{
}

/// A terminal gets an id that none had before, and is open until it is closed; the others
/// stay as they are.
pub proof fn law_terminals(t: TerminalsModel, id: u64, other: u64)
    requires
        t.wf(),
        t.last < u64::MAX,
    ensures
        TerminalsModel::fresh().open == Set::<u64>::empty(),
        TerminalsModel::fresh().last == 0,
        t.opened().last == t.last + 1,
        t.opened().open.contains(t.opened().last),
        !t.open.contains(t.opened().last),
        other != t.opened().last ==> (t.opened().open.contains(other) <==> t.open.contains(other)),
        !t.closed(id).open.contains(id),
        other != id ==> (t.closed(id).open.contains(other) <==> t.open.contains(other)),
        t.closed(id).last == t.last,
{
}

} // verus!
