//! What the built-in tools do with their arguments, and what they answer.
use vstd::prelude::*;

use crate::error::ErrorModel;
use crate::json::JsonModel;
use crate::text::{
    count_from, decimal_of, find_from, find_in, lemma_find_from, occurs_at, places_from, signed_of,
};
use crate::tools::builtin::{
    edit_told, edited, listing_of, match_count, planned, shell_of, shell_text_of, written_of,
    ToolActionModel,
};
use crate::tools::{safely_joined, ContextModel, ToolModel};

verus! {

/// How a command ended: its exit code, -1 where it has none.
pub open spec fn ended_with(code: Option<i32>) -> Seq<char> {
    "\n[exit "@ + signed_of(
        match code {
            Some(n) => n as int,
            None => -1,
        },
    ) + "]"@
}

/// For every exit code, the output of a command is what it printed, then, exactly if it
/// printed errors, a heading and all of these, then how it ended.
pub proof fn law_shell_output(stdout: Seq<char>, stderr: Seq<char>, code: Option<i32>)
    ensures
        stderr.len() == 0 ==> shell_text_of(stdout, stderr, code) == stdout + ended_with(code),
        stderr.len() > 0 ==> shell_text_of(stdout, stderr, code) == stdout + "\n[stderr]\n"@
            + stderr + ended_with(code),
{
    assert(shell_text_of(stdout, stderr, code) =~= (if stderr.len() == 0 {
        stdout
    } else {
        stdout + "\n[stderr]\n"@ + stderr
    }) + ended_with(code));
}

/// How a command ended does not change what is shown of its output: with any other code the
/// same stands before the last line.
pub proof fn law_code_changes_no_output(
    stdout: Seq<char>,
    stderr: Seq<char>,
    a: Option<i32>,
    b: Option<i32>,
)
    ensures
        ({
            let x = shell_text_of(stdout, stderr, a);
            let y = shell_text_of(stdout, stderr, b);
            let n = x.len() - ended_with(a).len();
            &&& n == y.len() - ended_with(b).len()
            &&& n == stdout.len() + (if stderr.len() == 0 {
                0
            } else {
                "\n[stderr]\n"@.len() + stderr.len()
            })
            &&& x.take(n) == y.take(n)
            &&& x.skip(n) == ended_with(a)
            &&& y.skip(n) == ended_with(b)
        }),
{
    law_shell_output(stdout, stderr, a);
    law_shell_output(stdout, stderr, b);
    let x = shell_text_of(stdout, stderr, a);
    let y = shell_text_of(stdout, stderr, b);
    let n = x.len() - ended_with(a).len();
    assert(x.take(n) =~= y.take(n));
    assert(x.skip(n) =~= ended_with(a));
    assert(y.skip(n) =~= ended_with(b));
}

/// A listing has a line for every entry, in order, with a slash behind a directory's name.
pub proof fn law_listing(entries: Seq<(Seq<char>, bool)>, name: Seq<char>)
    ensures
        listing_of(Seq::empty()).len() == 0,
        listing_of(entries.push((name, false))) == listing_of(entries) + name + "\n"@,
        listing_of(entries.push((name, true))) == listing_of(entries) + name + "/\n"@,
{
    reveal_strlit("\n");
    reveal_strlit("/");
    reveal_strlit("/\n");
    assert(entries.push((name, false)).drop_last() =~= entries);
    assert(entries.push((name, true)).drop_last() =~= entries);
    assert(name.push('\n') =~= name + "\n"@);
    assert((name + "/"@).push('\n') =~= name + "/\n"@);
    assert(listing_of(entries) + (name + "\n"@) =~= listing_of(entries) + name + "\n"@);
    assert(listing_of(entries) + (name + "/\n"@) =~= listing_of(entries) + name + "/\n"@);
}

/// A file that was written is told with the number of its bytes, which for ASCII is that of
/// its characters, and with its path; an edited one with its path.
pub proof fn law_changes_are_told(content: Seq<char>, rel: Seq<char>)
    ensures
        written_of(content, rel) == "wrote "@ + decimal_of(
            vstd::utf8::encode_utf8(content).len(),
        ) + " bytes to "@ + rel,
        (forall|i: int| 0 <= i < content.len() ==> #[trigger] content[i] as u32 <= 0x7f)
            ==> written_of(content, rel) == "wrote "@ + decimal_of(content.len()) + " bytes to "@
            + rel,
        edit_told(rel) == "edited "@ + rel,
{
    if forall|i: int| 0 <= i < content.len() ==> #[trigger] content[i] as u32 <= 0x7f {
        lemma_ascii_bytes(content);
    }
}

proof fn lemma_ascii_bytes(s: Seq<char>)
    requires
        forall|i: int| 0 <= i < s.len() ==> #[trigger] s[i] as u32 <= 0x7f,
    ensures
        vstd::utf8::encode_utf8(s).len() == s.len(),
    decreases s.len(),
{
    if s.len() > 0 {
        assert(s[0] as u32 <= 0x7f);
        assert forall|i: int| 0 <= i < s.drop_first().len() implies #[trigger] s.drop_first()[i]
            as u32 <= 0x7f by {
            assert(s.drop_first()[i] == s[i + 1]);
        }
        lemma_ascii_bytes(s.drop_first());
    }
}

/// A command is run by the shell of the platform, as one argument.
pub proof fn law_shell_of_the_platform()
    ensures
        shell_of(true) == ("cmd"@, "/C"@),
        shell_of(false) == ("/bin/sh"@, "-c"@),
{
}

/// A file is read, written or edited at the path that the arguments give, below the root:
/// with the content, or the old and the new text, that they give, as they stand.
pub proof fn law_files_as_asked(
    args: JsonModel,
    ctx: ContextModel,
    rel: Seq<char>,
    path: Seq<char>,
)
    requires
        args.at("path"@) == JsonModel::Str(rel),
        safely_joined(ctx.root, rel, ctx.windows) == Ok::<Seq<char>, ErrorModel>(path),
    ensures
        planned(ToolModel::ReadFile, args, ctx) == Ok::<ToolActionModel, ErrorModel>(
            ToolActionModel::ReadFile { path },
        ),
        planned(ToolModel::ListDir, args, ctx) == Ok::<ToolActionModel, ErrorModel>(
            ToolActionModel::ListDir { path },
        ),
        args.at("query"@) matches JsonModel::Str(query) ==> planned(ToolModel::Search, args, ctx)
            == Ok::<ToolActionModel, ErrorModel>(ToolActionModel::Search { start: path, query }),
        args.at("content"@) matches JsonModel::Str(content) ==> planned(
            ToolModel::WriteFile,
            args,
            ctx,
        ) == Ok::<ToolActionModel, ErrorModel>(ToolActionModel::WriteFile { path, rel, content }),
        args.at("old"@) matches JsonModel::Str(find) ==> (args.at("new"@) matches JsonModel::Str(
            replacement,
        ) ==> planned(ToolModel::EditFile, args, ctx) == Ok::<ToolActionModel, ErrorModel>(
            ToolActionModel::EditFile { path, rel, find, replacement },
        )),
{
}

/// A directory to list or to search is the root where none is given.
pub proof fn law_root_by_default(args: JsonModel, ctx: ContextModel, query: Seq<char>)
    requires
        !(args.at("path"@) is Str),
    ensures
        match safely_joined(ctx.root, "."@, ctx.windows) {
            Ok(path) => planned(ToolModel::ListDir, args, ctx) == Ok::<ToolActionModel, ErrorModel>(
                ToolActionModel::ListDir { path },
            ) && (args.at("query"@) == JsonModel::Str(query) ==> planned(
                ToolModel::Search,
                args,
                ctx,
            ) == Ok::<ToolActionModel, ErrorModel>(ToolActionModel::Search { start: path, query })),
            Err(e) => planned(ToolModel::ListDir, args, ctx) == Err::<ToolActionModel, ErrorModel>(
                e,
            ),
        },
{
}

/// A command is run as it is given, and a tool of a server is called with all arguments.
pub proof fn law_calls_as_asked(args: JsonModel, ctx: ContextModel, t: crate::tools::McpToolModel)
    ensures
        args.at("cmd"@) matches JsonModel::Str(cmd) ==> planned(ToolModel::RunShell, args, ctx)
            == Ok::<ToolActionModel, ErrorModel>(ToolActionModel::RunShell { cmd }),
        planned(ToolModel::Mcp(t), args, ctx) == Ok::<ToolActionModel, ErrorModel>(
            ToolActionModel::CallMcp { server: t.server, bare: t.bare_name, args },
        ),
{
}

/// The schema of a tool requires a member.
pub open spec fn requires_member(t: ToolModel, key: Seq<char>) -> bool {
    t.spec().parameters.at("required"@) is Arr && t.spec().parameters.at(
        "required"@,
    )->Arr_0.contains(JsonModel::Str(key))
}

/// A member that the schema of a file or shell tool requires is needed: without it nothing
/// is done.
pub proof fn law_required_members_are_needed(
    t: ToolModel,
    args: JsonModel,
    ctx: ContextModel,
    key: Seq<char>,
)
    requires
        requires_member(t, key),
        !(args.at(key) is Str),
        t is ReadFile || t is Search || t is WriteFile || t is EditFile || t is RunShell,
    ensures
        planned(t, args, ctx) is Err,
{
    lemma_schema_keys();
}

/// Where every member that the schema requires is given, a path that leads out of the
/// project is all that can keep a file or shell tool from its work, and it does.
pub proof fn law_only_paths_are_refused(t: ToolModel, args: JsonModel, ctx: ContextModel)
    requires
        t is ReadFile || t is Search || t is WriteFile || t is EditFile || t is RunShell
            || t is ListDir,
        forall|key: Seq<char>| #[trigger] requires_member(t, key) ==> args.at(key) is Str,
    ensures
        planned(t, args, ctx) matches Err(e) ==> !(t is RunShell) && safely_joined(
            ctx.root,
            match args.at("path"@) {
                JsonModel::Str(rel) => rel,
                _ => "."@,
            },
            ctx.windows,
        ) == Err::<Seq<char>, ErrorModel>(e),
        t is RunShell || safely_joined(
            ctx.root,
            match args.at("path"@) {
                JsonModel::Str(rel) => rel,
                _ => "."@,
            },
            ctx.windows,
        ) is Ok ==> planned(t, args, ctx) is Ok,
{
    lemma_schema_keys();
    let p = t.spec().parameters;
    let wanted = p.at("required"@)->Arr_0;
    if t is RunShell {
        assert(wanted[0] == JsonModel::Str("cmd"@));
        assert(requires_member(t, "cmd"@));
    } else if t is Search {
        assert(wanted[0] == JsonModel::Str("query"@));
        assert(requires_member(t, "query"@));
    } else if !(t is ListDir) {
        assert(wanted[0] == JsonModel::Str("path"@));
        assert(requires_member(t, "path"@));
        if t is WriteFile {
            assert(wanted[1] == JsonModel::Str("content"@));
            assert(requires_member(t, "content"@));
        }
        if t is EditFile {
            assert(wanted[1] == JsonModel::Str("old"@));
            assert(wanted[2] == JsonModel::Str("new"@));
            assert(requires_member(t, "old"@));
            assert(requires_member(t, "new"@));
        }
    }
}

proof fn lemma_schema_keys()
    ensures
        "type"@.len() == 4,
        "properties"@.len() == 10,
        "required"@.len() == 8,
{
    reveal_strlit("type");
    reveal_strlit("properties");
    reveal_strlit("required");
}

/// The schema of every tool describes an object, and every member that it requires is one
/// that it describes as a text. A path that may be left out is the root by default.
pub proof fn law_schemas(t: ToolModel, key: Seq<char>)
    requires
        !(t is Mcp),
    ensures
        t.spec().parameters.at("type"@) == JsonModel::Str("object"@),
        requires_member(t, key) ==> t.spec().parameters.at("properties"@).at(key).at("type"@)
            == JsonModel::Str("string"@),
        t is ListDir || t is Search ==> t.spec().parameters.at("properties"@).at("path"@).at(
            "default"@,
        ) == JsonModel::Str("."@),
        t is EditFile ==> t.spec().parameters.at("properties"@).at("old"@).at("description"@)
            == JsonModel::Str("exact text to replace (must be unique)"@),
{
    lemma_schema_keys();
    reveal_strlit("path");
    reveal_strlit("content");
    reveal_strlit("query");
    reveal_strlit("old");
    reveal_strlit("new");
    reveal_strlit("cmd");
    reveal_strlit("name");
    reveal_strlit("default");
    reveal_strlit("description");
    assert("default"@.len() == 7 && "description"@.len() == 11);
    assert("old"@.len() == 3 && "new"@.len() == 3 && "old"@[0] == 'o' && "new"@[0] == 'n');
    assert("path"@.len() == 4 && "content"@.len() == 7 && "query"@.len() == 5);
}

/// The tools that can change something need a permission: those that write, edit, run or
/// call, and no others.
pub proof fn law_who_needs_permission(t: ToolModel)
    ensures
        t.mutating() <==> t is WriteFile || t is EditFile || t is RunShell || t is Mcp,
{
}

/// What a person is asked about shows what is to happen: the file that is written or
/// edited, the command itself, or the name of the tool.
pub proof fn law_summaries(args: JsonModel, t: ToolModel)
    ensures
        args.at("path"@) matches JsonModel::Str(path) ==> ToolModel::WriteFile.summary(args)
            == "write_file "@ + path && ToolModel::EditFile.summary(args) == "edit_file "@ + path,
        args.at("cmd"@) matches JsonModel::Str(cmd) ==> ToolModel::RunShell.summary(args) == cmd,
        !(args.at("cmd"@) is Str) ==> ToolModel::RunShell.summary(args) == "?"@,
        !(args.at("path"@) is Str) ==> ToolModel::WriteFile.summary(args) == "write_file "@ + "?"@
            && ToolModel::EditFile.summary(args) == "edit_file "@ + "?"@,
        t matches ToolModel::Mcp(m) ==> t.summary(args) == m.full_name,
        !t.mutating() ==> t.summary(args) == t.name(),
{
}

/// An argument that is missing is told by its name.
pub proof fn law_missing_arguments(args: JsonModel, ctx: ContextModel)
    ensures
        !(args.at("path"@) is Str) ==> planned(ToolModel::ReadFile, args, ctx) == Err::<
            ToolActionModel,
            ErrorModel,
        >(ErrorModel::Tool("missing string arg '"@ + "path"@ + "'"@)),
        !(args.at("cmd"@) is Str) ==> planned(ToolModel::RunShell, args, ctx) == Err::<
            ToolActionModel,
            ErrorModel,
        >(ErrorModel::Tool("missing string arg '"@ + "cmd"@ + "'"@)),
        !(args.at("query"@) is Str) ==> planned(ToolModel::Search, args, ctx) == Err::<
            ToolActionModel,
            ErrorModel,
        >(ErrorModel::Tool("missing string arg '"@ + "query"@ + "'"@)),
{
}

/// The tools go by these names, and say of themselves what they do.
pub proof fn law_names(skills: Seq<crate::skills::SkillModel>)
    ensures
        ToolModel::ReadFile.name() == "read_file"@,
        ToolModel::ListDir.name() == "list_dir"@,
        ToolModel::Search.name() == "search"@,
        ToolModel::WriteFile.name() == "write_file"@,
        ToolModel::EditFile.name() == "edit_file"@,
        ToolModel::RunShell.name() == "run_shell"@,
        ToolModel::UseSkill(skills).name() == "use_skill"@,
        ToolModel::ReadFile.spec().description
            == "Read a UTF-8 text file relative to the project root."@,
        ToolModel::ListDir.spec().description
            == "List entries of a directory relative to the project root."@,
        ToolModel::Search.spec().description
            == "Substring search over project text files. Returns path:line: text."@,
        ToolModel::WriteFile.spec().description
            == "Create or overwrite a file with the given content."@,
        ToolModel::EditFile.spec().description
            == "Replace an exact, unique string in a file with new text."@,
        ToolModel::RunShell.spec().description
            == "Run a shell command (cmd.exe on Windows, /bin/sh otherwise) in the project root. Returns stdout+stderr."@,
        ToolModel::UseSkill(skills).spec().description
            == "Load a skill's full instructions by name."@,
{
}

/// An edit of a text that is not there is refused with the path; one of a text that stands
/// at several places is refused with how many there are, which is more than one.
pub proof fn law_refused_edits(
    text: Seq<char>,
    find: Seq<char>,
    replacement: Seq<char>,
    rel: Seq<char>,
)
    ensures
        (forall|k: int| !occurs_at(text, find, k)) ==> edited(text, find, replacement, rel)
            == Err::<Seq<char>, ErrorModel>(ErrorModel::Tool("'old' not found in "@ + rel)),
        (exists|j: int, k: int|
            j != k && #[trigger] occurs_at(text, find, j) && #[trigger] occurs_at(text, find, k))
            ==> edited(text, find, replacement, rel) == Err::<Seq<char>, ErrorModel>(
            ErrorModel::Tool(
                "'old' matches "@ + decimal_of(match_count(text, find)) + " times in "@ + rel
                    + "; make it unique"@,
            ),
        ) && match_count(text, find) > 1,
{
    lemma_find_from(text, find, 0);
    if let Some(k) = find_in(text, find) {
        lemma_find_from(text, find, k + 1);
        lemma_counted(text, find, 0);
        lemma_placed(text, find, 0, k);
    }
}

proof fn lemma_placed(text: Seq<char>, find: Seq<char>, i: int, k: int)
    requires
        0 <= i <= k,
        occurs_at(text, find, k),
    ensures
        places_from(text, find, i) >= 1 + places_from(text, find, k + 1),
        find_from(text, find, k + 1) is Some ==> places_from(text, find, i) >= 2,
    decreases k - i,
{
    if i < k {
        lemma_placed(text, find, i + 1, k);
    } else if let Some(j) = find_from(text, find, k + 1) {
        lemma_find_from(text, find, k + 1);
        lemma_placed_later(text, find, k + 1, j);
    }
}

proof fn lemma_placed_later(text: Seq<char>, find: Seq<char>, i: int, k: int)
    requires
        0 <= i <= k,
        occurs_at(text, find, k),
    ensures
        places_from(text, find, i) >= 1,
    decreases k - i,
{
    if i < k {
        lemma_placed_later(text, find, i + 1, k);
    }
}

proof fn lemma_counted(text: Seq<char>, find: Seq<char>, i: int)
    requires
        0 <= i,
    ensures
        find_from(text, find, i) is None ==> count_from(text, find, i) == 0,
{
}

/// Matches are counted from the left: the first one, and those behind its end.
pub proof fn law_matches_are_counted(text: Seq<char>, find: Seq<char>, i: int, k: int)
    requires
        find.len() > 0,
        0 <= i <= k,
        occurs_at(text, find, k),
        forall|j: int| i <= j < k ==> !occurs_at(text, find, j),
    ensures
        count_from(text, find, i) == 1 + count_from(text, find, k + find.len()),
        (forall|j: int| i <= j ==> !occurs_at(text, find, j)) ==> count_from(text, find, i) == 0,
{
    lemma_find_from(text, find, i);
}

/// Every place counts once, overlaps or not.
pub proof fn law_places_are_counted(text: Seq<char>, find: Seq<char>, i: int)
    requires
        0 <= i,
    ensures
        i > text.len() ==> places_from(text, find, i) == 0,
        i <= text.len() && occurs_at(text, find, i) ==> places_from(text, find, i) == 1
            + places_from(text, find, i + 1),
        i <= text.len() && !occurs_at(text, find, i) ==> places_from(text, find, i) == places_from(
            text,
            find,
            i + 1,
        ),
        count_from(text, find, 0) > 1 ==> match_count(text, find) == count_from(text, find, 0),
        count_from(text, find, 0) <= 1 ==> match_count(text, find) == places_from(text, find, 0),
{
}

} // verus!
