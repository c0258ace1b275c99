//! Built-in tools scoped to the project root.
//!
//! Six tools: `read_file`, `list_dir`, `search` (read-only) and `write_file`,
//! `edit_file`, `run_shell` (mutating, gated by [`crate::permission`]).
use vstd::prelude::*;
use vstd::utf8::encode_utf8;

use crate::error::{outcome, Error, ErrorModel};
use crate::json::{array, Json, JsonModel, Members};
use crate::provider::sse::{lossy, lossy_text};
use crate::provider::types::{ToolSpec, ToolSpecModel};
use crate::skills::used;
use crate::text::{
    cat2, cat3, cat4, cat5, count_from, count_matches, count_places, decimal, decimal_of,
    find_from, find_in, has_prefix, lemma_find_from, occurs_at, places_from, push_char, signed,
    signed_of, split_at_first, views,
};
use crate::tools::{
    in_order, is_below, law_register, law_stays_below_root, registered, safe_join, safely_joined,
    tool_named, ContextModel, Tool, ToolContext, ToolModel, ToolRegistry,
};

verus! {

/// The tools with the six built-in ones among them.
pub open spec fn with_builtin_tools(s: Seq<ToolModel>) -> Seq<ToolModel> {
    let a = registered(s, ToolModel::ReadFile);
    let b = registered(a, ToolModel::ListDir);
    let c = registered(b, ToolModel::Search);
    let d = registered(c, ToolModel::WriteFile);
    let e = registered(d, ToolModel::EditFile);
    registered(e, ToolModel::RunShell)
}

/// Register the six built-in tools.
pub fn register_all(reg: &mut ToolRegistry)
    ensures
        final(reg)@ == with_builtin_tools(old(reg)@),
        in_order(old(reg)@) ==> in_order(final(reg)@),
{
    reg.register(Tool::ReadFile);
    reg.register(Tool::ListDir);
    reg.register(Tool::Search);
    reg.register(Tool::WriteFile);
    reg.register(Tool::EditFile);
    reg.register(Tool::RunShell);
}

/// The tools that come with ADE.
pub open spec fn is_builtin(t: ToolModel) -> bool {
    t is ReadFile || t is ListDir || t is Search || t is WriteFile || t is EditFile
        || t is RunShell
}

/// No two built-in tools have the same name, and none has that of the tool that loads
/// skills or of a tool of a server.
pub proof fn lemma_builtin_names(a: ToolModel, b: ToolModel)
    requires
        is_builtin(a),
    ensures
        is_builtin(b) && a != b ==> a.name() != b.name(),
        a.name() != use_skill_of().name,
        !has_prefix(a.name(), "mcp__"@),
{
    reveal_strlit("read_file");
    reveal_strlit("list_dir");
    reveal_strlit("search");
    reveal_strlit("write_file");
    reveal_strlit("edit_file");
    reveal_strlit("run_shell");
    reveal_strlit("use_skill");
    reveal_strlit("mcp__");
    assert("read_file"@[0] == 'r' && "run_shell"@[0] == 'r' && "edit_file"@[0] == 'e');
    assert("read_file"@[1] == 'e' && "run_shell"@[1] == 'u' && "use_skill"@[0] == 'u');
    assert("list_dir"@.len() == 8 && "search"@.len() == 6 && "write_file"@.len() == 10);
    if has_prefix(a.name(), "mcp__"@) {
        assert(a.name().subrange(0, 5)[0] == 'm');
    }
}

/// Every built-in tool is found under its name.
pub proof fn law_builtins_are_found(t: ToolModel)
    requires
        is_builtin(t),
    ensures
        in_order(with_builtin_tools(Seq::empty())),
        tool_named(with_builtin_tools(Seq::empty()), t.name()) == Some(t),
{
    let none = Seq::<ToolModel>::empty();
    let a = registered(none, ToolModel::ReadFile);
    let b = registered(a, ToolModel::ListDir);
    let c = registered(b, ToolModel::Search);
    let d = registered(c, ToolModel::WriteFile);
    let e = registered(d, ToolModel::EditFile);
    law_register(none, ToolModel::ReadFile, t.name());
    law_register(a, ToolModel::ListDir, t.name());
    law_register(b, ToolModel::Search, t.name());
    law_register(c, ToolModel::WriteFile, t.name());
    law_register(d, ToolModel::EditFile, t.name());
    law_register(e, ToolModel::RunShell, t.name());
    lemma_builtin_names(t, ToolModel::ReadFile);
    lemma_builtin_names(t, ToolModel::ListDir);
    lemma_builtin_names(t, ToolModel::Search);
    lemma_builtin_names(t, ToolModel::WriteFile);
    lemma_builtin_names(t, ToolModel::EditFile);
    lemma_builtin_names(t, ToolModel::RunShell);
}

pub open spec fn string_field() -> JsonModel {
    JsonModel::Obj(map!["type"@ => JsonModel::Str("string"@)])
}

pub open spec fn default_field(value: Seq<char>) -> JsonModel {
    JsonModel::Obj(
        map!["type"@ => JsonModel::Str("string"@), "default"@ => JsonModel::Str(value)],
    )
}

pub open spec fn described_field(text: Seq<char>) -> JsonModel {
    JsonModel::Obj(
        map!["type"@ => JsonModel::Str("string"@), "description"@ => JsonModel::Str(text)],
    )
}

/// The schema of an object with the given properties, all of them optional.
pub open spec fn schema_of(properties: Map<Seq<char>, JsonModel>) -> Map<Seq<char>, JsonModel> {
    map!["type"@ => JsonModel::Str("object"@), "properties"@ => JsonModel::Obj(properties)]
}

/// The schema of an object with the given properties, some of them required.
pub open spec fn schema_requiring(
    properties: Map<Seq<char>, JsonModel>,
    required: Seq<Seq<char>>,
) -> JsonModel {
    JsonModel::Obj(
        schema_of(properties).insert(
            "required"@,
            JsonModel::Arr(Seq::new(required.len(), |i: int| JsonModel::Str(required[i]))),
        ),
    )
}

pub open spec fn read_file_of() -> ToolSpecModel {
    ToolSpecModel {
        name: "read_file"@,
        description: "Read a UTF-8 text file relative to the project root."@,
        parameters: schema_requiring(map!["path"@ => string_field()], seq!["path"@]),
    }
}

pub open spec fn list_dir_of() -> ToolSpecModel {
    ToolSpecModel {
        name: "list_dir"@,
        description: "List entries of a directory relative to the project root."@,
        parameters: JsonModel::Obj(schema_of(map!["path"@ => default_field("."@)])),
    }
}

pub open spec fn search_of() -> ToolSpecModel {
    ToolSpecModel {
        name: "search"@,
        description: "Substring search over project text files. Returns path:line: text."@,
        parameters: schema_requiring(
            map!["query"@ => string_field(), "path"@ => default_field("."@)],
            seq!["query"@],
        ),
    }
}

pub open spec fn write_file_of() -> ToolSpecModel {
    ToolSpecModel {
        name: "write_file"@,
        description: "Create or overwrite a file with the given content."@,
        parameters: schema_requiring(
            map!["path"@ => string_field(), "content"@ => string_field()],
            seq!["path"@, "content"@],
        ),
    }
}

pub open spec fn edit_file_of() -> ToolSpecModel {
    ToolSpecModel {
        name: "edit_file"@,
        description: "Replace an exact, unique string in a file with new text."@,
        parameters: schema_requiring(
            map![
                "path"@ => string_field(),
                "old"@ => described_field("exact text to replace (must be unique)"@),
                "new"@ => string_field(),
            ],
            seq!["path"@, "old"@, "new"@],
        ),
    }
}

pub open spec fn run_shell_of() -> ToolSpecModel {
    ToolSpecModel {
        name: "run_shell"@,
        description: "Run a shell command (cmd.exe on Windows, /bin/sh otherwise) in the project root. Returns stdout+stderr."@,
        parameters: schema_requiring(map!["cmd"@ => string_field()], seq!["cmd"@]),
    }
}

pub open spec fn use_skill_of() -> ToolSpecModel {
    ToolSpecModel {
        name: "use_skill"@,
        description: "Load a skill's full instructions by name."@,
        parameters: schema_requiring(map!["name"@ => string_field()], seq!["name"@]),
    }
}

fn text_field() -> (r: Json)
    ensures
        r@ == string_field(),
{
    let mut m = Members::new();
    m.put_text("type", "string");
    m.done()
}

fn text_field_with(key: &str, value: &str) -> (r: Json)
    ensures
        r@ == JsonModel::Obj(
            map!["type"@ => JsonModel::Str("string"@)].insert(key@, JsonModel::Str(value@)),
        ),
{
    let mut m = Members::new();
    m.put_text("type", "string");
    m.put_text(key, value);
    m.done()
}

fn schema(properties: Members) -> (r: Members)
    ensures
        r@ == schema_of(properties@),
{
    let mut m = Members::new();
    m.put_text("type", "object");
    m.put("properties", properties.done());
    m
}

fn schema_with(properties: Members, required: &[&str]) -> (r: Json)
    ensures
        r@ == schema_requiring(properties@, Seq::new(required@.len(), |i: int| required@[i]@)),
{
    let ghost names = Seq::new(required@.len(), |i: int| required@[i]@);
    let mut items: Vec<Json> = Vec::new();
    let mut i: usize = 0;
    while i < required.len()
        invariant
            i <= required@.len(),
            items@.len() == i,
            forall|k: int| 0 <= k < i ==> (#[trigger] items@[k])@ == JsonModel::Str(required@[k]@),
        decreases required@.len() - i,
    {
        items.push(Json::Str(required[i].to_owned()));
        i += 1;
    }
    assert(views(items@) =~= Seq::new(names.len(), |i: int| JsonModel::Str(names[i])));
    let mut m = schema(properties);
    m.put("required", array(items));
    m.done()
}

pub fn read_file_spec() -> (r: ToolSpec)
    ensures
        r@ == read_file_of(),
{
    let mut properties = Members::new();
    properties.put("path", text_field());
    let required: [&str; 1] = ["path"];
    assert(Seq::new(required@.len(), |i: int| required@[i]@) =~= seq!["path"@]);
    ToolSpec {
        name: "read_file".to_owned(),
        description: "Read a UTF-8 text file relative to the project root.".to_owned(),
        parameters: schema_with(properties, &required),
    }
}

pub fn list_dir_spec() -> (r: ToolSpec)
    ensures
        r@ == list_dir_of(),
{
    let mut properties = Members::new();
    properties.put("path", text_field_with("default", "."));
    ToolSpec {
        name: "list_dir".to_owned(),
        description: "List entries of a directory relative to the project root.".to_owned(),
        parameters: schema(properties).done(),
    }
}

pub fn search_spec() -> (r: ToolSpec)
    ensures
        r@ == search_of(),
{
    let mut properties = Members::new();
    properties.put("query", text_field());
    properties.put("path", text_field_with("default", "."));
    let required: [&str; 1] = ["query"];
    assert(Seq::new(required@.len(), |i: int| required@[i]@) =~= seq!["query"@]);
    ToolSpec {
        name: "search".to_owned(),
        description: "Substring search over project text files. Returns path:line: text.".to_owned(),
        parameters: schema_with(properties, &required),
    }
}

pub fn write_file_spec() -> (r: ToolSpec)
    ensures
        r@ == write_file_of(),
{
    let mut properties = Members::new();
    properties.put("path", text_field());
    properties.put("content", text_field());
    let required: [&str; 2] = ["path", "content"];
    assert(Seq::new(required@.len(), |i: int| required@[i]@) =~= seq!["path"@, "content"@]);
    ToolSpec {
        name: "write_file".to_owned(),
        description: "Create or overwrite a file with the given content.".to_owned(),
        parameters: schema_with(properties, &required),
    }
}

pub fn edit_file_spec() -> (r: ToolSpec)
    ensures
        r@ == edit_file_of(),
{
    let mut properties = Members::new();
    properties.put("path", text_field());
    properties.put(
        "old",
        text_field_with("description", "exact text to replace (must be unique)"),
    );
    properties.put("new", text_field());
    let required: [&str; 3] = ["path", "old", "new"];
    assert(Seq::new(required@.len(), |i: int| required@[i]@) =~= seq!["path"@, "old"@, "new"@]);
    ToolSpec {
        name: "edit_file".to_owned(),
        description: "Replace an exact, unique string in a file with new text.".to_owned(),
        parameters: schema_with(properties, &required),
    }
}

pub fn run_shell_spec() -> (r: ToolSpec)
    ensures
        r@ == run_shell_of(),
{
    let mut properties = Members::new();
    properties.put("cmd", text_field());
    let required: [&str; 1] = ["cmd"];
    assert(Seq::new(required@.len(), |i: int| required@[i]@) =~= seq!["cmd"@]);
    ToolSpec {
        name: "run_shell".to_owned(),
        description: "Run a shell command (cmd.exe on Windows, /bin/sh otherwise) in the project root. Returns stdout+stderr.".to_owned(),
        parameters: schema_with(properties, &required),
    }
}

pub fn use_skill_spec() -> (r: ToolSpec)
    ensures
        r@ == use_skill_of(),
{
    let mut properties = Members::new();
    properties.put("name", text_field());
    let required: [&str; 1] = ["name"];
    assert(Seq::new(required@.len(), |i: int| required@[i]@) =~= seq!["name"@]);
    ToolSpec {
        name: "use_skill".to_owned(),
        description: "Load a skill's full instructions by name.".to_owned(),
        parameters: schema_with(properties, &required),
    }
}

/// A text argument for a summary: `?` where it is missing.
pub open spec fn summary_path(args: JsonModel, key: Seq<char>) -> Seq<char> {
    match args.at(key).text() {
        Some(s) => s,
        None => "?"@,
    }
}

pub fn path_or_unknown(args: &Json, key: &str) -> (r: String)
    ensures
        r@ == summary_path(args@, key@),
{
    match args.at(key).text() {
        Some(s) => s.to_owned(),
        None => "?".to_owned(),
    }
}

/// A text argument that a tool cannot do without.
pub open spec fn string_arg(args: JsonModel, key: Seq<char>) -> Result<Seq<char>, ErrorModel> {
    match args.at(key).text() {
        Some(s) => Ok(s),
        None => Err(ErrorModel::Tool("missing string arg '"@ + key + "'"@)),
    }
}

fn arg_str(args: &Json, key: &str) -> (r: Result<String, Error>)
    ensures
        outcome(r) == string_arg(args@, key@),
{
    match args.at(key).text() {
        Some(s) => Ok(s.to_owned()),
        None => Err(Error::Tool(cat3("missing string arg '", key, "'"))),
    }
}

/// What is to be done for a tool call.
#[derive(Debug)]
pub enum ToolAction {
    /// Read a text file.
    ReadFile { path: String },
    /// List a directory.
    ListDir { path: String },
    /// Search the files below a directory.
    Search { start: String, query: String },
    /// Write a file, after the directories above it were made.
    WriteFile { path: String, rel: String, content: String },
    /// Read a file, and write it back with one text replaced.
    EditFile { path: String, rel: String, find: String, replacement: String },
    /// Run a shell command in the project root.
    RunShell { cmd: String },
    /// Nothing: this is the result.
    Reply(String),
    /// Call a tool of an MCP server.
    CallMcp { server: usize, bare: String, args: Json },
}

/// The model of a [`ToolAction`].
#[verifier::ext_equal]
pub enum ToolActionModel {
    ReadFile { path: Seq<char> },
    ListDir { path: Seq<char> },
    Search { start: Seq<char>, query: Seq<char> },
    WriteFile { path: Seq<char>, rel: Seq<char>, content: Seq<char> },
    EditFile { path: Seq<char>, rel: Seq<char>, find: Seq<char>, replacement: Seq<char> },
    RunShell { cmd: Seq<char> },
    Reply(Seq<char>),
    CallMcp { server: usize, bare: Seq<char>, args: JsonModel },
}

impl View for ToolAction {
    type V = ToolActionModel;

    open spec fn view(&self) -> ToolActionModel {
        match *self {
            ToolAction::ReadFile { path } => ToolActionModel::ReadFile { path: path@ },
            ToolAction::ListDir { path } => ToolActionModel::ListDir { path: path@ },
            ToolAction::Search { start, query } => ToolActionModel::Search {
                start: start@,
                query: query@,
            },
            ToolAction::WriteFile { path, rel, content } => ToolActionModel::WriteFile {
                path: path@,
                rel: rel@,
                content: content@,
            },
            ToolAction::EditFile { path, rel, find, replacement } => ToolActionModel::EditFile {
                path: path@,
                rel: rel@,
                find: find@,
                replacement: replacement@,
            },
            ToolAction::RunShell { cmd } => ToolActionModel::RunShell { cmd: cmd@ },
            ToolAction::Reply(text) => ToolActionModel::Reply(text@),
            ToolAction::CallMcp { server, bare, args } => ToolActionModel::CallMcp {
                server,
                bare: bare@,
                args: args@,
            },
        }
    }
}

impl ToolActionModel {
    /// The file or directory that an action works on.
    pub open spec fn path(self) -> Option<Seq<char>> {
        match self {
            ToolActionModel::ReadFile { path } => Some(path),
            ToolActionModel::ListDir { path } => Some(path),
            ToolActionModel::Search { start, .. } => Some(start),
            ToolActionModel::WriteFile { path, .. } => Some(path),
            ToolActionModel::EditFile { path, .. } => Some(path),
            _ => None,
        }
    }

    /// The action can change the workspace.
    pub open spec fn changes(self) -> bool {
        match self {
            ToolActionModel::WriteFile { .. } => true,
            ToolActionModel::EditFile { .. } => true,
            ToolActionModel::RunShell { .. } => true,
            ToolActionModel::CallMcp { .. } => true,
            _ => false,
        }
    }
}

/// A path argument: the project root where it is missing.
pub open spec fn path_or_root(args: JsonModel) -> Seq<char> {
    match args.at("path"@).text() {
        Some(s) => s,
        None => "."@,
    }
}

/// A path argument that a tool cannot do without, below the project root.
pub open spec fn path_arg(ctx: ContextModel, args: JsonModel) -> Result<
    (Seq<char>, Seq<char>),
    ErrorModel,
> {
    match string_arg(args, "path"@) {
        Ok(rel) => match safely_joined(ctx.root, rel, ctx.windows) {
            Ok(path) => Ok((path, rel)),
            Err(e) => Err(e),
        },
        Err(e) => Err(e),
    }
}

/// What is to be done for a call of `tool`.
pub open spec fn planned(tool: ToolModel, args: JsonModel, ctx: ContextModel) -> Result<
    ToolActionModel,
    ErrorModel,
> {
    match tool {
        ToolModel::ReadFile => match path_arg(ctx, args) {
            Ok((path, rel)) => Ok(ToolActionModel::ReadFile { path }),
            Err(e) => Err(e),
        },
        ToolModel::ListDir => match safely_joined(ctx.root, path_or_root(args), ctx.windows) {
            Ok(path) => Ok(ToolActionModel::ListDir { path }),
            Err(e) => Err(e),
        },
        ToolModel::Search => match string_arg(args, "query"@) {
            Ok(query) => match safely_joined(ctx.root, path_or_root(args), ctx.windows) {
                Ok(start) => Ok(ToolActionModel::Search { start, query }),
                Err(e) => Err(e),
            },
            Err(e) => Err(e),
        },
        ToolModel::WriteFile => match path_arg(ctx, args) {
            Ok((path, rel)) => match string_arg(args, "content"@) {
                Ok(content) => Ok(ToolActionModel::WriteFile { path, rel, content }),
                Err(e) => Err(e),
            },
            Err(e) => Err(e),
        },
        ToolModel::EditFile => match path_arg(ctx, args) {
            Ok((path, rel)) => match string_arg(args, "old"@) {
                Ok(find) => match string_arg(args, "new"@) {
                    Ok(replacement) => Ok(
                        ToolActionModel::EditFile { path, rel, find, replacement },
                    ),
                    Err(e) => Err(e),
                },
                Err(e) => Err(e),
            },
            Err(e) => Err(e),
        },
        ToolModel::RunShell => match string_arg(args, "cmd"@) {
            Ok(cmd) => Ok(ToolActionModel::RunShell { cmd }),
            Err(e) => Err(e),
        },
        ToolModel::UseSkill(skills) => match used(skills, args) {
            Ok(text) => Ok(ToolActionModel::Reply(text)),
            Err(e) => Err(e),
        },
        ToolModel::Mcp(t) => Ok(
            ToolActionModel::CallMcp { server: t.server, bare: t.bare_name, args },
        ),
    }
}

fn located(ctx: &ToolContext, args: &Json) -> (r: Result<(String, String), Error>)
    ensures
        match r {
            Ok((path, rel)) => path_arg(ctx@, args@) is Ok && path_arg(ctx@, args@)->Ok_0 == (
                path@,
                rel@,
            ),
            Err(e) => path_arg(ctx@, args@) is Err && path_arg(ctx@, args@)->Err_0 == e@,
        },
{
    match arg_str(args, "path") {
        Ok(rel) => match safe_join(ctx.root.as_str(), rel.as_str(), ctx.windows) {
            Ok(path) => Ok((path, rel)),
            Err(e) => Err(e),
        },
        Err(e) => Err(e),
    }
}

fn located_or_root(ctx: &ToolContext, args: &Json) -> (r: Result<String, Error>)
    ensures
        outcome(r) == safely_joined(ctx@.root, path_or_root(args@), ctx@.windows),
{
    match args.at("path").text() {
        Some(rel) => safe_join(ctx.root.as_str(), rel, ctx.windows),
        None => safe_join(ctx.root.as_str(), ".", ctx.windows),
    }
}

impl Tool {
    /// What is to be done for a call with the given arguments.
    pub fn plan(&self, args: &Json, ctx: &ToolContext) -> (r: Result<ToolAction, Error>)
        ensures
            outcome(r) == planned(self@, args@, ctx@),
    {
        match self {
            Tool::ReadFile => match located(ctx, args) {
                Ok((path, _)) => Ok(ToolAction::ReadFile { path }),
                Err(e) => Err(e),
            },
            Tool::ListDir => match located_or_root(ctx, args) {
                Ok(path) => Ok(ToolAction::ListDir { path }),
                Err(e) => Err(e),
            },
            Tool::Search => match arg_str(args, "query") {
                Ok(query) => match located_or_root(ctx, args) {
                    Ok(start) => Ok(ToolAction::Search { start, query }),
                    Err(e) => Err(e),
                },
                Err(e) => Err(e),
            },
            Tool::WriteFile => match located(ctx, args) {
                Ok((path, rel)) => match arg_str(args, "content") {
                    Ok(content) => Ok(ToolAction::WriteFile { path, rel, content }),
                    Err(e) => Err(e),
                },
                Err(e) => Err(e),
            },
            Tool::EditFile => match located(ctx, args) {
                Ok((path, rel)) => match arg_str(args, "old") {
                    Ok(find) => match arg_str(args, "new") {
                        Ok(replacement) => Ok(
                            ToolAction::EditFile { path, rel, find, replacement },
                        ),
                        Err(e) => Err(e),
                    },
                    Err(e) => Err(e),
                },
                Err(e) => Err(e),
            },
            Tool::RunShell => match arg_str(args, "cmd") {
                Ok(cmd) => Ok(ToolAction::RunShell { cmd }),
                Err(e) => Err(e),
            },
            Tool::UseSkill(skills) => match skills.use_skill(args) {
                Ok(text) => Ok(ToolAction::Reply(text)),
                Err(e) => Err(e),
            },
            Tool::Mcp(t) => Ok(
                ToolAction::CallMcp {
                    server: t.server,
                    bare: t.bare_name.clone(),
                    args: args.clone(),
                },
            ),
        }
    }
}

/// Whatever a model asks for, a file or directory that a tool works on lies below
/// the project root, on every platform.
pub proof fn law_actions_stay_below_root(tool: ToolModel, args: JsonModel, ctx: ContextModel)
    ensures
        match planned(tool, args, ctx) {
            Ok(action) => match action.path() {
                Some(path) => is_below(ctx.root, path, ctx.windows),
                None => true,
            },
            Err(_) => true,
        },
{
    if let Ok(rel) = string_arg(args, "path"@) {
        law_stays_below_root(ctx.root, rel, ctx.windows);
    }
    law_stays_below_root(ctx.root, path_or_root(args), ctx.windows);
}

/// An action that can change the workspace comes of a mutating tool, so it has
/// passed the permission gate.
pub proof fn law_changes_are_gated(tool: ToolModel, args: JsonModel, ctx: ContextModel)
    ensures
        planned(tool, args, ctx) is Ok && planned(tool, args, ctx)->Ok_0.changes()
            ==> tool.mutating(),
{
}

/// The lines of a directory listing: a name each, with a slash behind a directory's.
pub open spec fn listing_of(entries: Seq<(Seq<char>, bool)>) -> Seq<char>
    decreases entries.len(),
{
    if entries.len() == 0 {
        Seq::empty()
    } else {
        let (name, is_dir) = entries.last();
        let line = if is_dir {
            name + "/"@
        } else {
            name
        };
        listing_of(entries.drop_last()) + line.push('\n')
    }
}

/// The models of directory entries: their names, and whether they are directories.
pub open spec fn entry_views(s: Seq<(String, bool)>) -> Seq<(Seq<char>, bool)> {
    Seq::new(s.len(), |i: int| (s[i].0@, s[i].1))
}

/// The output of `list_dir` for the entries of a directory.
pub fn list_dir_output(entries: &Vec<(String, bool)>) -> (r: String)
    ensures
        r@ == listing_of(entry_views(entries@)),
{
    let ghost all = entry_views(entries@);
    let mut out = String::new();
    let mut i: usize = 0;
    assert(all.take(0) =~= Seq::empty());
    while i < entries.len()
        invariant
            all == entry_views(entries@),
            i <= entries@.len(),
            out@ == listing_of(all.take(i as int)),
        decreases entries@.len() - i,
    {
        let ghost before = out@;
        assert(all.take(i + 1).drop_last() =~= all.take(i as int));
        assert(all.take(i + 1).last() == all[i as int]);
        out.append(entries[i].0.as_str());
        if entries[i].1 {
            out.append("/");
        }
        push_char(&mut out, '\n');
        assert(out@ =~= listing_of(all.take(i + 1)));
        i += 1;
    }
    assert(all.take(i as int) =~= all);
    out
}

/// The output of `write_file`: the number of bytes written, and where.
pub open spec fn written_of(content: Seq<char>, rel: Seq<char>) -> Seq<char> {
    "wrote "@ + decimal_of(encode_utf8(content).len()) + " bytes to "@ + rel
}

/// The output of `write_file`: the number of bytes written, and where.
pub fn write_file_output(content: &str, rel: &str) -> (r: String)
    ensures
        r@ == written_of(content@, rel@),
{
    let n: usize = content.as_bytes().len();
    cat4("wrote ", decimal(n as u128).as_str(), " bytes to ", rel)
}

/// How often `find` matches: the number of places without overlaps, or of all places
/// where those overlap in one.
pub open spec fn match_count(text: Seq<char>, find: Seq<char>) -> nat {
    if count_from(text, find, 0) > 1 {
        count_from(text, find, 0)
    } else {
        places_from(text, find, 0)
    }
}

/// The text with the only occurrence of `find` replaced.
pub open spec fn edited(
    text: Seq<char>,
    find: Seq<char>,
    replacement: Seq<char>,
    rel: Seq<char>,
) -> Result<Seq<char>, ErrorModel> {
    match find_in(text, find) {
        None => Err(ErrorModel::Tool("'old' not found in "@ + rel)),
        Some(k) => if find_from(text, find, k + 1) is Some {
            Err(
                ErrorModel::Tool(
                    "'old' matches "@ + decimal_of(match_count(text, find)) + " times in "@ + rel
                        + "; make it unique"@,
                ),
            )
        } else {
            Ok(text.take(k) + replacement + text.skip(k + find.len()))
        },
    }
}

/// Where a text stands once, it stands once however it is counted.
proof fn lemma_unique(text: Seq<char>, find: Seq<char>)
    ensures
        match find_in(text, find) {
            Some(k) => (find_from(text, find, k + 1) is None <==> match_count(text, find) == 1)
                && match_count(text, find) >= 1,
            None => true,
        },
{
    lemma_find_from(text, find, 0);
    if let Some(k) = find_in(text, find) {
        lemma_places_before(text, find, 0, k);
        lemma_find_from(text, find, k + 1);
        assert(places_from(text, find, k) == 1 + places_from(text, find, k + 1));
        lemma_places(text, find, k + 1);
        let next = k + (if find.len() == 0 {
            1
        } else {
            find.len() as int
        });
        assert(count_from(text, find, 0) == 1 + count_from(text, find, next));
        lemma_find_from(text, find, next);
        if find_from(text, find, k + 1) is None {
            assert(find_from(text, find, next) is None) by {
                if let Some(j) = find_from(text, find, next) {
                    assert(occurs_at(text, find, j));
                }
            }
        }
    }
}

/// There is a place exactly if the places count for something.
proof fn lemma_places(text: Seq<char>, find: Seq<char>, i: int)
    requires
        0 <= i,
    ensures
        places_from(text, find, i) > 0 <==> find_from(text, find, i) is Some,
    decreases text.len() - i + 1,
{
    lemma_find_from(text, find, i);
    if i <= text.len() {
        lemma_places(text, find, i + 1);
        lemma_find_from(text, find, i + 1);
        if let Some(j) = find_from(text, find, i) {
            assert(occurs_at(text, find, j));
        }
        if let Some(j) = find_from(text, find, i + 1) {
            assert(occurs_at(text, find, j));
        }
    }
}

/// Positions without a match do not count.
proof fn lemma_places_before(text: Seq<char>, find: Seq<char>, i: int, k: int)
    requires
        0 <= i <= k <= text.len(),
        forall|j: int| i <= j < k ==> !occurs_at(text, find, j),
    ensures
        places_from(text, find, i) == places_from(text, find, k),
    decreases k - i,
{
    if i < k {
        lemma_places_before(text, find, i + 1, k);
    }
}

/// The text with the only occurrence of `find` replaced. A text that does not
/// occur, or occurs more than once, is an error.
pub fn edit(text: &str, find: &str, replacement: &str, rel: &str) -> (r: Result<String, Error>)
    ensures
        outcome(r) == edited(text@, find@, replacement@, rel@),
{
    proof {
        lemma_unique(text@, find@);
    }
    let (front, rest) = split_at_first(text, find);
    let back = match rest {
        None => return Err(Error::Tool(cat2("'old' not found in ", rel))),
        Some(back) => back,
    };
    let mut count: u128 = count_matches(text, find);
    if count <= 1 {
        count = count_places(text, find);
    }
    if count == 1 {
        return Ok(cat3(front.as_str(), replacement, back.as_str()));
    }
    Err(
        Error::Tool(
            cat5(
                "'old' matches ",
                decimal(count).as_str(),
                " times in ",
                rel,
                "; make it unique",
            ),
        ),
    )
}

/// The output of `edit_file`.
pub open spec fn edit_told(rel: Seq<char>) -> Seq<char> {
    "edited "@ + rel
}

/// The output of `edit_file`.
pub fn edit_file_output(rel: &str) -> (r: String)
    ensures
        r@ == edit_told(rel@),
{
    cat2("edited ", rel)
}

/// `find` stands in `text` at position `k` and nowhere else.
pub open spec fn only_at(text: Seq<char>, find: Seq<char>, k: int) -> bool {
    occurs_at(text, find, k) && forall|j: int| occurs_at(text, find, j) ==> j == k
}

/// An edit goes through exactly if the text to replace stands at one position and at
/// no other. It then changes what stands there and nothing else.
pub proof fn law_edit_is_unique(
    text: Seq<char>,
    find: Seq<char>,
    replacement: Seq<char>,
    rel: Seq<char>,
)
    ensures
        edited(text, find, replacement, rel) is Ok <==> exists|k: int| only_at(text, find, k),
        forall|k: int|
            only_at(text, find, k) ==> edited(text, find, replacement, rel) == Ok::<
                Seq<char>,
                ErrorModel,
            >(text.take(k) + replacement + text.skip(k + find.len())),
{
    lemma_find_from(text, find, 0);
    if let Some(k) = find_in(text, find) {
        lemma_find_from(text, find, k + 1);
        if find_from(text, find, k + 1) is None {
            assert(only_at(text, find, k));
        }
    }
}

/// The shell of the platform and the flag before the command.
pub open spec fn shell_of(windows: bool) -> (Seq<char>, Seq<char>) {
    if windows {
        ("cmd"@, "/C"@)
    } else {
        ("/bin/sh"@, "-c"@)
    }
}

/// The shell of the platform and the flag before the command: `cmd.exe` on Windows,
/// `/bin/sh` elsewhere.
pub fn shell_for(windows: bool) -> (r: (&'static str, &'static str))
    ensures
        (r.0@, r.1@) == shell_of(windows),
{
    if windows {
        ("cmd", "/C")
    } else {
        ("/bin/sh", "-c")
    }
}

/// What a command printed and how it ended. A command that was ended by a signal
/// counts as ended with -1.
pub open spec fn shell_text_of(stdout: Seq<char>, stderr: Seq<char>, code: Option<i32>) -> Seq<
    char,
> {
    let printed = if stderr.len() == 0 {
        stdout
    } else {
        stdout + "\n[stderr]\n"@ + stderr
    };
    let status: int = match code {
        Some(n) => n as int,
        None => -1,
    };
    printed + "\n[exit "@ + signed_of(status) + "]"@
}

pub fn shell_text(stdout: &str, stderr: &str, code: Option<i32>) -> (r: String)
    ensures
        r@ == shell_text_of(stdout@, stderr@, code),
{
    let mut out = stdout.to_owned();
    if !stderr.is_empty() {
        out.append("\n[stderr]\n");
        out.append(stderr);
    }
    let status: i32 = match code {
        Some(n) => n,
        None => -1,
    };
    out.append("\n[exit ");
    out.append(signed(status).as_str());
    out.append("]");
    out
}

/// The output of `run_shell`, from the bytes that a command printed.
pub fn run_shell_output(stdout: &Vec<u8>, stderr: &Vec<u8>, code: Option<i32>) -> (r: String)
    ensures
        r@ == shell_text_of(lossy_text(stdout@), lossy_text(stderr@), code),
{
    shell_text(lossy(stdout).as_str(), lossy(stderr).as_str(), code)
}

/// The error for a command that could not be started.
pub open spec fn spawn_error(message: Seq<char>) -> ErrorModel {
    ErrorModel::Tool("spawn failed: "@ + message)
}

/// The error for a command that could not be started.
pub fn spawn_failed(message: &str) -> (r: Error)
    ensures
        r@ == spawn_error(message@),
{
    Error::Tool(cat2("spawn failed: ", message))
}

} // verus!
